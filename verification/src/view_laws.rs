//! The contents that contracts speak of are those of the values themselves.

use crate::actions::{FlowDecision, FlowView, RetryReference, ReferenceView, RoutedDecision};
use crate::criteria::CriterionEvaluation;
use crate::contexts::EvalContext;
use crate::error::RuntimeError;
use crate::http_request::PreparedRequest;
use crate::http_url::UrlBuildResult;
use crate::input_validation::InputIssue;
use crate::json::{Json, JsonNumber, JsonView, NumberView};
use crate::outcome::{Response, StepExecution};
use crate::redirects::RequestHop;
use crate::routing::ResolvedOperation;
use crate::text::texts;
use crate::text_map::TextMap;
use crate::trace::{
    json_map_view, text_map_view, ExecutionEvent, TraceDecision, TraceRequest, TraceResponse,
    TraceStepRecord,
};
use crate::vars::{outputs_of, VarStore};
use vstd::prelude::*;

verus! {

/// A map of texts or of values holds under each name what it was given.
pub proof fn maps_hold_their_entries(a: TextMap<String>, b: TextMap<Json>, name: Seq<char>)
    ensures
        text_map_view(a).contains_key(name) == a@.contains_key(name),
        a@.contains_key(name) ==> text_map_view(a)[name] == a@[name]@,
        json_map_view(b).contains_key(name) == b@.contains_key(name),
        b@.contains_key(name) ==> json_map_view(b)[name] == b@[name]@,
{
}

/// A JSON value is its content: of a list the contents of its items in order,
/// of an object those of its members under their names.
pub proof fn values_are_their_contents(v: Json, i: int)
    ensures
        v is Null == v@ is Null,
        v matches Json::Bool(b) ==> v@ == JsonView::Bool(b),
        v matches Json::Text(s) ==> v@ == JsonView::Text(s@),
        v matches Json::Number(JsonNumber::PosInt(n)) ==> v@ == JsonView::Number(
            NumberView::PosInt(n),
        ),
        v matches Json::Number(JsonNumber::NegInt(n)) ==> v@ == JsonView::Number(
            NumberView::NegInt(n),
        ),
        v matches Json::Array(items) ==> (v@ matches JsonView::Array(list) && list.len()
            == items@.len() && (0 <= i < items@.len() ==> list[i] == items@[i]@)),
        v matches Json::Object(members) ==> (v@ matches JsonView::Object(list) && list.len()
            == members@.len() && (0 <= i < members@.len() ==> list[i].0 == members@[i].0@
            && list[i].1 == members@[i].1@)),
{
    crate::json::view_by_variant(v);
}

/// A prepared request is its method, its URL, its headers and its body.
pub proof fn requests_are_their_contents(r: PreparedRequest, name: Seq<char>)
    ensures
        r@.method == r.method@,
        r@.url_result == r.url_result@,
        r@.headers.contains_key(name) == r.headers@.contains_key(name),
        r.headers@.contains_key(name) ==> r@.headers[name] == r.headers@[name]@,
        r.body matches Some(b) ==> r@.body == Some(b@),
        r.body is None ==> r@.body is None,
        r.body_json matches Some(b) ==> r@.body_json == Some(b@),
        r.body_json is None ==> r@.body_json is None,
        r@.trace_request == r.trace_request@,
        r@.warnings.len() == r.warnings@.len(),
        forall|i: int|
            0 <= i < r.warnings@.len() ==> #[trigger] r@.warnings[i] == r.warnings@[i]@,
{
}

/// A URL is its text, with the parameters that went into it.
pub proof fn urls_are_their_contents(u: UrlBuildResult, name: Seq<char>)
    ensures
        u@.url == u.url@,
        u@.path_params.contains_key(name) == u.path_params@.contains_key(name),
        u.path_params@.contains_key(name) ==> u@.path_params[name] == u.path_params@[name]@,
        u@.query_params.contains_key(name) == u.query_params@.contains_key(name),
        u.query_params@.contains_key(name) ==> u@.query_params[name] == u.query_params@[name]@,
{
}

/// A criterion that was evaluated is what it was, and whether it was met.
pub proof fn evaluations_are_their_contents(c: CriterionEvaluation)
    ensures
        c@.matched == c.matched,
        c@.condition_result == c.condition_result,
        c@.type_ == c.type_@,
        c@.condition == c.condition@,
        c@.context_expr == c.context_expr@,
        c@.context_value == c.context_value@,
        c@.error is Some == c.error is Some,
        c.error matches Some(e) ==> c@.error == Some(e@),
{
}

/// A step that was run is its result, its outputs and what was traced.
pub proof fn executions_are_their_contents(e: StepExecution, name: Seq<char>)
    ensures
        e@.success == e.result.success,
        e.result.response matches Some(r) ==> e@.response == Some(r@),
        e.result.response is None ==> e@.response is None,
        e.result.err matches Some(t) ==> e@.err == Some(t@),
        e.result.err is None ==> e@.err is None,
        e@.err_kind == e.result.err_kind,
        e@.outputs.contains_key(name) == e.outputs@.contains_key(name),
        e.outputs@.contains_key(name) ==> e@.outputs[name] == e.outputs@[name]@,
        e.trace.request matches Some(r) ==> e@.trace_request == Some(r@),
        e.trace.response matches Some(r) ==> e@.trace_response == Some(r@),
        e@.criteria.len() == e.trace.criteria@.len(),
        e@.warnings.len() == e.trace.warnings@.len(),
{
}

/// A response is its status, its headers and its body.
pub proof fn responses_are_their_contents(r: Response, name: Seq<char>)
    ensures
        r@.status_code == r.status_code,
        r@.body == r.body@,
        r@.headers.contains_key(name) == r.headers@.contains_key(name),
        r.headers@.contains_key(name) ==> r@.headers[name] == r.headers@[name]@,
        r.body_json matches Some(j) ==> r@.body_json == Some(j@),
        r.body_json is None ==> r@.body_json is None,
        r@.content_type == r.content_type@,
        r@.redirects.len() == r.redirects@.len(),
{
}

/// A decision is where it leads.
pub proof fn decisions_are_their_contents(d: RoutedDecision)
    ensures
        d@.trace == d.trace@,
        d.flow matches FlowDecision::Next(i) ==> d@.flow == FlowView::Next(i),
        d.flow is Done ==> d@.flow is Done,
        d.flow matches FlowDecision::Error(e) ==> d@.flow == FlowView::Error(e@),
        d.flow matches FlowDecision::GotoWorkflow { workflow_id, inputs } ==> (
        d@.flow matches FlowView::GotoWorkflow { workflow_id: id, inputs: given } && id
            == workflow_id@ && (inputs matches Some(m) ==> given == Some(json_map_view(m))) && (
        inputs is None ==> given is None)),
        d.flow matches FlowDecision::Retry {
            step_idx,
            retry_site,
            retry_limit,
            delay_nanos,
            reference,
        } ==> (d@.flow matches FlowView::Retry {
            step_idx: i,
            retry_site: s,
            retry_limit: l,
            delay_nanos: n,
            reference: r,
        } && i == step_idx && s == retry_site && l == retry_limit && n == delay_nanos && (reference
            is Some == r is Some) && (reference matches Some(RetryReference::Step { step_id }) ==> r
            == Some(ReferenceView::Step { step_id: step_id@ }))),
{
}

/// An error is its kind and its words.
pub proof fn errors_are_their_contents(e: RuntimeError, i: InputIssue)
    ensures
        e@.kind == e.kind,
        e@.message == e.message@,
        i@.severity == i.severity,
        i@.field == i.field@,
        i@.message == i.message@,
{
}

/// A request on its way is its method, its URL, its headers in order and its
/// body.
pub proof fn hops_are_their_contents(h: RequestHop, i: int)
    ensures
        h@.method == h.method@,
        h@.url == crate::web_url::url_text(h.url),
        h@.headers.len() == h.headers@.len(),
        0 <= i < h.headers@.len() ==> h@.headers[i] == (h.headers@[i].0@, h.headers@[i].1@),
        h.body matches Some(b) ==> h@.body == Some(b@),
        h.body is None ==> h@.body is None,
        h@.hops.len() == h.hops@.len(),
        0 <= i < h.hops@.len() ==> h@.hops[i].status_code == h.hops@[i].status_code && h@.hops[i].from
            == h.hops@[i].from@ && h@.hops[i].to == h.hops@[i].to@,
{
}

/// An operation is its method, its path and the base that it belongs to.
pub proof fn operations_are_their_contents(o: ResolvedOperation)
    ensures
        o@.method == o.method@,
        o@.path == o.path@,
        o.base matches Some(b) ==> o@.base == Some(b@),
        o.base is None ==> o@.base is None,
{
}

/// What is known is the inputs, and the outputs of every step.
pub proof fn variables_are_their_contents(v: VarStore, step: Seq<char>, name: Seq<char>)
    ensures
        v@.inputs.contains_key(name) == v.inputs@.contains_key(name),
        v.inputs@.contains_key(name) ==> v@.inputs[name] == v.inputs@[name]@,
        v.steps@.contains_key(step) ==> outputs_of(v@, step).contains_key(name)
            == v.steps@[step]@.contains_key(name),
        v.steps@.contains_key(step) && v.steps@[step]@.contains_key(name) ==> outputs_of(
            v@,
            step,
        )[name] == v.steps@[step]@[name]@,
        !v.steps@.contains_key(step) ==> outputs_of(v@, step) == Map::<Seq<char>, JsonView>::empty(),
{
}

/// What an expression sees is what the context holds.
pub proof fn contexts_are_their_contents(c: EvalContext, name: Seq<char>)
    ensures
        c@.status_code == c.status_code,
        c@.inputs == json_map_view(c.inputs),
        c@.response_headers == text_map_view(c.response_headers),
        c@.request_headers == text_map_view(c.request_headers),
        c@.request_query == text_map_view(c.request_query),
        c@.request_path == text_map_view(c.request_path),
        c.response_body matches Some(b) ==> c@.response_body == Some(b@),
        c.request_body matches Some(b) ==> c@.request_body == Some(b@),
        c.method matches Some(m) ==> c@.method == Some(m@),
        c.url matches Some(u) ==> c@.url == Some(u@),
        c.steps@.contains_key(name) ==> c@.steps.contains_key(name) && c@.steps[name]
            == json_map_view(c.steps@[name]),
{
}

/// A trace record is what it holds.
pub proof fn records_are_their_contents(r: TraceStepRecord, q: TraceRequest, t: TraceResponse, d: TraceDecision)
    ensures
        r@.seq == r.seq,
        r@.attempt == r.attempt,
        r@.workflow_id == r.workflow_id@,
        r@.step_id == r.step_id@,
        r@.kind == r.kind@,
        r@.duration_ms == r.duration_ms,
        r@.decision == r.decision@,
        r@.outputs == json_map_view(r.outputs),
        r.request matches Some(x) ==> r@.request == Some(x@),
        r.response matches Some(x) ==> r@.response == Some(x@),
        r.error matches Some(x) ==> r@.error == Some(x@),
        r.error is None ==> r@.error is None,
        q@.method == q.method@,
        q@.url == q.url@,
        q@.headers == text_map_view(q.headers),
        q.body matches Some(b) ==> q@.body == Some(b@),
        t@.status_code == t.status_code,
        t@.headers == text_map_view(t.headers),
        t@.body_bytes == t.body_bytes,
        t.body matches Some(b) ==> t@.body == Some(b@),
        t.body_preview matches Some(b) ==> t@.body_preview == Some(b@),
        d@.path == d.path,
        d@.action_type == d.action_type@,
        d@.target_step_id == d.target_step_id@,
        d@.target_workflow_id == d.target_workflow_id@,
        d@.retry_limit == d.retry_limit,
        d@.retry_after_seconds == d.retry_after_seconds,
{
}

/// An event is what it tells.
pub proof fn events_are_their_contents(e: ExecutionEvent)
    ensures
        e@.seq == e.seq,
        e@.kind == e.kind,
        e@.workflow_id == e.workflow_id@,
        e@.step_id == e.step_id@,
        e@.status_code == e.status_code,
        e@.outputs == json_map_view(e.outputs),
        e.err matches Some(t) ==> e@.err == Some(t@),
        e.err is None ==> e@.err is None,
        e@.duration_ns == e.duration_ns,
{
}

/// A list is the list of the contents of its items, in order.
pub proof fn lists_are_their_contents(
    a: Seq<String>,
    b: Seq<(String, String)>,
    c: Seq<crate::payload::ExpressionWarning>,
    d: Seq<InputIssue>,
    e: Seq<CriterionEvaluation>,
    f: Seq<crate::operations::OperationEntry>,
    g: Seq<crate::replay::ReplayRecord>,
    i: int,
)
    ensures
        texts(a).len() == a.len(),
        0 <= i < a.len() ==> texts(a)[i] == a[i]@,
        crate::web_url::pair_views(b).len() == b.len(),
        0 <= i < b.len() ==> crate::web_url::pair_views(b)[i] == (b[i].0@, b[i].1@),
        crate::payload::warning_views(c).len() == c.len(),
        0 <= i < c.len() ==> crate::payload::warning_views(c)[i].expression == c[i].expression@
            && crate::payload::warning_views(c)[i].message == c[i].message@,
        crate::input_validation::issue_views(d).len() == d.len(),
        0 <= i < d.len() ==> crate::input_validation::issue_views(d)[i] == d[i]@,
        crate::step_response::evaluation_views(e).len() == e.len(),
        0 <= i < e.len() ==> crate::step_response::evaluation_views(e)[i] == e[i]@,
        crate::operations::entry_views(f).len() == f.len(),
        0 <= i < f.len() ==> crate::operations::entry_views(f)[i].method == f[i].method@
            && crate::operations::entry_views(f)[i].path == f[i].path@
            && crate::operations::entry_views(f)[i].origin == f[i].origin@
            && crate::operations::entry_views(f)[i].server == f[i].server@,
        crate::replay::record_views(g).len() == g.len(),
        0 <= i < g.len() ==> crate::replay::record_views(g)[i].request == g[i].request@
            && crate::replay::record_views(g)[i].step_id == g[i].step_id@
            && crate::replay::record_views(g)[i].workflow_id == g[i].workflow_id@,
{
}

/// Optional contents are those of the value where there is one.
pub proof fn optional_values_are_their_contents(
    a: Option<String>,
    b: Option<Json>,
    c: Option<Vec<u8>>,
    r: Result<Json, String>,
)
    ensures
        crate::exchange::opt_view(a) is Some == a is Some,
        a matches Some(s) ==> crate::exchange::opt_view(a) == Some(s@),
        crate::exchange::opt_json(b) is Some == b is Some,
        b matches Some(v) ==> crate::exchange::opt_json(b) == Some(v@),
        crate::replay::opt_bytes(c) is Some == c is Some,
        c matches Some(v) ==> crate::replay::opt_bytes(c) == Some(v@),
        r matches Ok(v) ==> crate::xpath::value_view(r) == Ok::<JsonView, Seq<char>>(v@),
        r matches Err(e) ==> crate::xpath::value_view(r) == Err::<JsonView, Seq<char>>(e@),
{
}

/// A selection is its truth, its number of matches and its value.
pub proof fn selections_are_their_contents(s: crate::xpath::XPathSelection)
    ensures
        s@.truthy == s.truthy,
        s@.match_count == s.match_count,
        s.value matches Ok(v) ==> s@.value == Ok::<JsonView, Seq<char>>(v@),
        s.value is Err ==> s@.value is Err,
{
}

} // verus!
