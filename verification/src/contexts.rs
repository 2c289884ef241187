//! What expressions see: the inputs of the workflow, the outputs of its
//! steps, and the request and the response at hand.

use crate::exchange::{copy_json, opt_json, opt_view};
use crate::http_request::{PreparedRequest, PreparedView};
use crate::json::{Json, JsonView};
use crate::model::{source_type_name, SourceDescription};
use crate::outcome::Response;
use crate::text::copy_text;
use crate::text_map::TextMap;
use crate::trace::{copy_text_map, json_map_view, text_map_view};
use crate::vars::{
    body_value, response_body_value, state_map_view, step_map_view, with_outputs, StateView,
    VarStore, VarsView, WorkflowState,
};
use vstd::prelude::*;
use vstd::string::*;

verus! {

/// What expressions see of a source description.
#[derive(Debug, PartialEq)]
pub struct SourceContext {
    pub url: String,
    pub type_: String,
}

/// The content of a source description, as expressions see it.
#[verifier::ext_equal]
pub struct SourceView {
    pub url: Seq<char>,
    pub type_: Seq<char>,
}

impl View for SourceContext {
    type V = SourceView;

    open spec fn view(&self) -> SourceView {
        SourceView { url: self.url@, type_: self.type_@ }
    }
}

/// What expressions see.
#[derive(Debug, PartialEq)]
pub struct EvalContext {
    pub inputs: TextMap<Json>,
    pub steps: TextMap<TextMap<Json>>,
    pub workflows: TextMap<WorkflowState>,
    /// The outputs of the workflow that were read so far.
    pub outputs: TextMap<Json>,
    pub status_code: Option<i64>,
    pub response_headers: TextMap<String>,
    pub response_body: Option<Json>,
    pub method: Option<String>,
    pub url: Option<String>,
    pub request_headers: TextMap<String>,
    pub request_query: TextMap<String>,
    pub request_path: TextMap<String>,
    pub request_body: Option<Json>,
    pub self_uri: Option<String>,
    pub source_descriptions: TextMap<SourceContext>,
}

/// The content of what expressions see.
#[verifier::ext_equal]
pub struct ContextView {
    pub inputs: Map<Seq<char>, JsonView>,
    pub steps: Map<Seq<char>, Map<Seq<char>, JsonView>>,
    pub workflows: Map<Seq<char>, StateView>,
    pub outputs: Map<Seq<char>, JsonView>,
    pub status_code: Option<i64>,
    pub response_headers: Map<Seq<char>, Seq<char>>,
    pub response_body: Option<JsonView>,
    pub method: Option<Seq<char>>,
    pub url: Option<Seq<char>>,
    pub request_headers: Map<Seq<char>, Seq<char>>,
    pub request_query: Map<Seq<char>, Seq<char>>,
    pub request_path: Map<Seq<char>, Seq<char>>,
    pub request_body: Option<JsonView>,
    pub self_uri: Option<Seq<char>>,
    pub source_descriptions: Map<Seq<char>, SourceView>,
}

/// The content of source descriptions, as expressions see them.
pub open spec fn source_map_view(m: TextMap<SourceContext>) -> Map<Seq<char>, SourceView> {
    m@.map_values(|s: SourceContext| s@)
}

impl View for EvalContext {
    type V = ContextView;

    open spec fn view(&self) -> ContextView {
        ContextView {
            inputs: json_map_view(self.inputs),
            steps: step_map_view(self.steps),
            workflows: state_map_view(self.workflows),
            outputs: json_map_view(self.outputs),
            status_code: self.status_code,
            response_headers: text_map_view(self.response_headers),
            response_body: opt_json(self.response_body),
            method: opt_view(self.method),
            url: opt_view(self.url),
            request_headers: text_map_view(self.request_headers),
            request_query: text_map_view(self.request_query),
            request_path: text_map_view(self.request_path),
            request_body: opt_json(self.request_body),
            self_uri: opt_view(self.self_uri),
            source_descriptions: source_map_view(self.source_descriptions),
        }
    }
}

// ---------------------------------------------------------------------
// Before a request
// ---------------------------------------------------------------------

/// What expressions see of what a workflow knows and of a response.
pub open spec fn vars_context(v: VarsView, response: Option<Response>) -> ContextView {
    ContextView {
        inputs: v.inputs,
        steps: v.steps,
        workflows: v.workflows,
        outputs: Map::empty(),
        status_code: match response {
            Some(r) => Some(r.status_code),
            None => None,
        },
        response_headers: match response {
            Some(r) => text_map_view(r.headers),
            None => Map::empty(),
        },
        response_body: match response {
            Some(r) => body_value(r),
            None => None,
        },
        method: None,
        url: None,
        request_headers: Map::empty(),
        request_query: Map::empty(),
        request_path: Map::empty(),
        request_body: None,
        self_uri: None,
        source_descriptions: Map::empty(),
    }
}

/// A response, where there is one.
pub open spec fn opt_response(response: Option<&Response>) -> Option<Response> {
    match response {
        Some(r) => Some(*r),
        None => None,
    }
}

fn no_texts() -> (r: TextMap<String>)
    ensures
        text_map_view(r) == Map::<Seq<char>, Seq<char>>::empty(),
{
    let m: TextMap<String> = TextMap::new();
    assert(text_map_view(m) =~= Map::<Seq<char>, Seq<char>>::empty());
    m
}

impl VarStore {
    /// What expressions see of what is known and of a response.
    pub fn eval_context(&self, response: Option<&Response>) -> (r: EvalContext)
        ensures
            r@ == vars_context(self@, opt_response(response)),
    {
        let known = self.copy();
        let outputs: TextMap<Json> = TextMap::new();
        assert(json_map_view(outputs) =~= Map::<Seq<char>, JsonView>::empty());
        let sources: TextMap<SourceContext> = TextMap::new();
        assert(source_map_view(sources) =~= Map::<Seq<char>, SourceView>::empty());
        EvalContext {
            inputs: known.inputs,
            steps: known.steps,
            workflows: known.workflow_states,
            outputs,
            status_code: match response {
                Some(r) => Some(r.status_code),
                None => None,
            },
            response_headers: match response {
                Some(r) => copy_text_map(&r.headers),
                None => no_texts(),
            },
            response_body: match response {
                Some(r) => response_body_value(r),
                None => None,
            },
            method: None,
            url: None,
            request_headers: no_texts(),
            request_query: no_texts(),
            request_path: no_texts(),
            request_body: None,
            self_uri: None,
            source_descriptions: sources,
        }
    }
}

/// What expressions see of the first `n` source descriptions. Of two that have
/// one name the last one counts.
pub open spec fn sources_seen(sources: Seq<SourceDescription>, n: nat) -> Map<Seq<char>, SourceView>
    decreases n,
{
    if n == 0 {
        Map::empty()
    } else {
        let s = sources[n - 1];
        sources_seen(sources, (n - 1) as nat).insert(
            s.name@,
            SourceView { url: s.url@, type_: source_type_name(s.type_) },
        )
    }
}

fn see_sources(sources: &Vec<SourceDescription>) -> (r: TextMap<SourceContext>)
    ensures
        source_map_view(r) == sources_seen(sources@, sources@.len()),
{
    let mut seen: TextMap<SourceContext> = TextMap::new();
    assert(source_map_view(seen) =~= Map::<Seq<char>, SourceView>::empty());
    let mut i: usize = 0;
    while i < sources.len()
        invariant
            i <= sources@.len(),
            source_map_view(seen) == sources_seen(sources@, i as nat),
        decreases sources@.len() - i,
    {
        let s = &sources[i];
        let context = SourceContext { url: s.url.clone(), type_: s.type_.name().to_owned() };
        let ghost before = source_map_view(seen);
        let ghost c = context@;
        seen.insert(s.name.clone(), context);
        assert(source_map_view(seen) =~= before.insert(s.name@, c));
        i = i + 1;
    }
    seen
}

/// What expressions see in a document: also its own URI and its source
/// descriptions.
pub open spec fn document_context(
    v: VarsView,
    response: Option<Response>,
    self_uri: Option<Seq<char>>,
    sources: Seq<SourceDescription>,
) -> ContextView {
    ContextView {
        self_uri,
        source_descriptions: sources_seen(sources, sources.len()),
        ..vars_context(v, response)
    }
}

/// What expressions see before a request is built, and after a workflow.
pub fn make_eval_context(
    vars: &VarStore,
    response: Option<&Response>,
    self_uri: &Option<String>,
    sources: &Vec<SourceDescription>,
) -> (r: EvalContext)
    ensures
        r@ == document_context(vars@, opt_response(response), opt_view(*self_uri), sources@),
{
    let mut context = vars.eval_context(response);
    context.self_uri = copy_text(self_uri);
    context.source_descriptions = see_sources(sources);
    context
}

// ---------------------------------------------------------------------
// After a request
// ---------------------------------------------------------------------

/// What expressions see once a request is built: also what was sent.
pub open spec fn request_context(c: ContextView, prep: PreparedView) -> ContextView {
    ContextView {
        method: Some(prep.method),
        url: Some(prep.url_result.url),
        request_headers: prep.headers,
        request_query: prep.url_result.query_params,
        request_path: prep.url_result.path_params,
        request_body: prep.body_json,
        ..c
    }
}

/// What expressions see once a request is built.
pub fn make_post_request_eval_context(
    vars: &VarStore,
    response: Option<&Response>,
    self_uri: &Option<String>,
    sources: &Vec<SourceDescription>,
    prep: &PreparedRequest,
) -> (r: EvalContext)
    ensures
        r@ == request_context(
            document_context(vars@, opt_response(response), opt_view(*self_uri), sources@),
            prep@,
        ),
{
    let mut context = make_eval_context(vars, response, self_uri, sources);
    context.method = Some(prep.method.clone());
    context.url = Some(prep.url_result.url.clone());
    context.request_headers = copy_text_map(&prep.headers);
    context.request_query = copy_text_map(&prep.url_result.query_params);
    context.request_path = copy_text_map(&prep.url_result.path_params);
    context.request_body = copy_json(&prep.body_json);
    context
}

// ---------------------------------------------------------------------
// At a checkpoint
// ---------------------------------------------------------------------

/// What expressions see at a checkpoint: the outputs that the step has so far
/// are seen with those of the steps before it.
pub fn checkpoint_context(
    vars: VarStore,
    response: Option<&Response>,
    self_uri: &Option<String>,
    sources: &Vec<SourceDescription>,
    step_id: &str,
    current_outputs: &TextMap<Json>,
) -> (r: EvalContext)
    ensures
        r@ == document_context(
            with_outputs(vars@, step_id@, *current_outputs, current_outputs.keys().len()),
            opt_response(response),
            opt_view(*self_uri),
            sources@,
        ),
{
    let mut vars = vars;
    vars.set_step_outputs(step_id, current_outputs);
    make_eval_context(&vars, response, self_uri, sources)
}

} // verus!
