//! What a debugger sees at a checkpoint.

use crate::actions::{branch_label, ActionBranch};
use crate::criteria::{CriterionEvaluation, CriterionView};
use crate::exchange::{body_preview, preview};
use crate::json::{member_views, view_by_variant, Json, JsonNumber, JsonView, NumberView};
use crate::model::OnAction;
use crate::outcome::{lossy, lossy_text, Response};
use crate::text_map::TextMap;
use crate::trace::{content_type_text, json_map_view, TraceRequest};
use crate::vars::{step_map_view, with_outputs, VarStore, VarsView};
use vstd::prelude::*;
use vstd::string::*;

verus! {

/// The value of one watched expression.
#[derive(Debug, PartialEq)]
pub struct WatchEvaluation {
    pub expression: String,
    pub value: Json,
}

/// Names and values, by content.
pub type LocalsView = Map<Seq<char>, JsonView>;

/// An integer as JSON.
pub open spec fn number(n: int) -> JsonView {
    if n < 0 {
        JsonView::Number(NumberView::NegInt(n as i64))
    } else {
        JsonView::Number(NumberView::PosInt(n as u64))
    }
}

fn unsigned(n: usize) -> (r: Json)
    ensures
        r@ == number(n as int),
{
    broadcast use view_by_variant;

    Json::Number(JsonNumber::PosInt(n as u64))
}

fn signed(n: i64) -> (r: Json)
    ensures
        r@ == number(n as int),
{
    broadcast use view_by_variant;

    if n < 0 {
        Json::Number(JsonNumber::NegInt(n))
    } else {
        Json::Number(JsonNumber::PosInt(n as u64))
    }
}

fn set(locals: &mut TextMap<Json>, name: &str, value: Json)
    ensures
        json_map_view(*final(locals)) == json_map_view(*old(locals)).insert(name@, value@),
{
    let ghost before = json_map_view(*locals);
    let ghost v = value@;
    locals.insert(name.to_owned(), value);
    assert(json_map_view(*locals) =~= before.insert(name@, v));
}

fn set_text(locals: &mut TextMap<Json>, name: &str, value: &str)
    ensures
        json_map_view(*final(locals)) == json_map_view(*old(locals)).insert(
            name@,
            JsonView::Text(value@),
        ),
{
    broadcast use view_by_variant;

    set(locals, name, Json::Text(value.to_owned()));
}

fn set_bool(locals: &mut TextMap<Json>, name: &str, value: bool)
    ensures
        json_map_view(*final(locals)) == json_map_view(*old(locals)).insert(
            name@,
            JsonView::Bool(value),
        ),
{
    broadcast use view_by_variant;

    set(locals, name, Json::Bool(value));
}

/// Texts by name as a JSON object, names in order.
pub open spec fn object_of(m: TextMap<String>) -> JsonView {
    JsonView::Object(
        Seq::new(m.keys().len(), |i: int| (m.keys()[i], JsonView::Text(m.values()[i]@))),
    )
}

fn text_object(m: &TextMap<String>) -> (r: Json)
    ensures
        r@ == object_of(*m),
{
    broadcast use view_by_variant;

    let count = m.len();
    let mut members: Vec<(String, Json)> = Vec::new();
    let mut i: usize = 0;
    while i < count
        invariant
            i <= count,
            count == m.keys().len(),
            m.wf(),
            members@.len() == i,
            forall|j: int|
                0 <= j < i ==> (#[trigger] members@[j]).0@ == m.keys()[j] && members@[j].1@
                    == JsonView::Text(m.values()[j]@),
        decreases count - i,
    {
        let value = Json::Text(m.value_at(i).clone());
        proof {
            view_by_variant(value);
        }
        members.push((m.key_at(i).clone(), value));
        i = i + 1;
    }
    assert(member_views(members@) =~= Seq::new(
        m.keys().len(),
        |i: int| (m.keys()[i], JsonView::Text(m.values()[i]@)),
    ));
    Json::Object(members)
}

// ---------------------------------------------------------------------
// Parts
// ---------------------------------------------------------------------

/// What is seen of a criterion.
pub open spec fn with_criterion(m: LocalsView, c: CriterionView) -> LocalsView {
    let a = m.insert("criterionCondition"@, JsonView::Text(c.condition)).insert(
        "criterionConditionResult"@,
        JsonView::Bool(c.condition_result),
    ).insert("criterionMatched"@, JsonView::Bool(c.matched));
    let b = if c.context_expr.len() > 0 {
        a.insert("criterionContext"@, JsonView::Text(c.context_expr))
    } else {
        a
    };
    let d = if c.type_.len() > 0 {
        b.insert("criterionType"@, JsonView::Text(c.type_))
    } else {
        b
    };
    let e = match c.type_version {
        Some(v) => d.insert("criterionTypeVersion"@, JsonView::Text(v)),
        None => d,
    };
    let f = e.insert("criterionContextValue"@, c.context_value);
    match c.error {
        Some(x) => f.insert("criterionError"@, JsonView::Text(x)),
        None => f,
    }
}

/// Shows a criterion.
pub fn insert_criterion_locals(locals: &mut TextMap<Json>, evaluation: &CriterionEvaluation)
    ensures
        json_map_view(*final(locals)) == with_criterion(json_map_view(*old(locals)), evaluation@),
{
    set_text(locals, "criterionCondition", evaluation.condition.as_str());
    set_bool(locals, "criterionConditionResult", evaluation.condition_result);
    set_bool(locals, "criterionMatched", evaluation.matched);
    if !evaluation.context_expr.as_str().is_empty() {
        set_text(locals, "criterionContext", evaluation.context_expr.as_str());
    }
    if !evaluation.type_.as_str().is_empty() {
        set_text(locals, "criterionType", evaluation.type_.as_str());
    }
    match &evaluation.type_version {
        Some(v) => {
            set_text(locals, "criterionTypeVersion", v.as_str());
        },
        None => {},
    }
    set(locals, "criterionContextValue", evaluation.context_value.copy());
    match &evaluation.error {
        Some(e) => {
            set_text(locals, "criterionError", e.as_str());
        },
        None => {},
    }
}

/// What is seen of the place of an action.
pub open spec fn with_branch(m: LocalsView, branch: ActionBranch, index: nat) -> LocalsView {
    m.insert("actionBranch"@, JsonView::Text(branch_label(branch))).insert(
        "actionIndex"@,
        number(index as int),
    )
}

/// Shows the place of an action.
pub fn insert_action_branch_locals(
    locals: &mut TextMap<Json>,
    branch: ActionBranch,
    action_index: usize,
)
    ensures
        json_map_view(*final(locals)) == with_branch(
            json_map_view(*old(locals)),
            branch,
            action_index as nat,
        ),
{
    set_text(locals, "actionBranch", branch.label());
    set(locals, "actionIndex", unsigned(action_index));
}

/// What is seen of a retry.
pub open spec fn with_retry(
    m: LocalsView,
    stage: Seq<char>,
    count: u64,
    limit: u64,
    retry_after: JsonView,
) -> LocalsView {
    m.insert("actionType"@, JsonView::Text("retry"@)).insert(
        "retryStage"@,
        JsonView::Text(stage),
    ).insert("retryCountCurrent"@, number(count as int)).insert(
        "retryCountNext"@,
        number(
            if count == u64::MAX {
                u64::MAX as int
            } else {
                count + 1
            },
        ),
    ).insert("retryLimitResolved"@, number(limit as int)).insert(
        "retryAfterSeconds"@,
        retry_after,
    )
}

fn unsigned_word(n: u64) -> (r: Json)
    ensures
        r@ == number(n as int),
{
    broadcast use view_by_variant;

    Json::Number(JsonNumber::PosInt(n))
}

/// Shows a retry; `retry_after` is its delay as the action declares it.
pub fn insert_retry_locals(
    locals: &mut TextMap<Json>,
    stage: &str,
    current_retry_count: u64,
    retry_limit_resolved: u64,
    retry_after: Json,
)
    ensures
        json_map_view(*final(locals)) == with_retry(
            json_map_view(*old(locals)),
            stage@,
            current_retry_count,
            retry_limit_resolved,
            retry_after@,
        ),
{
    set_text(locals, "actionType", "retry");
    set_text(locals, "retryStage", stage);
    set(locals, "retryCountCurrent", unsigned_word(current_retry_count));
    let next: u64 = if current_retry_count == u64::MAX {
        current_retry_count
    } else {
        current_retry_count + 1
    };
    set(locals, "retryCountNext", unsigned_word(next));
    set(locals, "retryLimitResolved", unsigned_word(retry_limit_resolved));
    set(locals, "retryAfterSeconds", retry_after);
}

/// What is seen of a request.
pub open spec fn with_request(m: LocalsView, r: TraceRequest) -> LocalsView {
    let a = m.insert("requestMethod"@, JsonView::Text(r.method@)).insert(
        "requestUrl"@,
        JsonView::Text(r.url@),
    ).insert("requestHeaders"@, object_of(r.headers));
    match r.body {
        Some(b) => a.insert("requestBody"@, b@),
        None => a,
    }
}

/// Shows a request.
pub fn insert_request_locals(locals: &mut TextMap<Json>, request: &TraceRequest)
    ensures
        json_map_view(*final(locals)) == with_request(json_map_view(*old(locals)), *request),
{
    set_text(locals, "requestMethod", request.method.as_str());
    set_text(locals, "requestUrl", request.url.as_str());
    set(locals, "requestHeaders", text_object(&request.headers));
    match &request.body {
        Some(b) => {
            set(locals, "requestBody", b.copy());
        },
        None => {},
    }
}

/// What is seen of a response.
pub open spec fn with_response(m: LocalsView, r: Response) -> LocalsView {
    let a = m.insert("responseStatusCode"@, number(r.status_code as int)).insert(
        "responseContentType"@,
        JsonView::Text(content_type_text(r.content_type@)),
    ).insert("responseHeaders"@, object_of(r.headers));
    if r.body@.len() > 0 {
        a.insert("responseBodyRaw"@, JsonView::Text(lossy(r.body@))).insert(
            "responseBodyPreview"@,
            JsonView::Text(preview(r.body@)),
        )
    } else {
        a
    }
}

/// Shows a response.
pub fn insert_response_locals(locals: &mut TextMap<Json>, response: &Response)
    ensures
        json_map_view(*final(locals)) == with_response(json_map_view(*old(locals)), *response),
{
    set(locals, "responseStatusCode", signed(response.status_code));
    let content_type = response.content_type.text();
    set_text(locals, "responseContentType", content_type.as_str());
    set(locals, "responseHeaders", text_object(&response.headers));
    if response.body.len() > 0 {
        let raw = lossy_text(response.body.as_slice());
        set_text(locals, "responseBodyRaw", raw.as_str());
        let shown = body_preview(&response.body);
        set_text(locals, "responseBodyPreview", shown.as_str());
    }
}

// ---------------------------------------------------------------------
// Checkpoints
// ---------------------------------------------------------------------

/// What is seen everywhere: the status of the response, zero without one.
pub open spec fn status_locals(response: Option<Response>) -> LocalsView {
    Map::<Seq<char>, JsonView>::empty().insert(
        "statusCode"@,
        number(
            match response {
                Some(r) => r.status_code as int,
                None => 0,
            },
        ),
    )
}

/// What is seen of a request that may be missing.
pub open spec fn with_opt_request(m: LocalsView, request: Option<TraceRequest>) -> LocalsView {
    match request {
        Some(r) => with_request(m, r),
        None => m,
    }
}

/// What is seen of a response that may be missing.
pub open spec fn with_opt_response(m: LocalsView, response: Option<Response>) -> LocalsView {
    match response {
        Some(r) => with_response(m, r),
        None => m,
    }
}

/// A value that may be missing.
pub open spec fn opt_deref<T>(t: Option<&T>) -> Option<T> {
    match t {
        Some(x) => Some(*x),
        None => None,
    }
}

fn start_locals(response: Option<&Response>) -> (r: TextMap<Json>)
    ensures
        json_map_view(r) == status_locals(opt_deref(response)),
{
    let mut locals: TextMap<Json> = TextMap::new();
    assert(json_map_view(locals) =~= Map::<Seq<char>, JsonView>::empty());
    let status: i64 = match response {
        Some(r) => r.status_code,
        None => 0,
    };
    set(&mut locals, "statusCode", signed(status));
    locals
}

fn show_exchange(
    locals: &mut TextMap<Json>,
    request: Option<&TraceRequest>,
    response: Option<&Response>,
)
    ensures
        json_map_view(*final(locals)) == with_opt_response(
            with_opt_request(json_map_view(*old(locals)), opt_deref(request)),
            opt_deref(response),
        ),
{
    match request {
        Some(r) => {
            insert_request_locals(locals, r);
        },
        None => {},
    }
    match response {
        Some(r) => {
            insert_response_locals(locals, r);
        },
        None => {},
    }
}

/// What is seen at a success criterion.
pub fn success_criterion_locals(
    index: usize,
    evaluation: &CriterionEvaluation,
    request: Option<&TraceRequest>,
    response: Option<&Response>,
) -> (r: TextMap<Json>)
    ensures
        json_map_view(r) == with_opt_response(
            with_opt_request(
                with_criterion(
                    status_locals(opt_deref(response)).insert(
                        "criterionIndex"@,
                        number(index as int),
                    ),
                    evaluation@,
                ),
                opt_deref(request),
            ),
            opt_deref(response),
        ),
{
    let mut locals = start_locals(response);
    set(&mut locals, "criterionIndex", unsigned(index));
    insert_criterion_locals(&mut locals, evaluation);
    show_exchange(&mut locals, request, response);
    locals
}

/// What is known with the first `n` of some values beside it.
pub open spec fn with_values(m: LocalsView, values: TextMap<Json>, n: nat) -> LocalsView
    decreases n,
{
    if n == 0 {
        m
    } else {
        with_values(m, values, (n - 1) as nat).insert(
            values.keys()[n - 1],
            values.values()[n - 1]@,
        )
    }
}

/// What is seen at an output.
pub fn output_locals(
    output_name: &str,
    output_expr: &str,
    current_outputs: &TextMap<Json>,
    request: Option<&TraceRequest>,
    response: Option<&Response>,
) -> (r: TextMap<Json>)
    ensures
        json_map_view(r) == with_opt_response(
            with_opt_request(
                with_values(
                    status_locals(opt_deref(response)).insert(
                        "outputName"@,
                        JsonView::Text(output_name@),
                    ).insert("outputExpression"@, JsonView::Text(output_expr@)),
                    *current_outputs,
                    current_outputs.keys().len(),
                ),
                opt_deref(request),
            ),
            opt_deref(response),
        ),
{
    let mut locals = start_locals(response);
    set_text(&mut locals, "outputName", output_name);
    set_text(&mut locals, "outputExpression", output_expr);
    let ghost start = json_map_view(locals);
    let count = current_outputs.len();
    let mut i: usize = 0;
    while i < count
        invariant
            i <= count,
            count == current_outputs.keys().len(),
            current_outputs.wf(),
            json_map_view(locals) == with_values(start, *current_outputs, i as nat),
        decreases count - i,
    {
        let value = current_outputs.value_at(i).copy();
        set(&mut locals, current_outputs.key_at(i).as_str(), value);
        i = i + 1;
    }
    show_exchange(&mut locals, request, response);
    locals
}

/// What is seen of an action.
pub open spec fn with_action(m: LocalsView, action: OnAction, retry_after: JsonView) -> LocalsView {
    let a = m.insert("actionType"@, JsonView::Text(crate::model::action_type_name(action.type_)));
    let b = if action.name@.len() > 0 {
        a.insert("actionName"@, JsonView::Text(action.name@))
    } else {
        a
    };
    let c = if action.step_id@.len() > 0 {
        b.insert("actionStepId"@, JsonView::Text(action.step_id@))
    } else {
        b
    };
    let d = if action.workflow_id@.len() > 0 {
        c.insert("actionWorkflowId"@, JsonView::Text(action.workflow_id@))
    } else {
        c
    };
    let e = if action.retry_after.bits % 0x8000_0000_0000_0000 != 0 {
        d.insert("actionRetryAfter"@, retry_after)
    } else {
        d
    };
    match action.retry_limit {
        Some(n) => e.insert("actionRetryLimit"@, number(n as int)),
        None => e,
    }
}

/// What is seen at an action; `retry_after` is its delay as it declares it.
pub fn action_locals(
    branch: ActionBranch,
    action_index: usize,
    action: &OnAction,
    retry_after: Json,
    response: Option<&Response>,
) -> (r: TextMap<Json>)
    ensures
        json_map_view(r) == with_opt_response(
            with_action(
                with_branch(status_locals(opt_deref(response)), branch, action_index as nat),
                *action,
                retry_after@,
            ),
            opt_deref(response),
        ),
{
    let mut locals = start_locals(response);
    insert_action_branch_locals(&mut locals, branch, action_index);
    set_text(&mut locals, "actionType", action.type_.name());
    if !action.name.as_str().is_empty() {
        set_text(&mut locals, "actionName", action.name.as_str());
    }
    if !action.step_id.as_str().is_empty() {
        set_text(&mut locals, "actionStepId", action.step_id.as_str());
    }
    if !action.workflow_id.as_str().is_empty() {
        set_text(&mut locals, "actionWorkflowId", action.workflow_id.as_str());
    }
    if action.retry_after.bits % 0x8000_0000_0000_0000 != 0 {
        set(&mut locals, "actionRetryAfter", retry_after);
    }
    match action.retry_limit {
        Some(n) => {
            set(&mut locals, "actionRetryLimit", unsigned_word(n));
        },
        None => {},
    }
    show_exchange(&mut locals, None, response);
    locals
}

/// What is seen at a criterion of an action.
pub fn action_criterion_locals(
    branch: ActionBranch,
    action_index: usize,
    criterion_index: usize,
    evaluation: &CriterionEvaluation,
    response: Option<&Response>,
) -> (r: TextMap<Json>)
    ensures
        json_map_view(r) == with_opt_response(
            with_criterion(
                with_branch(
                    status_locals(opt_deref(response)),
                    branch,
                    action_index as nat,
                ).insert("criterionIndex"@, number(criterion_index as int)),
                evaluation@,
            ),
            opt_deref(response),
        ),
{
    let mut locals = start_locals(response);
    insert_action_branch_locals(&mut locals, branch, action_index);
    set(&mut locals, "criterionIndex", unsigned(criterion_index));
    insert_criterion_locals(&mut locals, evaluation);
    show_exchange(&mut locals, None, response);
    locals
}

/// What is seen where a retry has been selected.
pub fn retry_selected_locals(
    branch: ActionBranch,
    action_index: usize,
    current_retry_count: u64,
    retry_limit_resolved: u64,
    retry_after: Json,
    will_execute_retry: bool,
    response: Option<&Response>,
) -> (r: TextMap<Json>)
    ensures
        json_map_view(r) == with_opt_response(
            with_retry(
                with_branch(status_locals(opt_deref(response)), branch, action_index as nat),
                "selected"@,
                current_retry_count,
                retry_limit_resolved,
                retry_after@,
            ).insert("retryWillExecute"@, JsonView::Bool(will_execute_retry)),
            opt_deref(response),
        ),
{
    let mut locals = start_locals(response);
    insert_action_branch_locals(&mut locals, branch, action_index);
    insert_retry_locals(
        &mut locals,
        "selected",
        current_retry_count,
        retry_limit_resolved,
        retry_after,
    );
    set_bool(&mut locals, "retryWillExecute", will_execute_retry);
    show_exchange(&mut locals, None, response);
    locals
}

/// What is seen before the delay of a retry.
pub fn retry_delay_locals(
    branch: ActionBranch,
    action_index: usize,
    current_retry_count: u64,
    retry_limit_resolved: u64,
    retry_after: Json,
    response: Option<&Response>,
) -> (r: TextMap<Json>)
    ensures
        json_map_view(r) == with_opt_response(
            with_retry(
                with_branch(status_locals(opt_deref(response)), branch, action_index as nat),
                "delay"@,
                current_retry_count,
                retry_limit_resolved,
                retry_after@,
            ),
            opt_deref(response),
        ),
{
    let mut locals = start_locals(response);
    insert_action_branch_locals(&mut locals, branch, action_index);
    insert_retry_locals(
        &mut locals,
        "delay",
        current_retry_count,
        retry_limit_resolved,
        retry_after,
    );
    show_exchange(&mut locals, None, response);
    locals
}

// ---------------------------------------------------------------------
// Scopes
// ---------------------------------------------------------------------

/// All that a debugger sees: the values of a checkpoint, the inputs of the
/// workflow, and the outputs of its steps.
#[derive(Debug, PartialEq)]
pub struct DebugScopes {
    pub locals: TextMap<Json>,
    pub inputs: TextMap<Json>,
    pub steps: TextMap<TextMap<Json>>,
}

/// The scopes of a checkpoint. The outputs that the step has so far are shown
/// with those of the steps before it.
pub fn debug_scopes(
    vars: VarStore,
    step_id: &str,
    current_outputs: &TextMap<Json>,
    locals: TextMap<Json>,
) -> (r: DebugScopes)
    ensures
        json_map_view(r.locals) == json_map_view(locals),
        json_map_view(r.inputs) == vars@.inputs,
        step_map_view(r.steps) == with_outputs(
            vars@,
            step_id@,
            *current_outputs,
            current_outputs.keys().len(),
        ).steps,
{
    let ghost v = vars@;
    proof {
        outputs_leave_inputs(v, step_id@, *current_outputs, current_outputs.keys().len());
    }
    let mut vars = vars;
    vars.set_step_outputs(step_id, current_outputs);
    DebugScopes { locals, inputs: vars.inputs, steps: vars.steps }
}

/// Setting outputs leaves the inputs.
pub proof fn outputs_leave_inputs(
    v: VarsView,
    step_id: Seq<char>,
    outputs: TextMap<Json>,
    n: nat,
)
    ensures
        with_outputs(v, step_id, outputs, n).inputs == v.inputs,
        with_outputs(v, step_id, outputs, n).workflows == v.workflows,
    decreases n,
{
    if n > 0 {
        outputs_leave_inputs(v, step_id, outputs, (n - 1) as nat);
    }
}

} // verus!
