//! What a debugger is shown.

use crate::actions::ActionBranch;
use crate::criteria::CriterionView;
use crate::exchange::preview;
use crate::json::{Json, JsonView, NumberView};
use crate::locals::{
    object_of, status_locals, with_action, with_branch, with_criterion, with_request, with_response, with_retry,
    with_values, LocalsView,
};
use crate::model::{ActionType, OnAction};
use crate::outcome::{lossy, Response};
use crate::text_map::{entries_are_pairs, TextMap};
use crate::trace::{keys_are_distinct, ContentTypeView, TraceRequest};
use vstd::prelude::*;
use vstd::string::*;

verus! {

/// A list of headers is shown as an object of texts, in order.
pub proof fn headers_are_shown_as_an_object(m: TextMap<String>, i: int)
    ensures
        object_of(m) matches JsonView::Object(list) && list.len() == m.keys().len() && (0 <= i
            < m.keys().len() ==> list[i].0 == m.keys()[i] && list[i].1 == JsonView::Text(
            m.values()[i]@,
        )),
{
}

/// The status that is shown is that of the response, and zero without one.
pub proof fn the_status_is_shown(response: Option<Response>)
    ensures
        status_locals(response).contains_key("statusCode"@),
        response is None ==> status_locals(response)["statusCode"@] == JsonView::Number(
            NumberView::PosInt(0),
        ),
        response matches Some(r) ==> {
            &&& r.status_code >= 0 ==> status_locals(response)["statusCode"@] == JsonView::Number(
                NumberView::PosInt(r.status_code as u64),
            )
            &&& r.status_code < 0 ==> status_locals(response)["statusCode"@] == JsonView::Number(
                NumberView::NegInt(r.status_code),
            )
        },
{
}

/// A criterion is shown with its condition, what it looked at, and whether it
/// was met.
pub proof fn a_criterion_is_shown(m: LocalsView, c: CriterionView)
    ensures
        ({
            let v = with_criterion(m, c);
            &&& v.contains_key("criterionMatched"@) && v["criterionMatched"@] == JsonView::Bool(
                c.matched,
            )
            &&& v.contains_key("criterionCondition"@) && v["criterionCondition"@] == JsonView::Text(
                c.condition,
            )
            &&& v.contains_key("criterionContextValue"@) && v["criterionContextValue"@]
                == c.context_value
            &&& v.contains_key("criterionConditionResult"@) && v["criterionConditionResult"@]
                == JsonView::Bool(c.condition_result)
            &&& c.context_expr.len() > 0 ==> v.contains_key("criterionContext"@) && v[
            "criterionContext"@] == JsonView::Text(c.context_expr)
            &&& c.type_.len() > 0 ==> v.contains_key("criterionType"@) && v["criterionType"@]
                == JsonView::Text(c.type_)
            &&& c.type_version matches Some(t) ==> v.contains_key("criterionTypeVersion"@) && v[
            "criterionTypeVersion"@] == JsonView::Text(t)
            &&& c.error matches Some(e) ==> v.contains_key("criterionError"@) && v[
            "criterionError"@] == JsonView::Text(e)
        }),
{
    reveal_strlit("criterionCondition");
    reveal_strlit("criterionConditionResult");
    reveal_strlit("criterionMatched");
    reveal_strlit("criterionContext");
    reveal_strlit("criterionType");
    reveal_strlit("criterionTypeVersion");
    reveal_strlit("criterionContextValue");
    reveal_strlit("criterionError");
    assert("criterionCondition"@.len() == 18);
    assert("criterionConditionResult"@.len() == 24);
    assert("criterionMatched"@.len() == 16);
    assert("criterionContext"@.len() == 16);
    assert("criterionType"@.len() == 13);
    assert("criterionTypeVersion"@.len() == 20);
    assert("criterionContextValue"@.len() == 21);
    assert("criterionError"@.len() == 14);
    assert("criterionMatched"@[9] == 'M');
    assert("criterionContext"@[9] == 'C');
}

/// A request is shown with its method, its URL, its headers and its body.
pub proof fn a_request_is_shown(m: LocalsView, r: TraceRequest)
    ensures
        ({
            let v = with_request(m, r);
            &&& v.contains_key("requestMethod"@) && v["requestMethod"@] == JsonView::Text(r.method@)
            &&& v.contains_key("requestUrl"@) && v["requestUrl"@] == JsonView::Text(r.url@)
            &&& v.contains_key("requestHeaders"@) && v["requestHeaders"@] == object_of(r.headers)
            &&& r.body matches Some(b) ==> v.contains_key("requestBody"@) && v["requestBody"@] == b@
        }),
{
    reveal_strlit("requestMethod");
    reveal_strlit("requestUrl");
    reveal_strlit("requestHeaders");
    reveal_strlit("requestBody");
    assert("requestMethod"@.len() == 13);
    assert("requestUrl"@.len() == 10);
    assert("requestHeaders"@.len() == 14);
    assert("requestBody"@.len() == 11);
}

/// A response is shown with its status, its headers and its body.
pub proof fn a_response_is_shown(m: LocalsView, r: Response)
    ensures
        ({
            let v = with_response(m, r);
            &&& v.contains_key("responseStatusCode"@) && (r.status_code >= 0
                ==> v["responseStatusCode"@] == JsonView::Number(
                NumberView::PosInt(r.status_code as u64),
            ))
            &&& v.contains_key("responseHeaders"@) && v["responseHeaders"@] == object_of(r.headers)
            &&& v.contains_key("responseContentType"@) && v["responseContentType"@]
                == JsonView::Text(
                match r.content_type@ {
                    ContentTypeView::Json => "json"@,
                    ContentTypeView::Xml => "xml"@,
                    ContentTypeView::Other(s) => s,
                },
            )
            &&& r.body@.len() > 0 ==> v.contains_key("responseBodyRaw"@) && v["responseBodyRaw"@]
                == JsonView::Text(lossy(r.body@)) && v.contains_key("responseBodyPreview"@)
                && v["responseBodyPreview"@] == JsonView::Text(preview(r.body@))
        }),
{
    reveal_strlit("responseStatusCode");
    reveal_strlit("responseContentType");
    reveal_strlit("responseHeaders");
    reveal_strlit("responseBodyRaw");
    reveal_strlit("responseBodyPreview");
    assert("responseStatusCode"@.len() == 18);
    assert("responseContentType"@.len() == 19);
    assert("responseHeaders"@.len() == 15);
    assert("responseBodyRaw"@.len() == 15);
    assert("responseBodyPreview"@.len() == 19);
    assert("responseContentType"@[8] == 'C');
    assert("responseBodyPreview"@[8] == 'B');
    assert("responseHeaders"@[8] == 'H');
    assert("responseBodyRaw"@[8] == 'B');
}

/// A retry is shown with its stage, how often it was made, how often it may be,
/// and the delay.
pub proof fn a_retry_is_shown(
    m: LocalsView,
    stage: Seq<char>,
    count: u64,
    limit: u64,
    retry_after: JsonView,
)
    ensures
        ({
            let v = with_retry(m, stage, count, limit, retry_after);
            &&& v.contains_key("retryStage"@) && v["retryStage"@] == JsonView::Text(stage)
            &&& v.contains_key("retryCountCurrent"@) && v["retryCountCurrent"@] == JsonView::Number(
                NumberView::PosInt(count),
            )
            &&& v.contains_key("retryCountNext"@) && (count < u64::MAX ==> v["retryCountNext"@]
                == JsonView::Number(NumberView::PosInt((count + 1) as u64)))
            &&& v.contains_key("retryLimitResolved"@) && v["retryLimitResolved"@]
                == JsonView::Number(NumberView::PosInt(limit))
            &&& v.contains_key("retryAfterSeconds"@) && v["retryAfterSeconds"@] == retry_after
            &&& v.contains_key("actionType"@) && v["actionType"@] == JsonView::Text("retry"@)
        }),
{
    reveal_strlit("actionType");
    reveal_strlit("retryStage");
    reveal_strlit("retryCountCurrent");
    reveal_strlit("retryCountNext");
    reveal_strlit("retryLimitResolved");
    reveal_strlit("retryAfterSeconds");
    assert("actionType"@.len() == 10);
    assert("retryStage"@.len() == 10);
    assert("retryCountCurrent"@.len() == 17);
    assert("retryCountNext"@.len() == 14);
    assert("retryLimitResolved"@.len() == 18);
    assert("retryAfterSeconds"@.len() == 17);
    assert("actionType"@[0] == 'a');
    assert("retryStage"@[0] == 'r');
    assert("retryCountCurrent"@[5] == 'C');
    assert("retryAfterSeconds"@[5] == 'A');
}

/// An action is shown with its branch and its place in the list.
pub proof fn an_action_is_shown(m: LocalsView, branch: ActionBranch, index: nat)
    requires
        index <= u64::MAX,
    ensures
        ({
            let v = with_branch(m, branch, index);
            &&& v.contains_key("actionBranch"@) && v["actionBranch"@] == JsonView::Text(
                match branch {
                    ActionBranch::Success => "onSuccess"@,
                    ActionBranch::Failure => "onFailure"@,
                },
            )
            &&& v.contains_key("actionIndex"@) && v["actionIndex"@] == JsonView::Number(
                NumberView::PosInt(index as u64),
            )
        }),
{
    reveal_strlit("actionBranch");
    reveal_strlit("actionIndex");
    assert("actionBranch"@.len() == 12);
    assert("actionIndex"@.len() == 11);
}

proof fn values_shown_upto(m: LocalsView, values: TextMap<Json>, n: nat, i: int)
    requires
        values.wf(),
        n <= values.keys().len(),
        0 <= i < n,
    ensures
        with_values(m, values, n).contains_key(values.keys()[i]),
        with_values(m, values, n)[values.keys()[i]] == values.values()[i]@,
    decreases n,
{
    if i < n - 1 {
        values_shown_upto(m, values, (n - 1) as nat, i);
        keys_are_distinct(values);
        assert(values.keys()[i] != values.keys()[n - 1]);
    }
}

/// Every output that was read so far is shown under its name.
pub proof fn outputs_are_shown(m: LocalsView, values: TextMap<Json>, name: Seq<char>)
    requires
        values.wf(),
        values@.contains_key(name),
    ensures
        with_values(m, values, values.keys().len()).contains_key(name),
        with_values(m, values, values.keys().len())[name] == values@[name]@,
{
    assert(values.keys().contains(name));
    let i = values.keys().index_of(name);
    entries_are_pairs(values, i);
    values_shown_upto(m, values, values.keys().len(), i);
}

/// An action is shown with its type, and its targets and limits where it has
/// any.
pub proof fn an_action_is_shown_as_declared(m: LocalsView, action: OnAction, retry_after: JsonView)
    ensures
        ({
            let v = with_action(m, action, retry_after);
            &&& v.contains_key("actionType"@) && v["actionType"@] == JsonView::Text(
                match action.type_ {
                    ActionType::End => "end"@,
                    ActionType::Goto => "goto"@,
                    ActionType::Retry => "retry"@,
                },
            )
            &&& action.name@.len() > 0 ==> v.contains_key("actionName"@) && v["actionName"@]
                == JsonView::Text(action.name@)
            &&& action.step_id@.len() > 0 ==> v.contains_key("actionStepId"@) && v["actionStepId"@]
                == JsonView::Text(action.step_id@)
            &&& action.workflow_id@.len() > 0 ==> v.contains_key("actionWorkflowId"@)
                && v["actionWorkflowId"@] == JsonView::Text(action.workflow_id@)
            &&& action.retry_limit matches Some(n) ==> v.contains_key("actionRetryLimit"@)
                && v["actionRetryLimit"@] == JsonView::Number(NumberView::PosInt(n))
        }),
{
    reveal_strlit("actionType");
    reveal_strlit("actionName");
    reveal_strlit("actionStepId");
    reveal_strlit("actionWorkflowId");
    reveal_strlit("actionRetryAfter");
    reveal_strlit("actionRetryLimit");
    assert("actionType"@.len() == 10);
    assert("actionName"@.len() == 10);
    assert("actionType"@[6] == 'T');
    assert("actionName"@[6] == 'N');
    assert("actionStepId"@.len() == 12);
    assert("actionWorkflowId"@.len() == 16);
    assert("actionRetryAfter"@.len() == 16);
    assert("actionRetryLimit"@.len() == 16);
    assert("actionWorkflowId"@[6] == 'W');
    assert("actionRetryAfter"@[11] == 'A');
    assert("actionRetryLimit"@[11] == 'L');
    assert("actionWorkflowId"@[11] == 'l');
}

} // verus!
