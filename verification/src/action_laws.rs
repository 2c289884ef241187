//! What holds of retries and of routing, whatever the document and the
//! response.

use crate::actions::{
    action_applies, action_begins, criterion_held, end_decision, first_applying, limit_exceeded,
    retry_delay, retry_header, routed_from, ActionBranch, ActionExecution, ActionStep,
    ExecutionView, ExhaustedRetry, FlowView, Interrupt, ReferenceView, ResolvedAction, RoutedView,
};
use crate::error::{ErrorView, RuntimeErrorKind};
use crate::json::JsonView;
use crate::json_pointer::{all_digits, digits_value, unsigned_digits};
use crate::model::{ActionType, OnAction, Step};
use crate::outcome::StepResult;
use crate::retries::RetrySite;
use crate::step_refs::applicable;
use crate::text::{decimal, digit_of, is_digit, lower_text, stands_at};
use crate::text_map::TextMap;
use crate::trace::{json_map_view, TraceDecisionPath};
use vstd::prelude::*;
use vstd::string::*;

verus! {

// ---------------------------------------------------------------------
// Decimal texts
// ---------------------------------------------------------------------

proof fn digit_of_is_digit(n: nat)
    requires
        n < 10,
    ensures
        is_digit(digit_of(n)),
        digit_of(n) as u32 - 48 == n,
{
    let c: u32 = (48 + n) as u32;
    assert(48 <= c <= 57);
    assert((c as char) as u32 == c);
}

/// The decimal text of a number is made of digits, and reading them gives the
/// number back.
pub proof fn decimal_reads_back(n: nat)
    ensures
        all_digits(decimal(n)),
        digits_value(decimal(n)) == n,
    decreases n,
{
    digit_of_is_digit(n % 10);
    if n < 10 {
        let s = decimal(n);
        assert(s.drop_last() =~= Seq::<char>::empty());
        assert(s.last() == digit_of(n));
        reveal_with_fuel(digits_value, 2);
    } else {
        decimal_reads_back(n / 10);
        let s = decimal(n);
        assert(s.drop_last() =~= decimal(n / 10));
        assert(s.last() == digit_of(n % 10));
        assert forall|i: int| 0 <= i < s.len() implies is_digit(#[trigger] s[i]) by {
            if i < s.len() - 1 {
                assert(s[i] == decimal(n / 10)[i]);
            }
        }
    }
}

// ---------------------------------------------------------------------
// Delays
// ---------------------------------------------------------------------

/// Whether a double is a number of seconds that a delay may be: zero of either
/// sign, or a finite number above it.
pub open spec fn is_duration(bits: u64) -> bool {
    bits < 0x7ff0_0000_0000_0000 || bits == 0x8000_0000_0000_0000
}

/// Whether entry `i` is the one that headers give a delay by: the first whose
/// name is `Retry-After`, however it is cased.
pub open spec fn delay_entry(h: TextMap<String>, i: int) -> bool {
    &&& 0 <= i < h.keys().len()
    &&& lower_text(h.keys()[i]) == "retry-after"@
    &&& forall|j: int| 0 <= j < i ==> lower_text(#[trigger] h.keys()[j]) != "retry-after"@
}

proof fn delay_entry_is_found(h: TextMap<String>, i: int, from: int)
    requires
        delay_entry(h, i),
        0 <= from <= i,
    ensures
        retry_header(h.keys(), from) == i,
    decreases i - from,
{
    retry_after_is_lower();
    if from < i {
        assert(lower_text(h.keys()[from]) != "retry-after"@);
        delay_entry_is_found(h, i, from + 1);
    }
}

proof fn retry_after_is_lower()
    ensures
        lower_text("retry-after"@) == "retry-after"@,
{
    reveal_strlit("retry-after");
    assert(lower_text("retry-after"@) =~= "retry-after"@);
}

proof fn no_delay_entry(h: TextMap<String>, from: int)
    requires
        0 <= from <= h.keys().len(),
        forall|j: int|
            0 <= j < h.keys().len() ==> lower_text(#[trigger] h.keys()[j]) != "retry-after"@,
    ensures
        retry_header(h.keys(), from) == h.keys().len(),
    decreases h.keys().len() - from,
{
    retry_after_is_lower();
    if from < h.keys().len() {
        assert(lower_text(h.keys()[from]) != "retry-after"@);
        no_delay_entry(h, from + 1);
    }
}

/// A `Retry-After` header in whole seconds outranks the action: whatever the
/// action declares, the delay is as many seconds as the header says, for every
/// number that 64 bits hold.
pub proof fn header_seconds_are_the_delay(
    action: OnAction,
    h: TextMap<String>,
    i: int,
    seconds: nat,
)
    requires
        is_duration(action.retry_after.bits),
        h.wf(),
        delay_entry(h, i),
        h.values()[i]@ == decimal(seconds) || h.values()[i]@ == "+"@ + decimal(seconds),
        seconds <= u64::MAX,
    ensures
        retry_delay(action, Some(h)) == Ok::<nat, ErrorView>(seconds * 1_000_000_000),
{
    delay_entry_is_found(h, i, 0);
    decimal_reads_back(seconds);
    reveal_strlit("+");
    let v = h.values()[i]@;
    let d = decimal(seconds);
    assert(is_digit(d[0]));
    if v != d {
        assert(v[0] == '+');
        assert(v.skip(1) =~= d);
    }
    assert(unsigned_digits(v) == d);
}

/// A `Retry-After` header that is no number of seconds is passed over, as one
/// is that asks for more than 64 bits hold: the delay is the action's own.
pub proof fn other_headers_leave_the_delay(action: OnAction, h: TextMap<String>, i: int, n: nat)
    requires
        is_duration(action.retry_after.bits),
        action.retry_after.nanos is Some,
        h.wf(),
        delay_entry(h, i),
        ({
            let v = h.values()[i]@;
            ||| v.len() == 0
            ||| v == "+"@
            ||| (v == decimal(n) && n > u64::MAX)
            ||| exists|j: int| 0 < j < v.len() && !('0' <= #[trigger] v[j] && v[j] <= '9')
            ||| (v[0] != '+' && !('0' <= v[0] && v[0] <= '9'))
        }),
    ensures
        retry_delay(action, Some(h)) == Ok::<nat, ErrorView>(
            action.retry_after.nanos->0 as nat,
        ),
{
    delay_entry_is_found(h, i, 0);
    decimal_reads_back(n);
    reveal_strlit("+");
    let v = h.values()[i]@;
    let d = unsigned_digits(v);
    if v.len() > 0 && v[0] == '+' {
        if exists|j: int| 0 < j < v.len() && !('0' <= #[trigger] v[j] && v[j] <= '9') {
            let j = choose|j: int| 0 < j < v.len() && !('0' <= #[trigger] v[j] && v[j] <= '9');
            assert(d[j - 1] == v[j]);
        }
        if v == decimal(n) {
            assert(is_digit(decimal(n)[0]));
        }
    } else if v.len() > 0 && v != decimal(n) {
        if exists|j: int| 0 < j < v.len() && !('0' <= #[trigger] v[j] && v[j] <= '9') {
            let j = choose|j: int| 0 < j < v.len() && !('0' <= #[trigger] v[j] && v[j] <= '9');
            assert(!is_digit(d[j]));
        } else {
            assert(!is_digit(d[0]));
        }
    }
}

/// Without a `Retry-After` header the delay is the action's own.
pub proof fn no_header_leaves_the_delay(action: OnAction, headers: Option<TextMap<String>>)
    requires
        is_duration(action.retry_after.bits),
        action.retry_after.nanos is Some,
        headers matches Some(h) ==> h.wf() && forall|j: int|
            0 <= j < h.keys().len() ==> lower_text(#[trigger] h.keys()[j]) != "retry-after"@,
    ensures
        retry_delay(action, headers) == Ok::<nat, ErrorView>(action.retry_after.nanos->0 as nat),
{
    if let Some(h) = headers {
        no_delay_entry(h, 0);
    }
}

/// An action whose `retryAfter` is no number of seconds never waits, whatever
/// the headers say.
pub proof fn a_delay_is_a_number(action: OnAction, headers: Option<TextMap<String>>)
    requires
        !is_duration(action.retry_after.bits),
    ensures
        retry_delay(action, headers) matches Err(e) && e.kind == RuntimeErrorKind::InputValidation,
{
}

// ---------------------------------------------------------------------
// Retries
// ---------------------------------------------------------------------

/// How often an action may retry: as often as it says, else once.
pub open spec fn retries_allowed(action: OnAction) -> u64 {
    match action.retry_limit {
        Some(n) => n,
        None => 1,
    }
}

/// Whether these are the inputs that an action hands on: those it declares, or
/// none of its own.
pub open spec fn hands_on(
    resolved: ResolvedAction,
    inputs: Option<Map<Seq<char>, JsonView>>,
) -> bool {
    match resolved.inputs {
        Some(m) => inputs == Some(json_map_view(m)),
        None => inputs is None,
    }
}

/// A retry is granted as long as its site has been retried less often than the
/// action allows, and then it runs the same step again, behind the step or the
/// workflow that the action names.
pub proof fn a_retry_is_granted_within_its_budget(
    action: OnAction,
    resolved: ResolvedAction,
    steps: Seq<Step>,
    step_idx: usize,
    branch: ActionBranch,
    err_kind: Option<RuntimeErrorKind>,
    site: RetrySite,
    current: u64,
    headers: Option<TextMap<String>>,
    interrupt: Interrupt,
    s: ActionStep,
)
    requires
        action_begins(
            action,
            resolved,
            steps,
            step_idx,
            branch,
            err_kind,
            site,
            current,
            headers,
            interrupt,
            s,
        ),
        action.type_ == ActionType::Retry,
        !interrupt.cancelled,
        is_duration(action.retry_after.bits),
        retry_delay(action, headers) is Ok,
    ensures
        s matches ActionStep::GateSelected(p) && {
            &&& p.current == current
            &&& p.limit == retries_allowed(action)
            &&& current < retries_allowed(action) ==> p.delay_nanos == retry_delay(
                action,
                headers,
            )->Ok_0 && (p.outcome@ matches ExecutionView::Routed(d) && {
                &&& d.flow matches FlowView::Retry {
                    step_idx: again,
                    retry_site,
                    retry_limit,
                    delay_nanos,
                    reference,
                } && {
                    &&& again == step_idx
                    &&& retry_site == site
                    &&& retry_limit == retries_allowed(action)
                    &&& delay_nanos == p.delay_nanos
                    &&& action.step_id@.len() > 0 ==> reference == Some(
                        ReferenceView::Step { step_id: resolved.step_id@ },
                    )
                    &&& action.step_id@.len() == 0 && action.workflow_id@.len() > 0
                        ==> (reference matches Some(
                        ReferenceView::Workflow { workflow_id, inputs },
                    ) && workflow_id == resolved.workflow_id@ && hands_on(resolved, inputs))
                    &&& action.step_id@.len() == 0 && action.workflow_id@.len() == 0
                        ==> reference is None
                }
                &&& d.trace.path == TraceDecisionPath::Retry
                &&& d.trace.action_type == "retry"@
                &&& action.step_id@.len() > 0 ==> d.trace.target_step_id == resolved.step_id@
                &&& action.step_id@.len() == 0 && action.workflow_id@.len() > 0
                    ==> d.trace.target_workflow_id == resolved.workflow_id@
                &&& d.trace.retry_limit == action.retry_limit
                &&& d.trace.retry_after_seconds == Some(action.retry_after)
            })
            &&& current >= retries_allowed(action) ==> p.delay_nanos == 0
                && (p.outcome@ matches ExecutionView::RetryExhausted(e) && e.effective_limit
                == retries_allowed(action) && e.configured_limit == action.retry_limit
                && e.retry_after == action.retry_after)
        },
{
}

/// An action that was called off comes to the error of that, whatever it is.
pub proof fn cancellation_outranks_every_action(
    action: OnAction,
    resolved: ResolvedAction,
    steps: Seq<Step>,
    step_idx: usize,
    branch: ActionBranch,
    err_kind: Option<RuntimeErrorKind>,
    site: RetrySite,
    current: u64,
    headers: Option<TextMap<String>>,
    interrupt: Interrupt,
    s: ActionStep,
)
    requires
        action_begins(
            action,
            resolved,
            steps,
            step_idx,
            branch,
            err_kind,
            site,
            current,
            headers,
            interrupt,
            s,
        ),
        interrupt.cancelled,
    ensures
        s matches ActionStep::Finished(e) && (e@ matches ExecutionView::Routed(d) && (
        d.flow matches FlowView::Error(err) && err.kind == if interrupt.timed_out {
            RuntimeErrorKind::ExecutionTimeout
        } else {
            RuntimeErrorKind::ExecutionCancelled
        })),
{
}

/// `end` ends the workflow well behind a success, and behind a failure with an
/// error of the kind that the step failed with.
pub proof fn end_ends_the_workflow(
    action: OnAction,
    resolved: ResolvedAction,
    steps: Seq<Step>,
    step_idx: usize,
    branch: ActionBranch,
    err_kind: Option<RuntimeErrorKind>,
    site: RetrySite,
    current: u64,
    headers: Option<TextMap<String>>,
    interrupt: Interrupt,
    s: ActionStep,
)
    requires
        action_begins(
            action,
            resolved,
            steps,
            step_idx,
            branch,
            err_kind,
            site,
            current,
            headers,
            interrupt,
            s,
        ),
        action.type_ == ActionType::End,
        !interrupt.cancelled,
        0 <= step_idx < steps.len(),
    ensures
        s matches ActionStep::Finished(e) && (e@ matches ExecutionView::Routed(d) && {
            &&& branch == ActionBranch::Success ==> d.flow == FlowView::Done
            &&& branch == ActionBranch::Failure ==> (d.flow matches FlowView::Error(err) && {
                &&& err_kind matches Some(k) ==> err.kind == k
                &&& err_kind is None ==> err.kind == RuntimeErrorKind::SuccessCriteriaFailed
                &&& stands_at(err.message, 5, steps[step_idx as int].step_id@)
            })
            &&& d.trace.path == TraceDecisionPath::Done
            &&& d.trace.action_type == "end"@
        }),
{
    reveal_strlit("step ");
    let id = steps[step_idx as int].step_id@;
    let d = end_decision(branch == ActionBranch::Failure, id, err_kind);
    if let FlowView::Error(err) = d.flow {
        assert(err.message.subrange(5, (5 + id.len()) as int) =~= id);
    }
}

/// `goto` leads to the step that has the named id, the last one where several
/// do, to the named workflow, or to an error where there is no such step or
/// nothing is named; it never leads anywhere else.
pub proof fn goto_leads_where_it_says(
    action: OnAction,
    resolved: ResolvedAction,
    steps: Seq<Step>,
    step_idx: usize,
    branch: ActionBranch,
    err_kind: Option<RuntimeErrorKind>,
    site: RetrySite,
    current: u64,
    headers: Option<TextMap<String>>,
    interrupt: Interrupt,
    s: ActionStep,
    k: int,
)
    requires
        action_begins(
            action,
            resolved,
            steps,
            step_idx,
            branch,
            err_kind,
            site,
            current,
            headers,
            interrupt,
            s,
        ),
        action.type_ == ActionType::Goto,
        !interrupt.cancelled,
    ensures
        s matches ActionStep::Finished(e) && (e@ matches ExecutionView::Routed(d) && {
            &&& action.step_id@.len() > 0 && 0 <= k < steps.len() && steps[k].step_id@
                == resolved.step_id@ ==> (d.flow matches FlowView::Next(i) && k <= i < steps.len()
                && steps[i as int].step_id@ == resolved.step_id@) && d.trace.path
                == TraceDecisionPath::GotoStep && d.trace.target_step_id == resolved.step_id@
            &&& action.step_id@.len() > 0 && (forall|j: int|
                0 <= j < steps.len() ==> (#[trigger] steps[j]).step_id@ != resolved.step_id@) ==> (
            d.flow matches FlowView::Error(err) && err.kind == RuntimeErrorKind::GotoTargetNotFound
                && d.trace.path == TraceDecisionPath::Error)
            &&& action.step_id@.len() == 0 && action.workflow_id@.len() > 0 ==> (
            d.flow matches FlowView::GotoWorkflow { workflow_id, inputs } && workflow_id
                == resolved.workflow_id@ && hands_on(resolved, inputs))
                && d.trace.path == TraceDecisionPath::GotoWorkflow && d.trace.target_workflow_id
                == resolved.workflow_id@
            &&& action.step_id@.len() == 0 && action.workflow_id@.len() == 0 ==> (
            d.flow matches FlowView::Error(err) && err.kind == RuntimeErrorKind::GotoTargetMissing)
            &&& d.trace.action_type == "goto"@
        }),
{
    if let ActionStep::Finished(e) = s {
        if let ExecutionView::Routed(d) = e@ {
            if action.step_id@.len() > 0 && 0 <= k < steps.len() && steps[k].step_id@
                == resolved.step_id@ {
                if let FlowView::Next(i) = d.flow {
                    if i < k {
                        assert(steps[k].step_id@ != resolved.step_id@);
                    }
                }
            }
        }
    }
}

// ---------------------------------------------------------------------
// Routing
// ---------------------------------------------------------------------

/// The actions of a step hide those of its workflow, which are for the steps
/// without any.
pub proof fn own_actions_hide_the_shared_ones(own: Seq<OnAction>, shared: Seq<OnAction>, i: int)
    ensures
        own.len() > 0 ==> applicable(own, shared).len() == own.len(),
        own.len() == 0 ==> applicable(own, shared).len() == shared.len(),
        0 <= i < own.len() ==> applicable(own, shared)[i] == own[i],
        own.len() == 0 && 0 <= i < shared.len() ==> applicable(own, shared)[i] == shared[i],
{
}

/// An action without criteria is never passed over, and one of whose criteria
/// does not hold is never taken.
pub proof fn criteria_decide_on_an_action(
    actions: Seq<OnAction>,
    matched: Seq<Vec<bool>>,
    start: int,
    r: Option<usize>,
    i: int,
    j: int,
)
    requires
        first_applying(actions, matched, start, r),
        0 <= start <= i < actions.len(),
    ensures
        actions[i].criteria@.len() == 0 ==> (r matches Some(k) && start <= k <= i),
        0 <= i < matched.len() && 0 <= j < actions[i].criteria@.len() && j < matched[i]@.len()
            && !matched[i]@[j] ==> !(r matches Some(k) && k == i),
        i < matched.len() && matched[i]@.len() == actions[i].criteria@.len() && (forall|k: int|
            0 <= k < matched[i]@.len() ==> matched[i]@[k]) ==> (r matches Some(k) && start <= k
            <= i),
{
    if actions[i].criteria@.len() == 0 {
        assert(action_applies(actions, matched, i));
    }
    if i < matched.len() && 0 <= j < actions[i].criteria@.len() && j < matched[i]@.len()
        && !matched[i]@[j] {
        assert(!criterion_held(matched, i, j));
        assert(!action_applies(actions, matched, i));
    }
    if i < matched.len() && matched[i]@.len() == actions[i].criteria@.len() && (forall|k: int|
        0 <= k < matched[i]@.len() ==> matched[i]@[k]) {
        assert(action_applies(actions, matched, i));
    }
}

/// The first action that came to a decision decides, where no action before it
/// applied.
pub proof fn the_first_decision_stands(
    step_id: Seq<char>,
    step_idx: int,
    result: StepResult,
    answers: Seq<Option<ActionExecution>>,
    i: int,
    k: int,
    e: Option<ExhaustedRetry>,
    d: RoutedView,
)
    requires
        0 <= i <= k < answers.len(),
        forall|j: int| i <= j < k ==> (#[trigger] answers[j]) is None,
        answers[k] matches Some(x) && x@ == ExecutionView::Routed(d),
    ensures
        routed_from(step_id, step_idx, result, answers, i, e) == d,
    decreases k - i,
{
    if i < k {
        assert(answers[i] is None);
        the_first_decision_stands(step_id, step_idx, result, answers, i + 1, k, e, d);
    }
}

/// Where no action applies, a success goes on with the next step, and a
/// failure ends with the error of the step.
pub proof fn without_actions_the_result_decides(
    step_id: Seq<char>,
    step_idx: int,
    result: StepResult,
    answers: Seq<Option<ActionExecution>>,
    i: int,
)
    requires
        0 <= i <= answers.len(),
        0 <= step_idx < usize::MAX,
        forall|j: int| i <= j < answers.len() ==> (#[trigger] answers[j]) is None,
    ensures
        result.success ==> routed_from(step_id, step_idx, result, answers, i, None).flow
            == FlowView::Next((step_idx + 1) as usize),
        result.success ==> routed_from(step_id, step_idx, result, answers, i, None).trace.path
            == TraceDecisionPath::Next,
        !result.success ==> routed_from(step_id, step_idx, result, answers, i, None).trace.path
            == TraceDecisionPath::Error,
        !result.success ==> (routed_from(
            step_id,
            step_idx,
            result,
            answers,
            i,
            None,
        ).flow matches FlowView::Error(err) && {
            &&& stands_at(err.message, 0, "step "@ + step_id)
            &&& result.err matches Some(text) ==> err.message == "step "@ + step_id + ": "@ + text@
                && (result.err_kind matches Some(kind) ==> err.kind == kind)
            &&& result.err is None ==> err.kind == RuntimeErrorKind::SuccessCriteriaFailed
        }),
    decreases answers.len() - i,
{
    if i < answers.len() {
        assert(answers[i] is None);
        without_actions_the_result_decides(step_id, step_idx, result, answers, i + 1);
    } else if !result.success {
        let start = "step "@ + step_id;
        let message = crate::outcome::result_error(step_id, result).message;
        assert(message.subrange(0, start.len() as int) =~= start);
    }
}

/// A failed step all of whose retries ran out ends with the error that says
/// so, and names the limit that came last.
pub proof fn exhausted_retries_fail_the_step(
    step_id: Seq<char>,
    step_idx: int,
    result: StepResult,
    answers: Seq<Option<ActionExecution>>,
    i: int,
    k: int,
    seen: Option<ExhaustedRetry>,
    last: ExhaustedRetry,
)
    requires
        !result.success,
        0 <= i <= k < answers.len(),
        forall|j: int|
            i <= j < answers.len() && j != k ==> ((#[trigger] answers[j]) matches Some(x) ==> j < k
                && x@ is RetryExhausted),
        answers[k] matches Some(x) && x@ == ExecutionView::RetryExhausted(last),
    ensures
        routed_from(step_id, step_idx, result, answers, i, seen).flow matches FlowView::Error(err)
            && {
            &&& err.kind == RuntimeErrorKind::RetryLimitExceeded
            &&& err.message == "step "@ + step_id + ": max retries ("@ + decimal(
                last.effective_limit as nat,
            ) + ") exceeded"@
        },
    decreases answers.len() - i,
{
    if i < k {
        match answers[i] {
            Some(x) => {
                let e = x@->RetryExhausted_0;
                exhausted_retries_fail_the_step(
                    step_id,
                    step_idx,
                    result,
                    answers,
                    i + 1,
                    k,
                    Some(e),
                    last,
                );
            },
            None => {
                exhausted_retries_fail_the_step(
                    step_id,
                    step_idx,
                    result,
                    answers,
                    i + 1,
                    k,
                    seen,
                    last,
                );
            },
        }
    } else {
        exhausted_tail(step_id, step_idx, result, answers, k + 1, last);
    }
}

proof fn exhausted_tail(
    step_id: Seq<char>,
    step_idx: int,
    result: StepResult,
    answers: Seq<Option<ActionExecution>>,
    i: int,
    last: ExhaustedRetry,
)
    requires
        !result.success,
        0 <= i <= answers.len(),
        forall|j: int| i <= j < answers.len() ==> (#[trigger] answers[j]) is None,
    ensures
        routed_from(step_id, step_idx, result, answers, i, Some(last)) == limit_exceeded(
            step_id,
            last,
        ),
    decreases answers.len() - i,
{
    if i < answers.len() {
        assert(answers[i] is None);
        exhausted_tail(step_id, step_idx, result, answers, i + 1, last);
    }
}

} // verus!
