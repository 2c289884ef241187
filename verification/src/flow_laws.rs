//! What the single decisions of a run come to when they are put together.

use crate::actions::{
    action_applies, action_passed, criterion_held, delay_passed, first_applying, routed_from,
    selected_passed, selection_from, selection_past_criterion, selection_past_gate, sleep_passed,
    ActionExecution, ActionStep, ExecutionView, ExhaustedRetry, FlowView, Interrupt, PendingRetry,
    RoutingStep, Selection,
};
use crate::breakpoints::{stops_at, StepCheckpoint};
use crate::controller::{gate_holds, gate_left, resumed, stopped, DebugController, DebugStopReason};
use crate::error::{ErrorView, RuntimeError, RuntimeErrorKind};
use crate::exchange::ResponseView;
use crate::input_laws::{
    inputs_are_refused_for_what_is_declared, lacks, mistyped, own_type, declared_type, unlisted,
};
use crate::input_validation::{
    completed_inputs, input_issues, InputIssueSeverity, InputIssueView,
};
use crate::json::JsonView;
use crate::levels::{level_attempt_taken, LevelStep};
use crate::model::{OnAction, SchemaObject, Workflow};
use crate::outcome::StepResult;
use crate::reference_laws::{mentions_are_what_a_step_reads, step_mentions};
use crate::redirects::{chunk_taken, length_is_taken};
use crate::replay::{answered_from, next_record, record_answer, ReplayRecord, RequestConfig};
use crate::retries::RetryCounts;
use crate::run_laws::the_first_step_of_an_id_is_found;
use crate::scheduler::{
    after_reference_run, left_after, next_selected, AfterView, RunStepView, SelectedRun,
};
use crate::trace_laws::the_first_unused_record_answers;
use crate::transport::{client_for, entry_covers, host_key, ClientChoice, TransportPolicy};
use crate::transport_laws::covering_exceptions_are_found;
use crate::web_url::url_port;
use crate::workflow_run::{chosen_to_run, has_error, inputs_taken, other_refs};
use vstd::prelude::*;
use vstd::string::*;

verus! {

// ---------------------------------------------------------------------
// Selecting an action
// ---------------------------------------------------------------------

/// How far selection has come, counted down.
pub open spec fn selection_left(actions: Seq<OnAction>, s: Selection) -> (int, int) {
    match s {
        Selection::Gate { action_index } => (
            actions.len() - action_index,
            actions[action_index as int].criteria@.len() as int + 1,
        ),
        Selection::Criterion { action_index, criterion_index } => (
            actions.len() - action_index,
            actions[action_index as int].criteria@.len() - criterion_index,
        ),
        _ => (0, 0),
    }
}

/// Whether selection stands at an action or a criterion that there is.
pub open spec fn stands_somewhere(actions: Seq<OnAction>, s: Selection) -> bool {
    match s {
        Selection::Gate { action_index } => action_index < actions.len(),
        Selection::Criterion { action_index, criterion_index } => action_index < actions.len()
            && criterion_index < actions[action_index as int].criteria@.len(),
        _ => true,
    }
}

/// Where selection ends, step by step: it passes every checkpoint, and learns
/// of every criterion that it comes to whether it holds.
pub open spec fn walked(
    actions: Seq<OnAction>,
    matched: Seq<Vec<bool>>,
    s: Selection,
    fuel: nat,
) -> Selection
    decreases fuel,
{
    if fuel == 0 {
        s
    } else {
        match s {
            Selection::Gate { action_index } => walked(
                actions,
                matched,
                selection_past_gate(actions, action_index),
                (fuel - 1) as nat,
            ),
            Selection::Criterion { action_index, criterion_index } => walked(
                actions,
                matched,
                selection_past_criterion(
                    actions,
                    action_index,
                    criterion_index,
                    criterion_held(matched, action_index as int, criterion_index as int),
                ),
                (fuel - 1) as nat,
            ),
            _ => s,
        }
    }
}

/// Whether selection may still end at an action: what came before it does not
/// apply, and the criteria before the one it stands at hold.
pub open spec fn on_the_way(
    actions: Seq<OnAction>,
    matched: Seq<Vec<bool>>,
    start: int,
    s: Selection,
) -> bool {
    match s {
        Selection::Gate { action_index } => start <= action_index < actions.len() && forall|j: int|
            start <= j < action_index ==> !(#[trigger] action_applies(actions, matched, j)),
        Selection::Criterion { action_index, criterion_index } => {
            &&& start <= action_index < actions.len()
            &&& criterion_index < actions[action_index as int].criteria@.len()
            &&& forall|j: int|
                start <= j < action_index ==> !(#[trigger] action_applies(actions, matched, j))
            &&& forall|k: int|
                0 <= k < criterion_index ==> #[trigger] criterion_held(
                    matched,
                    action_index as int,
                    k,
                )
        },
        Selection::Selected { action_index } => first_applying(
            actions,
            matched,
            start,
            Some(action_index),
        ),
        Selection::Nothing => first_applying(actions, matched, start, None),
    }
}

proof fn one_step_on(
    actions: Seq<OnAction>,
    matched: Seq<Vec<bool>>,
    start: int,
    s: Selection,
) -> (next: Selection)
    requires
        on_the_way(actions, matched, start, s),
        0 <= start,
        s is Gate || s is Criterion,
        actions.len() <= usize::MAX,
    ensures
        next == (match s {
            Selection::Gate { action_index } => selection_past_gate(actions, action_index),
            Selection::Criterion { action_index, criterion_index } => selection_past_criterion(
                actions,
                action_index,
                criterion_index,
                criterion_held(matched, action_index as int, criterion_index as int),
            ),
            _ => s,
        }),
        on_the_way(actions, matched, start, next),
{
    match s {
        Selection::Gate { action_index } => {
            let next = selection_past_gate(actions, action_index);
            if actions[action_index as int].criteria@.len() == 0 {
                assert(action_applies(actions, matched, action_index as int));
            }
            next
        },
        Selection::Criterion { action_index, criterion_index } => {
            let i = action_index as int;
            let c = criterion_index as int;
            let held = criterion_held(matched, i, c);
            let next = selection_past_criterion(actions, action_index, criterion_index, held);
            if !held {
                assert(!action_applies(actions, matched, i));
                assert forall|j: int| start <= j < i + 1 implies !(#[trigger] action_applies(
                    actions,
                    matched,
                    j,
                )) by {}
            } else {
                assert forall|k: int| 0 <= k < c + 1 implies #[trigger] criterion_held(
                    matched,
                    i,
                    k,
                ) by {}
                if c + 1 >= actions[i].criteria@.len() {
                    assert(action_applies(actions, matched, i));
                }
            }
            next
        },
        _ => s,
    }
}

/// Wherever selection ends when it goes on from the start, it has found the
/// first action all of whose criteria hold, or there is none.
pub proof fn selection_finds_the_first_that_applies(
    actions: Seq<OnAction>,
    matched: Seq<Vec<bool>>,
    start: int,
    s: Selection,
    fuel: nat,
)
    requires
        0 <= start,
        actions.len() <= usize::MAX,
        s == selection_from(actions, start) || on_the_way(actions, matched, start, s),
    ensures
        ({
            let end = walked(actions, matched, s, fuel);
            &&& end matches Selection::Selected { action_index } ==> first_applying(
                actions,
                matched,
                start,
                Some(action_index),
            )
            &&& end is Nothing ==> first_applying(actions, matched, start, None)
        }),
    decreases fuel,
{
    if fuel > 0 && (s is Gate || s is Criterion) {
        let next = one_step_on(actions, matched, start, s);
        selection_finds_the_first_that_applies(actions, matched, start, next, (fuel - 1) as nat);
    }
}

/// Every step brings selection nearer to its end.
pub proof fn selection_ends(actions: Seq<OnAction>, s: Selection, held: bool)
    requires
        stands_somewhere(actions, s),
        actions.len() <= usize::MAX,
        forall|i: int|
            0 <= i < actions.len() ==> (#[trigger] actions[i]).criteria@.len() <= usize::MAX,
    ensures
        s matches Selection::Gate { action_index } ==> {
            let next = selection_past_gate(actions, action_index);
            &&& stands_somewhere(actions, next)
            &&& next is Selected || (selection_left(actions, next).0 == selection_left(
                actions,
                s,
            ).0 && selection_left(actions, next).1 < selection_left(actions, s).1)
        },
        s matches Selection::Criterion { action_index, criterion_index } ==> {
            let next = selection_past_criterion(actions, action_index, criterion_index, held);
            &&& stands_somewhere(actions, next)
            &&& next is Selected || next is Nothing || selection_left(actions, next).0
                < selection_left(actions, s).0 || (selection_left(actions, next).0
                == selection_left(actions, s).0 && selection_left(actions, next).1
                < selection_left(actions, s).1)
        },
{
}

// ---------------------------------------------------------------------
// Waiting for a retry
// ---------------------------------------------------------------------

/// A retry with a delay is never done before it has waited: behind the first
/// checkpoint it comes to the second, behind that it sleeps, and only behind
/// the sleep it is what was decided. One without a delay is done at once.
pub proof fn a_retry_waits_before_it_is_made(
    p: PendingRetry,
    gate: Result<(), RuntimeError>,
    interrupt: Interrupt,
    selected: ActionStep,
    delayed: ActionStep,
)
    requires
        gate is Ok,
        !interrupt.cancelled,
        selected_passed(p, gate, interrupt, selected),
        delay_passed(p, gate, interrupt, delayed),
    ensures
        p.delay_nanos > 0 ==> selected == ActionStep::GateDelay(p),
        p.delay_nanos == 0 ==> (selected matches ActionStep::Finished(e) && e@ == p.outcome@),
        delayed == ActionStep::Sleep(p),
        sleep_passed(p, gate, interrupt) == p.outcome@,
{
}

/// A retry that is called off on its way, or whose checkpoint fails, ends with
/// the error of that.
pub proof fn a_retry_can_be_called_off(
    p: PendingRetry,
    gate: Result<(), RuntimeError>,
    interrupt: Interrupt,
    selected: ActionStep,
    delayed: ActionStep,
)
    requires
        selected_passed(p, gate, interrupt, selected),
        delay_passed(p, gate, interrupt, delayed),
        gate is Err || interrupt.cancelled,
    ensures
        selected matches ActionStep::Finished(e) && (e@ matches ExecutionView::Routed(d) && (
        d.flow matches FlowView::Error(x) && (gate matches Err(g) ==> x == g@))),
        delayed matches ActionStep::Finished(e) && (e@ matches ExecutionView::Routed(d)
            && d.flow is Error),
        sleep_passed(p, gate, interrupt) matches ExecutionView::Routed(d) && d.flow is Error,
{
}

/// Routing on from one action to the next comes to what routing over all of
/// them does: what an action decided stands, and a failure action whose retries
/// ran out hands over to the one behind it.
pub proof fn routing_goes_on_action_by_action(
    step_id: Seq<char>,
    step_idx: int,
    result: StepResult,
    answers: Seq<Option<ActionExecution>>,
    i: usize,
    seen: Option<ExhaustedRetry>,
    interrupt: Interrupt,
    r: RoutingStep,
)
    requires
        0 <= i < answers.len(),
        i < usize::MAX,
        answers[i as int] is Some,
        !interrupt.cancelled,
        action_passed(
            step_id,
            result.success,
            i,
            answers[i as int]->0@,
            interrupt,
            r,
        ),
    ensures
        r matches RoutingStep::Routed(d) ==> d@ == routed_from(
            step_id,
            step_idx,
            result,
            answers,
            i as int,
            seen,
        ),
        r matches RoutingStep::SearchFrom { action_index, exhausted } ==> action_index == i + 1
            && !result.success && routed_from(
            step_id,
            step_idx,
            result,
            answers,
            i as int,
            seen,
        ) == routed_from(
            step_id,
            step_idx,
            result,
            answers,
            action_index as int,
            Some(exhausted),
        ),
{
}

// ---------------------------------------------------------------------
// Runs
// ---------------------------------------------------------------------

/// A retry inside a level is counted once more than before and made; every
/// other decision settles the step as it is.
pub proof fn levels_count_their_retries(
    before: RetryCounts,
    after: RetryCounts,
    flow: crate::actions::FlowDecision,
    r: LevelStep,
    site: crate::retries::RetrySite,
)
    requires
        level_attempt_taken(before, after, flow, r),
    ensures
        r is Retried == flow@ is Retry,
        r matches LevelStep::Settled(f) ==> f == flow && after == before,
        r matches LevelStep::Retried(s) ==> s.attempt == after.count(flow@->retry_site)
            && after.count(flow@->retry_site) == before.count(flow@->retry_site) + 1 && s.delay_nanos
            == flow@->delay_nanos && s.max_attempts == flow@->retry_limit,
        site != flow@->retry_site || !(flow@ is Retry) ==> after.count(site) == before.count(site),
{
}

/// Every attempt uses one up of those that are left, so a run ends.
pub proof fn attempts_run_out(left: u128)
    ensures
        left > 0 ==> left_after(left) == left - 1,
        left == 0 ==> left_after(left) == 0,
{
}

/// A run of selected steps tries the step at its cursor, and no other.
pub proof fn a_selection_tries_the_step_it_stands_at(run: SelectedRun, interrupt: Interrupt)
    ensures
        next_selected(run, interrupt) is Attempt == (run.left > 0 && !interrupt.cancelled
            && run.cursor < run.steps@.len()),
        next_selected(run, interrupt) matches RunStepView::Attempt(i) ==> i
            == run.steps@[run.cursor as int],
        next_selected(run, interrupt) is Failed == (run.left > 0 && interrupt.cancelled),
{
}

/// What runs before a retry decides on it: where it failed the run fails with
/// its error, and otherwise the step is tried again.
pub proof fn a_reference_decides_on_its_retry(
    outcome: Result<(), ErrorView>,
    step_idx: usize,
    count: u64,
    limit: u64,
    delay: u128,
    interrupt: Interrupt,
)
    ensures
        ({
            let r = after_reference_run(outcome, step_idx, count, limit, delay, interrupt);
            &&& !interrupt.cancelled && outcome is Ok ==> (r matches AfterView::Retried {
                step_idx: again,
                attempt,
                max_attempts,
                delay_nanos,
            } && again == step_idx && attempt == count + 1 && max_attempts == limit && delay_nanos
                == delay)
            &&& !interrupt.cancelled ==> (outcome matches Err(e) ==> r == AfterView::Failed(e))
            &&& interrupt.cancelled ==> r is Failed
        }),
{
}

// ---------------------------------------------------------------------
// Inputs
// ---------------------------------------------------------------------

/// A workflow that checks strictly does not start where an input is missing,
/// mistyped or not of its enumeration, and one that does not check strictly
/// always starts, with its defaults filled in.
pub proof fn strict_workflows_start_with_valid_inputs(
    w: Workflow,
    schema: SchemaObject,
    given: Map<Seq<char>, JsonView>,
    strict: bool,
    names: Seq<Seq<char>>,
    name: Seq<char>,
)
    requires
        w.inputs == Some(schema),
        schema.properties.wf(),
    ensures
        !strict ==> (inputs_taken(w, given, strict, names) matches Ok(v) && v.0 == completed_inputs(
            schema,
            given,
        )),
        strict && (lacks(schema, completed_inputs(schema, given), name) || mistyped(
            schema,
            completed_inputs(schema, given),
            name,
        ) || unlisted(schema, completed_inputs(schema, given), name)) ==> (inputs_taken(
            w,
            given,
            strict,
            names,
        ) matches Err(e) && e.kind == RuntimeErrorKind::InputValidation),
        inputs_taken(w, given, strict, names) matches Ok(v) ==> v.0 == completed_inputs(
            schema,
            given,
        ),
{
    let m = completed_inputs(schema, given);
    let issues = input_issues(schema, given, names);
    let message = if lacks(schema, m, name) {
        "required input is missing"@
    } else if unlisted(schema, m, name) {
        "value is not one of the declared enum values"@
    } else {
        "expected type "@ + declared_type(schema.properties@[name].type_->0) + ", got "@ + own_type(
            m[name],
        )
    };
    let e = InputIssueView { severity: InputIssueSeverity::Error, field: name, message };
    inputs_are_refused_for_what_is_declared(schema, given, names, e);
    if lacks(schema, m, name) || mistyped(schema, m, name) || unlisted(schema, m, name) {
        assert(issues.contains(e));
        let at = issues.index_of(e);
        assert(issues[at].severity is Error);
        assert(has_error(issues));
    }
}

/// A workflow that declares no inputs takes every input as it is.
pub proof fn undeclared_workflows_take_everything(
    w: Workflow,
    given: Map<Seq<char>, JsonView>,
    strict: bool,
    names: Seq<Seq<char>>,
)
    requires
        w.inputs is None,
    ensures
        inputs_taken(w, given, strict, names) matches Ok(v) && v.0 == given && v.1.len() == 0,
{
}

/// A single step without what it mentions runs alone, and only where it
/// mentions no other step.
pub proof fn a_step_alone_mentions_no_other(
    w: Workflow,
    at: int,
    name: Seq<char>,
    r: Result<Seq<usize>, ErrorView>,
)
    requires
        w.steps@.len() <= usize::MAX,
        0 <= at < w.steps@.len(),
        forall|j: int| 0 <= j < at ==> (#[trigger] w.steps@[j]).step_id@ != w.steps@[at].step_id@,
        chosen_to_run(w, w.steps@[at].step_id@, true, r),
    ensures
        name != w.steps@[at].step_id@ && step_mentions(w.steps@[at], name) ==> (r matches Err(e)
            && e.kind == RuntimeErrorKind::StepMissingDependency),
        r matches Ok(v) ==> v == seq![at as usize],
{
    let id = w.steps@[at].step_id@;
    the_first_step_of_an_id_is_found(w.steps@, id, 0);
    let f = crate::workflow_run::first_step(w.steps@, id, 0);
    if f < at {
        assert(w.steps@[f].step_id@ != id);
    }
    if f > at {
        assert(w.steps@[at].step_id@ != id);
    }
    mentions_are_what_a_step_reads(w.steps@[at], name);
    let names = choose|names: Seq<Seq<char>>| #[trigger]
        other_refs(w.steps@[at], names) && if names.len() > 0 {
            r matches Err(e) && e == crate::workflow_run::missing_dependency(id, names)
        } else {
            r matches Ok(v) && v == seq![at as usize]
        };
    if name != id && step_mentions(w.steps@[at], name) {
        assert(names.contains(name));
        assert(names[names.index_of(name)] == name);
    }
}

/// A step that is not there cannot be run.
pub proof fn an_unknown_step_cannot_run(
    w: Workflow,
    id: Seq<char>,
    no_deps: bool,
    r: Result<Seq<usize>, ErrorView>,
)
    requires
        forall|j: int| 0 <= j < w.steps@.len() ==> (#[trigger] w.steps@[j]).step_id@ != id,
        chosen_to_run(w, id, no_deps, r),
    ensures
        r matches Err(e) && e.kind == RuntimeErrorKind::StepNotFound,
{
    the_first_step_of_an_id_is_found(w.steps@, id, 0);
}

// ---------------------------------------------------------------------
// Transport
// ---------------------------------------------------------------------

/// Certificates go unverified exactly where everything is excepted, or the host
/// of the URL is.
pub proof fn certificates_are_verified_but_for_exceptions(
    policy: TransportPolicy,
    url: Seq<char>,
    host: Seq<char>,
)
    requires
        host_key(url) == Some(host),
    ensures
        (client_for(policy, url) == ClientChoice::Insecure) == (policy.insecure_all || exists|i: int|
            0 <= i < policy.insecure_hosts.keys().len() && entry_covers(
                #[trigger] policy.insecure_hosts.keys()[i],
                host,
                url_port(url),
            )),
{
    covering_exceptions_are_found(policy.insecure_hosts.keys(), host, url_port(url), 0);
}

/// A response is taken in up to the limit, to the last byte of it, and no byte
/// further.
pub proof fn responses_are_taken_up_to_the_limit(
    body: Seq<u8>,
    chunk: Seq<u8>,
    length: u64,
    max: usize,
)
    ensures
        body.len() + chunk.len() <= max ==> chunk_taken(body, chunk, max) == Some(body + chunk),
        body.len() + chunk.len() > max ==> chunk_taken(body, chunk, max) is None,
        length_is_taken(Some(length), max) == (length <= max),
        length_is_taken(None, max),
{
}

/// A record answers one request: the next request of the step is answered from
/// another.
pub proof fn a_record_answers_once(
    before: Seq<ReplayRecord>,
    after: Seq<ReplayRecord>,
    cfg: RequestConfig,
    answer: Result<ResponseView, ErrorView>,
    at: int,
)
    requires
        answered_from(before, after, cfg, answer),
        0 <= at < before.len(),
        before[at].workflow_id@ == cfg.workflow_id@,
        before[at].step_id@ == cfg.step_id@,
        !before[at].used,
        forall|j: int|
            0 <= j < at ==> !((#[trigger] before[j]).workflow_id@ == cfg.workflow_id@
                && before[j].step_id@ == cfg.step_id@ && !before[j].used),
    ensures
        answer == record_answer(before[at], cfg),
        next_record(after, cfg.workflow_id@, cfg.step_id@, 0) > at,
{
    let w = cfg.workflow_id@;
    let s = cfg.step_id@;
    the_first_unused_record_answers(before, w, s, 0);
    let f = next_record(before, w, s, 0);
    if f < at {
        assert(!(before[f].workflow_id@ == w && before[f].step_id@ == s && !before[f].used));
    }
    if f > at {
        assert(!(before[at].workflow_id@ == w && before[at].step_id@ == s && !before[at].used));
    }
    the_first_unused_record_answers(after, w, s, 0);
    let g = next_record(after, w, s, 0);
    if g < at {
        assert(after[g] == before[g]);
        assert(!(before[g].workflow_id@ == w && before[g].step_id@ == s && !before[g].used));
    }
}

/// A request of a step without unused records is refused.
pub proof fn a_replay_runs_out(
    before: Seq<ReplayRecord>,
    after: Seq<ReplayRecord>,
    cfg: RequestConfig,
    answer: Result<ResponseView, ErrorView>,
)
    requires
        answered_from(before, after, cfg, answer),
        forall|j: int|
            0 <= j < before.len() ==> !((#[trigger] before[j]).workflow_id@ == cfg.workflow_id@
                && before[j].step_id@ == cfg.step_id@ && !before[j].used),
    ensures
        answer matches Err(e) && e.kind == RuntimeErrorKind::ReplayTraceExhausted,
{
    the_first_unused_record_answers(before, cfg.workflow_id@, cfg.step_id@, 0);
    let f = next_record(before, cfg.workflow_id@, cfg.step_id@, 0);
    if f < before.len() {
        assert(!(before[f].workflow_id@ == cfg.workflow_id@ && before[f].step_id@ == cfg.step_id@
            && !before[f].used));
    }
}

// ---------------------------------------------------------------------
// Debugging
// ---------------------------------------------------------------------

/// Execution is held where a breakpoint stops it or a pause was asked for, and
/// nowhere else.
pub proof fn execution_is_held_for_a_reason(
    c: DebugController,
    holds: Seq<bool>,
    workflow_id: Seq<char>,
    step_id: Seq<char>,
    checkpoint: StepCheckpoint,
    i: int,
)
    ensures
        c.pause_requested ==> gate_holds(c, holds, workflow_id, step_id, checkpoint),
        0 <= i < c.breakpoints@.len() && stops_at(
            c.breakpoints@,
            holds,
            i,
            workflow_id,
            step_id,
            checkpoint,
        ) ==> gate_holds(c, holds, workflow_id, step_id, checkpoint),
        !c.pause_requested && (forall|j: int|
            0 <= j < c.breakpoints@.len() ==> !(#[trigger] stops_at(
                c.breakpoints@,
                holds,
                j,
                workflow_id,
                step_id,
                checkpoint,
            ))) ==> !gate_holds(c, holds, workflow_id, step_id, checkpoint),
{
}

/// Execution that was stopped goes on behind one resumption and not before it,
/// and then nothing of the permit is left.
pub proof fn a_stop_ends_with_a_resumption(
    before: DebugController,
    held: DebugController,
    workflow_id: Seq<char>,
    step_id: Seq<char>,
    reason: DebugStopReason,
    condition: Option<String>,
)
    requires
        !before.continue_permit,
        stopped(before, held, workflow_id, step_id, reason, condition),
    ensures
        gate_left(held) == held,
        ({
            let on = gate_left(resumed(held));
            &&& !on.waiting
            &&& !on.continue_permit
            &&& !on.pause_requested
            &&& on.stop_events == held.stop_events
            &&& on.breakpoints == held.breakpoints
        }),
{
}

} // verus!
