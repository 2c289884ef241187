//! What holds of a run: which steps it takes, what it stores, and what a
//! workflow hands to another.

use crate::actions::{FlowView, Interrupt, ReferenceView};
use crate::deps::{cycle_error, is_step_named, needed_by, step_not_found};
use crate::error::{cancellation, ErrorView, RuntimeError, RuntimeErrorKind};
use crate::outcome::{failed_with, StepExecution};
use crate::json::JsonView;
use crate::levels::{fallback_of, level_decision, level_settled};
use crate::model::{
    ActionType, Literal, OnAction, OutputValue, Parameter, Step, StepTarget, Workflow,
};
use crate::payload::{resolved, selector_resolved, Answers};
use crate::scheduler::StepOutcome;
use crate::reference_laws::{a_step_needs_what_it_mentions, keeps_order, levels_are_for_workflows_without_jumps, only_retries, step_mentions};
use crate::retries::{attempt_budget, iteration_limit, retry_budget, RetryCounts, RetrySite};
use crate::scheduler::{
    after_flow, after_reference_selected, after_selected, counts_after, counts_as_completed, cursor_after, index_after, next_step, position_at_least,
    position_of, AfterView, RunStepView, SelectedRun, SequentialRun,
};
use crate::subworkflows::{
    action_inputs, after_call, asked_expression, call_failure, reference_failure, sub_input_value, sub_inputs_of,
    text_at, workflow_outputs,
};
use crate::text::{occurs_in, stands_at};
use crate::text_map::{entries_are_pairs, TextMap};
use crate::json::Json;
use crate::json_text::plain_text;
use crate::trace::{json_map_view, keys_are_distinct};
use crate::vars::{outputs_of, with_outputs, VarsView};
use crate::workflow_run::{
    entry_refusal, first_step, inherited, is_satisfied, listed, merged_parameters, steps_needed,
    unsatisfied_from, WorkflowDependency,
};
use vstd::prelude::*;
use vstd::string::*;

verus! {

// ---------------------------------------------------------------------
// One step after the other
// ---------------------------------------------------------------------

/// A run tries the step that it stands at, is complete behind the last, and
/// fails where it was called off or has used up its iterations; it never tries
/// another step.
pub proof fn a_run_tries_the_step_it_stands_at(
    run: SequentialRun,
    w: Workflow,
    interrupt: Interrupt,
)
    ensures
        next_step(run, w, interrupt) is Completed == (run.left > 0 && !interrupt.cancelled
            && run.step_index >= w.steps@.len()),
        next_step(run, w, interrupt) is Attempt == (run.left > 0 && !interrupt.cancelled
            && run.step_index < w.steps@.len()),
        next_step(run, w, interrupt) matches RunStepView::Attempt(i) ==> i == run.step_index,
        run.left == 0 ==> (next_step(run, w, interrupt) matches RunStepView::Failed(e) && e.kind
            == RuntimeErrorKind::IterationLimitExceeded),
        run.left > 0 && interrupt.cancelled ==> next_step(run, w, interrupt)
            == RunStepView::Failed(cancellation(interrupt.timed_out)),
{
}

/// What was decided is carried out: `Next` moves to its step, a retry stays
/// with its step and is counted, and every other decision ends the run the way
/// it says. A cancellation outranks all of them.
pub proof fn decisions_are_carried_out(
    index: usize,
    flow: FlowView,
    counts: RetryCounts,
    interrupt: Interrupt,
)
    ensures
        interrupt.cancelled ==> after_flow(flow, counts, interrupt) == AfterView::Failed(
            cancellation(interrupt.timed_out),
        ) && index_after(index, flow, interrupt) == index,
        !interrupt.cancelled ==> {
            let next = after_flow(flow, counts, interrupt);
            &&& flow matches FlowView::Next(i) ==> next is Continue && index_after(
                index,
                flow,
                interrupt,
            ) == i
            &&& flow is Done ==> next is Completed
            &&& flow matches FlowView::Error(e) ==> next == AfterView::Failed(e)
            &&& flow matches FlowView::GotoWorkflow { workflow_id, inputs } ==> next
                == (AfterView::Goto { workflow_id, inputs })
            &&& flow matches FlowView::Retry {
                step_idx,
                retry_site,
                retry_limit,
                delay_nanos,
                reference,
            } ==> {
                &&& reference is None ==> index_after(index, flow, interrupt) == step_idx && (
                next matches AfterView::Retried {
                    step_idx: again,
                    attempt,
                    max_attempts,
                    delay_nanos: wait,
                } && again == step_idx && attempt == counts.count(retry_site) + 1 && max_attempts
                    == retry_limit && wait == delay_nanos)
                &&& reference is Some ==> (next matches AfterView::Reference {
                    step_idx: again,
                    retry_site: site,
                    retry_limit: limit,
                    delay_nanos: wait,
                    reference: first,
                } && again == step_idx && site == retry_site && limit == retry_limit && wait
                    == delay_nanos && reference == Some(first))
            }
        },
{
}

/// Budgets of lists of actions add up; a retry adds what it allows, which is
/// one where it does not say, and every other action adds nothing.
pub proof fn retry_budgets_add_up(a: Seq<OnAction>, b: Seq<OnAction>, one: OnAction)
    ensures
        retry_budget(a + b) == retry_budget(a) + retry_budget(b),
        one.type_ == ActionType::Retry ==> (one.retry_limit matches Some(n) ==> retry_budget(
            seq![one],
        ) == n),
        one.type_ == ActionType::Retry && one.retry_limit is None ==> retry_budget(seq![one]) == 1,
        one.type_ != ActionType::Retry ==> retry_budget(seq![one]) == 0,
    decreases b.len(),
{
    if b.len() == 0 {
        assert(a + b =~= a);
    } else {
        retry_budgets_add_up(a, b.drop_last(), one);
        assert((a + b).drop_last() =~= a + b.drop_last());
    }
    assert(seq![one].drop_last() =~= Seq::<OnAction>::empty());
    reveal_with_fuel(retry_budget, 2);
}

/// Attempts add up over steps: each step is tried once, and again as often as
/// the failure actions that apply to it allow.
pub proof fn attempts_add_up(a: Seq<&Step>, b: Seq<&Step>, one: &Step, shared: Seq<OnAction>)
    ensures
        attempt_budget(a + b, shared) == attempt_budget(a, shared) + attempt_budget(b, shared),
        one.on_failure@.len() > 0 ==> attempt_budget(seq![one], shared) == 1 + retry_budget(
            one.on_failure@,
        ),
        one.on_failure@.len() == 0 ==> attempt_budget(seq![one], shared) == 1 + retry_budget(
            shared,
        ),
    decreases b.len(),
{
    if b.len() == 0 {
        assert(a + b =~= a);
    } else {
        attempts_add_up(a, b.drop_last(), one, shared);
        assert((a + b).drop_last() =~= a + b.drop_last());
    }
    assert(seq![one].drop_last() =~= Seq::<&Step>::empty());
    reveal_with_fuel(attempt_budget, 2);
}

/// A run has twice the iterations that its attempts can take, and never fewer
/// than ten for each step.
pub proof fn a_run_has_room(steps: Seq<&Step>, shared: Seq<OnAction>)
    requires
        20 * steps.len() + 4 * attempt_budget(steps, shared) < u128::MAX,
    ensures
        iteration_limit(steps, shared) >= 2 * attempt_budget(steps, shared),
        iteration_limit(steps, shared) >= 10 * steps.len(),
        iteration_limit(steps, shared) == 2 * attempt_budget(steps, shared) || iteration_limit(
            steps,
            shared,
        ) == 10 * steps.len(),
{
}

proof fn position_found(list: Seq<usize>, n: usize, from: int)
    requires
        0 <= from <= list.len(),
    ensures
        from <= position_of(list, n, from) <= list.len(),
        position_of(list, n, from) < list.len() ==> list[position_of(list, n, from)] == n,
        forall|j: int| from <= j < position_of(list, n, from) ==> list[j] != n,
    decreases list.len() - from,
{
    if from < list.len() && list[from] != n {
        position_found(list, n, from + 1);
    }
}

proof fn position_reached(list: Seq<usize>, n: usize, from: int)
    requires
        0 <= from <= list.len(),
    ensures
        from <= position_at_least(list, n, from) <= list.len(),
        position_at_least(list, n, from) < list.len() ==> list[position_at_least(list, n, from)]
            >= n,
        forall|j: int| from <= j < position_at_least(list, n, from) ==> list[j] < n,
    decreases list.len() - from,
{
    if from < list.len() && list[from] < n {
        position_reached(list, n, from + 1);
    }
}

/// A run of selected steps goes on with the step that is next, or with the
/// first selected one behind it, and is complete where there is none.
pub proof fn a_selection_goes_on_in_order(run: SelectedRun, i: usize, interrupt: Interrupt, k: int)
    requires
        !interrupt.cancelled,
        0 <= k <= run.steps@.len(),
        forall|j: int| 0 <= j < k ==> run.steps@[j] < i,
        forall|j: int| k <= j < run.steps@.len() ==> run.steps@[j] >= i,
        forall|j: int, l: int|
            0 <= j < l < run.steps@.len() ==> #[trigger] run.steps@[j] < #[trigger] run.steps@[l],
    ensures
        k < run.steps@.len() ==> after_selected(run, FlowView::Next(i), interrupt) is Continue
            && cursor_after(run, FlowView::Next(i), interrupt) == k,
        k == run.steps@.len() ==> after_selected(run, FlowView::Next(i), interrupt) is Completed,
{
    position_found(run.steps@, i, 0);
    position_reached(run.steps@, i, 0);
    let p = position_of(run.steps@, i, 0);
    let q = position_at_least(run.steps@, i, 0);
    if q < k {
        assert(run.steps@[q] < i);
    }
    if q > k {
        assert(run.steps@[k] < i);
    }
    if p < run.steps@.len() {
        if p < k {
            assert(run.steps@[p] < i);
        }
        if p > k {
            assert(run.steps@[k] < run.steps@[p]);
        }
    }
}

/// A retry of a selected step stays with it; one of another step fails.
pub proof fn a_selection_retries_its_own_steps(run: SelectedRun, flow: FlowView, interrupt: Interrupt, k: int)
    requires
        !interrupt.cancelled,
        flow matches FlowView::Retry { step_idx, retry_site, retry_limit, delay_nanos, reference }
            && {
            &&& 0 <= k < run.steps@.len() ==> run.steps@[k] == step_idx && forall|j: int|
                0 <= j < k ==> run.steps@[j] != step_idx
            &&& k == -1 ==> forall|j: int| 0 <= j < run.steps@.len() ==> run.steps@[j] != step_idx
        },
        -1 <= k < run.steps@.len(),
    ensures
        0 <= k ==> after_selected(run, flow, interrupt) == after_flow(
            flow,
            run.retry_count,
            interrupt,
        ),
        0 <= k && flow->reference is None ==> cursor_after(run, flow, interrupt) == k,
        k == -1 ==> (after_selected(run, flow, interrupt) matches AfterView::Failed(e) && e.kind
            == RuntimeErrorKind::GotoTargetNotFound),
{
    position_found(run.steps@, flow->step_idx, 0);
}

/// In a run of selected steps a retry behind what runs before it is made where
/// its step is selected, and fails where it is not.
pub proof fn a_selection_retries_its_own_steps_behind_a_reference(
    run: SelectedRun,
    outcome: Result<(), ErrorView>,
    step_idx: usize,
    site: RetrySite,
    limit: u64,
    delay: u128,
    interrupt: Interrupt,
)
    requires
        !interrupt.cancelled,
    ensures
        ({
            let r = after_reference_selected(
                run,
                outcome,
                step_idx,
                site,
                limit,
                delay,
                interrupt,
            );
            &&& outcome matches Err(e) ==> r == AfterView::Failed(e)
            &&& outcome is Ok && run.steps@.contains(step_idx) ==> (r matches AfterView::Retried {
                step_idx: again,
                attempt,
                max_attempts,
                delay_nanos,
            } && again == step_idx && attempt == run.retry_count.count(site) + 1 && max_attempts
                == limit && delay_nanos == delay)
            &&& outcome is Ok && !run.steps@.contains(step_idx) ==> r is Failed
        }),
{
    position_found(run.steps@, step_idx, 0);
    if run.steps@.contains(step_idx) {
        assert(run.steps@[run.steps@.index_of(step_idx)] == step_idx);
    }
}

// ---------------------------------------------------------------------
// What is stored
// ---------------------------------------------------------------------

proof fn outputs_are_stored_upto(
    v: VarsView,
    step_id: Seq<char>,
    outputs: TextMap<Json>,
    n: nat,
    name: Seq<char>,
    other: Seq<char>,
)
    requires
        outputs.wf(),
        n <= outputs.keys().len(),
        other != step_id,
    ensures
        ({
            let w = with_outputs(v, step_id, outputs, n);
            &&& w.inputs == v.inputs
            &&& w.workflows == v.workflows
            &&& outputs_of(w, other) == outputs_of(v, other)
            &&& forall|i: int|
                0 <= i < n ==> outputs_of(w, step_id).contains_key(#[trigger] outputs.keys()[i])
                    && outputs_of(w, step_id)[outputs.keys()[i]] == outputs.values()[i]@
            &&& (forall|i: int| 0 <= i < n ==> #[trigger] outputs.keys()[i] != name) ==> outputs_of(
                w,
                step_id,
            ).contains_key(name) == outputs_of(v, step_id).contains_key(name) && outputs_of(
                w,
                step_id,
            )[name] == outputs_of(v, step_id)[name]
        }),
    decreases n,
{
    if n > 0 {
        outputs_are_stored_upto(v, step_id, outputs, (n - 1) as nat, name, other);
        keys_are_distinct(outputs);
        let before = with_outputs(v, step_id, outputs, (n - 1) as nat);
        let w = with_outputs(v, step_id, outputs, n);
        assert forall|i: int| 0 <= i < n implies outputs_of(w, step_id).contains_key(
            #[trigger] outputs.keys()[i],
        ) && outputs_of(w, step_id)[outputs.keys()[i]] == outputs.values()[i]@ by {
            if i < n - 1 {
                assert(outputs.keys()[i] != outputs.keys()[n - 1]);
            }
        }
        if forall|i: int| 0 <= i < n ==> #[trigger] outputs.keys()[i] != name {
            assert(outputs.keys()[n - 1] != name);
        }
    }
}

/// Storing the outputs of a step makes each of them known under its name, and
/// leaves the inputs, the other steps, and what the step had before alone.
pub proof fn stored_outputs_are_known(
    v: VarsView,
    step_id: Seq<char>,
    outputs: TextMap<Json>,
    name: Seq<char>,
    other: Seq<char>,
)
    requires
        outputs.wf(),
        other != step_id,
    ensures
        ({
            let w = with_outputs(v, step_id, outputs, outputs.keys().len());
            &&& outputs@.contains_key(name) ==> outputs_of(w, step_id).contains_key(name)
                && outputs_of(w, step_id)[name] == outputs@[name]@
            &&& !outputs@.contains_key(name) ==> outputs_of(w, step_id).contains_key(name)
                == outputs_of(v, step_id).contains_key(name) && outputs_of(w, step_id)[name]
                == outputs_of(v, step_id)[name]
            &&& outputs_of(w, other) == outputs_of(v, other)
            &&& w.inputs == v.inputs
            &&& w.workflows == v.workflows
        }),
{
    let n = outputs.keys().len();
    outputs_are_stored_upto(v, step_id, outputs, n, name, other);
    if outputs@.contains_key(name) {
        assert(outputs.keys().contains(name));
        let i = outputs.keys().index_of(name);
        assert(outputs.keys()[i] == name);
        entries_are_pairs(outputs, i);
    } else {
        assert forall|i: int| 0 <= i < n implies #[trigger] outputs.keys()[i] != name by {
            entries_are_pairs(outputs, i);
        }
    }
}

proof fn level_goes_on(vars: VarsView, list: Seq<StepOutcome>, n: nat)
    requires
        n <= list.len(),
        forall|j: int| 0 <= j < n ==> (#[trigger] list[j]).flow@ is Next,
    ensures
        level_settled(vars, list, n).end is None,
    decreases n,
{
    if n > 0 {
        level_goes_on(vars, list, (n - 1) as nat);
        assert(list[n - 1].flow@ is Next);
    }
}

/// A level goes on where every one of its steps does; else the first step that
/// does not decides how the workflow ends, and what comes behind it is not
/// taken in.
pub proof fn the_first_that_stops_a_level_decides(
    vars: VarsView,
    list: Seq<StepOutcome>,
    m: int,
)
    requires
        0 <= m <= list.len(),
        forall|j: int| 0 <= j < m ==> (#[trigger] list[j]).flow@ is Next,
        m < list.len() ==> !(list[m].flow@ is Next),
    ensures
        ({
            let v = level_settled(vars, list, list.len());
            &&& m == list.len() ==> v.end is None
            &&& m < list.len() ==> v.end is Some
            &&& m < list.len() && list[m].flow@ is Done ==> v.end == Some(
                Ok::<(), ErrorView>(()),
            ) && v.vars == with_outputs(
                level_settled(vars, list, m as nat).vars,
                list[m].step_id@,
                list[m].outputs,
                list[m].outputs.keys().len(),
            )
            &&& m < list.len() ==> (list[m].flow@ matches FlowView::Error(e) ==> v.end == Some(
                Err::<(), ErrorView>(e),
            ) && v.vars == level_settled(vars, list, m as nat).vars)
        }),
{
    level_goes_on(vars, list, m as nat);
    if m < list.len() {
        crate::levels::first_end_decides(vars, list, (m + 1) as nat, list.len());
    }
}

/// What a step of a level put out is known behind the level, as far as the
/// level got, and the inputs stay.
pub proof fn a_level_stores_its_outputs(
    vars: VarsView,
    list: Seq<StepOutcome>,
    n: nat,
    i: int,
    name: Seq<char>,
)
    requires
        n <= list.len(),
        0 <= i < n,
        forall|j: int| 0 <= j < n ==> (#[trigger] list[j]).flow@ is Next,
        forall|j: int| 0 <= j < n ==> (#[trigger] list[j]).outputs.wf(),
        forall|j: int|
            0 <= j < n && j != i ==> (#[trigger] list[j]).step_id@ != list[i].step_id@,
        list[i].outputs@.contains_key(name),
    ensures
        ({
            let w = level_settled(vars, list, n).vars;
            &&& outputs_of(w, list[i].step_id@).contains_key(name)
            &&& outputs_of(w, list[i].step_id@)[name] == list[i].outputs@[name]@
        }),
    decreases n,
{
    level_goes_on(vars, list, (n - 1) as nat);
    let before = level_settled(vars, list, (n - 1) as nat).vars;
    let last = list[n - 1];
    assert(last.flow@ is Next);
    if i == n - 1 {
        let other = last.step_id@.push('x');
        assert(other.len() != last.step_id@.len());
        stored_outputs_are_known(before, last.step_id@, last.outputs, name, other);
    } else {
        a_level_stores_its_outputs(vars, list, (n - 1) as nat, i, name);
        assert(last.step_id@ != list[i].step_id@);
        stored_outputs_are_known(before, last.step_id@, last.outputs, name, list[i].step_id@);
    }
}

/// A workflow runs in levels exactly where no debugger is attached and nothing
/// in it redirects control flow.
pub proof fn levels_are_left_for_a_reason(w: Workflow, debugger: bool)
    ensures
        fallback_of(w, debugger) is None == {
            &&& !debugger
            &&& forall|i: int| 0 <= i < w.steps@.len() ==> keeps_order(#[trigger] w.steps@[i])
            &&& w.success_actions@.len() == 0
            &&& forall|i: int|
                0 <= i < w.failure_actions@.len() ==> only_retries(
                    #[trigger] w.failure_actions@[i],
                )
        },
        fallback_of(w, debugger) matches Some(f) ==> f.workflow_id == w.workflow_id@,
{
    levels_are_for_workflows_without_jumps(w);
}

/// A decision that a level can carry out stays as it is: going on, ending, an
/// error, and trying the same step again.
pub proof fn levels_keep_plain_decisions(d: crate::actions::RoutedView)
    ensures
        d.flow is Next || d.flow is Done || d.flow is Error ==> level_decision(d) == d,
        d.flow is Retry && d.flow->reference is None ==> level_decision(d) == d,
        d.flow is GotoWorkflow ==> level_decision(d).flow is Error,
        d.flow is Retry && d.flow->reference is Some ==> level_decision(d).flow is Error,
{
}

// ---------------------------------------------------------------------
// Entering a workflow
// ---------------------------------------------------------------------

proof fn first_unsatisfied(
    classes: Seq<WorkflowDependency>,
    completed: Set<Seq<char>>,
    n: int,
    from: int,
)
    requires
        0 <= from <= n,
    ensures
        from <= unsatisfied_from(classes, completed, n, from) <= n,
        (unsatisfied_from(classes, completed, n, from) == n) == forall|i: int|
            from <= i < n ==> i < classes.len() && (#[trigger] classes[i] matches
                WorkflowDependency::Local(id) && completed.contains(id@)),
    decreases n - from,
{
    if from < n {
        if from < classes.len() && is_satisfied(classes[from], completed) {
            first_unsatisfied(classes, completed, n, from + 1);
            if unsatisfied_from(classes, completed, n, from) == n {
                assert forall|i: int| from <= i < n implies i < classes.len() && (
                #[trigger] classes[i] matches WorkflowDependency::Local(id) && completed.contains(
                    id@,
                )) by {
                    if i > from {
                        assert(from + 1 <= i);
                    }
                }
            }
        } else {
            if forall|i: int|
                from <= i < n ==> i < classes.len() && (#[trigger] classes[i] matches
                    WorkflowDependency::Local(id) && completed.contains(id@)) {
                let c = classes[from];
                assert(from < classes.len() && (classes[from] matches WorkflowDependency::Local(id)
                    && completed.contains(id@)));
            }
        }
    }
}

/// A workflow is entered exactly where the execution was not called off, fewer
/// than ten calls are open, it exists, and every workflow that it depends on is
/// one of the document and complete.
pub proof fn a_workflow_is_entered_when_it_may(
    w: Option<Workflow>,
    id: Seq<char>,
    classes: Seq<WorkflowDependency>,
    completed: Set<Seq<char>>,
    depth: nat,
    interrupt: Interrupt,
)
    ensures
        entry_refusal(w, id, classes, completed, depth, interrupt) is None == {
            &&& !interrupt.cancelled
            &&& depth < 10
            &&& w matches Some(x) && forall|i: int|
                0 <= i < x.depends_on@.len() ==> i < classes.len() && (#[trigger] classes[i] matches
                    WorkflowDependency::Local(d) && completed.contains(d@))
        },
        !interrupt.cancelled && depth >= 10 ==> (entry_refusal(
            w,
            id,
            classes,
            completed,
            depth,
            interrupt,
        ) matches Some(e) && e.kind == RuntimeErrorKind::MaxCallDepthExceeded),
        !interrupt.cancelled && depth < 10 && w is None ==> (entry_refusal(
            w,
            id,
            classes,
            completed,
            depth,
            interrupt,
        ) matches Some(e) && e.kind == RuntimeErrorKind::WorkflowNotFound),
        interrupt.cancelled ==> entry_refusal(w, id, classes, completed, depth, interrupt) == Some(
            cancellation(interrupt.timed_out),
        ),
{
    if let Some(x) = w {
        first_unsatisfied(classes, completed, x.depends_on@.len() as int, 0);
    }
}

// ---------------------------------------------------------------------
// Parameters
// ---------------------------------------------------------------------

/// Whether a step declares a parameter of the same name for the same place.
pub open spec fn declares_same(own: Seq<Parameter>, p: Parameter) -> bool {
    exists|i: int|
        0 <= i < own.len() && (#[trigger] own[i]).name@ == p.name@ && own[i].in_ == p.in_
}

proof fn inherits(list: Seq<Parameter>, own: Seq<Parameter>, i: int)
    requires
        0 <= i < list.len(),
    ensures
        !declares_same(own, list[i]) ==> inherited(list, own).contains(list[i]),
    decreases list.len(),
{
    let before = inherited(list.drop_last(), own);
    let now = inherited(list, own);
    if i < list.len() - 1 {
        inherits(list.drop_last(), own, i);
        assert(list.drop_last()[i] == list[i]);
        if before.contains(list[i]) {
            assert(now[before.index_of(list[i])] == list[i]);
        }
    } else {
        if !declares_same(own, list[i]) {
            if crate::workflow_run::is_overridden(list.last(), own) {
                let k = choose|k: int|
                    0 <= k < own.len() && crate::workflow_run::same_place(
                        list.last(),
                        #[trigger] own[k],
                    );
                assert(own[k].name@ == list[i].name@);
            }
            assert(now[now.len() - 1] == list[i]);
        }
    }
}

proof fn inherits_nothing_else(list: Seq<Parameter>, own: Seq<Parameter>, k: int)
    requires
        0 <= k < inherited(list, own).len(),
    ensures
        list.contains(inherited(list, own)[k]),
        !declares_same(own, inherited(list, own)[k]),
    decreases list.len(),
{
    let before = inherited(list.drop_last(), own);
    if k < before.len() {
        inherits_nothing_else(list.drop_last(), own, k);
        let at = list.drop_last().index_of(before[k]);
        assert(list[at] == before[k]);
    } else {
        assert(list[list.len() - 1] == inherited(list, own)[k]);
        if declares_same(own, list.last()) {
            let i = choose|i: int|
                0 <= i < own.len() && (#[trigger] own[i]).name@ == list.last().name@ && own[i].in_
                    == list.last().in_;
            assert(crate::workflow_run::same_place(list.last(), own[i]));
        }
    }
}

/// A step that makes a request has every parameter of its own, and those of its
/// workflow that it does not declare for the same place. A step that calls a
/// workflow has its own alone.
pub proof fn parameters_are_inherited(list: Seq<Parameter>, step: Step, p: Parameter)
    ensures
        step.target matches Some(StepTarget::WorkflowId(_)) ==> merged_parameters(list, step)
            == step.parameters@,
        !(step.target matches Some(StepTarget::WorkflowId(_))) ==> merged_parameters(
            list,
            step,
        ).contains(p) == (step.parameters@.contains(p) || (list.contains(p) && !declares_same(
            step.parameters@,
            p,
        ))),
{
    let own = step.parameters@;
    let up = inherited(list, own);
    let all = up + own;
    if own.contains(p) {
        assert(all[up.len() + own.index_of(p)] == p);
    }
    if list.contains(p) && !declares_same(own, p) {
        let i = list.index_of(p);
        inherits(list, own, i);
        assert(all[up.index_of(p)] == p);
    }
    if all.contains(p) {
        let k = all.index_of(p);
        if k < up.len() {
            assert(up[k] == p);
            inherits_nothing_else(list, own, k);
        } else {
            assert(own[k - up.len()] == p);
        }
    }
}

// ---------------------------------------------------------------------
// Running one step
// ---------------------------------------------------------------------

proof fn listed_members(s: Set<usize>, n: nat, i: usize)
    requires
        n <= usize::MAX + 1,
    ensures
        listed(s, n).contains(i) == (i < n && s.contains(i)),
        forall|a: int| 0 <= a < listed(s, n).len() ==> #[trigger] listed(s, n)[a] < n,
        forall|a: int, b: int|
            0 <= a < b < listed(s, n).len() ==> #[trigger] listed(s, n)[a] < #[trigger] listed(
                s,
                n,
            )[b],
    decreases n,
{
    if n > 0 {
        listed_members(s, (n - 1) as nat, i);
        let before = listed(s, (n - 1) as nat);
        let now = listed(s, n);
        if before.contains(i) {
            assert(now[before.index_of(i)] == i);
        }
        if now.contains(i) {
            let at = now.index_of(i);
            if at < before.len() {
                assert(before[at] == i);
            }
        }
        if i == n - 1 && s.contains(i) {
            assert(now[now.len() - 1] == i);
        }
    }
}

/// A single step runs behind the steps that it mentions, and those that they
/// mention in turn, in the order of the workflow.
pub proof fn a_single_step_runs_behind_what_it_mentions(
    w: Workflow,
    target: int,
    run: Seq<usize>,
    i: int,
    j: int,
)
    requires
        w.steps@.len() <= usize::MAX,
        0 <= target < w.steps@.len(),
        forall|k: int|
            target < k < w.steps@.len() ==> (#[trigger] w.steps@[k]).step_id@
                != w.steps@[target].step_id@,
        steps_needed(w, target, w.steps@[target].step_id@, run),
        0 <= i < w.steps@.len(),
        0 <= j < w.steps@.len(),
        forall|m: int|
            j < m < w.steps@.len() ==> (#[trigger] w.steps@[m]).step_id@ != w.steps@[j].step_id@,
    ensures
        run.contains(target as usize),
        run.contains(i as usize) && step_mentions(w.steps@[i], w.steps@[j].step_id@)
            ==> run.contains(j as usize),
        forall|a: int, b: int|
            0 <= a < b < run.len() ==> #[trigger] run[a] < #[trigger] run[b],
{
    let id = w.steps@[target].step_id@;
    let s = choose|s: Set<usize>|
        #![trigger s.insert(target as usize)]
        (forall|t: int| is_step_named(w.steps@, id, t) ==> #[trigger] needed_by(w, t, s)) && run
            == listed(s.insert(target as usize), w.steps@.len());
    assert(is_step_named(w.steps@, id, target));
    assert(needed_by(w, target, s));
    listed_members(s.insert(target as usize), w.steps@.len(), target as usize);
    listed_members(s.insert(target as usize), w.steps@.len(), i as usize);
    listed_members(s.insert(target as usize), w.steps@.len(), j as usize);
    if run.contains(i as usize) && step_mentions(w.steps@[i], w.steps@[j].step_id@) && j != target {
        a_step_needs_what_it_mentions(w, target, s, i, j);
    }
}

/// A step is looked up by its id: the first that has it.
pub proof fn the_first_step_of_an_id_is_found(steps: Seq<Step>, id: Seq<char>, from: int)
    requires
        0 <= from <= steps.len(),
    ensures
        ({
            let at = first_step(steps, id, from);
            &&& from <= at <= steps.len()
            &&& at < steps.len() ==> steps[at].step_id@ == id
            &&& forall|j: int| from <= j < at ==> (#[trigger] steps[j]).step_id@ != id
        }),
    decreases steps.len() - from,
{
    if from < steps.len() && steps[from].step_id@ != id {
        the_first_step_of_an_id_is_found(steps, id, from + 1);
    }
}

// ---------------------------------------------------------------------
// Calling a workflow
// ---------------------------------------------------------------------

proof fn handed_in(list: Seq<Parameter>, literals: Seq<String>, a: Answers, n: nat, i: int, name: Seq<char>)
    requires
        n <= list.len(),
        -1 <= i < n,
        0 <= i ==> list[i].name@ == name,
        forall|j: int| i < j < n ==> (#[trigger] list[j]).name@ != name,
    ensures
        sub_inputs_of(list, literals, a, n).contains_key(name) == (0 <= i),
        0 <= i ==> sub_inputs_of(list, literals, a, n)[name] == sub_input_value(
            list[i],
            text_at(literals, i),
            a,
        ),
    decreases n,
{
    if n > 0 && i < n - 1 {
        assert(list[n - 1].name@ != name);
        handed_in(list, literals, a, (n - 1) as nat, i, name);
    }
}

/// A called workflow is given every parameter of the step under its name, the
/// last of a name, and nothing else. An expression is handed on as the value
/// that it came to, in braces or not, and a text with expressions inside as the
/// text that it came to.
pub proof fn a_call_hands_its_parameters_on(
    list: Seq<Parameter>,
    literals: Seq<String>,
    a: Answers,
    i: int,
    name: Seq<char>,
    e: Seq<char>,
)
    requires
        literals.len() == list.len(),
        -1 <= i < list.len(),
        0 <= i ==> list[i].name@ == name,
        forall|j: int| i < j < list.len() ==> (#[trigger] list[j]).name@ != name,
    ensures
        ({
            let m = sub_inputs_of(list, literals, a, list.len());
            &&& m.contains_key(name) == (0 <= i)
            &&& 0 <= i && list[i].value is Literal && a.contexts@.contains_key(e) && e.len() > 0
                && e[0] == '$' && (forall|j: int| 0 <= j < e.len() ==> e[j] != '{') && (
            literals[i]@ == e || literals[i]@ == "{"@ + e + "}"@) ==> m[name]
                == a.contexts@[e].value@
            &&& 0 <= i && list[i].value is Literal && a.texts@.contains_key(literals[i]@) && occurs_in(
                literals[i]@,
                "{$"@,
            ) && (literals[i]@[0] != '{' || literals[i]@.last() != '}') ==> m[name]
                == JsonView::Text(plain_text(a.texts@[literals[i]@].value@))
            &&& 0 <= i && list[i].value is Selector ==> m[name] == selector_resolved(
                list[i].value->Selector_0,
                a,
            ).value
        }),
{
    handed_in(list, literals, a, list.len(), i, name);
    if 0 <= i && list[i].value is Literal && occurs_in(literals[i]@, "{$"@) && (literals[i]@[0]
        != '{' || literals[i]@.last() != '}') {
        reveal_strlit("{$");
        let s = literals[i]@;
        let at = choose|at: int| #[trigger] stands_at(s, at, "{$"@);
        assert(s.len() >= 2);
        assert(asked_expression(s) is None);
    }
    if 0 <= i && list[i].value is Literal && e.len() > 0 && e[0] == '$' && (forall|j: int|
        0 <= j < e.len() ==> e[j] != '{') {
        reveal_strlit("{");
        reveal_strlit("}");
        reveal_strlit("{$");
        let s = literals[i]@;
        if s == e {
            assert(!occurs_in(s, "{$"@)) by {
                if occurs_in(s, "{$"@) {
                    let at = choose|at: int| #[trigger] stands_at(s, at, "{$"@);
                    assert(s.subrange(at, at + 2)[0] == '{');
                }
            }
        } else if s == "{"@ + e + "}"@ {
            assert(s.subrange(1, s.len() - 1) =~= e);
            assert(s[1] == e[0]);
            if e.contains('{') {
                assert(e[e.index_of('{')] == '{');
            }
        }
        assert(literals[i]@ == e || literals[i]@ == "{"@ + e + "}"@ ==> asked_expression(s) == Some(
            e,
        ));
    }
}

/// What a called workflow put out is what the step that calls it put out, and
/// its inputs and outputs are known under its id.
pub proof fn a_call_puts_out_what_the_workflow_does(
    v: VarsView,
    step_id: Seq<char>,
    workflow_id: Seq<char>,
    inputs: Map<Seq<char>, JsonView>,
    outputs: TextMap<Json>,
    name: Seq<char>,
    other: Seq<char>,
)
    requires
        outputs.wf(),
        other != step_id,
    ensures
        ({
            let w = after_call(v, step_id, workflow_id, inputs, outputs);
            &&& outputs@.contains_key(name) ==> outputs_of(w, step_id).contains_key(name)
                && outputs_of(w, step_id)[name] == outputs@[name]@
            &&& w.workflows.contains_key(workflow_id)
            &&& w.workflows[workflow_id].inputs == inputs
            &&& w.workflows[workflow_id].outputs == json_map_view(outputs)
            &&& w.inputs == v.inputs
            &&& outputs_of(w, other) == outputs_of(v, other)
        }),
{
    let start = VarsView {
        workflows: v.workflows.insert(
            workflow_id,
            crate::vars::StateView { inputs, outputs: json_map_view(outputs) },
        ),
        ..v
    };
    stored_outputs_are_known(start, step_id, outputs, name, other);
}

/// A failure inside a called workflow fails the step with the failure's own
/// words; only a missing dependency is passed on as it is.
pub proof fn a_failed_call_says_why(workflow: Seq<char>, e: ErrorView)
    ensures
        e.kind == RuntimeErrorKind::WorkflowDependencyUnsatisfied ==> call_failure(workflow, e)
            == e,
        e.kind != RuntimeErrorKind::WorkflowDependencyUnsatisfied ==> {
            let f = call_failure(workflow, e);
            &&& f.kind == RuntimeErrorKind::SubWorkflowFailed
            &&& f.message.len() >= e.message.len()
            &&& f.message.skip(f.message.len() - e.message.len()) == e.message
            &&& occurs_in(f.message, workflow)
        },
{
    if e.kind != RuntimeErrorKind::WorkflowDependencyUnsatisfied {
        let f = call_failure(workflow, e).message;
        assert(f.skip(f.len() - e.message.len()) =~= e.message);
        let at = "sub-workflow "@.len() as int;
        assert(f.subrange(at, at + workflow.len()) =~= workflow);
        assert(stands_at(f, at, workflow));
    }
}

proof fn handed_to_action(list: Seq<Parameter>, a: Answers, n: nat, i: int, name: Seq<char>)
    requires
        n <= list.len(),
        -1 <= i < n,
        0 <= i ==> list[i].name@ == name,
        forall|j: int| i < j < n ==> (#[trigger] list[j]).name@ != name,
    ensures
        action_inputs(list, a, n).contains_key(name) == (0 <= i),
        0 <= i ==> action_inputs(list, a, n)[name] == resolved(list[i].value, a).value,
    decreases n,
{
    if n > 0 && i < n - 1 {
        assert(list[n - 1].name@ != name);
        handed_to_action(list, a, (n - 1) as nat, i, name);
    }
}

/// An action hands on each of its parameters under its name, the last of a
/// name, and nothing else.
pub proof fn an_action_hands_its_parameters_on(
    list: Seq<Parameter>,
    a: Answers,
    i: int,
    name: Seq<char>,
)
    requires
        -1 <= i < list.len(),
        0 <= i ==> list[i].name@ == name,
        forall|j: int| i < j < list.len() ==> (#[trigger] list[j]).name@ != name,
    ensures
        action_inputs(list, a, list.len()).contains_key(name) == (0 <= i),
        0 <= i ==> action_inputs(list, a, list.len())[name] == resolved(list[i].value, a).value,
{
    handed_to_action(list, a, list.len(), i, name);
}

proof fn put_out(list: TextMap<OutputValue>, answers: Seq<Answers>, n: nat, i: int)
    requires
        list.wf(),
        n <= list.keys().len(),
        answers.len() == list.keys().len(),
        0 <= i < n,
    ensures
        ({
            let m = workflow_outputs(list, answers, n).outputs;
            &&& m.contains_key(list.keys()[i])
            &&& match list.values()[i] {
                OutputValue::RuntimeExpression(e) => answers[i].texts@.contains_key(e@) ==> m[
                list.keys()[i]] == answers[i].texts@[e@].value@,
                OutputValue::Selector(s) => m[list.keys()[i]] == selector_resolved(
                    s,
                    answers[i],
                ).value,
            }
        }),
    decreases n,
{
    if i < n - 1 {
        put_out(list, answers, (n - 1) as nat, i);
        keys_are_distinct(list);
        assert(list.keys()[i] != list.keys()[n - 1]);
    }
}

/// A workflow puts out every output that it declares, each what its expression
/// came to.
pub proof fn a_workflow_puts_out_what_it_declares(
    w: Workflow,
    answers: Seq<Answers>,
    i: int,
)
    requires
        w.outputs.wf(),
        answers.len() == w.outputs.keys().len(),
        0 <= i < w.outputs.keys().len(),
    ensures
        ({
            let m = workflow_outputs(w.outputs, answers, w.outputs.keys().len()).outputs;
            &&& m.contains_key(w.outputs.keys()[i])
            &&& match w.outputs.values()[i] {
                OutputValue::RuntimeExpression(e) => answers[i].texts@.contains_key(e@) ==> m[
                w.outputs.keys()[i]] == answers[i].texts@[e@].value@,
                OutputValue::Selector(s) => m[w.outputs.keys()[i]] == selector_resolved(
                    s,
                    answers[i],
                ).value,
            }
        }),
{
    put_out(w.outputs, answers, w.outputs.keys().len(), i);
}

// ---------------------------------------------------------------------
// Ends
// ---------------------------------------------------------------------

/// A workflow that was entered counts as completed even where it failed, but
/// not where the execution was called off or its time ran out.
pub proof fn failed_workflows_are_completed_too(e: ErrorView)
    ensures
        counts_as_completed(Ok::<(), ErrorView>(())),
        counts_as_completed(Err::<(), ErrorView>(e)) == (e.kind != RuntimeErrorKind::ExecutionTimeout
            && e.kind != RuntimeErrorKind::ExecutionCancelled),
{
}

/// A retry that is made at once is counted, at its own site and nowhere else;
/// nothing else is counted.
pub proof fn only_retries_are_counted(
    before: RetryCounts,
    after: RetryCounts,
    flow: FlowView,
    interrupt: Interrupt,
    site: RetrySite,
)
    requires
        counts_after(before, after, flow, interrupt),
    ensures
        !interrupt.cancelled && flow is Retry && flow->reference is None ==> after.count(site)
            == before.count(site) + (if site == flow->retry_site {
            1int
        } else {
            0int
        }),
        interrupt.cancelled || !(flow is Retry) || flow->reference is Some ==> after.count(site)
            == before.count(site),
{
}

/// A step that could not be run is a failed step: it has the error's words and
/// kind, and no response, no outputs and no trace.
pub proof fn an_error_is_a_failed_step(e: StepExecution, err: RuntimeError)
    requires
        failed_with(e, err),
    ensures
        !e.result.success,
        e.result.err matches Some(t) && t@ == err.message@,
        e.result.err_kind == Some(err.kind),
        e.result.response is None,
        forall|name: Seq<char>| !(#[trigger] e.outputs@.contains_key(name)),
        e.trace.request is None,
{
}

/// A failure of what runs before a retry fails the retry with the failure's own
/// words; only a missing dependency of a workflow is passed on as it is.
pub proof fn a_failed_reference_says_why(step: Seq<char>, r: ReferenceView, e: ErrorView)
    ensures
        r is Workflow && e.kind == RuntimeErrorKind::WorkflowDependencyUnsatisfied
            ==> reference_failure(step, r, e) == e,
        !(r is Workflow && e.kind == RuntimeErrorKind::WorkflowDependencyUnsatisfied) ==> {
            let f = reference_failure(step, r, e);
            &&& f.kind == RuntimeErrorKind::RetryReferenceFailed
            &&& f.message.len() >= e.message.len()
            &&& f.message.skip(f.message.len() - e.message.len()) == e.message
        },
{
    if !(r is Workflow && e.kind == RuntimeErrorKind::WorkflowDependencyUnsatisfied) {
        let f = reference_failure(step, r, e).message;
        assert(f.skip(f.len() - e.message.len()) =~= e.message);
    }
}

/// A cycle is reported of the workflow that has it, and a missing step of the
/// workflow that lacks it.
pub proof fn order_errors_name_their_workflow(w: Workflow, step_id: Seq<char>)
    ensures
        cycle_error(w).kind == RuntimeErrorKind::DependencyCycle,
        occurs_in(cycle_error(w).message, w.workflow_id@),
        step_not_found(step_id, w.workflow_id@).kind == RuntimeErrorKind::StepNotFound,
        occurs_in(step_not_found(step_id, w.workflow_id@).message, step_id),
        occurs_in(step_not_found(step_id, w.workflow_id@).message, w.workflow_id@),
{
    let c = cycle_error(w).message;
    let a = "dependency cycle detected in workflow \""@.len() as int;
    let id = w.workflow_id@;
    assert(c.subrange(a, a + id.len()) =~= id);
    assert(stands_at(c, a, id));
    let m = step_not_found(step_id, id).message;
    let b = "step \""@.len() as int;
    let d = b + step_id.len() + "\" not found in workflow \""@.len();
    assert(m.subrange(b, b + step_id.len()) =~= step_id);
    assert(stands_at(m, b, step_id));
    assert(m.subrange(d, d + id.len()) =~= id);
    assert(stands_at(m, d, id));
}

} // verus!
