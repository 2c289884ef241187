//! Which step of a workflow runs next: one after the other, one step with what
//! it needs, or level by level.

use crate::actions::{
    inputs_view, FlowDecision, FlowView, InputsView, Interrupt, ReferenceView, RetryReference,
};
use crate::error::{cancellation, cancellation_error, ErrorView, RuntimeError, RuntimeErrorKind};
use crate::json::Json;
use crate::model::{Step, Workflow};
use crate::retries::{
    compute_max_iterations, count_retry, iteration_limit, RetryCounts, RetrySite, ScheduledRetry,
};
use crate::text::{concat3, concat5, decimal, decimal_text};
use crate::text_map::TextMap;
use vstd::prelude::*;
use vstd::string::*;

verus! {

// ---------------------------------------------------------------------
// Numbers
// ---------------------------------------------------------------------

/// The decimal text of a number of any size that a machine holds.
pub fn large_decimal_text(n: u128) -> (r: String)
    ensures
        r@ == decimal(n as nat),
    decreases n,
{
    if n < 10 {
        decimal_text(n as u64)
    } else {
        let mut head = large_decimal_text(n / 10);
        let last = decimal_text((n % 10) as u64);
        let ghost h = head@;
        let ghost l = last@;
        head.append(last.as_str());
        assert(l == seq![crate::text::digit_of((n % 10) as nat)]);
        assert(head@ =~= h.push(crate::text::digit_of((n % 10) as nat)));
        head
    }
}

// ---------------------------------------------------------------------
// One after the other
// ---------------------------------------------------------------------

/// A workflow that runs one step after the other: the step that comes next,
/// the retries that were counted, and how many attempts are left.
#[derive(Debug)]
pub struct SequentialRun {
    pub step_index: usize,
    pub retry_count: RetryCounts,
    pub max_iterations: u128,
    pub left: u128,
}

/// References to steps.
pub open spec fn step_refs_of<'a>(steps: Seq<Step>) -> Seq<&'a Step> {
    steps.map_values(|s: Step| &s)
}

fn borrow_steps(steps: &Vec<Step>) -> (r: Vec<&Step>)
    ensures
        r@ == step_refs_of(steps@),
{
    let mut out: Vec<&Step> = Vec::new();
    let mut i: usize = 0;
    while i < steps.len()
        invariant
            i <= steps@.len(),
            out@.len() == i,
            forall|j: int| 0 <= j < i ==> #[trigger] out@[j] == &steps@[j],
        decreases steps@.len() - i,
    {
        out.push(&steps[i]);
        i = i + 1;
    }
    assert(out@ =~= step_refs_of(steps@));
    out
}

/// What comes next.
#[derive(Debug)]
pub enum RunStep {
    /// An attempt at this step.
    Attempt(usize),
    /// Nothing: the workflow is complete.
    Completed,
    Failed(RuntimeError),
}

/// The content of what comes next.
pub enum RunStepView {
    Attempt(usize),
    Completed,
    Failed(ErrorView),
}

impl View for RunStep {
    type V = RunStepView;

    open spec fn view(&self) -> RunStepView {
        match self {
            RunStep::Attempt(i) => RunStepView::Attempt(*i),
            RunStep::Completed => RunStepView::Completed,
            RunStep::Failed(e) => RunStepView::Failed(e@),
        }
    }
}

/// The refusal of more attempts.
pub open spec fn limit_exceeded(workflow: Seq<char>, max: u128) -> ErrorView {
    ErrorView {
        kind: RuntimeErrorKind::IterationLimitExceeded,
        message: "workflow \""@ + workflow + "\" exceeded iteration limit ("@ + decimal(max as nat)
            + ") — possible infinite retry/goto loop"@,
    }
}

/// What comes next in a run: nothing more where no attempts are left, even for
/// a run that has come to its end.
pub open spec fn next_step(
    run: SequentialRun,
    workflow: Workflow,
    interrupt: Interrupt,
) -> RunStepView {
    if run.left == 0 {
        RunStepView::Failed(limit_exceeded(workflow.workflow_id@, run.max_iterations))
    } else if interrupt.cancelled {
        RunStepView::Failed(cancellation(interrupt.timed_out))
    } else if run.step_index >= workflow.steps@.len() {
        RunStepView::Completed
    } else {
        RunStepView::Attempt(run.step_index)
    }
}

/// What comes after an attempt.
#[derive(Debug)]
pub enum AfterAttempt {
    Continue,
    /// The step is tried again.
    Retried { step_idx: usize, retry: ScheduledRetry },
    /// Something runs before the step is tried again.
    Reference {
        step_idx: usize,
        retry_site: RetrySite,
        retry_limit: u64,
        delay_nanos: u128,
        reference: RetryReference,
    },
    Completed,
    /// Another workflow takes over. Without `inputs` it is given those of this
    /// one.
    Goto { workflow_id: String, inputs: Option<TextMap<Json>> },
    Failed(RuntimeError),
}

/// The content of what comes after an attempt.
#[verifier::ext_equal]
pub enum AfterView {
    Continue,
    Retried { step_idx: usize, attempt: nat, max_attempts: u64, delay_nanos: u128 },
    Reference {
        step_idx: usize,
        retry_site: RetrySite,
        retry_limit: u64,
        delay_nanos: u128,
        reference: ReferenceView,
    },
    Completed,
    Goto { workflow_id: Seq<char>, inputs: InputsView },
    Failed(ErrorView),
}

impl View for AfterAttempt {
    type V = AfterView;

    open spec fn view(&self) -> AfterView {
        match *self {
            AfterAttempt::Continue => AfterView::Continue,
            AfterAttempt::Retried { step_idx, retry } => AfterView::Retried {
                step_idx,
                attempt: retry.attempt as nat,
                max_attempts: retry.max_attempts,
                delay_nanos: retry.delay_nanos,
            },
            AfterAttempt::Reference {
                step_idx,
                retry_site,
                retry_limit,
                delay_nanos,
                reference,
            } => AfterView::Reference {
                step_idx,
                retry_site,
                retry_limit,
                delay_nanos,
                reference: reference@,
            },
            AfterAttempt::Completed => AfterView::Completed,
            AfterAttempt::Goto { workflow_id, inputs } => AfterView::Goto {
                workflow_id: workflow_id@,
                inputs: inputs_view(inputs),
            },
            AfterAttempt::Failed(e) => AfterView::Failed(e@),
        }
    }
}

/// Whether a decision schedules a retry whose count has room.
pub open spec fn retry_has_room(flow: FlowView, counts: RetryCounts) -> bool {
    flow matches FlowView::Retry { step_idx, retry_site, retry_limit, delay_nanos, reference }
        ==> counts.count(retry_site) < u64::MAX
}

/// What comes after an attempt whose flow has been decided.
pub open spec fn after_flow(flow: FlowView, counts: RetryCounts, interrupt: Interrupt) -> AfterView {
    if interrupt.cancelled {
        AfterView::Failed(cancellation(interrupt.timed_out))
    } else {
        match flow {
            FlowView::Done => AfterView::Completed,
            FlowView::Next(i) => AfterView::Continue,
            FlowView::Retry { step_idx, retry_site, retry_limit, delay_nanos, reference } =>
                match reference {
                Some(r) => AfterView::Reference {
                    step_idx,
                    retry_site,
                    retry_limit,
                    delay_nanos,
                    reference: r,
                },
                None => AfterView::Retried {
                    step_idx,
                    attempt: (counts.count(retry_site) + 1) as nat,
                    max_attempts: retry_limit,
                    delay_nanos,
                },
            },
            FlowView::GotoWorkflow { workflow_id, inputs } => AfterView::Goto {
                workflow_id,
                inputs,
            },
            FlowView::Error(e) => AfterView::Failed(e),
        }
    }
}

/// The step that comes next after a flow.
pub open spec fn index_after(index: usize, flow: FlowView, interrupt: Interrupt) -> usize {
    if interrupt.cancelled {
        index
    } else {
        match flow {
            FlowView::Next(i) => i,
            FlowView::Retry { step_idx, retry_site, retry_limit, delay_nanos, reference } =>
                if reference is None {
                step_idx
            } else {
                index
            },
            _ => index,
        }
    }
}

/// Whether the retries of one site were counted, by `n`, and of no other.
pub open spec fn counted(before: RetryCounts, after: RetryCounts, site: RetrySite, n: nat) -> bool {
    &&& after.count(site) == before.count(site) + n
    &&& forall|other: RetrySite|
        other != site ==> #[trigger] after.count(other) == before.count(other)
}

/// Whether the counts after a flow are right: a retry without anything to run
/// first is counted.
pub open spec fn counts_after(
    before: RetryCounts,
    after: RetryCounts,
    flow: FlowView,
    interrupt: Interrupt,
) -> bool {
    match flow {
        FlowView::Retry { step_idx, retry_site, retry_limit, delay_nanos, reference } =>
            if !interrupt.cancelled && reference is None {
            counted(before, after, retry_site, 1)
        } else {
            after == before
        },
        _ => after == before,
    }
}

/// How many attempts are left behind one.
pub open spec fn left_after(left: u128) -> u128 {
    if left == 0 {
        0
    } else {
        (left - 1) as u128
    }
}

/// What a run does once that which runs before a retry has ended.
pub open spec fn after_reference_run(
    outcome: Result<(), ErrorView>,
    step_idx: usize,
    count: u64,
    retry_limit: u64,
    delay_nanos: u128,
    interrupt: Interrupt,
) -> AfterView {
    if interrupt.cancelled {
        AfterView::Failed(cancellation(interrupt.timed_out))
    } else {
        match outcome {
            Err(e) => AfterView::Failed(e),
            Ok(_) => AfterView::Retried {
                step_idx,
                attempt: (count + 1) as nat,
                max_attempts: retry_limit,
                delay_nanos,
            },
        }
    }
}

/// The content of an outcome.
pub open spec fn outcome_view(r: Result<(), RuntimeError>) -> Result<(), ErrorView> {
    match r {
        Ok(_) => Ok(()),
        Err(e) => Err(e@),
    }
}

impl SequentialRun {
    /// A run of a workflow from its first step.
    pub fn start(workflow: &Workflow) -> (r: SequentialRun)
        ensures
            r.step_index == 0,
            r.max_iterations == iteration_limit(
                step_refs_of(workflow.steps@),
                workflow.failure_actions@,
            ),
            r.left == r.max_iterations,
            forall|site: RetrySite| #[trigger] r.retry_count.count(site) == 0,
    {
        let steps = borrow_steps(&workflow.steps);
        let max_iterations = compute_max_iterations(&steps, &workflow.failure_actions);
        SequentialRun {
            step_index: 0,
            retry_count: RetryCounts::new(),
            max_iterations,
            left: max_iterations,
        }
    }

    /// What comes next. Every attempt uses one up of those that are left.
    pub fn next(&mut self, workflow: &Workflow, interrupt: Interrupt) -> (r: RunStep)
        ensures
            r@ == next_step(*old(self), *workflow, interrupt),
            final(self).step_index == old(self).step_index,
            final(self).retry_count == old(self).retry_count,
            final(self).max_iterations == old(self).max_iterations,
            final(self).left == if old(self).left == 0 {
                0
            } else {
                (old(self).left - 1) as u128
            },
            final(self).left == left_after(old(self).left),
            r matches RunStep::Attempt(i) ==> i < workflow.steps@.len(),
    {
        if self.left == 0 {
            let limit = large_decimal_text(self.max_iterations);
            let message = concat5(
                "workflow \"",
                workflow.workflow_id.as_str(),
                "\" exceeded iteration limit (",
                limit.as_str(),
                ") — possible infinite retry/goto loop",
            );
            return RunStep::Failed(
                RuntimeError::new(RuntimeErrorKind::IterationLimitExceeded, message),
            );
        }
        self.left = self.left - 1;
        if interrupt.cancelled {
            return RunStep::Failed(cancellation_error(interrupt.timed_out));
        }
        if self.step_index >= workflow.steps.len() {
            RunStep::Completed
        } else {
            RunStep::Attempt(self.step_index)
        }
    }

    /// Takes in the flow that an attempt was decided to have.
    pub fn advance(&mut self, flow: FlowDecision, interrupt: Interrupt) -> (r: AfterAttempt)
        requires
            retry_has_room(flow@, old(self).retry_count),
        ensures
            r@ == after_flow(flow@, old(self).retry_count, interrupt),
            final(self).step_index == index_after(old(self).step_index, flow@, interrupt),
            counts_after(old(self).retry_count, final(self).retry_count, flow@, interrupt),
            final(self).left == old(self).left,
            final(self).max_iterations == old(self).max_iterations,
    {
        if interrupt.cancelled {
            return AfterAttempt::Failed(cancellation_error(interrupt.timed_out));
        }
        match flow {
            FlowDecision::Done => AfterAttempt::Completed,
            FlowDecision::Next(i) => {
                self.step_index = i;
                AfterAttempt::Continue
            },
            FlowDecision::Retry { step_idx, retry_site, retry_limit, delay_nanos, reference } => {
                match reference {
                    Some(reference) => AfterAttempt::Reference {
                        step_idx,
                        retry_site,
                        retry_limit,
                        delay_nanos,
                        reference,
                    },
                    None => {
                        let retry = count_retry(
                            &mut self.retry_count,
                            retry_site,
                            retry_limit,
                            delay_nanos,
                        );
                        self.step_index = step_idx;
                        AfterAttempt::Retried { step_idx, retry }
                    },
                }
            },
            FlowDecision::GotoWorkflow { workflow_id, inputs } => AfterAttempt::Goto {
                workflow_id,
                inputs,
            },
            FlowDecision::Error(e) => AfterAttempt::Failed(e),
        }
    }

    /// Takes in what ran before a retry came to. A failure of it ends the
    /// workflow.
    pub fn after_reference(
        &mut self,
        outcome: Result<(), RuntimeError>,
        step_idx: usize,
        retry_site: RetrySite,
        retry_limit: u64,
        delay_nanos: u128,
        interrupt: Interrupt,
    ) -> (r: AfterAttempt)
        requires
            old(self).retry_count.count(retry_site) < u64::MAX,
        ensures
            r@ == after_reference_run(
                outcome_view(outcome),
                step_idx,
                old(self).retry_count.count(retry_site),
                retry_limit,
                delay_nanos,
                interrupt,
            ),
            final(self).left == old(self).left,
            final(self).max_iterations == old(self).max_iterations,
            if interrupt.cancelled {
                r@ == AfterView::Failed(cancellation(interrupt.timed_out)) && *final(self)
                    == *old(self)
            } else {
                match outcome {
                    Err(e) => r@ == AfterView::Failed(e@) && *final(self) == *old(self),
                    Ok(_) => {
                        &&& r@ == (AfterView::Retried {
                            step_idx,
                            attempt: (old(self).retry_count.count(retry_site) + 1) as nat,
                            max_attempts: retry_limit,
                            delay_nanos,
                        })
                        &&& final(self).step_index == step_idx
                        &&& counted(
                            old(self).retry_count,
                            final(self).retry_count,
                            retry_site,
                            1,
                        )
                    },
                }
            },
    {
        if interrupt.cancelled {
            return AfterAttempt::Failed(cancellation_error(interrupt.timed_out));
        }
        match outcome {
            Err(e) => AfterAttempt::Failed(e),
            Ok(_) => {
                let retry = count_retry(
                    &mut self.retry_count,
                    retry_site,
                    retry_limit,
                    delay_nanos,
                );
                self.step_index = step_idx;
                AfterAttempt::Retried { step_idx, retry }
            },
        }
    }
}

/// Whether a workflow that has been entered counts as completed once it has
/// ended: unless it was called off, even when it failed.
pub open spec fn counts_as_completed(end: Result<(), ErrorView>) -> bool {
    match end {
        Ok(_) => true,
        Err(e) => !crate::error::ends_execution(e.kind),
    }
}

/// Whether a workflow that has been entered counts as completed.
pub fn is_completed(end: &Result<(), RuntimeError>) -> (r: bool)
    ensures
        r == counts_as_completed(
            match *end {
                Ok(_) => Ok(()),
                Err(e) => Err(e@),
            },
        ),
{
    match end {
        Ok(_) => true,
        Err(e) => !e.kind.is_cancellation(),
    }
}

// ---------------------------------------------------------------------
// One step with what it needs
// ---------------------------------------------------------------------

/// The first position, at or after `from`, that holds a number.
pub open spec fn position_of(list: Seq<usize>, n: usize, from: int) -> int
    decreases list.len() - from,
{
    if from >= list.len() {
        list.len() as int
    } else if list[from] == n {
        from
    } else {
        position_of(list, n, from + 1)
    }
}

/// The first position, at or after `from`, that holds a number or a greater
/// one.
pub open spec fn position_at_least(list: Seq<usize>, n: usize, from: int) -> int
    decreases list.len() - from,
{
    if from >= list.len() {
        list.len() as int
    } else if list[from] >= n {
        from
    } else {
        position_at_least(list, n, from + 1)
    }
}

/// Where a run of some steps goes on for a step: at it, else at the first one
/// behind it; nowhere where there is none.
pub open spec fn resume_position(list: Seq<usize>, n: usize) -> int {
    if position_of(list, n, 0) < list.len() {
        position_of(list, n, 0)
    } else {
        position_at_least(list, n, 0)
    }
}

fn find_position(list: &Vec<usize>, n: usize) -> (r: usize)
    ensures
        r == position_of(list@, n, 0),
{
    let mut i: usize = 0;
    while i < list.len()
        invariant
            i <= list@.len(),
            position_of(list@, n, 0) == position_of(list@, n, i as int),
        decreases list@.len() - i,
    {
        if list[i] == n {
            return i;
        }
        i = i + 1;
    }
    i
}

fn find_at_least(list: &Vec<usize>, n: usize) -> (r: usize)
    ensures
        r == position_at_least(list@, n, 0),
{
    let mut i: usize = 0;
    while i < list.len()
        invariant
            i <= list@.len(),
            position_at_least(list@, n, 0) == position_at_least(list@, n, i as int),
        decreases list@.len() - i,
    {
        if list[i] >= n {
            return i;
        }
        i = i + 1;
    }
    i
}

/// A run of some steps of a workflow.
#[derive(Debug)]
pub struct SelectedRun {
    pub steps: Vec<usize>,
    pub cursor: usize,
    pub retry_count: RetryCounts,
    pub left: u128,
}

/// The refusal of a retry of a step that does not run.
pub open spec fn retry_out_of_scope(step_idx: usize) -> ErrorView {
    ErrorView {
        kind: RuntimeErrorKind::GotoTargetNotFound,
        message: "retry target step index "@ + decimal(step_idx as nat)
            + " not in execute_step scope"@,
    }
}

fn out_of_scope_error(step_idx: usize) -> (r: RuntimeError)
    ensures
        r@ == retry_out_of_scope(step_idx),
{
    let number = decimal_text(step_idx as u64);
    let message = concat3(
        "retry target step index ",
        number.as_str(),
        " not in execute_step scope",
    );
    RuntimeError::new(RuntimeErrorKind::GotoTargetNotFound, message)
}

/// What comes after an attempt of a run of some steps.
pub open spec fn after_selected(
    run: SelectedRun,
    flow: FlowView,
    interrupt: Interrupt,
) -> AfterView {
    if interrupt.cancelled {
        AfterView::Failed(cancellation(interrupt.timed_out))
    } else {
        match flow {
            FlowView::Next(i) => if resume_position(run.steps@, i) < run.steps@.len() {
                AfterView::Continue
            } else {
                AfterView::Completed
            },
            FlowView::Retry { step_idx, retry_site, retry_limit, delay_nanos, reference } =>
                if position_of(run.steps@, step_idx, 0) < run.steps@.len() {
                after_flow(flow, run.retry_count, interrupt)
            } else {
                AfterView::Failed(retry_out_of_scope(step_idx))
            },
            _ => after_flow(flow, run.retry_count, interrupt),
        }
    }
}

/// Where a run of some steps stands after an attempt.
pub open spec fn cursor_after(run: SelectedRun, flow: FlowView, interrupt: Interrupt) -> int {
    let kept = run.cursor as int;
    if interrupt.cancelled {
        kept
    } else {
        match flow {
            FlowView::Next(i) => if resume_position(run.steps@, i) < run.steps@.len() {
                resume_position(run.steps@, i)
            } else {
                kept
            },
            FlowView::Retry { step_idx, retry_site, retry_limit, delay_nanos, reference } =>
                if reference is None && position_of(run.steps@, step_idx, 0) < run.steps@.len() {
                position_of(run.steps@, step_idx, 0)
            } else {
                kept
            },
            _ => kept,
        }
    }
}

/// What a run of selected steps does once that which runs before a retry has
/// ended.
pub open spec fn after_reference_selected(
    run: SelectedRun,
    outcome: Result<(), ErrorView>,
    step_idx: usize,
    retry_site: RetrySite,
    retry_limit: u64,
    delay_nanos: u128,
    interrupt: Interrupt,
) -> AfterView {
    if !interrupt.cancelled && outcome is Ok && position_of(run.steps@, step_idx, 0)
        >= run.steps@.len() {
        AfterView::Failed(retry_out_of_scope(step_idx))
    } else {
        after_reference_run(
            outcome,
            step_idx,
            run.retry_count.count(retry_site),
            retry_limit,
            delay_nanos,
            interrupt,
        )
    }
}

/// What a run of selected steps does next.
pub open spec fn next_selected(run: SelectedRun, interrupt: Interrupt) -> RunStepView {
    if run.left == 0 {
        RunStepView::Completed
    } else if interrupt.cancelled {
        RunStepView::Failed(cancellation(interrupt.timed_out))
    } else if run.cursor >= run.steps@.len() {
        RunStepView::Completed
    } else {
        RunStepView::Attempt(run.steps@[run.cursor as int])
    }
}

/// The steps that are selected by their positions.
pub open spec fn selected_steps<'a>(steps: Seq<Step>, selected: Seq<usize>) -> Seq<&'a Step> {
    step_refs_of(selected.map_values(|i: usize| steps[i as int]))
}

impl SelectedRun {
    /// A run of some steps of a workflow, from the first of them. It has the
    /// attempts that a run over these steps may take.
    pub fn start(workflow: &Workflow, steps: Vec<usize>) -> (r: SelectedRun)
        requires
            forall|i: int| 0 <= i < steps@.len() ==> #[trigger] steps@[i] < workflow.steps@.len(),
        ensures
            r.steps == steps,
            r.cursor == 0,
            r.left == iteration_limit(
                selected_steps(workflow.steps@, steps@),
                workflow.failure_actions@,
            ),
            forall|site: RetrySite| #[trigger] r.retry_count.count(site) == 0,
    {
        let mut selected: Vec<&Step> = Vec::new();
        let mut i: usize = 0;
        while i < steps.len()
            invariant
                i <= steps@.len(),
                forall|k: int| 0 <= k < steps@.len() ==> #[trigger] steps@[k] < workflow.steps@.len(),
                selected@ == selected_steps(workflow.steps@, steps@.take(i as int)),
            decreases steps@.len() - i,
        {
            let ghost before = selected@;
            assert(steps@[i as int] < workflow.steps@.len());
            selected.push(&workflow.steps[steps[i]]);
            assert(selected@ =~= selected_steps(workflow.steps@, steps@.take(i + 1)));
            i = i + 1;
        }
        assert(steps@.take(i as int) =~= steps@);
        let left = compute_max_iterations(&selected, &workflow.failure_actions);
        SelectedRun { steps, cursor: 0, retry_count: RetryCounts::new(), left }
    }

    /// Takes in what ran before a retry came to. A failure of it ends the run;
    /// otherwise the step is tried again where it stands among the selected
    /// ones.
    pub fn after_reference(
        &mut self,
        outcome: Result<(), RuntimeError>,
        step_idx: usize,
        retry_site: RetrySite,
        retry_limit: u64,
        delay_nanos: u128,
        interrupt: Interrupt,
    ) -> (r: AfterAttempt)
        requires
            old(self).retry_count.count(retry_site) < u64::MAX,
        ensures
            r@ == after_reference_selected(
                *old(self),
                outcome_view(outcome),
                step_idx,
                retry_site,
                retry_limit,
                delay_nanos,
                interrupt,
            ),
            final(self).steps == old(self).steps,
            final(self).left == old(self).left,
            if interrupt.cancelled {
                r@ == AfterView::Failed(cancellation(interrupt.timed_out)) && *final(self)
                    == *old(self)
            } else {
                match outcome {
                    Err(e) => r@ == AfterView::Failed(e@) && *final(self) == *old(self),
                    Ok(_) => if position_of(old(self).steps@, step_idx, 0)
                        < old(self).steps@.len() {
                        &&& r@ == (AfterView::Retried {
                            step_idx,
                            attempt: (old(self).retry_count.count(retry_site) + 1) as nat,
                            max_attempts: retry_limit,
                            delay_nanos,
                        })
                        &&& final(self).cursor == position_of(old(self).steps@, step_idx, 0)
                        &&& counted(
                            old(self).retry_count,
                            final(self).retry_count,
                            retry_site,
                            1,
                        )
                    } else {
                        r@ == AfterView::Failed(retry_out_of_scope(step_idx)) && *final(self)
                            == *old(self)
                    },
                }
            },
    {
        if interrupt.cancelled {
            return AfterAttempt::Failed(cancellation_error(interrupt.timed_out));
        }
        match outcome {
            Err(e) => AfterAttempt::Failed(e),
            Ok(_) => {
                let at = find_position(&self.steps, step_idx);
                if at >= self.steps.len() {
                    return AfterAttempt::Failed(out_of_scope_error(step_idx));
                }
                let retry = count_retry(
                    &mut self.retry_count,
                    retry_site,
                    retry_limit,
                    delay_nanos,
                );
                self.cursor = at;
                AfterAttempt::Retried { step_idx, retry }
            },
        }
    }

    /// What comes next: the run ends behind its last step, and where no
    /// attempts are left.
    pub fn next(&mut self, interrupt: Interrupt) -> (r: RunStep)
        ensures
            r@ == next_selected(*old(self), interrupt),
            r@ == if old(self).left == 0 {
                RunStepView::Completed
            } else if interrupt.cancelled {
                RunStepView::Failed(cancellation(interrupt.timed_out))
            } else if old(self).cursor >= old(self).steps@.len() {
                RunStepView::Completed
            } else {
                RunStepView::Attempt(old(self).steps@[old(self).cursor as int])
            },
            final(self).steps == old(self).steps,
            final(self).cursor == old(self).cursor,
            final(self).retry_count == old(self).retry_count,
            final(self).left == if old(self).left == 0 {
                0
            } else {
                (old(self).left - 1) as u128
            },
            final(self).left == left_after(old(self).left),
    {
        if self.left == 0 {
            return RunStep::Completed;
        }
        self.left = self.left - 1;
        if interrupt.cancelled {
            return RunStep::Failed(cancellation_error(interrupt.timed_out));
        }
        if self.cursor >= self.steps.len() {
            RunStep::Completed
        } else {
            RunStep::Attempt(self.steps[self.cursor])
        }
    }

    /// Takes in the flow that an attempt was decided to have.
    pub fn advance(&mut self, flow: FlowDecision, interrupt: Interrupt) -> (r: AfterAttempt)
        requires
            retry_has_room(flow@, old(self).retry_count),
        ensures
            r@ == after_selected(*old(self), flow@, interrupt),
            final(self).cursor == cursor_after(*old(self), flow@, interrupt),
            final(self).steps == old(self).steps,
            final(self).left == old(self).left,
            r is Retried ==> counts_after(
                old(self).retry_count,
                final(self).retry_count,
                flow@,
                interrupt,
            ),
            !(r is Retried) ==> final(self).retry_count == old(self).retry_count,
    {
        if interrupt.cancelled {
            return AfterAttempt::Failed(cancellation_error(interrupt.timed_out));
        }
        match flow {
            FlowDecision::Done => AfterAttempt::Completed,
            FlowDecision::Next(i) => {
                let same = find_position(&self.steps, i);
                let at = if same < self.steps.len() {
                    same
                } else {
                    find_at_least(&self.steps, i)
                };
                if at < self.steps.len() {
                    self.cursor = at;
                    AfterAttempt::Continue
                } else {
                    AfterAttempt::Completed
                }
            },
            FlowDecision::Retry { step_idx, retry_site, retry_limit, delay_nanos, reference } => {
                let at = find_position(&self.steps, step_idx);
                if at >= self.steps.len() {
                    return AfterAttempt::Failed(out_of_scope_error(step_idx));
                }
                match reference {
                    Some(reference) => AfterAttempt::Reference {
                        step_idx,
                        retry_site,
                        retry_limit,
                        delay_nanos,
                        reference,
                    },
                    None => {
                        let retry = count_retry(
                            &mut self.retry_count,
                            retry_site,
                            retry_limit,
                            delay_nanos,
                        );
                        self.cursor = at;
                        AfterAttempt::Retried { step_idx, retry }
                    },
                }
            },
            FlowDecision::GotoWorkflow { workflow_id, inputs } => AfterAttempt::Goto {
                workflow_id,
                inputs,
            },
            FlowDecision::Error(e) => AfterAttempt::Failed(e),
        }
    }
}

/// A run of some steps never goes on at a step before the one that was decided
/// on.
pub proof fn run_never_falls_back(list: Seq<usize>, n: usize)
    ensures
        ({
            let at = resume_position(list, n);
            at < list.len() ==> 0 <= at && list[at] >= n
        }),
{
    position_of_holds(list, n, 0);
    position_at_least_holds(list, n, 0);
}

proof fn position_of_holds(list: Seq<usize>, n: usize, from: int)
    requires
        0 <= from,
    ensures
        ({
            let at = position_of(list, n, from);
            at < list.len() ==> from <= at && list[at] == n
        }),
    decreases list.len() - from,
{
    if from < list.len() && list[from] != n {
        position_of_holds(list, n, from + 1);
    }
}

proof fn position_at_least_holds(list: Seq<usize>, n: usize, from: int)
    requires
        0 <= from,
    ensures
        ({
            let at = position_at_least(list, n, from);
            at < list.len() ==> from <= at && list[at] >= n
        }),
    decreases list.len() - from,
{
    if from < list.len() && list[from] < n {
        position_at_least_holds(list, n, from + 1);
    }
}

// ---------------------------------------------------------------------
// Level by level
// ---------------------------------------------------------------------

/// What a step of a level came to.
#[derive(Debug)]
pub struct StepOutcome {
    pub index: usize,
    pub step_id: String,
    pub outputs: TextMap<Json>,
    pub flow: FlowDecision,
}

/// Whether outcomes are in the order of their steps.
pub open spec fn in_step_order(list: Seq<StepOutcome>) -> bool {
    forall|i: int, j: int|
        0 <= i < j < list.len() ==> (#[trigger] list[i]).index <= (#[trigger] list[j]).index
}

/// Puts outcomes in the order of their steps.
pub fn order_outcomes(list: Vec<StepOutcome>) -> (r: Vec<StepOutcome>)
    ensures
        in_step_order(r@),
        r@.to_multiset() == list@.to_multiset(),
{
    broadcast use vstd::seq_lib::group_to_multiset_ensures;

    let ghost given = list@;
    let mut out: Vec<StepOutcome> = Vec::new();
    assert(out@ =~= given.take(0));
    for item in it: list
        invariant
            it.seq() == given,
            in_step_order(out@),
            out@.to_multiset() == given.take(it.index() as int).to_multiset(),
    {
        let ghost i = it.index() as int;
        let ghost before = out@;
        let mut at: usize = out.len();
        while at > 0 && out[at - 1].index > item.index
            invariant
                at <= out@.len(),
                forall|k: int| at <= k < out@.len() ==> (#[trigger] out@[k]).index > item.index,
            decreases at,
        {
            at = at - 1;
        }
        out.insert(at, item);
        assert(given.take(i + 1) =~= given.take(i).push(given[i]));
        assert(in_step_order(out@)) by {
            assert forall|a: int, b: int| 0 <= a < b < out@.len() implies (
            #[trigger] out@[a]).index <= (#[trigger] out@[b]).index by {
                let pa = if a < at {
                    a
                } else {
                    a - 1
                };
                let pb = if b < at {
                    b
                } else {
                    b - 1
                };
                if a < at {
                    assert(out@[a] == before[a]);
                }
                if b < at {
                    assert(out@[b] == before[b]);
                }
                if a > at {
                    assert(out@[a] == before[pa]);
                }
                if b > at {
                    assert(out@[b] == before[pb]);
                }
                if a < at && b == at {
                    assert(before[a].index <= before[at - 1].index);
                }
            }
        }
        proof {
            assert(out@.remove(at as int) =~= before);
            assert(out@.contains(given[i])) by {
                assert(out@[at as int] == given[i]);
            }
            vstd::seq_lib::to_multiset_remove(out@, at as int);
            vstd::seq_lib::to_multiset_contains(out@, given[i]);
            vstd::seq_lib::to_multiset_build(given.take(i), given[i]);
            assert(out@.to_multiset().remove(given[i]) == before.to_multiset());
            assert(out@.to_multiset() =~= out@.to_multiset().remove(given[i]).insert(given[i]));
        }
    }
    assert(given.take(given.len() as int) =~= given);
    out
}

} // verus!
