//! Breakpoints: where in a step the runtime can be stopped, and which one
//! applies.

use crate::text::{blank_text, is_blank, same_text};
use vstd::prelude::*;

verus! {

/// A place within a step where execution can be stopped.
#[derive(Debug, Clone, PartialEq, Eq, Hash)]
#[non_exhaustive]
pub enum StepCheckpoint {
    Step,
    SuccessCriterion { index: usize },
    OnSuccessAction { index: usize },
    OnSuccessCriterion { action_index: usize, criterion_index: usize },
    OnFailureAction { index: usize },
    OnFailureCriterion { action_index: usize, criterion_index: usize },
    OnSuccessRetrySelected { action_index: usize },
    OnSuccessRetryDelay { action_index: usize },
    OnFailureRetrySelected { action_index: usize },
    OnFailureRetryDelay { action_index: usize },
    Output { name: String },
}

/// Whether two checkpoints are the same place.
pub open spec fn same_place(a: StepCheckpoint, b: StepCheckpoint) -> bool {
    match (a, b) {
        (StepCheckpoint::Output { name: x }, StepCheckpoint::Output { name: y }) => x@ == y@,
        _ => a == b,
    }
}

impl StepCheckpoint {
    /// Whether this is the place `other`.
    pub fn is_same(&self, other: &StepCheckpoint) -> (r: bool)
        ensures
            r == same_place(*self, *other),
    {
        match (self, other) {
            (StepCheckpoint::Step, StepCheckpoint::Step) => true,
            (
                StepCheckpoint::SuccessCriterion { index: a },
                StepCheckpoint::SuccessCriterion { index: b },
            ) => *a == *b,
            (
                StepCheckpoint::OnSuccessAction { index: a },
                StepCheckpoint::OnSuccessAction { index: b },
            ) => *a == *b,
            (
                StepCheckpoint::OnSuccessCriterion { action_index: a, criterion_index: c },
                StepCheckpoint::OnSuccessCriterion { action_index: b, criterion_index: d },
            ) => *a == *b && *c == *d,
            (
                StepCheckpoint::OnFailureAction { index: a },
                StepCheckpoint::OnFailureAction { index: b },
            ) => *a == *b,
            (
                StepCheckpoint::OnFailureCriterion { action_index: a, criterion_index: c },
                StepCheckpoint::OnFailureCriterion { action_index: b, criterion_index: d },
            ) => *a == *b && *c == *d,
            (
                StepCheckpoint::OnSuccessRetrySelected { action_index: a },
                StepCheckpoint::OnSuccessRetrySelected { action_index: b },
            ) => *a == *b,
            (
                StepCheckpoint::OnSuccessRetryDelay { action_index: a },
                StepCheckpoint::OnSuccessRetryDelay { action_index: b },
            ) => *a == *b,
            (
                StepCheckpoint::OnFailureRetrySelected { action_index: a },
                StepCheckpoint::OnFailureRetrySelected { action_index: b },
            ) => *a == *b,
            (
                StepCheckpoint::OnFailureRetryDelay { action_index: a },
                StepCheckpoint::OnFailureRetryDelay { action_index: b },
            ) => *a == *b,
            (StepCheckpoint::Output { name: a }, StepCheckpoint::Output { name: b }) => same_text(
                a.as_str(),
                b.as_str(),
            ),
            _ => false,
        }
    }
}

/// Whether the checkpoint is the step itself.
pub fn is_step_checkpoint(checkpoint: &StepCheckpoint) -> (r: bool)
    ensures
        r == (*checkpoint is Step),
{
    match checkpoint {
        StepCheckpoint::Step => true,
        _ => false,
    }
}

/// A place to stop: a checkpoint of a step, under a condition where there is
/// one.
#[derive(Debug, Clone, PartialEq, Eq)]
pub struct StepBreakpoint {
    pub workflow_id: String,
    pub step_id: String,
    pub checkpoint: StepCheckpoint,
    pub condition: Option<String>,
}

impl StepBreakpoint {
    /// The breakpoint at a step itself.
    pub fn new(workflow_id: String, step_id: String) -> (r: StepBreakpoint)
        ensures
            r == (StepBreakpoint {
                workflow_id,
                step_id,
                checkpoint: StepCheckpoint::Step,
                condition: None,
            }),
    {
        StepBreakpoint { workflow_id, step_id, checkpoint: StepCheckpoint::Step, condition: None }
    }

    /// The breakpoint at a success criterion of the step.
    pub fn at_success_criterion(self, index: usize) -> (r: StepBreakpoint)
        ensures
            r == (StepBreakpoint { checkpoint: StepCheckpoint::SuccessCriterion { index }, ..self }),
    {
        StepBreakpoint {
            workflow_id: self.workflow_id,
            step_id: self.step_id,
            checkpoint: StepCheckpoint::SuccessCriterion { index },
            condition: self.condition,
        }
    }

    /// The breakpoint at a success action of the step.
    pub fn at_on_success_action(self, index: usize) -> (r: StepBreakpoint)
        ensures
            r == (StepBreakpoint { checkpoint: StepCheckpoint::OnSuccessAction { index }, ..self }),
    {
        StepBreakpoint {
            workflow_id: self.workflow_id,
            step_id: self.step_id,
            checkpoint: StepCheckpoint::OnSuccessAction { index },
            condition: self.condition,
        }
    }

    /// The breakpoint at a failure action of the step.
    pub fn at_on_failure_action(self, index: usize) -> (r: StepBreakpoint)
        ensures
            r == (StepBreakpoint { checkpoint: StepCheckpoint::OnFailureAction { index }, ..self }),
    {
        StepBreakpoint {
            workflow_id: self.workflow_id,
            step_id: self.step_id,
            checkpoint: StepCheckpoint::OnFailureAction { index },
            condition: self.condition,
        }
    }

    /// The breakpoint at a criterion of a success action.
    pub fn at_on_success_criterion(self, action_index: usize, criterion_index: usize) -> (r: StepBreakpoint)
        ensures
            r == (StepBreakpoint { checkpoint: StepCheckpoint::OnSuccessCriterion { action_index, criterion_index }, ..self }),
    {
        StepBreakpoint {
            workflow_id: self.workflow_id,
            step_id: self.step_id,
            checkpoint: StepCheckpoint::OnSuccessCriterion { action_index, criterion_index },
            condition: self.condition,
        }
    }

    /// The breakpoint at a criterion of a failure action.
    pub fn at_on_failure_criterion(self, action_index: usize, criterion_index: usize) -> (r: StepBreakpoint)
        ensures
            r == (StepBreakpoint { checkpoint: StepCheckpoint::OnFailureCriterion { action_index, criterion_index }, ..self }),
    {
        StepBreakpoint {
            workflow_id: self.workflow_id,
            step_id: self.step_id,
            checkpoint: StepCheckpoint::OnFailureCriterion { action_index, criterion_index },
            condition: self.condition,
        }
    }

    /// The breakpoint where a success action selects a retry.
    pub fn at_on_success_retry_selected(self, action_index: usize) -> (r: StepBreakpoint)
        ensures
            r == (StepBreakpoint { checkpoint: StepCheckpoint::OnSuccessRetrySelected { action_index }, ..self }),
    {
        StepBreakpoint {
            workflow_id: self.workflow_id,
            step_id: self.step_id,
            checkpoint: StepCheckpoint::OnSuccessRetrySelected { action_index },
            condition: self.condition,
        }
    }

    /// The breakpoint before the delay of a success retry.
    pub fn at_on_success_retry_delay(self, action_index: usize) -> (r: StepBreakpoint)
        ensures
            r == (StepBreakpoint { checkpoint: StepCheckpoint::OnSuccessRetryDelay { action_index }, ..self }),
    {
        StepBreakpoint {
            workflow_id: self.workflow_id,
            step_id: self.step_id,
            checkpoint: StepCheckpoint::OnSuccessRetryDelay { action_index },
            condition: self.condition,
        }
    }

    /// The breakpoint where a failure action selects a retry.
    pub fn at_on_failure_retry_selected(self, action_index: usize) -> (r: StepBreakpoint)
        ensures
            r == (StepBreakpoint { checkpoint: StepCheckpoint::OnFailureRetrySelected { action_index }, ..self }),
    {
        StepBreakpoint {
            workflow_id: self.workflow_id,
            step_id: self.step_id,
            checkpoint: StepCheckpoint::OnFailureRetrySelected { action_index },
            condition: self.condition,
        }
    }

    /// The breakpoint before the delay of a failure retry.
    pub fn at_on_failure_retry_delay(self, action_index: usize) -> (r: StepBreakpoint)
        ensures
            r == (StepBreakpoint { checkpoint: StepCheckpoint::OnFailureRetryDelay { action_index }, ..self }),
    {
        StepBreakpoint {
            workflow_id: self.workflow_id,
            step_id: self.step_id,
            checkpoint: StepCheckpoint::OnFailureRetryDelay { action_index },
            condition: self.condition,
        }
    }

    /// The breakpoint at an output of the step.
    pub fn at_output(self, name: String) -> (r: StepBreakpoint)
        ensures
            r == (StepBreakpoint { checkpoint: StepCheckpoint::Output { name }, ..self }),
    {
        StepBreakpoint {
            workflow_id: self.workflow_id,
            step_id: self.step_id,
            checkpoint: StepCheckpoint::Output { name },
            condition: self.condition,
        }
    }

    /// The breakpoint under a condition.
    pub fn with_condition(self, condition: String) -> (r: StepBreakpoint)
        ensures
            r == (StepBreakpoint { condition: Some(condition), ..self }),
    {
        StepBreakpoint {
            workflow_id: self.workflow_id,
            step_id: self.step_id,
            checkpoint: self.checkpoint,
            condition: Some(condition),
        }
    }

    /// Whether the breakpoint stands at this place.
    pub fn matches_identity(
        &self,
        workflow_id: &str,
        step_id: &str,
        checkpoint: &StepCheckpoint,
    ) -> (r: bool)
        ensures
            r == stands_here_at(*self, workflow_id@, step_id@, *checkpoint),
    {
        same_text(self.workflow_id.as_str(), workflow_id) && same_text(
            self.step_id.as_str(),
            step_id,
        ) && self.checkpoint.is_same(checkpoint)
    }
}

/// Whether a breakpoint stands at a place.
pub open spec fn stands_here_at(
    b: StepBreakpoint,
    workflow_id: Seq<char>,
    step_id: Seq<char>,
    checkpoint: StepCheckpoint,
) -> bool {
    b.workflow_id@ == workflow_id && b.step_id@ == step_id && same_place(b.checkpoint, checkpoint)
}

/// Whether the condition of a breakpoint lets it stop, given what its
/// expression came to: no condition and a blank one always do.
pub open spec fn condition_lets(b: StepBreakpoint, holds: bool) -> bool {
    match b.condition {
        Some(c) => is_blank(c@) || holds,
        None => true,
    }
}

/// Whether the condition of a breakpoint lets it stop.
pub fn breakpoint_condition_matches(breakpoint: &StepBreakpoint, holds: bool) -> (r: bool)
    ensures
        r == condition_lets(*breakpoint, holds),
{
    match &breakpoint.condition {
        Some(c) => blank_text(c.as_str()) || holds,
        None => true,
    }
}

/// Whether breakpoint `i` stops at a place, given what the conditions came to.
pub open spec fn stops_at(
    breakpoints: Seq<StepBreakpoint>,
    holds: Seq<bool>,
    i: int,
    workflow_id: Seq<char>,
    step_id: Seq<char>,
    checkpoint: StepCheckpoint,
) -> bool {
    &&& stands_here_at(breakpoints[i], workflow_id, step_id, checkpoint)
    &&& condition_lets(breakpoints[i], i < holds.len() && holds[i])
}

/// The index of the first breakpoint that stops at a place. `holds` says of
/// each breakpoint what its condition came to; a condition that was not
/// evaluated does not hold.
pub fn first_matching_breakpoint(
    breakpoints: &Vec<StepBreakpoint>,
    holds: &Vec<bool>,
    workflow_id: &str,
    step_id: &str,
    checkpoint: &StepCheckpoint,
) -> (r: Option<usize>)
    ensures
        match r {
            Some(i) => i < breakpoints@.len() && stops_at(
                breakpoints@,
                holds@,
                i as int,
                workflow_id@,
                step_id@,
                *checkpoint,
            ) && forall|j: int|
                0 <= j < i ==> !(#[trigger] stops_at(
                    breakpoints@,
                    holds@,
                    j,
                    workflow_id@,
                    step_id@,
                    *checkpoint,
                )),
            None => forall|j: int|
                0 <= j < breakpoints@.len() ==> !(#[trigger] stops_at(
                    breakpoints@,
                    holds@,
                    j,
                    workflow_id@,
                    step_id@,
                    *checkpoint,
                )),
        },
{
    let mut i: usize = 0;
    while i < breakpoints.len()
        invariant
            i <= breakpoints@.len(),
            forall|j: int|
                0 <= j < i ==> !(#[trigger] stops_at(
                    breakpoints@,
                    holds@,
                    j,
                    workflow_id@,
                    step_id@,
                    *checkpoint,
                )),
        decreases breakpoints@.len() - i,
    {
        let held = i < holds.len() && holds[i];
        if breakpoints[i].matches_identity(workflow_id, step_id, checkpoint)
            && breakpoint_condition_matches(&breakpoints[i], held) {
            return Some(i);
        }
        i = i + 1;
    }
    None
}

} // verus!
