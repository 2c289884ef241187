//! Running independent steps side by side: how the steps of a level settle.

use crate::actions::{routed_error, FlowDecision, FlowView, RoutedDecision, RoutedView};
use crate::deps::{parallel_blocker, workflow_blocker, SequentialFallbackReason};
use crate::error::{ErrorView, RuntimeError, RuntimeErrorKind};
use crate::model::Workflow;
use crate::retries::{count_retry, RetryCounts, ScheduledRetry};
use crate::scheduler::{counted, retry_has_room, StepOutcome};
use crate::vars::{with_outputs, VarStore, VarsView};
use vstd::prelude::*;
use vstd::string::*;

verus! {

// ---------------------------------------------------------------------
// Whether steps run side by side
// ---------------------------------------------------------------------

/// Why a workflow runs one step after the other although steps may run side by
/// side.
#[derive(Debug, PartialEq)]
pub struct SequentialFallback {
    pub workflow_id: String,
    pub reason: SequentialFallbackReason,
    pub step_id: String,
    pub detail: String,
}

/// The content of a fallback.
#[verifier::ext_equal]
pub struct FallbackView {
    pub workflow_id: Seq<char>,
    pub reason: SequentialFallbackReason,
    pub step_id: Seq<char>,
    pub detail: Seq<char>,
}

impl View for SequentialFallback {
    type V = FallbackView;

    open spec fn view(&self) -> FallbackView {
        FallbackView {
            workflow_id: self.workflow_id@,
            reason: self.reason,
            step_id: self.step_id@,
            detail: self.detail@,
        }
    }
}

/// Why a workflow runs one step after the other: a debugger is attached, or
/// something in it does not allow otherwise.
pub open spec fn fallback_of(w: Workflow, debugger: bool) -> Option<FallbackView> {
    if debugger {
        Some(
            FallbackView {
                workflow_id: w.workflow_id@,
                reason: SequentialFallbackReason::Debugger,
                step_id: ""@,
                detail: "a debug controller is attached"@,
            },
        )
    } else {
        match workflow_blocker(w) {
            Some(b) => Some(
                FallbackView {
                    workflow_id: w.workflow_id@,
                    reason: b.reason,
                    step_id: b.step_id,
                    detail: b.detail,
                },
            ),
            None => None,
        }
    }
}

/// Why a workflow runs one step after the other, if it does.
pub fn sequential_fallback(workflow: &Workflow, debugger: bool) -> (r: Option<SequentialFallback>)
    ensures
        match r {
            Some(f) => fallback_of(*workflow, debugger) == Some(f@),
            None => fallback_of(*workflow, debugger) is None,
        },
{
    if debugger {
        return Some(
            SequentialFallback {
                workflow_id: workflow.workflow_id.clone(),
                reason: SequentialFallbackReason::Debugger,
                step_id: "".to_owned(),
                detail: "a debug controller is attached".to_owned(),
            },
        );
    }
    match parallel_blocker(workflow) {
        Some(b) => Some(
            SequentialFallback {
                workflow_id: workflow.workflow_id.clone(),
                reason: b.reason,
                step_id: b.step_id,
                detail: b.detail,
            },
        ),
        None => None,
    }
}

/// The fallback of a single step that was asked for.
pub open spec fn single_step_fallback_of(workflow: Seq<char>, step: Seq<char>) -> FallbackView {
    FallbackView {
        workflow_id: workflow,
        reason: SequentialFallbackReason::SingleStep,
        step_id: step,
        detail: "step \""@ + step
            + "\" was selected for single-step execution, which runs one step at a time"@,
    }
}

/// The fallback of a single step that was asked for.
pub fn single_step_fallback(workflow_id: &str, step_id: &str) -> (r: SequentialFallback)
    ensures
        r@ == single_step_fallback_of(workflow_id@, step_id@),
{
    SequentialFallback {
        workflow_id: workflow_id.to_owned(),
        reason: SequentialFallbackReason::SingleStep,
        step_id: step_id.to_owned(),
        detail: crate::text::concat3(
            "step \"",
            step_id,
            "\" was selected for single-step execution, which runs one step at a time",
        ),
    }
}

// ---------------------------------------------------------------------
// One step of a level
// ---------------------------------------------------------------------

/// Whether a step of a level cannot take a flow: one that runs something else
/// before a retry, or that leaves the workflow.
pub open spec fn leaves_level(flow: FlowView) -> bool {
    match flow {
        FlowView::Retry { step_idx, retry_site, retry_limit, delay_nanos, reference } => reference
            is Some,
        FlowView::GotoWorkflow { workflow_id, inputs } => true,
        _ => false,
    }
}

/// The error of a flow that a step of a level cannot take.
pub open spec fn unsupported_flow() -> ErrorView {
    ErrorView {
        kind: RuntimeErrorKind::InternalError,
        message:
            "parallel execution does not support Retry/GotoWorkflow flow decisions"@,
    }
}

fn unsupported_flow_error() -> (r: RuntimeError)
    ensures
        r@ == unsupported_flow(),
{
    RuntimeError::new(
        RuntimeErrorKind::InternalError,
        "parallel execution does not support Retry/GotoWorkflow flow decisions".to_owned(),
    )
}

/// The decision that a step of a level takes.
pub open spec fn level_decision(d: RoutedView) -> RoutedView {
    if leaves_level(d.flow) {
        routed_error(unsupported_flow())
    } else {
        d
    }
}

/// The decision that a step of a level takes.
pub fn restrict_to_level(routed: RoutedDecision) -> (r: RoutedDecision)
    ensures
        r@ == level_decision(routed@),
{
    let leaves = match &routed.flow {
        FlowDecision::Retry {
            step_idx: _,
            retry_site: _,
            retry_limit: _,
            delay_nanos: _,
            reference,
        } => reference.is_some(),
        FlowDecision::GotoWorkflow { workflow_id: _, inputs: _ } => true,
        _ => false,
    };
    if leaves {
        RoutedDecision::error(unsupported_flow_error())
    } else {
        routed
    }
}

/// What comes after an attempt at a step of a level.
#[derive(Debug)]
pub enum LevelStep {
    /// The step is tried again.
    Retried(ScheduledRetry),
    /// The step has settled.
    Settled(FlowDecision),
}

/// What an attempt at a step of a level leads to.
pub open spec fn level_attempt_taken(
    before: RetryCounts,
    after: RetryCounts,
    flow: FlowDecision,
    r: LevelStep,
) -> bool {
    match flow@ {
        FlowView::Retry { step_idx, retry_site, retry_limit, delay_nanos, reference } => {
            &&& r matches LevelStep::Retried(s) && s.attempt == before.count(retry_site) + 1
                && s.max_attempts == retry_limit && s.delay_nanos == delay_nanos
            &&& counted(before, after, retry_site, 1)
        },
        _ => r == LevelStep::Settled(flow) && after == before,
    }
}

/// Takes in the flow of an attempt at a step of a level: a retry is counted,
/// anything else settles the step.
pub fn after_level_attempt(counts: &mut RetryCounts, flow: FlowDecision) -> (r: LevelStep)
    requires
        retry_has_room(flow@, *old(counts)),
    ensures
        match flow@ {
            FlowView::Retry { step_idx, retry_site, retry_limit, delay_nanos, reference } => {
                &&& r matches LevelStep::Retried(s) && s.attempt == old(counts).count(retry_site)
                    + 1 && s.max_attempts == retry_limit && s.delay_nanos == delay_nanos
                &&& counted(*old(counts), *final(counts), retry_site, 1)
            },
            _ => r == LevelStep::Settled(flow) && *final(counts) == *old(counts),
        },
        level_attempt_taken(*old(counts), *final(counts), flow, r),
{
    match flow {
        FlowDecision::Retry { step_idx: _, retry_site, retry_limit, delay_nanos, reference: _ } => {
            LevelStep::Retried(count_retry(counts, retry_site, retry_limit, delay_nanos))
        },
        other => LevelStep::Settled(other),
    }
}

// ---------------------------------------------------------------------
// A level
// ---------------------------------------------------------------------

/// How a level ends a workflow.
#[derive(Debug)]
pub enum LevelEnd {
    Done,
    Failed(RuntimeError),
}

/// What a level leaves: what is known after it, and how it ends the workflow
/// where it does.
#[verifier::ext_equal]
pub struct LevelView {
    pub vars: VarsView,
    pub end: Option<Result<(), ErrorView>>,
}

/// A level with one more outcome taken in. Once the workflow has ended, later
/// outcomes count no more.
pub open spec fn outcome_taken(v: LevelView, o: StepOutcome) -> LevelView {
    if v.end is Some {
        v
    } else {
        match o.flow@ {
            FlowView::Next(i) => LevelView {
                vars: with_outputs(v.vars, o.step_id@, o.outputs, o.outputs.keys().len()),
                end: None,
            },
            FlowView::Done => LevelView {
                vars: with_outputs(v.vars, o.step_id@, o.outputs, o.outputs.keys().len()),
                end: Some(Ok(())),
            },
            FlowView::Error(e) => LevelView { vars: v.vars, end: Some(Err(e)) },
            _ => LevelView { vars: v.vars, end: Some(Err(unsupported_flow())) },
        }
    }
}

/// A level with the first `n` outcomes taken in.
pub open spec fn level_settled(vars: VarsView, list: Seq<StepOutcome>, n: nat) -> LevelView
    decreases n,
{
    if n == 0 {
        LevelView { vars, end: None }
    } else {
        outcome_taken(level_settled(vars, list, (n - 1) as nat), list[n - 1])
    }
}

/// How a level ended, by content.
pub open spec fn end_view(end: Option<LevelEnd>) -> Option<Result<(), ErrorView>> {
    match end {
        Some(LevelEnd::Done) => Some(Ok(())),
        Some(LevelEnd::Failed(e)) => Some(Err(e@)),
        None => None,
    }
}

/// Takes in what the steps of a level came to, in their order: the first that
/// ends the workflow decides.
pub fn settle_level(vars: &mut VarStore, outcomes: Vec<StepOutcome>) -> (r: Option<LevelEnd>)
    ensures
        ({
            let v = level_settled(old(vars)@, outcomes@, outcomes@.len());
            final(vars)@ == v.vars && end_view(r) == v.end
        }),
{
    let ghost start = vars@;
    let ghost list = outcomes@;
    let mut end: Option<LevelEnd> = None;
    for o in it: outcomes
        invariant
            it.seq() == list,
            ({
                let v = level_settled(start, list, it.index() as nat);
                vars@ == v.vars && end_view(end) == v.end
            }),
    {
        let ghost i = it.index() as int;
        assert(o == list[i]);
        if end.is_none() {
            match o.flow {
                FlowDecision::Next(_) => {
                    vars.set_step_outputs(o.step_id.as_str(), &o.outputs);
                },
                FlowDecision::Done => {
                    vars.set_step_outputs(o.step_id.as_str(), &o.outputs);
                    end = Some(LevelEnd::Done);
                },
                FlowDecision::Error(e) => {
                    end = Some(LevelEnd::Failed(e));
                },
                _ => {
                    end = Some(LevelEnd::Failed(unsupported_flow_error()));
                },
            }
        }
    }
    end
}

/// The first outcome of a level that ends the workflow decides how: later ones
/// change neither that nor what is known.
pub proof fn first_end_decides(vars: VarsView, list: Seq<StepOutcome>, m: nat, n: nat)
    requires
        m <= n <= list.len(),
        level_settled(vars, list, m).end is Some,
    ensures
        level_settled(vars, list, n) == level_settled(vars, list, m),
    decreases n,
{
    if m < n {
        first_end_decides(vars, list, m, (n - 1) as nat);
    }
}

/// A flow that a step of a level takes never leaves the workflow.
pub proof fn level_decisions_stay(d: RoutedView)
    ensures
        !leaves_level(level_decision(d).flow),
{
}

} // verus!
