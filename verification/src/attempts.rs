//! Recording attempts: their numbers, their events and their trace records.

use crate::actions::{FlowDecision, FlowView, RoutedDecision};
use crate::exchange::{opt_view, RequestTraceView, ResponseTraceView};
use crate::json::{Json, JsonView};
use crate::model::Step;
use crate::outcome::StepExecution;
use crate::retries::ScheduledRetry;
use crate::step_response::{copy_criteria, criterion_traces, CriterionTraceView};
use crate::text::{copy_text, copy_texts, texts};
use crate::text_map::TextMap;
use crate::trace::{
    calls_workflow, copy_json_map, duration_ms_u64, duration_ns_u64, json_map_view,
    operation_path_of, step_kind, step_operation_path, step_workflow_id_ref, text_map_view,
    workflow_ref_of, DecisionView, ExecutionEvent, ExecutionEventKind, ObserverEvent, TraceDecision,
    TraceStepRecord,
};
use vstd::prelude::*;
use vstd::string::*;

verus! {

// ---------------------------------------------------------------------
// Numbers
// ---------------------------------------------------------------------

/// How many attempts at each step were numbered.
#[derive(Debug, PartialEq)]
pub struct AttemptCounts {
    counts: TextMap<TextMap<u32>>,
}

impl AttemptCounts {
    /// The attempts at a step of a workflow that were numbered.
    pub closed spec fn count(self, workflow: Seq<char>, step: Seq<char>) -> u32 {
        if self.counts@.contains_key(workflow) && self.counts@[workflow]@.contains_key(step) {
            self.counts@[workflow]@[step]
        } else {
            0
        }
    }

    /// Nothing numbered yet.
    pub fn new() -> (r: AttemptCounts)
        ensures
            forall|w: Seq<char>, s: Seq<char>| #[trigger] r.count(w, s) == 0,
    {
        AttemptCounts { counts: TextMap::new() }
    }

    /// The number of the next attempt at a step, from one. Numbers stop at the
    /// greatest that there is.
    pub fn next_attempt(&mut self, workflow_id: &str, step_id: &str) -> (r: u32)
        ensures
            r == if old(self).count(workflow_id@, step_id@) == u32::MAX {
                u32::MAX
            } else {
                (old(self).count(workflow_id@, step_id@) + 1) as u32
            },
            final(self).count(workflow_id@, step_id@) == r,
            forall|w: Seq<char>, s: Seq<char>|
                (w != workflow_id@ || s != step_id@) ==> #[trigger] final(self).count(w, s) == old(
                    self,
                ).count(w, s),
    {
        let ghost before = *self;
        let mut steps = match self.counts.get(workflow_id) {
            Some(m) => copy_counts(m),
            None => TextMap::new(),
        };
        let known: u32 = match steps.get(step_id) {
            Some(n) => *n,
            None => 0,
        };
        let next: u32 = if known == u32::MAX {
            known
        } else {
            known + 1
        };
        steps.insert(step_id.to_owned(), next);
        self.counts.insert(workflow_id.to_owned(), steps);
        assert forall|w: Seq<char>, s: Seq<char>|
            (w != workflow_id@ || s != step_id@) implies #[trigger] self.count(w, s) == before.count(
            w,
            s,
        ) by {
            if w != workflow_id@ {
                assert(self.counts@.contains_key(w) == before.counts@.contains_key(w));
            }
        }
        next
    }
}

fn copy_counts(m: &TextMap<u32>) -> (r: TextMap<u32>)
    ensures
        r@ == m@,
{
    let count = m.len();
    let mut out: TextMap<u32> = TextMap::new();
    let mut i: usize = 0;
    while i < count
        invariant
            i <= count,
            count == m.keys().len(),
            m.wf(),
            forall|k: Seq<char>|
                #![trigger out@.contains_key(k)]
                out@.contains_key(k) == (exists|j: int| 0 <= j < i && #[trigger] m.keys()[j] == k),
            forall|j: int|
                0 <= j < i ==> out@.contains_key(#[trigger] m.keys()[j]) && out@[m.keys()[j]]
                    == m.values()[j],
        decreases count - i,
    {
        let key = m.key_at(i).clone();
        let value: u32 = *m.value_at(i);
        proof {
            crate::trace::keys_are_distinct(*m);
        }
        let ghost before = out@;
        out.insert(key, value);
        assert forall|k: Seq<char>| #![trigger out@.contains_key(k)]
            out@.contains_key(k) == (exists|j: int|
                0 <= j < i + 1 && #[trigger] m.keys()[j] == k) by {
            assert(before.contains_key(k) == (exists|j: int|
                0 <= j < i && #[trigger] m.keys()[j] == k));
            assert(m.keys()[i as int] == key@);
        }
        i = i + 1;
    }
    proof {
        crate::trace::same_entries(*m, out@);
        assert(out@ =~= m@) by {
            assert forall|k: Seq<char>| #[trigger] m@.contains_key(k) implies out@[k] == m@[k] by {
                let j = m.keys().index_of(k);
                assert(m.keys()[j] == k);
                crate::text_map::entries_are_pairs(*m, j);
            }
        }
    }
    out
}

// ---------------------------------------------------------------------
// Settled attempts
// ---------------------------------------------------------------------

/// An attempt that has run and been routed.
#[derive(Debug)]
pub struct SettledAttempt {
    pub execution: StepExecution,
    pub duration_nanos: u128,
    pub decision: TraceDecision,
    /// The error that the trace names: that of routing where it ends the
    /// workflow, else that of the attempt.
    pub trace_error: Option<String>,
}

/// The error that a trace names for an attempt.
pub open spec fn traced_error(execution: StepExecution, flow: FlowView) -> Option<Seq<char>> {
    match flow {
        FlowView::Error(e) => Some(e.message),
        _ => opt_view(execution.result.err),
    }
}

impl SettledAttempt {
    /// An attempt with how it was routed; where execution goes is handed back
    /// beside it.
    pub fn new(execution: StepExecution, duration_nanos: u128, routed: RoutedDecision) -> (r: (
        SettledAttempt,
        FlowDecision,
    ))
        ensures
            r.0.execution == execution,
            r.0.duration_nanos == duration_nanos,
            r.0.decision == routed.trace,
            opt_view(r.0.trace_error) == traced_error(execution, routed.flow@),
            r.1 == routed.flow,
    {
        let trace_error = match &routed.flow {
            FlowDecision::Error(e) => Some(e.message.clone()),
            _ => copy_text(&execution.result.err),
        };
        (
            SettledAttempt { execution, duration_nanos, decision: routed.trace, trace_error },
            routed.flow,
        )
    }
}

/// The status of the response of an attempt; zero where there was none.
pub open spec fn status_of(e: StepExecution) -> i64 {
    match e.result.response {
        Some(r) => r.status_code,
        None => 0,
    }
}

/// The status of the response of an attempt.
pub fn attempt_status(execution: &StepExecution) -> (r: i64)
    ensures
        r == status_of(*execution),
{
    match &execution.result.response {
        Some(r) => r.status_code,
        None => 0,
    }
}

// ---------------------------------------------------------------------
// Events
// ---------------------------------------------------------------------

/// The content of an execution event.
#[verifier::ext_equal]
pub struct EventView {
    pub seq: u64,
    pub kind: ExecutionEventKind,
    pub workflow_id: Seq<char>,
    pub step_id: Seq<char>,
    pub operation_path: Seq<char>,
    pub workflow_id_ref: Seq<char>,
    pub status_code: i64,
    pub outputs: Map<Seq<char>, JsonView>,
    pub err: Option<Seq<char>>,
    pub duration_ns: u64,
}

impl View for ExecutionEvent {
    type V = EventView;

    open spec fn view(&self) -> EventView {
        EventView {
            seq: self.seq,
            kind: self.kind,
            workflow_id: self.workflow_id@,
            step_id: self.step_id@,
            operation_path: self.operation_path@,
            workflow_id_ref: self.workflow_id_ref@,
            status_code: self.status_code,
            outputs: json_map_view(self.outputs),
            err: opt_view(self.err),
            duration_ns: self.duration_ns,
        }
    }
}

/// The nanoseconds of a duration, as far as they fit.
pub open spec fn nanos_shown(nanos: u128) -> u64 {
    if nanos > u64::MAX {
        u64::MAX
    } else {
        nanos as u64
    }
}

/// The event before an attempt.
pub open spec fn event_before(seq: u64, workflow_id: Seq<char>, step: Step) -> EventView {
    EventView {
        seq,
        kind: ExecutionEventKind::BeforeStep,
        workflow_id,
        step_id: step.step_id@,
        operation_path: operation_path_of(step),
        workflow_id_ref: workflow_ref_of(step),
        status_code: 0,
        outputs: Map::empty(),
        err: None,
        duration_ns: 0,
    }
}

/// The event after an attempt, with the attempt's own outputs.
pub open spec fn event_after(
    seq: u64,
    workflow_id: Seq<char>,
    step: Step,
    execution: StepExecution,
    duration_nanos: u128,
) -> EventView {
    EventView {
        seq,
        kind: ExecutionEventKind::AfterStep,
        workflow_id,
        step_id: step.step_id@,
        operation_path: operation_path_of(step),
        workflow_id_ref: workflow_ref_of(step),
        status_code: status_of(execution),
        outputs: json_map_view(execution.outputs),
        err: opt_view(execution.result.err),
        duration_ns: nanos_shown(duration_nanos),
    }
}

/// The event before an attempt.
pub fn before_step_event(seq: u64, workflow_id: &str, step: &Step) -> (r: ExecutionEvent)
    ensures
        r@ == event_before(seq, workflow_id@, *step),
{
    let outputs: TextMap<Json> = TextMap::new();
    assert(json_map_view(outputs) =~= Map::<Seq<char>, JsonView>::empty());
    ExecutionEvent {
        seq,
        kind: ExecutionEventKind::BeforeStep,
        workflow_id: workflow_id.to_owned(),
        step_id: step.step_id.clone(),
        operation_path: step_operation_path(step),
        workflow_id_ref: step_workflow_id_ref(step),
        status_code: 0,
        outputs,
        err: None,
        duration_ns: 0,
    }
}

/// The event after an attempt, with the attempt's own outputs.
pub fn after_step_event(
    seq: u64,
    workflow_id: &str,
    step: &Step,
    execution: &StepExecution,
    duration_nanos: u128,
) -> (r: ExecutionEvent)
    ensures
        r@ == event_after(seq, workflow_id@, *step, *execution, duration_nanos),
{
    ExecutionEvent {
        seq,
        kind: ExecutionEventKind::AfterStep,
        workflow_id: workflow_id.to_owned(),
        step_id: step.step_id.clone(),
        operation_path: step_operation_path(step),
        workflow_id_ref: step_workflow_id_ref(step),
        status_code: attempt_status(execution),
        outputs: copy_json_map(&execution.outputs),
        err: copy_text(&execution.result.err),
        duration_ns: duration_ns_u64(duration_nanos),
    }
}

/// The content of what an observer learns.
#[verifier::ext_equal]
pub enum ObserverView {
    StepStarted {
        workflow_id: Seq<char>,
        step_id: Seq<char>,
        operation_path: Seq<char>,
        workflow_id_ref: Seq<char>,
    },
    RequestPrepared {
        workflow_id: Seq<char>,
        step_id: Seq<char>,
        method: Seq<char>,
        url: Seq<char>,
        headers: Map<Seq<char>, Seq<char>>,
        has_body: bool,
    },
    RequestSent { workflow_id: Seq<char>, step_id: Seq<char>, method: Seq<char>, url: Seq<char> },
    CriterionEvaluated {
        workflow_id: Seq<char>,
        step_id: Seq<char>,
        index: usize,
        condition: Seq<char>,
        passed: bool,
    },
    RetryScheduled {
        workflow_id: Seq<char>,
        step_id: Seq<char>,
        attempt: u64,
        max_attempts: u64,
        delay_nanos: u128,
    },
    StepCompleted {
        workflow_id: Seq<char>,
        step_id: Seq<char>,
        status_code: i64,
        duration_ns: u64,
        outputs: Map<Seq<char>, JsonView>,
        error: Option<Seq<char>>,
        criteria_passed: bool,
    },
    SubWorkflowStarted {
        parent_workflow_id: Seq<char>,
        parent_step_id: Seq<char>,
        child_workflow_id: Seq<char>,
        depth: usize,
    },
    WorkflowCompleted {
        workflow_id: Seq<char>,
        outputs: Map<Seq<char>, JsonView>,
        duration_ns: u64,
        error: Option<Seq<char>>,
    },
}

impl View for ObserverEvent {
    type V = ObserverView;

    open spec fn view(&self) -> ObserverView {
        match *self {
            ObserverEvent::StepStarted { workflow_id, step_id, operation_path, workflow_id_ref } =>
            ObserverView::StepStarted {
                workflow_id: workflow_id@,
                step_id: step_id@,
                operation_path: operation_path@,
                workflow_id_ref: workflow_id_ref@,
            },
            ObserverEvent::RequestPrepared { workflow_id, step_id, method, url, headers, has_body } =>
            ObserverView::RequestPrepared {
                workflow_id: workflow_id@,
                step_id: step_id@,
                method: method@,
                url: url@,
                headers: text_map_view(headers),
                has_body,
            },
            ObserverEvent::RequestSent { workflow_id, step_id, method, url } =>
            ObserverView::RequestSent {
                workflow_id: workflow_id@,
                step_id: step_id@,
                method: method@,
                url: url@,
            },
            ObserverEvent::CriterionEvaluated { workflow_id, step_id, index, condition, passed } =>
            ObserverView::CriterionEvaluated {
                workflow_id: workflow_id@,
                step_id: step_id@,
                index,
                condition: condition@,
                passed,
            },
            ObserverEvent::RetryScheduled {
                workflow_id,
                step_id,
                attempt,
                max_attempts,
                delay_nanos,
            } => ObserverView::RetryScheduled {
                workflow_id: workflow_id@,
                step_id: step_id@,
                attempt,
                max_attempts,
                delay_nanos,
            },
            ObserverEvent::StepCompleted {
                workflow_id,
                step_id,
                status_code,
                duration_ns,
                outputs,
                error,
                criteria_passed,
            } => ObserverView::StepCompleted {
                workflow_id: workflow_id@,
                step_id: step_id@,
                status_code,
                duration_ns,
                outputs: json_map_view(outputs),
                error: opt_view(error),
                criteria_passed,
            },
            ObserverEvent::SubWorkflowStarted {
                parent_workflow_id,
                parent_step_id,
                child_workflow_id,
                depth,
            } => ObserverView::SubWorkflowStarted {
                parent_workflow_id: parent_workflow_id@,
                parent_step_id: parent_step_id@,
                child_workflow_id: child_workflow_id@,
                depth,
            },
            ObserverEvent::WorkflowCompleted { workflow_id, outputs, duration_ns, error } =>
            ObserverView::WorkflowCompleted {
                workflow_id: workflow_id@,
                outputs: json_map_view(outputs),
                duration_ns,
                error: opt_view(error),
            },
        }
    }
}

/// What an observer learns of an attempt that begins.
pub open spec fn started(workflow_id: Seq<char>, step: Step) -> ObserverView {
    ObserverView::StepStarted {
        workflow_id,
        step_id: step.step_id@,
        operation_path: operation_path_of(step),
        workflow_id_ref: workflow_ref_of(step),
    }
}

/// What an observer learns of a completed attempt.
pub open spec fn completed(
    workflow_id: Seq<char>,
    step: Step,
    execution: StepExecution,
    duration_nanos: u128,
) -> ObserverView {
    ObserverView::StepCompleted {
        workflow_id,
        step_id: step.step_id@,
        status_code: status_of(execution),
        duration_ns: nanos_shown(duration_nanos),
        outputs: json_map_view(execution.outputs),
        error: opt_view(execution.result.err),
        criteria_passed: execution.result.success,
    }
}

/// What an observer learns of a retry that is about to run.
pub open spec fn retry_announced(workflow_id: Seq<char>, step_id: Seq<char>, retry: ScheduledRetry) ->
    ObserverView {
    ObserverView::RetryScheduled {
        workflow_id,
        step_id,
        attempt: retry.attempt,
        max_attempts: retry.max_attempts,
        delay_nanos: retry.delay_nanos,
    }
}

/// What an observer learns of an attempt that begins.
pub fn step_started_event(workflow_id: &str, step: &Step) -> (r: ObserverEvent)
    ensures
        r@ == started(workflow_id@, *step),
{
    ObserverEvent::StepStarted {
        workflow_id: workflow_id.to_owned(),
        step_id: step.step_id.clone(),
        operation_path: step_operation_path(step),
        workflow_id_ref: step_workflow_id_ref(step),
    }
}

/// What an observer learns of a completed attempt.
pub fn step_completed_event(
    workflow_id: &str,
    step: &Step,
    execution: &StepExecution,
    duration_nanos: u128,
) -> (r: ObserverEvent)
    ensures
        r@ == completed(workflow_id@, *step, *execution, duration_nanos),
{
    ObserverEvent::StepCompleted {
        workflow_id: workflow_id.to_owned(),
        step_id: step.step_id.clone(),
        status_code: attempt_status(execution),
        duration_ns: duration_ns_u64(duration_nanos),
        outputs: copy_json_map(&execution.outputs),
        error: copy_text(&execution.result.err),
        criteria_passed: execution.result.success,
    }
}

/// What an observer learns of a retry that is about to run.
pub fn retry_scheduled_event(workflow_id: &str, step_id: &str, retry: ScheduledRetry) -> (r:
    ObserverEvent)
    ensures
        r@ == retry_announced(workflow_id@, step_id@, retry),
{
    ObserverEvent::RetryScheduled {
        workflow_id: workflow_id.to_owned(),
        step_id: step_id.to_owned(),
        attempt: retry.attempt,
        max_attempts: retry.max_attempts,
        delay_nanos: retry.delay_nanos,
    }
}

// ---------------------------------------------------------------------
// Trace records
// ---------------------------------------------------------------------

/// The content of a trace record.
#[verifier::ext_equal]
pub struct TraceRecordView {
    pub seq: u64,
    pub workflow_id: Seq<char>,
    pub step_id: Seq<char>,
    pub attempt: u32,
    pub kind: Seq<char>,
    pub operation_path: Seq<char>,
    pub workflow_id_ref: Seq<char>,
    pub duration_ms: u64,
    pub request: Option<RequestTraceView>,
    pub response: Option<ResponseTraceView>,
    pub criteria: Seq<CriterionTraceView>,
    pub warnings: Seq<Seq<char>>,
    pub decision: DecisionView,
    pub outputs: Map<Seq<char>, JsonView>,
    pub error: Option<Seq<char>>,
}

impl View for TraceStepRecord {
    type V = TraceRecordView;

    open spec fn view(&self) -> TraceRecordView {
        TraceRecordView {
            seq: self.seq,
            workflow_id: self.workflow_id@,
            step_id: self.step_id@,
            attempt: self.attempt,
            kind: self.kind@,
            operation_path: self.operation_path@,
            workflow_id_ref: self.workflow_id_ref@,
            duration_ms: self.duration_ms,
            request: match self.request {
                Some(r) => Some(r@),
                None => None,
            },
            response: match self.response {
                Some(r) => Some(r@),
                None => None,
            },
            criteria: criterion_traces(self.criteria@),
            warnings: texts(self.warnings@),
            decision: self.decision@,
            outputs: json_map_view(self.outputs),
            error: opt_view(self.error),
        }
    }
}

/// The milliseconds of a duration, as far as they fit.
pub open spec fn millis_shown(nanos: u128) -> u64 {
    if nanos / 1_000_000 > u64::MAX {
        u64::MAX
    } else {
        (nanos / 1_000_000) as u64
    }
}

/// The trace record of an attempt, with the attempt's own outputs.
pub open spec fn attempt_record(
    seq: u64,
    workflow_id: Seq<char>,
    step: Step,
    number: u32,
    a: SettledAttempt,
) -> TraceRecordView {
    TraceRecordView {
        seq,
        workflow_id,
        step_id: step.step_id@,
        attempt: number,
        kind: if calls_workflow(step) {
            "workflow"@
        } else {
            "http"@
        },
        operation_path: operation_path_of(step),
        workflow_id_ref: workflow_ref_of(step),
        duration_ms: millis_shown(a.duration_nanos),
        request: a.execution@.trace_request,
        response: a.execution@.trace_response,
        criteria: a.execution@.criteria,
        warnings: a.execution@.warnings,
        decision: a.decision@,
        outputs: a.execution@.outputs,
        error: opt_view(a.trace_error),
    }
}

/// The trace record of an attempt.
pub fn build_step_trace_record(
    seq: u64,
    workflow_id: &str,
    step: &Step,
    number: u32,
    attempt: &SettledAttempt,
) -> (r: TraceStepRecord)
    ensures
        r@ == attempt_record(seq, workflow_id@, *step, number, *attempt),
{
    TraceStepRecord {
        seq,
        workflow_id: workflow_id.to_owned(),
        step_id: step.step_id.clone(),
        attempt: number,
        kind: step_kind(step),
        operation_path: step_operation_path(step),
        workflow_id_ref: step_workflow_id_ref(step),
        duration_ms: duration_ms_u64(attempt.duration_nanos),
        request: match &attempt.execution.trace.request {
            Some(request) => Some(request.copy()),
            None => None,
        },
        response: match &attempt.execution.trace.response {
            Some(response) => Some(response.copy()),
            None => None,
        },
        criteria: copy_criteria(&attempt.execution.trace.criteria),
        warnings: copy_texts(&attempt.execution.trace.warnings),
        decision: attempt.decision.copy(),
        outputs: copy_json_map(&attempt.execution.outputs),
        error: copy_text(&attempt.trace_error),
    }
}

} // verus!
