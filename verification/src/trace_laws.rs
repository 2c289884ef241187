//! What holds of traces: what is recorded, and what is replayed from it.

use crate::actions::FlowView;
use crate::attempts::{traced_error, SettledAttempt};
use crate::error::RuntimeErrorKind;
use crate::exchange::{response_traced, ResponseView};
use crate::json::JsonView;
use crate::json_equal::same_values;
use crate::json_text::parsed_json;
use crate::model::{Step, StepTarget};
use crate::outcome::{lossy, StepExecution};
use crate::recording::{announced, attempt_completed, settled_recorded, RecordView, StreamView};
use crate::replay::{
    next_record, record_answer, recorded, request_drift, ReplayRecord, RequestConfig,
};
use crate::text::lower_text;
use crate::trace::{
    dry_runs, json_map_view, step_events, text_map_view, trace_records, EngineEvent,
    ExecutionEventKind, TraceRequest, TraceStepRecord,
};
use vstd::prelude::*;
use vstd::string::*;
use vstd::utf8::{encode_utf8, valid_utf8};

verus! {

// ---------------------------------------------------------------------
// Events
// ---------------------------------------------------------------------

/// Whether these texts name what a step runs: the path or the id of an
/// operation, or a workflow.
pub open spec fn names_its_target(step: Step, operation: Seq<char>, workflow: Seq<char>) -> bool {
    match step.target {
        Some(StepTarget::OperationPath(p)) => operation == p@ && workflow.len() == 0,
        Some(StepTarget::OperationId(p)) => operation == p@ && workflow.len() == 0,
        Some(StepTarget::WorkflowId(p)) => workflow == p@ && operation.len() == 0,
        _ => operation.len() == 0 && workflow.len() == 0,
    }
}

/// Before an attempt two events are emitted, of the step that is tried: one
/// with the next number, and one for the observer. Nothing else changes.
pub proof fn an_attempt_is_announced(v: RecordView, workflow_id: Seq<char>, step: Step)
    requires
        v.event_seq < u64::MAX,
    ensures
        ({
            let w = announced(v, workflow_id, step);
            &&& w.event_seq == v.event_seq + 1
            &&& w.trace_seq == v.trace_seq
            &&& w.attempts == v.attempts
            &&& w.tracing == v.tracing
            &&& w.stream.len() == v.stream.len() + 2
            &&& w.stream.take(v.stream.len() as int) == v.stream
            &&& w.stream[v.stream.len() as int] matches StreamView::Execution(e) && {
                &&& e.seq == v.event_seq + 1
                &&& e.kind == ExecutionEventKind::BeforeStep
                &&& e.workflow_id == workflow_id
                &&& e.step_id == step.step_id@
                &&& e.err is None
                &&& names_its_target(step, e.operation_path, e.workflow_id_ref)
            }
            &&& w.stream[v.stream.len() as int + 1] is Observer
        }),
{
    let w = announced(v, workflow_id, step);
    assert(w.stream.take(v.stream.len() as int) =~= v.stream);
}

/// Behind an attempt its result is emitted: with the next number, the status of
/// the response, the outputs, the error and how long it took.
pub proof fn an_attempt_is_reported(
    v: RecordView,
    workflow_id: Seq<char>,
    step: Step,
    execution: StepExecution,
    nanos: u128,
)
    requires
        v.event_seq < u64::MAX,
    ensures
        ({
            let w = attempt_completed(v, workflow_id, step, execution, nanos);
            &&& w.event_seq == v.event_seq + 1
            &&& w.trace_seq == v.trace_seq
            &&& w.attempts == v.attempts
            &&& w.stream.len() == v.stream.len() + 2
            &&& w.stream.take(v.stream.len() as int) == v.stream
            &&& w.stream[v.stream.len() as int] matches StreamView::Execution(e) && {
                &&& e.seq == v.event_seq + 1
                &&& e.kind == ExecutionEventKind::AfterStep
                &&& e.workflow_id == workflow_id
                &&& e.step_id == step.step_id@
                &&& names_its_target(step, e.operation_path, e.workflow_id_ref)
                &&& e.outputs == json_map_view(execution.outputs)
                &&& e.err is Some == execution.result.err is Some
                &&& execution.result.err matches Some(t) ==> e.err == Some(t@)
                &&& execution.result.response matches Some(r) ==> e.status_code == r.status_code
                &&& execution.result.response is None ==> e.status_code == 0
                &&& nanos <= u64::MAX ==> e.duration_ns == nanos
            }
            &&& w.stream[v.stream.len() as int + 1]
                matches StreamView::Observer(crate::attempts::ObserverView::StepCompleted {
                workflow_id: id,
                step_id,
                status_code,
                duration_ns,
                outputs,
                error,
                criteria_passed,
            }) && id == workflow_id && step_id == step.step_id@ && outputs == json_map_view(
                execution.outputs,
            ) && criteria_passed == execution.result.success
        }),
{
    let w = attempt_completed(v, workflow_id, step, execution, nanos);
    assert(w.stream.take(v.stream.len() as int) =~= v.stream);
}

/// Where attempts are traced, each has a number of its own and one record, with
/// the next number of the trace, and the record holds what the attempt came to;
/// where they are not, there is none.
pub proof fn an_attempt_is_traced_once(
    v: RecordView,
    workflow_id: Seq<char>,
    step: Step,
    a: SettledAttempt,
)
    requires
        v.event_seq < u64::MAX,
        v.trace_seq < u64::MAX,
        v.attempts < u32::MAX,
    ensures
        ({
            let w = settled_recorded(v, workflow_id, step, a);
            &&& w.event_seq == v.event_seq + 1
            &&& w.trace_seq == (if v.tracing {
                v.trace_seq + 1
            } else {
                v.trace_seq as int
            })
            &&& w.attempts == (if v.tracing {
                v.attempts + 1
            } else {
                v.attempts as int
            })
            &&& w.stream.len() == v.stream.len() + (if v.tracing {
                3int
            } else {
                2int
            })
            &&& w.stream.take(v.stream.len() as int) == v.stream
            &&& v.tracing ==> (w.stream.last() matches StreamView::TraceStep(r) && {
                &&& r.seq == v.trace_seq + 1
                &&& r.attempt == v.attempts + 1
                &&& r.workflow_id == workflow_id
                &&& r.step_id == step.step_id@
                &&& names_its_target(step, r.operation_path, r.workflow_id_ref)
                &&& r.request == a.execution@.trace_request
                &&& r.response == a.execution@.trace_response
                &&& r.criteria == a.execution@.criteria
                &&& r.warnings == a.execution@.warnings
                &&& r.decision == a.decision@
                &&& r.outputs == json_map_view(a.execution.outputs)
                &&& r.error is Some == a.trace_error is Some
                &&& r.kind == (if step.target matches Some(StepTarget::WorkflowId(_)) {
                    "workflow"@
                } else {
                    "http"@
                })
                &&& a.duration_nanos <= u64::MAX ==> r.duration_ms == a.duration_nanos
                    / 1_000_000
            })
        }),
{
    let w = settled_recorded(v, workflow_id, step, a);
    assert(w.stream.take(v.stream.len() as int) =~= v.stream);
    if v.tracing {
        assert(a.duration_nanos <= u64::MAX ==> a.duration_nanos / 1_000_000 <= u64::MAX);
    }
}

/// The error of a trace is the one that ends the workflow, else that of the
/// attempt.
pub proof fn traces_name_the_error_that_counts(execution: StepExecution, flow: FlowView)
    ensures
        flow matches FlowView::Error(e) ==> traced_error(execution, flow) == Some(e.message),
        !(flow is Error) ==> (execution.result.err matches Some(t) ==> traced_error(execution, flow)
            == Some(t@)),
        !(flow is Error) && execution.result.err is None ==> traced_error(execution, flow) is None,
{
}

/// The trace records of a stream are those in it, in order, and so are its dry
/// runs and its step events.
pub proof fn streams_are_read_in_order(a: Seq<EngineEvent>, b: Seq<EngineEvent>, e: EngineEvent)
    ensures
        trace_records(a + b) == trace_records(a) + trace_records(b),
        dry_runs(a + b) == dry_runs(a) + dry_runs(b),
        step_events(a + b) == step_events(a) + step_events(b),
        trace_records(seq![e]) == (match e {
            EngineEvent::TraceStep(r) => seq![r],
            _ => Seq::empty(),
        }),
        dry_runs(seq![e]) == (match e {
            EngineEvent::DryRunRequest(r) => seq![r],
            _ => Seq::empty(),
        }),
        step_events(seq![e]) == (match e {
            EngineEvent::Execution(r) => seq![r],
            _ => Seq::empty(),
        }),
    decreases b.len(),
{
    reveal_with_fuel(trace_records, 2);
    reveal_with_fuel(dry_runs, 2);
    reveal_with_fuel(step_events, 2);
    assert(seq![e].drop_last() =~= Seq::<EngineEvent>::empty());
    assert(seq![e].last() == e);
    if let EngineEvent::TraceStep(r) = e {
        assert(trace_records(seq![e]) =~= seq![r]);
    }
    if let EngineEvent::DryRunRequest(r) = e {
        assert(dry_runs(seq![e]) =~= seq![r]);
    }
    if let EngineEvent::Execution(r) = e {
        assert(step_events(seq![e]) =~= seq![r]);
    }
    if b.len() == 0 {
        assert(a + b =~= a);
        assert(trace_records(a) + trace_records(b) =~= trace_records(a));
        assert(dry_runs(a) + dry_runs(b) =~= dry_runs(a));
        assert(step_events(a) + step_events(b) =~= step_events(a));
    } else {
        streams_are_read_in_order(a, b.drop_last(), e);
        assert((a + b).drop_last() =~= a + b.drop_last());
        assert((a + b).last() == b.last());
        assert(trace_records(a + b) =~= trace_records(a) + trace_records(b));
        assert(dry_runs(a + b) =~= dry_runs(a) + dry_runs(b));
        assert(step_events(a + b) =~= step_events(a) + step_events(b));
    }
}

/// A traced response shows the response: its status, headers and media type,
/// how long its body is, the whole of it as text, and its start.
pub proof fn a_response_is_traced_whole(v: ResponseView)
    requires
        v.body.len() <= u64::MAX,
    ensures
        ({
            let t = response_traced(v);
            &&& t.status_code == v.status_code
            &&& t.headers == v.headers
            &&& t.content_type == v.content_type
            &&& t.body_bytes == v.body.len()
            &&& t.body_lossy == !valid_utf8(v.body)
            &&& v.body.len() == 0 ==> t.body is None && t.body_preview is None
            &&& v.body.len() > 0 ==> t.body == Some(lossy(v.body))
            &&& 0 < v.body.len() <= 2048 ==> t.body_preview == t.body
            &&& v.body.len() > 2048 ==> t.body_preview == Some(lossy(v.body.take(2048)) + "..."@)
        }),
{
}

// ---------------------------------------------------------------------
// Replay
// ---------------------------------------------------------------------

/// Records are made of the traced steps that sent a request, in order, and of
/// no others.
pub proof fn requests_are_recorded_in_order(
    a: Seq<TraceStepRecord>,
    b: Seq<TraceStepRecord>,
    s: TraceStepRecord,
)
    ensures
        recorded(a + b) == recorded(a) + recorded(b),
        s.request is None ==> recorded(seq![s]).len() == 0,
        s.request matches Some(request) ==> recorded(seq![s]).len() == 1 && {
            let r = recorded(seq![s])[0];
            &&& r.workflow_id == s.workflow_id@
            &&& r.step_id == s.step_id@
            &&& r.seq == s.seq
            &&& r.attempt == s.attempt
            &&& r.request == request@
            &&& r.response is Some == s.response is Some
            &&& s.response matches Some(t) ==> r.response == Some(t@)
            &&& s.error matches Some(t) ==> r.error == Some(t@)
            &&& s.error is None ==> r.error is None
        },
    decreases b.len(),
{
    reveal_with_fuel(recorded, 2);
    assert(seq![s].drop_last() =~= Seq::<TraceStepRecord>::empty());
    assert(seq![s].last() == s);
    if b.len() == 0 {
        assert(a + b =~= a);
        assert(recorded(a) + recorded(b) =~= recorded(a));
    } else {
        requests_are_recorded_in_order(a, b.drop_last(), s);
        assert((a + b).drop_last() =~= a + b.drop_last());
        assert((a + b).last() == b.last());
        assert(recorded(a + b) =~= recorded(a) + recorded(b));
    }
}

/// A request matches its record exactly where the method, however it is cased,
/// the URL, every header and the body are the recorded ones.
pub proof fn a_replayed_request_has_to_be_the_recorded_one(
    expected: TraceRequest,
    actual: RequestConfig,
    seq: u64,
    attempt: u32,
)
    ensures
        request_drift(expected, actual, seq, attempt) is None == {
            &&& lower_text(expected.method@) == lower_text(actual.method@)
            &&& expected.url@ == actual.url@
            &&& text_map_view(expected.headers) == text_map_view(actual.headers)
            &&& match (expected.body, actual.body) {
                (None, None) => true,
                (Some(e), Some(bytes)) => match parsed_json(bytes@) {
                    Some(p) => same_values(p, e@),
                    None => e@ matches JsonView::Text(s) && bytes@ == encode_utf8(s),
                },
                _ => false,
            }
        },
        request_drift(expected, actual, seq, attempt) matches Some(e) ==> e.kind
            == RuntimeErrorKind::ReplayRequestMismatch,
{
}

/// The record that a request is answered from is the first of its step that was
/// not used.
pub proof fn the_first_unused_record_answers(
    list: Seq<ReplayRecord>,
    workflow: Seq<char>,
    step: Seq<char>,
    from: int,
)
    requires
        0 <= from <= list.len(),
    ensures
        ({
            let at = next_record(list, workflow, step, from);
            &&& from <= at <= list.len()
            &&& at < list.len() ==> list[at].workflow_id@ == workflow && list[at].step_id@ == step
                && !list[at].used
            &&& forall|i: int|
                from <= i < at ==> !((#[trigger] list[i]).workflow_id@ == workflow
                    && list[i].step_id@ == step && !list[i].used)
        }),
    decreases list.len() - from,
{
    if from < list.len() {
        the_first_unused_record_answers(list, workflow, step, from + 1);
    }
}

/// A matching request is answered with the recorded response, and where none
/// was recorded with the recorded error, or that there is none.
pub proof fn a_matching_request_is_answered_from_its_record(
    record: ReplayRecord,
    cfg: RequestConfig,
)
    requires
        request_drift(record.request, cfg, record.seq, record.attempt) is None,
    ensures
        record.response matches Some(t) ==> (record_answer(record, cfg) matches Ok(r) && {
            &&& r.status_code == t.status_code
            &&& r.headers == text_map_view(t.headers)
            &&& r.content_type == t.content_type@
            &&& t.body matches Some(b) ==> r.body == encode_utf8(b@)
            &&& t.body is None ==> (t.body_preview matches Some(b) ==> r.body == encode_utf8(b@))
            &&& r.body_json is Some ==> r.content_type is Json && r.body_json == parsed_json(r.body)
            &&& r.content_type is Json ==> r.body_json == parsed_json(r.body)
            &&& r.redirects == record.request@.redirects
        }),
        record.response is None && record.error is Some ==> (record_answer(
            record,
            cfg,
        ) matches Err(e) && e.kind == RuntimeErrorKind::HttpRequest),
        record.response is None && record.error is None ==> (record_answer(
            record,
            cfg,
        ) matches Err(e) && e.kind == RuntimeErrorKind::ReplayResponseMissing),
{
}

/// An observer is told which step starts, and of a retry which one it is, how
/// many there may be and how long it waits.
pub proof fn observers_are_told(
    workflow_id: Seq<char>,
    step: Step,
    retry: crate::retries::ScheduledRetry,
)
    ensures
        crate::attempts::started(workflow_id, step)
            matches crate::attempts::ObserverView::StepStarted {
            workflow_id: id,
            step_id,
            operation_path,
            workflow_id_ref,
        } && id == workflow_id && step_id == step.step_id@ && names_its_target(
            step,
            operation_path,
            workflow_id_ref,
        ),
        crate::attempts::retry_announced(workflow_id, step.step_id@, retry)
            matches crate::attempts::ObserverView::RetryScheduled {
            workflow_id: id,
            step_id,
            attempt,
            max_attempts,
            delay_nanos,
        } && id == workflow_id && step_id == step.step_id@ && attempt == retry.attempt
            && max_attempts == retry.max_attempts && delay_nanos == retry.delay_nanos,
{
}

} // verus!
