//! The record of an execution: the stream of its events, with their numbers.
//!
//! An attempt at a step is announced, numbered, completed and traced. A level
//! of steps that run beside each other keeps the events of each attempt apart
//! and records them once the level has ended.

use crate::attempts::{
    after_step_event, attempt_record, before_step_event, build_step_trace_record, completed,
    event_after, event_before, retry_announced, retry_scheduled_event, started,
    step_completed_event, step_started_event, AttemptCounts, EventView, ObserverView,
    SettledAttempt, TraceRecordView,
};
use crate::levels::FallbackView;
use crate::model::Step;
use crate::outcome::StepExecution;
use crate::retries::ScheduledRetry;
use crate::step_response::DryRunView;
use crate::trace::EngineEvent;
use crate::transport::TransportWarningView;
use vstd::prelude::*;

verus! {

// ---------------------------------------------------------------------
// Streams
// ---------------------------------------------------------------------

/// The content of an event of the stream.
#[verifier::ext_equal]
pub enum StreamView {
    TraceStep(TraceRecordView),
    DryRunRequest(DryRunView),
    Execution(EventView),
    Observer(ObserverView),
    SequentialFallback(FallbackView),
    TransportWarning(TransportWarningView),
}

impl View for EngineEvent {
    type V = StreamView;

    open spec fn view(&self) -> StreamView {
        match *self {
            EngineEvent::TraceStep(r) => StreamView::TraceStep(r@),
            EngineEvent::DryRunRequest(r) => StreamView::DryRunRequest(r@),
            EngineEvent::Execution(e) => StreamView::Execution(e@),
            EngineEvent::Observer(e) => StreamView::Observer(e@),
            EngineEvent::SequentialFallback(f) => StreamView::SequentialFallback(f@),
            EngineEvent::TransportWarning(w) => StreamView::TransportWarning(w@),
        }
    }
}

/// The contents of events.
pub open spec fn event_views(events: Seq<EngineEvent>) -> Seq<StreamView> {
    events.map_values(|e: EngineEvent| e@)
}

/// What is recorded of an execution.
#[derive(Debug)]
pub struct Recorder {
    /// Whether attempts are numbered and traced.
    pub tracing: bool,
    /// How many trace records there are.
    pub trace_seq: u64,
    /// How many step events there are.
    pub event_seq: u64,
    pub attempts: AttemptCounts,
    /// The events, oldest first.
    pub stream: Vec<EngineEvent>,
}

/// What is recorded of an execution, as far as one step is concerned: of the
/// numbers of attempts, only that of this step.
#[verifier::ext_equal]
pub struct RecordView {
    pub tracing: bool,
    pub trace_seq: u64,
    pub event_seq: u64,
    pub attempts: u32,
    pub stream: Seq<StreamView>,
}

impl Recorder {
    /// What is recorded, as far as a step of a workflow is concerned.
    pub open spec fn about(self, workflow_id: Seq<char>, step_id: Seq<char>) -> RecordView {
        RecordView {
            tracing: self.tracing,
            trace_seq: self.trace_seq,
            event_seq: self.event_seq,
            attempts: self.attempts.count(workflow_id, step_id),
            stream: event_views(self.stream@),
        }
    }

    /// Whether the attempts at every other step are numbered alike.
    pub open spec fn others_stay(
        self,
        after: Recorder,
        workflow_id: Seq<char>,
        step_id: Seq<char>,
    ) -> bool {
        forall|w: Seq<char>, s: Seq<char>|
            (w != workflow_id || s != step_id) ==> #[trigger] after.attempts.count(w, s)
                == self.attempts.count(w, s)
    }
}

// ---------------------------------------------------------------------
// What is recorded
// ---------------------------------------------------------------------

/// A record with events from elsewhere behind it.
pub open spec fn forwarded(v: RecordView, events: Seq<StreamView>) -> RecordView {
    RecordView { stream: v.stream + events, ..v }
}

/// A record with an attempt announced.
pub open spec fn announced(v: RecordView, workflow_id: Seq<char>, step: Step) -> RecordView {
    let seq = (v.event_seq + 1) as u64;
    RecordView {
        event_seq: seq,
        stream: v.stream + seq![
            StreamView::Execution(event_before(seq, workflow_id, step)),
            StreamView::Observer(started(workflow_id, step)),
        ],
        ..v
    }
}

/// A record with an attempt numbered, where attempts are.
pub open spec fn numbered(v: RecordView) -> RecordView {
    RecordView {
        attempts: if !v.tracing || v.attempts == u32::MAX {
            v.attempts
        } else {
            (v.attempts + 1) as u32
        },
        ..v
    }
}

/// The number that an attempt has just been given; zero where none are.
pub open spec fn last_number(v: RecordView) -> u32 {
    if v.tracing {
        v.attempts
    } else {
        0
    }
}

/// A record with an attempt completed.
pub open spec fn attempt_completed(
    v: RecordView,
    workflow_id: Seq<char>,
    step: Step,
    execution: StepExecution,
    duration_nanos: u128,
) -> RecordView {
    let seq = (v.event_seq + 1) as u64;
    RecordView {
        event_seq: seq,
        stream: v.stream + seq![
            StreamView::Execution(event_after(seq, workflow_id, step, execution, duration_nanos)),
            StreamView::Observer(completed(workflow_id, step, execution, duration_nanos)),
        ],
        ..v
    }
}

/// A record with an attempt traced, where attempts are.
pub open spec fn attempt_traced(
    v: RecordView,
    workflow_id: Seq<char>,
    step: Step,
    number: u32,
    a: SettledAttempt,
) -> RecordView {
    if v.tracing {
        let seq = (v.trace_seq + 1) as u64;
        RecordView {
            trace_seq: seq,
            stream: v.stream.push(
                StreamView::TraceStep(attempt_record(seq, workflow_id, step, number, a)),
            ),
            ..v
        }
    } else {
        v
    }
}

/// A record with a retry reported.
pub open spec fn retry_reported(
    v: RecordView,
    workflow_id: Seq<char>,
    step_id: Seq<char>,
    retry: ScheduledRetry,
) -> RecordView {
    RecordView {
        stream: v.stream.push(StreamView::Observer(retry_announced(workflow_id, step_id, retry))),
        ..v
    }
}

/// A record with an attempt that has run elsewhere: it is numbered, completed
/// and traced.
pub open spec fn settled_recorded(
    v: RecordView,
    workflow_id: Seq<char>,
    step: Step,
    a: SettledAttempt,
) -> RecordView {
    let n = numbered(v);
    attempt_traced(
        attempt_completed(n, workflow_id, step, a.execution, a.duration_nanos),
        workflow_id,
        step,
        last_number(n),
        a,
    )
}

// ---------------------------------------------------------------------
// Recording
// ---------------------------------------------------------------------

impl Recorder {
    /// Nothing recorded yet.
    pub fn new(tracing: bool) -> (r: Recorder)
        ensures
            forall|w: Seq<char>, s: Seq<char>| #[trigger]
                r.about(w, s) == (RecordView {
                    tracing,
                    trace_seq: 0,
                    event_seq: 0,
                    attempts: 0,
                    stream: Seq::empty(),
                }),
    {
        let r = Recorder {
            tracing,
            trace_seq: 0,
            event_seq: 0,
            attempts: AttemptCounts::new(),
            stream: Vec::new(),
        };
        assert(event_views(r.stream@) =~= Seq::<StreamView>::empty());
        r
    }

    /// Puts an event at the end of the stream.
    fn emit(&mut self, event: EngineEvent)
        ensures
            event_views(final(self).stream@) == event_views(old(self).stream@).push(event@),
            final(self).tracing == old(self).tracing,
            final(self).trace_seq == old(self).trace_seq,
            final(self).event_seq == old(self).event_seq,
            final(self).attempts == old(self).attempts,
    {
        let ghost before = self.stream@;
        let ghost e = event@;
        self.stream.push(event);
        assert(event_views(self.stream@) =~= event_views(before).push(e));
    }

    /// Announces an attempt at a step.
    pub fn announce(&mut self, workflow_id: &str, step: &Step)
        requires
            old(self).event_seq < u64::MAX,
        ensures
            final(self).about(workflow_id@, step.step_id@) == announced(
                old(self).about(workflow_id@, step.step_id@),
                workflow_id@,
                *step,
            ),
            old(self).others_stay(*final(self), workflow_id@, step.step_id@),
    {
        let ghost before = event_views(self.stream@);
        self.event_seq = self.event_seq + 1;
        self.emit(EngineEvent::Execution(before_step_event(self.event_seq, workflow_id, step)));
        self.emit(EngineEvent::Observer(step_started_event(workflow_id, step)));
        assert(event_views(self.stream@) =~= before + seq![
            StreamView::Execution(event_before(self.event_seq, workflow_id@, *step)),
            StreamView::Observer(started(workflow_id@, *step)),
        ]);
    }

    /// Numbers an attempt at a step; zero where attempts are not numbered.
    fn number_attempt(&mut self, workflow_id: &str, step: &Step) -> (r: u32)
        ensures
            final(self).about(workflow_id@, step.step_id@) == numbered(
                old(self).about(workflow_id@, step.step_id@),
            ),
            r == last_number(final(self).about(workflow_id@, step.step_id@)),
            old(self).others_stay(*final(self), workflow_id@, step.step_id@),
    {
        if self.tracing {
            self.attempts.next_attempt(workflow_id, step.step_id.as_str())
        } else {
            0
        }
    }

    /// Announces an attempt at a step, and numbers it.
    pub fn begin_attempt(&mut self, workflow_id: &str, step: &Step) -> (r: u32)
        requires
            old(self).event_seq < u64::MAX,
        ensures
            final(self).about(workflow_id@, step.step_id@) == numbered(
                announced(old(self).about(workflow_id@, step.step_id@), workflow_id@, *step),
            ),
            r == last_number(final(self).about(workflow_id@, step.step_id@)),
            old(self).others_stay(*final(self), workflow_id@, step.step_id@),
    {
        self.announce(workflow_id, step);
        self.number_attempt(workflow_id, step)
    }

    /// Reports an attempt that has run.
    pub fn complete_attempt(
        &mut self,
        workflow_id: &str,
        step: &Step,
        execution: &StepExecution,
        duration_nanos: u128,
    )
        requires
            old(self).event_seq < u64::MAX,
        ensures
            final(self).about(workflow_id@, step.step_id@) == attempt_completed(
                old(self).about(workflow_id@, step.step_id@),
                workflow_id@,
                *step,
                *execution,
                duration_nanos,
            ),
            old(self).others_stay(*final(self), workflow_id@, step.step_id@),
    {
        let ghost before = event_views(self.stream@);
        self.event_seq = self.event_seq + 1;
        let after = after_step_event(self.event_seq, workflow_id, step, execution, duration_nanos);
        self.emit(EngineEvent::Execution(after));
        let done = step_completed_event(workflow_id, step, execution, duration_nanos);
        self.emit(EngineEvent::Observer(done));
        assert(event_views(self.stream@) =~= before + seq![
            StreamView::Execution(
                event_after(self.event_seq, workflow_id@, *step, *execution, duration_nanos),
            ),
            StreamView::Observer(completed(workflow_id@, *step, *execution, duration_nanos)),
        ]);
    }

    /// Traces an attempt that was routed, where attempts are traced.
    pub fn trace_attempt(
        &mut self,
        workflow_id: &str,
        step: &Step,
        number: u32,
        attempt: &SettledAttempt,
    )
        requires
            old(self).trace_seq < u64::MAX,
        ensures
            final(self).about(workflow_id@, step.step_id@) == attempt_traced(
                old(self).about(workflow_id@, step.step_id@),
                workflow_id@,
                *step,
                number,
                *attempt,
            ),
            old(self).others_stay(*final(self), workflow_id@, step.step_id@),
    {
        if self.tracing {
            self.trace_seq = self.trace_seq + 1;
            let record = build_step_trace_record(self.trace_seq, workflow_id, step, number, attempt);
            self.emit(EngineEvent::TraceStep(record));
        }
    }

    /// Reports a retry that is about to run.
    pub fn report_retry(&mut self, workflow_id: &str, step: &Step, retry: ScheduledRetry)
        ensures
            final(self).about(workflow_id@, step.step_id@) == retry_reported(
                old(self).about(workflow_id@, step.step_id@),
                workflow_id@,
                step.step_id@,
                retry,
            ),
            old(self).others_stay(*final(self), workflow_id@, step.step_id@),
    {
        let event = retry_scheduled_event(workflow_id, step.step_id.as_str(), retry);
        self.emit(EngineEvent::Observer(event));
    }

    /// Puts events from elsewhere at the end of the stream.
    pub fn forward(&mut self, events: Vec<EngineEvent>)
        ensures
            event_views(final(self).stream@) == event_views(old(self).stream@) + event_views(
                events@,
            ),
            final(self).tracing == old(self).tracing,
            final(self).trace_seq == old(self).trace_seq,
            final(self).event_seq == old(self).event_seq,
            final(self).attempts == old(self).attempts,
    {
        let ghost before = self.stream@;
        let ghost more = events@;
        let mut events = events;
        self.stream.append(&mut events);
        assert(event_views(self.stream@) =~= event_views(before) + event_views(more));
    }

    /// Records an attempt that has run elsewhere.
    pub fn record_settled(&mut self, workflow_id: &str, step: &Step, attempt: &SettledAttempt)
        requires
            old(self).event_seq < u64::MAX,
            old(self).trace_seq < u64::MAX,
        ensures
            final(self).about(workflow_id@, step.step_id@) == settled_recorded(
                old(self).about(workflow_id@, step.step_id@),
                workflow_id@,
                *step,
                *attempt,
            ),
            old(self).others_stay(*final(self), workflow_id@, step.step_id@),
    {
        let ghost start = *self;
        let number = self.number_attempt(workflow_id, step);
        let ghost after_number = *self;
        self.complete_attempt(workflow_id, step, &attempt.execution, attempt.duration_nanos);
        let ghost after_completion = *self;
        self.trace_attempt(workflow_id, step, number, attempt);
        proof {
            assert forall|w: Seq<char>, s: Seq<char>|
                (w != workflow_id@ || s != step.step_id@) implies #[trigger] self.attempts.count(
                w,
                s,
            ) == start.attempts.count(w, s) by {
                assert(after_number.attempts.count(w, s) == start.attempts.count(w, s));
                assert(after_completion.attempts.count(w, s) == after_number.attempts.count(w, s));
            }
        }
    }
}

// ---------------------------------------------------------------------
// Steps of a level
// ---------------------------------------------------------------------

/// One attempt as it ran apart: the events that it left, and how it settled.
#[derive(Debug)]
pub struct ParallelAttempt {
    pub events: Vec<EngineEvent>,
    pub settled: SettledAttempt,
}

/// A record with the first `n` retried attempts of a step behind it, as a
/// level records them: each but the first is announced, and each is followed
/// by the retry that it led to.
pub open spec fn retries_replayed(
    v: RecordView,
    workflow_id: Seq<char>,
    step: Step,
    retried: Seq<(ParallelAttempt, ScheduledRetry)>,
    n: nat,
) -> RecordView
    decreases n,
{
    if n == 0 {
        v
    } else {
        let before = retries_replayed(v, workflow_id, step, retried, (n - 1) as nat);
        let attempt = retried[n - 1].0;
        retry_reported(
            attempt_replayed(before, workflow_id, step, attempt, n > 1),
            workflow_id,
            step.step_id@,
            retried[n - 1].1,
        )
    }
}

/// A record with an attempt of a level behind it.
pub open spec fn attempt_replayed(
    v: RecordView,
    workflow_id: Seq<char>,
    step: Step,
    attempt: ParallelAttempt,
    announce: bool,
) -> RecordView {
    let begun = if announce {
        announced(v, workflow_id, step)
    } else {
        v
    };
    settled_recorded(
        forwarded(begun, event_views(attempt.events@)),
        workflow_id,
        step,
        attempt.settled,
    )
}

/// A record with a step of a level behind it. The level has announced its
/// first attempt.
pub open spec fn step_replayed(
    v: RecordView,
    workflow_id: Seq<char>,
    step: Step,
    retried: Seq<(ParallelAttempt, ScheduledRetry)>,
    last: ParallelAttempt,
) -> RecordView {
    attempt_replayed(
        retries_replayed(v, workflow_id, step, retried, retried.len()),
        workflow_id,
        step,
        last,
        retried.len() > 0,
    )
}

/// How far the numbers of a record have come with `n` attempts of a step more.
pub open spec fn has_room(r: Recorder, n: nat) -> bool {
    &&& r.event_seq + 2 * n <= u64::MAX
    &&& r.trace_seq + n <= u64::MAX
}

impl Recorder {
    /// Records an attempt of a level.
    fn replay_attempt(
        &mut self,
        workflow_id: &str,
        step: &Step,
        attempt: ParallelAttempt,
        announce: bool,
    ) -> (r: SettledAttempt)
        requires
            has_room(*old(self), 1),
        ensures
            final(self).about(workflow_id@, step.step_id@) == attempt_replayed(
                old(self).about(workflow_id@, step.step_id@),
                workflow_id@,
                *step,
                attempt,
                announce,
            ),
            old(self).others_stay(*final(self), workflow_id@, step.step_id@),
            final(self).event_seq <= old(self).event_seq + 2,
            final(self).trace_seq <= old(self).trace_seq + 1,
            r == attempt.settled,
    {
        let ghost start = *self;
        if announce {
            self.announce(workflow_id, step);
        }
        let ghost begun = *self;
        let ParallelAttempt { events, settled } = attempt;
        self.forward(events);
        self.record_settled(workflow_id, step, &settled);
        proof {
            assert forall|w: Seq<char>, s: Seq<char>|
                (w != workflow_id@ || s != step.step_id@) implies #[trigger] self.attempts.count(
                w,
                s,
            ) == start.attempts.count(w, s) by {
                assert(begun.attempts.count(w, s) == start.attempts.count(w, s));
            }
        }
        settled
    }

    /// Records the attempts at a step of a level, in the order in which they
    /// ran, and hands back the one that settled it.
    pub fn replay_step(
        &mut self,
        workflow_id: &str,
        step: &Step,
        retried: Vec<(ParallelAttempt, ScheduledRetry)>,
        last: ParallelAttempt,
    ) -> (r: SettledAttempt)
        requires
            has_room(*old(self), retried@.len() + 1),
        ensures
            final(self).about(workflow_id@, step.step_id@) == step_replayed(
                old(self).about(workflow_id@, step.step_id@),
                workflow_id@,
                *step,
                retried@,
                last,
            ),
            old(self).others_stay(*final(self), workflow_id@, step.step_id@),
            r == last.settled,
    {
        let ghost start = *self;
        let ghost list = retried@;
        let mut first = true;
        for entry in it: retried
            invariant
                it.seq() == list,
                first == (it.index() == 0),
                self.about(workflow_id@, step.step_id@) == retries_replayed(
                    start.about(workflow_id@, step.step_id@),
                    workflow_id@,
                    *step,
                    list,
                    it.index() as nat,
                ),
                start.others_stay(*self, workflow_id@, step.step_id@),
                has_room(start, list.len() + 1),
                self.event_seq <= start.event_seq + 2 * it.index(),
                self.trace_seq <= start.trace_seq + it.index(),
        {
            let ghost now = *self;
            let (attempt, retry) = entry;
            let _ = self.replay_attempt(workflow_id, step, attempt, !first);
            let ghost replayed = *self;
            self.report_retry(workflow_id, step, retry);
            first = false;
            proof {
                assert forall|w: Seq<char>, s: Seq<char>|
                    (w != workflow_id@ || s != step.step_id@) implies #[trigger] self.attempts.count(
                    w,
                    s,
                ) == start.attempts.count(w, s) by {
                    assert(now.attempts.count(w, s) == start.attempts.count(w, s));
                    assert(replayed.attempts.count(w, s) == now.attempts.count(w, s));
                }
            }
        }
        let ghost now = *self;
        let settled = self.replay_attempt(workflow_id, step, last, !first);
        proof {
            assert forall|w: Seq<char>, s: Seq<char>|
                (w != workflow_id@ || s != step.step_id@) implies #[trigger] self.attempts.count(
                w,
                s,
            ) == start.attempts.count(w, s) by {
                assert(now.attempts.count(w, s) == start.attempts.count(w, s));
            }
        }
        settled
    }
}

// ---------------------------------------------------------------------
// Laws
// ---------------------------------------------------------------------

/// A record with an attempt behind it that ran in its turn: it is announced
/// and numbered before it runs, and completed and traced behind its events.
pub open spec fn attempt_in_turn(
    v: RecordView,
    workflow_id: Seq<char>,
    step: Step,
    attempt: ParallelAttempt,
) -> RecordView {
    let begun = numbered(announced(v, workflow_id, step));
    attempt_traced(
        attempt_completed(
            forwarded(begun, event_views(attempt.events@)),
            workflow_id,
            step,
            attempt.settled.execution,
            attempt.settled.duration_nanos,
        ),
        workflow_id,
        step,
        last_number(begun),
        attempt.settled,
    )
}

/// A record with the first `n` retried attempts of a step behind it, each of
/// which ran in its turn.
pub open spec fn retries_in_turn(
    v: RecordView,
    workflow_id: Seq<char>,
    step: Step,
    retried: Seq<(ParallelAttempt, ScheduledRetry)>,
    n: nat,
) -> RecordView
    decreases n,
{
    if n == 0 {
        v
    } else {
        retry_reported(
            attempt_in_turn(
                retries_in_turn(v, workflow_id, step, retried, (n - 1) as nat),
                workflow_id,
                step,
                retried[n - 1].0,
            ),
            workflow_id,
            step.step_id@,
            retried[n - 1].1,
        )
    }
}

/// An attempt of a level is recorded as one that ran in its turn.
pub proof fn attempts_are_recorded_alike(
    v: RecordView,
    workflow_id: Seq<char>,
    step: Step,
    attempt: ParallelAttempt,
)
    ensures
        attempt_replayed(v, workflow_id, step, attempt, true) == attempt_in_turn(
            v,
            workflow_id,
            step,
            attempt,
        ),
        attempt_replayed(announced(v, workflow_id, step), workflow_id, step, attempt, false)
            == attempt_in_turn(v, workflow_id, step, attempt),
{
}

proof fn retries_are_recorded_alike(
    v: RecordView,
    workflow_id: Seq<char>,
    step: Step,
    retried: Seq<(ParallelAttempt, ScheduledRetry)>,
    n: nat,
)
    requires
        0 < n <= retried.len(),
    ensures
        retries_replayed(announced(v, workflow_id, step), workflow_id, step, retried, n)
            == retries_in_turn(v, workflow_id, step, retried, n),
    decreases n,
{
    if n == 1 {
        assert(retries_replayed(announced(v, workflow_id, step), workflow_id, step, retried, 0)
            == announced(v, workflow_id, step));
        assert(retries_in_turn(v, workflow_id, step, retried, 0) == v);
        attempts_are_recorded_alike(v, workflow_id, step, retried[0].0);
    } else {
        retries_are_recorded_alike(v, workflow_id, step, retried, (n - 1) as nat);
        attempts_are_recorded_alike(
            retries_in_turn(v, workflow_id, step, retried, (n - 1) as nat),
            workflow_id,
            step,
            retried[n - 1].0,
        );
    }
}

/// A step whose first attempt a level has announced is recorded as one whose
/// attempts ran in their turn: the same events, with the same numbers, in the
/// same order.
pub proof fn steps_are_recorded_alike(
    v: RecordView,
    workflow_id: Seq<char>,
    step: Step,
    retried: Seq<(ParallelAttempt, ScheduledRetry)>,
    last: ParallelAttempt,
)
    ensures
        step_replayed(announced(v, workflow_id, step), workflow_id, step, retried, last)
            == attempt_in_turn(
            retries_in_turn(v, workflow_id, step, retried, retried.len()),
            workflow_id,
            step,
            last,
        ),
{
    if retried.len() == 0 {
        attempts_are_recorded_alike(v, workflow_id, step, last);
    } else {
        retries_are_recorded_alike(v, workflow_id, step, retried, retried.len());
        attempts_are_recorded_alike(
            retries_in_turn(v, workflow_id, step, retried, retried.len()),
            workflow_id,
            step,
            last,
        );
    }
}

} // verus!
