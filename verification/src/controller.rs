//! The debug gate: breakpoints and pause requests stop a step, and a resume
//! lets it go on.

use crate::breakpoints::{first_matching_breakpoint, stops_at, StepBreakpoint, StepCheckpoint};
use crate::text::{blank_text, is_blank};
use vstd::prelude::*;

verus! {

/// Why the runtime stopped.
#[derive(Debug, Clone, Copy, PartialEq, Eq, Structural)]
pub enum DebugStopReason {
    Breakpoint,
    Pause,
}

/// One stop at a gate.
#[derive(Debug, Clone, PartialEq, Eq)]
pub struct DebugStopEvent {
    pub seq: u64,
    pub workflow_id: String,
    pub step_id: String,
    pub reason: DebugStopReason,
    pub breakpoint_condition: Option<String>,
}

/// One workflow frame of a stopped runtime.
#[derive(Debug, Clone, PartialEq, Eq)]
pub struct DebugStackFrame {
    pub depth: usize,
    pub workflow_id: String,
    pub step_id: String,
}

/// The state of the debug gate. The caller serialises access to it and waits
/// while a step is held.
#[derive(Debug)]
pub struct DebugController {
    pub breakpoints: Vec<StepBreakpoint>,
    pub pause_requested: bool,
    pub waiting: bool,
    pub continue_permit: bool,
    pub stop_events: Vec<DebugStopEvent>,
    pub next_seq: u64,
}

/// The condition that a stop reports: none where it is absent or blank.
pub open spec fn reported_condition(condition: Option<String>) -> Option<String> {
    match condition {
        Some(c) => if is_blank(c@) {
            None
        } else {
            condition
        },
        None => None,
    }
}

/// Whether some breakpoint stops at a place.
pub open spec fn some_breakpoint_stops(
    c: DebugController,
    holds: Seq<bool>,
    workflow_id: Seq<char>,
    step_id: Seq<char>,
    checkpoint: StepCheckpoint,
) -> bool {
    exists|i: int|
        0 <= i < c.breakpoints@.len() && #[trigger] stops_at(
            c.breakpoints@,
            holds,
            i,
            workflow_id,
            step_id,
            checkpoint,
        )
}

/// Whether execution is held at a checkpoint.
pub open spec fn gate_holds(
    c: DebugController,
    holds: Seq<bool>,
    workflow_id: Seq<char>,
    step_id: Seq<char>,
    checkpoint: StepCheckpoint,
) -> bool {
    some_breakpoint_stops(c, holds, workflow_id, step_id, checkpoint) || c.pause_requested
}

/// A controller once execution has tried to go on.
pub open spec fn gate_left(c: DebugController) -> DebugController {
    if c.continue_permit {
        DebugController { continue_permit: false, waiting: false, ..c }
    } else {
        c
    }
}

/// The events are numbered in rising order, and the last number given out is
/// known.
pub open spec fn numbered(c: DebugController) -> bool {
    &&& forall|i: int, j: int|
        0 <= i < j < c.stop_events@.len() && c.stop_events@[j].seq < u64::MAX
            ==> (#[trigger] c.stop_events@[i]).seq < (#[trigger] c.stop_events@[j]).seq
    &&& forall|i: int|
        0 <= i < c.stop_events@.len() ==> (#[trigger] c.stop_events@[i]).seq <= c.next_seq
}

/// A permit to go on is kept only for a step that waits.
pub open spec fn permit_is_awaited(c: DebugController) -> bool {
    c.continue_permit ==> c.waiting
}

/// The events are those of all stops so far, and the numbers count them from
/// one.
pub open spec fn counts_every_stop(c: DebugController) -> bool {
    &&& c.next_seq == c.stop_events@.len()
    &&& forall|i: int|
        0 <= i < c.stop_events@.len() ==> (#[trigger] c.stop_events@[i]).seq == i + 1
}

/// What a stop leaves behind: one more event, numbered next, and a step that
/// waits.
pub open spec fn stopped(
    before: DebugController,
    after: DebugController,
    workflow_id: Seq<char>,
    step_id: Seq<char>,
    reason: DebugStopReason,
    condition: Option<String>,
) -> bool {
    &&& after.breakpoints@ == before.breakpoints@
    &&& after.pause_requested == before.pause_requested
    &&& after.continue_permit == before.continue_permit
    &&& after.waiting
    &&& after.next_seq == (if before.next_seq == u64::MAX {
        u64::MAX
    } else {
        (before.next_seq + 1) as u64
    })
    &&& after.stop_events@.len() == before.stop_events@.len() + 1
    &&& after.stop_events@.drop_last() == before.stop_events@
    &&& after.stop_events@.last().seq == after.next_seq
    &&& after.stop_events@.last().workflow_id@ == workflow_id
    &&& after.stop_events@.last().step_id@ == step_id
    &&& after.stop_events@.last().reason == reason
    &&& after.stop_events@.last().breakpoint_condition == condition
}

impl Default for DebugController {
    fn default() -> (r: DebugController)
        ensures
            r.breakpoints@.len() == 0,
            !r.pause_requested,
            !r.waiting,
            !r.continue_permit,
            r.stop_events@.len() == 0,
            r.next_seq == 0,
            numbered(r),
            permit_is_awaited(r),
            counts_every_stop(r),
    {
        DebugController {
            breakpoints: Vec::new(),
            pause_requested: false,
            waiting: false,
            continue_permit: false,
            stop_events: Vec::new(),
            next_seq: 0,
        }
    }
}

impl DebugController {
    /// A gate without breakpoints, with nothing stopped.
    pub fn new() -> (r: DebugController)
        ensures
            r.breakpoints@.len() == 0,
            !r.pause_requested,
            !r.waiting,
            !r.continue_permit,
            r.stop_events@.len() == 0,
            r.next_seq == 0,
            numbered(r),
            permit_is_awaited(r),
            counts_every_stop(r),
    {
        DebugController {
            breakpoints: Vec::new(),
            pause_requested: false,
            waiting: false,
            continue_permit: false,
            stop_events: Vec::new(),
            next_seq: 0,
        }
    }

    /// Replaces the breakpoints.
    pub fn set_breakpoints(&mut self, breakpoints: Vec<StepBreakpoint>)
        ensures
            *final(self) == (DebugController { breakpoints, ..*old(self) }),
            permit_is_awaited(*old(self)) ==> permit_is_awaited(*final(self)),
    {
        self.breakpoints = breakpoints;
    }

    /// Asks for a stop at the next gate.
    pub fn request_pause(&mut self)
        ensures
            *final(self) == (DebugController { pause_requested: true, ..*old(self) }),
            permit_is_awaited(*old(self)) ==> permit_is_awaited(*final(self)),
    {
        self.pause_requested = true;
    }

    /// Takes a pause request back, and lets a step go on that is held.
    pub fn resume(&mut self)
        ensures
            *final(self) == resumed(*old(self)),
            permit_is_awaited(*old(self)) ==> permit_is_awaited(*final(self)),
    {
        self.pause_requested = false;
        if self.waiting {
            self.continue_permit = true;
        }
    }

    /// The stops so far, in order.
    pub fn stop_events(&self) -> (r: &Vec<DebugStopEvent>)
        ensures
            r@ == self.stop_events@,
    {
        &self.stop_events
    }

    /// Forgets the stops so far; their numbers are not given out again.
    pub fn clear_stop_events(&mut self)
        ensures
            final(self).stop_events@.len() == 0,
            final(self).next_seq == old(self).next_seq,
            final(self).breakpoints == old(self).breakpoints,
            final(self).pause_requested == old(self).pause_requested,
            final(self).waiting == old(self).waiting,
            final(self).continue_permit == old(self).continue_permit,
            permit_is_awaited(*old(self)) ==> permit_is_awaited(*final(self)),
            numbered(*final(self)),
    {
        self.stop_events = Vec::new();
    }

    /// Whether a wait for `expected` stops is over: it is when there are as
    /// many, and when the time is up. `None` means to wait on.
    pub fn wait_for_stop_count(&self, expected: usize, time_is_up: bool) -> (r: Option<bool>)
        ensures
            r == (if self.stop_events@.len() >= expected {
                Some(true)
            } else if time_is_up {
                Some(false)
            } else {
                None
            }),
    {
        if self.stop_events.len() >= expected {
            Some(true)
        } else if time_is_up {
            Some(false)
        } else {
            None
        }
    }

    /// Comes to a gate. A breakpoint that applies stops the step, and so does
    /// a pause request; a breakpoint is the reason where both apply. Returns
    /// whether the step is held.
    pub fn gate_step(
        &mut self,
        workflow_id: &str,
        step_id: &str,
        checkpoint: &StepCheckpoint,
        holds: &Vec<bool>,
    ) -> (held: bool)
        ensures
            held == gate_holds(*old(self), holds@, workflow_id@, step_id@, *checkpoint),
            held == (some_breakpoint_stops(*old(self), holds@, workflow_id@, step_id@, *checkpoint)
                || old(self).pause_requested),
            !held ==> *final(self) == *old(self),
            some_breakpoint_stops(*old(self), holds@, workflow_id@, step_id@, *checkpoint)
                ==> exists|i: int|
                0 <= i < old(self).breakpoints@.len() && #[trigger] stops_at(
                    old(self).breakpoints@,
                    holds@,
                    i,
                    workflow_id@,
                    step_id@,
                    *checkpoint,
                ) && (forall|j: int|
                    0 <= j < i ==> !(#[trigger] stops_at(
                        old(self).breakpoints@,
                        holds@,
                        j,
                        workflow_id@,
                        step_id@,
                        *checkpoint,
                    ))) && stopped(
                    *old(self),
                    *final(self),
                    workflow_id@,
                    step_id@,
                    DebugStopReason::Breakpoint,
                    reported_condition(old(self).breakpoints@[i].condition),
                ),
            held && !some_breakpoint_stops(
                *old(self),
                holds@,
                workflow_id@,
                step_id@,
                *checkpoint,
            ) ==> stopped(
                *old(self),
                *final(self),
                workflow_id@,
                step_id@,
                DebugStopReason::Pause,
                None,
            ),
            numbered(*old(self)) ==> numbered(*final(self)),
            permit_is_awaited(*old(self)) ==> permit_is_awaited(*final(self)),
            counts_every_stop(*old(self)) && old(self).next_seq < u64::MAX ==> counts_every_stop(
                *final(self),
            ),
    {
        let matched = first_matching_breakpoint(
            &self.breakpoints,
            holds,
            workflow_id,
            step_id,
            checkpoint,
        );
        let (reason, breakpoint_condition) = match matched {
            Some(i) => {
                assert(stops_at(
                    self.breakpoints@,
                    holds@,
                    i as int,
                    workflow_id@,
                    step_id@,
                    *checkpoint,
                ));
                let condition = match &self.breakpoints[i].condition {
                    Some(c) => if blank_text(c.as_str()) {
                        None
                    } else {
                        Some(c.clone())
                    },
                    None => None,
                };
                (DebugStopReason::Breakpoint, condition)
            },
            None => {
                if !self.pause_requested {
                    return false;
                }
                (DebugStopReason::Pause, None)
            },
        };
        let ghost before = *self;
        self.next_seq = self.next_seq.saturating_add(1);
        let seq: u64 = self.next_seq;
        let event = DebugStopEvent {
            seq,
            workflow_id: workflow_id.to_owned(),
            step_id: step_id.to_owned(),
            reason,
            breakpoint_condition,
        };
        self.stop_events.push(event);
        self.waiting = true;
        assert(self.stop_events@.drop_last() =~= before.stop_events@);
        true
    }

    /// Lets a held step go on where a resume has permitted it. Returns whether
    /// it goes on.
    pub fn leave_gate(&mut self) -> (gone: bool)
        ensures
            gone == old(self).continue_permit,
            *final(self) == gate_left(*old(self)),
            gone ==> *final(self) == (DebugController {
                continue_permit: false,
                waiting: false,
                ..*old(self)
            }),
            !gone ==> *final(self) == *old(self),
            permit_is_awaited(*old(self)) ==> permit_is_awaited(*final(self)),
    {
        if self.continue_permit {
            self.continue_permit = false;
            self.waiting = false;
            true
        } else {
            false
        }
    }
}

// ---------------------------------------------------------------------
// Laws
// ---------------------------------------------------------------------

/// What resuming leaves.
pub open spec fn resumed(c: DebugController) -> DebugController {
    DebugController {
        pause_requested: false,
        continue_permit: c.continue_permit || c.waiting,
        ..c
    }
}

/// Resuming while no step waits withdraws a pause request and stores nothing
/// up: there is no permit afterwards, so the next step that is held waits for
/// another resume. The stops stay, and resuming again changes nothing more.
pub proof fn resume_stores_nothing_up(c: DebugController)
    requires
        permit_is_awaited(c),
        !c.waiting,
    ensures
        !resumed(c).continue_permit,
        !resumed(c).pause_requested,
        resumed(c).stop_events == c.stop_events,
        resumed(c).breakpoints == c.breakpoints,
        resumed(resumed(c)) == resumed(c),
{
}

/// A stop that finds no permit holds its step until there is one: the permit
/// that lets it go on was given while it waited.
pub proof fn a_stop_waits_for_its_own_permit(
    before: DebugController,
    after: DebugController,
    workflow_id: Seq<char>,
    step_id: Seq<char>,
    reason: DebugStopReason,
    condition: Option<String>,
)
    requires
        permit_is_awaited(before),
        !before.waiting,
        stopped(before, after, workflow_id, step_id, reason, condition),
    ensures
        !after.continue_permit,
        after.waiting,
        resumed(after).continue_permit,
{
}

/// While no stop was forgotten the stops are numbered from one, without gaps:
/// the one that is next comes behind them with the next number.
pub proof fn stops_are_counted(
    before: DebugController,
    after: DebugController,
    workflow_id: Seq<char>,
    step_id: Seq<char>,
    reason: DebugStopReason,
    condition: Option<String>,
)
    requires
        counts_every_stop(before),
        before.next_seq < u64::MAX,
        stopped(before, after, workflow_id, step_id, reason, condition),
    ensures
        counts_every_stop(after),
        after.stop_events@.last().seq == before.stop_events@.len() + 1,
        forall|i: int|
            0 <= i < before.stop_events@.len() ==> after.stop_events@[i]
                == #[trigger] before.stop_events@[i],
{
    assert forall|i: int| 0 <= i < before.stop_events@.len() implies after.stop_events@[i]
        == #[trigger] before.stop_events@[i] by {
        assert(after.stop_events@.drop_last()[i] == before.stop_events@[i]);
    }
    assert forall|i: int| 0 <= i < after.stop_events@.len() implies (
    #[trigger] after.stop_events@[i]).seq == i + 1 by {
        if i < before.stop_events@.len() {
            assert(before.stop_events@[i].seq == i + 1);
        }
    }
}

} // verus!
