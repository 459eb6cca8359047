use vstd::prelude::*;

use crate::string_util::str_equal;

verus! {

/// What a waiter does after one wake-up from its timed wait.
#[derive(Clone, Copy, Debug, PartialEq, Eq, Structural)]
pub enum WaitOutcome {
    /// The cancel flag was set: the timer was killed.
    Killed,
    /// The wait timed out with no cancellation: the timer ran to its end.
    Completed,
    /// Neither: a spurious wake-up; keep waiting.
    KeepWaiting,
}

/// What the engine does with one observed event.
#[derive(Clone, Copy, Debug, PartialEq, Eq, Structural)]
pub enum TimerAction {
    /// Start a waiter that runs until the given end time (epoch seconds).
    StartWaiter { end_time: i64 },
    /// Stop the active waiter, if any; the already-past end time observed in
    /// the record is carried along so it can be recorded.
    StopWaiter { end_time: i64 },
    /// Do nothing: the event was malformed or irrelevant.
    Ignore,
}

/// The engine's abstract state: no countdown, or one running until an end time.
#[derive(Clone, Copy, Debug, PartialEq, Eq, Structural)]
pub enum EngineState {
    Idle,
    Running { end_time: i64 },
}

/// The wait a waiter is given: the unsigned distance from `now` to `end_time`.
/// An already-past end time gives the distance back to it — a short, bounded
/// wait, never an unbounded one.
pub open spec fn wait_duration_spec(end_time: int, now: int) -> int {
    if end_time >= now {
        end_time - now
    } else {
        now - end_time
    }
}

/// The unsigned distance in seconds from `now` to `end_time`.
pub fn wait_duration(end_time: i64, now: i64) -> (d: u64)
    ensures
        d == wait_duration_spec(end_time as int, now as int),
{
    if end_time >= now {
        ((end_time as i128) - (now as i128)) as u64
    } else {
        ((now as i128) - (end_time as i128)) as u64
    }
}

/// What one wake-up means for the waiter: cancellation wins over timeout, and
/// a wake with neither is spurious.
pub open spec fn wake_outcome(cancel_requested: bool, timed_out: bool) -> WaitOutcome {
    if cancel_requested {
        WaitOutcome::Killed
    } else if timed_out {
        WaitOutcome::Completed
    } else {
        WaitOutcome::KeepWaiting
    }
}

/// The state every thread shares, held under one mutex by the caller: the
/// cancel flag and the end time of the most recently started timer. The
/// threads, the mutex and the condition variable live with the caller; this
/// type holds the decisions they coordinate on.
pub struct TimerControl {
    /// Set by `request_stop`; cleared when a new waiter begins.
    pub cancel_requested: bool,
    /// End time (epoch seconds) of the most recently started timer.
    pub last_end_time: i64,
}

impl TimerControl {
    /// A fresh control: no cancellation requested, no timer yet.
    pub fn new() -> (c: TimerControl)
        ensures
            !c.cancel_requested,
            c.last_end_time == 0,
    {
        TimerControl { cancel_requested: false, last_end_time: 0 }
    }

    /// A new waiter begins: a stale cancellation left by an earlier `stop` is
    /// cleared, so the new timer is not killed at once; the end time is
    /// recorded; the waiter's first wait duration is handed back.
    pub fn begin_wait(&mut self, end_time: i64, now: i64) -> (d: u64)
        ensures
            !final (self).cancel_requested,
            final (self).last_end_time == end_time,
            d == wait_duration_spec(end_time as int, now as int),
    {
        self.cancel_requested = false;
        self.last_end_time = end_time;
        wait_duration(end_time, now)
    }

    /// A freshly observed remote end time is recorded before the action it
    /// calls for is taken: a waiter that wakes spuriously reads the recorded
    /// end time when it recomputes its remaining wait.
    pub fn record_end_time(&mut self, end_time: i64)
        ensures
            final (self).last_end_time == end_time,
            final (self).cancel_requested == old(self).cancel_requested,
    {
        self.last_end_time = end_time;
    }

    /// Cancellation of whatever waiter is active: the flag is set and stays
    /// set until the next `begin_wait`. With no active waiter this is a
    /// harmless no-op.
    pub fn request_stop(&mut self)
        ensures
            final (self).cancel_requested,
            final (self).last_end_time == old(self).last_end_time,
    {
        self.cancel_requested = true;
    }

    /// What the waiter does after a wake-up, given whether its wait timed out.
    pub fn observe_wake(&self, timed_out: bool) -> (o: WaitOutcome)
        ensures
            o == wake_outcome(self.cancel_requested, timed_out),
    {
        if self.cancel_requested {
            WaitOutcome::Killed
        } else if timed_out {
            WaitOutcome::Completed
        } else {
            WaitOutcome::KeepWaiting
        }
    }

    /// The wait left after a spurious wake-up: recomputed from the wall clock
    /// against the recorded end time, not restarted in full.
    pub fn remaining_wait(&self, now: i64) -> (d: u64)
        ensures
            d == wait_duration_spec(self.last_end_time as int, now as int),
    {
        wait_duration(self.last_end_time, now)
    }
}

/// The `endTime` number a change event's payload carries under its `data`
/// object, a function of the payload text alone; nothing when the payload does
/// not parse or holds no such number.
pub uninterp spec fn payload_end_time(payload: Seq<char>) -> Option<i64>;

/// Relies on serde_json::from_str, serde_json::Value's indexing and
/// Value::as_i64: together they read the `endTime` number under the payload's
/// `data` key, a value the payload text alone determines, and yield nothing
/// when the payload does not parse or no such number is there.
#[verifier::external_body]
fn extract_end_time(payload: &str) -> (r: Option<i64>)
    ensures
        r == payload_end_time(payload@),
{
    match serde_json::from_str::<serde_json::Value>(payload) {
        Ok(v) => v["data"]["endTime"].as_i64(),
        Err(_) => None,
    }
}

/// What the engine does with a remote record's end time: a strictly future
/// end time starts a timer, a past one stops the active timer, and a record
/// with no readable end time is silently ignored.
pub open spec fn remote_action(end_time: Option<i64>, now: int) -> TimerAction {
    match end_time {
        Some(t) => if t > now {
            TimerAction::StartWaiter { end_time: t }
        } else {
            TimerAction::StopWaiter { end_time: t }
        },
        None => TimerAction::Ignore,
    }
}

/// Decides what a freshly observed remote end time means for the timer.
pub fn on_remote_change(end_time: Option<i64>, now: i64) -> (a: TimerAction)
    ensures
        a == remote_action(end_time, now as int),
{
    match end_time {
        Some(t) => if t > now {
            TimerAction::StartWaiter { end_time: t }
        } else {
            TimerAction::StopWaiter { end_time: t }
        },
        None => TimerAction::Ignore,
    }
}

/// The view of an optional event-kind string.
pub open spec fn opt_str_view(s: Option<&str>) -> Option<Seq<char>> {
    match s {
        Some(t) => Some(t@),
        None => None,
    }
}

/// What the engine does with one subscription event: only a `put` event's
/// payload is read; an event of any other kind, or one with no kind, is
/// ignored.
pub open spec fn event_action_spec(
    event_type: Option<Seq<char>>,
    payload_end: Option<i64>,
    now: int,
) -> TimerAction {
    match event_type {
        Some(t) => if t == "put"@ {
            remote_action(payload_end, now)
        } else {
            TimerAction::Ignore
        },
        None => TimerAction::Ignore,
    }
}

/// Decides what one subscription event means for the timer.
pub fn event_action(event_type: Option<&str>, payload: &str, now: i64) -> (a: TimerAction)
    ensures
        a == event_action_spec(opt_str_view(event_type), payload_end_time(payload@), now as int),
{
    match event_type {
        Some(t) => {
            if str_equal(t, "put") {
                let end = extract_end_time(payload);
                on_remote_change(end, now)
            } else {
                TimerAction::Ignore
            }
        },
        None => TimerAction::Ignore,
    }
}

/// One transition of the engine's abstract state under a timer action:
/// starting moves to `Running` at the new end time, stopping moves to `Idle`,
/// an ignored event leaves the state alone.
pub open spec fn apply_action_spec(s: EngineState, a: TimerAction) -> EngineState {
    match a {
        TimerAction::StartWaiter { end_time } => EngineState::Running { end_time },
        TimerAction::StopWaiter { .. } => EngineState::Idle,
        TimerAction::Ignore => s,
    }
}

/// Applies one timer action to the engine's abstract state.
pub fn apply_action(s: EngineState, a: TimerAction) -> (r: EngineState)
    ensures
        r == apply_action_spec(s, a),
{
    match a {
        TimerAction::StartWaiter { end_time } => EngineState::Running { end_time },
        TimerAction::StopWaiter { .. } => EngineState::Idle,
        TimerAction::Ignore => s,
    }
}

} // verus!
