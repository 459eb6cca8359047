use mobdtimer::engine::{
    apply_action, event_action, on_remote_change, wait_duration, EngineState, TimerAction,
    TimerControl, WaitOutcome,
};

#[test]
fn stop_right_after_start_kills_the_waiter_instead_of_timing_out() {
    let now: i64 = 1_700_000_000;
    let mut control = TimerControl::new();

    let duration = control.begin_wait(now + 60, now);
    assert_eq!(duration, 60);

    control.request_stop();

    assert_eq!(control.observe_wake(false), WaitOutcome::Killed);
    assert_eq!(control.observe_wake(true), WaitOutcome::Killed);
}

#[test]
fn a_past_end_time_waits_only_its_distance_back() {
    let now: i64 = 1_700_000_000;
    let mut control = TimerControl::new();

    let duration = control.begin_wait(now - 5, now);
    assert_eq!(duration, 5);

    assert_eq!(control.observe_wake(true), WaitOutcome::Completed);
}

#[test]
fn a_spurious_wake_keeps_waiting_with_the_remaining_deadline() {
    let now: i64 = 1_700_000_000;
    let mut control = TimerControl::new();

    control.begin_wait(now + 60, now);

    assert_eq!(control.observe_wake(false), WaitOutcome::KeepWaiting);
    assert_eq!(control.remaining_wait(now + 45), 15);
}

#[test]
fn a_fresh_start_clears_a_stale_cancellation() {
    let now: i64 = 1_700_000_000;
    let mut control = TimerControl::new();

    control.request_stop();
    let duration = control.begin_wait(now + 60, now);

    assert_eq!(duration, 60);
    assert_eq!(control.observe_wake(false), WaitOutcome::KeepWaiting);
}

#[test]
fn wait_duration_is_the_unsigned_distance() {
    assert_eq!(wait_duration(160, 100), 60);
    assert_eq!(wait_duration(95, 100), 5);
    assert_eq!(wait_duration(100, 100), 0);
    assert_eq!(wait_duration(i64::MAX, i64::MIN), u64::MAX);
}

#[test]
fn a_future_remote_end_time_starts_a_timer() {
    let now: i64 = 1_700_000_000;
    let action = on_remote_change(Some(now + 90), now);
    assert_eq!(action, TimerAction::StartWaiter { end_time: now + 90 });
    assert_eq!(
        apply_action(EngineState::Idle, action),
        EngineState::Running { end_time: now + 90 }
    );
}

#[test]
fn a_past_remote_end_time_stops_the_timer() {
    let now: i64 = 1_700_000_000;
    let action = on_remote_change(Some(now - 1), now);
    assert_eq!(action, TimerAction::StopWaiter { end_time: now - 1 });
    assert_eq!(
        apply_action(EngineState::Running { end_time: now + 5 }, action),
        EngineState::Idle
    );
}

#[test]
fn a_remote_stop_records_the_observed_end_time() {
    let now: i64 = 1_700_000_000;
    let mut control = TimerControl::new();

    control.begin_wait(now + 60, now);
    control.record_end_time(now - 30);
    control.request_stop();

    assert_eq!(control.observe_wake(false), WaitOutcome::Killed);
    assert_eq!(control.remaining_wait(now), 30);
}

#[test]
fn a_missing_end_time_changes_nothing() {
    let action = on_remote_change(None, 1_700_000_000);
    assert_eq!(action, TimerAction::Ignore);
    let running = EngineState::Running { end_time: 7 };
    assert_eq!(apply_action(running, action), running);
}

#[test]
fn a_put_event_with_a_future_end_time_starts_a_timer() {
    let now: i64 = 1_700_000_000;
    let payload = format!("{{\"path\":\"/\",\"data\":{{\"endTime\":{}}}}}", now + 120);
    let action = event_action(Some("put"), &payload, now);
    assert_eq!(action, TimerAction::StartWaiter { end_time: now + 120 });
}

#[test]
fn a_put_event_with_a_past_end_time_stops_the_timer() {
    let now: i64 = 1_700_000_000;
    let payload = format!("{{\"data\":{{\"endTime\":{}}}}}", now - 30);
    let action = event_action(Some("put"), &payload, now);
    assert_eq!(action, TimerAction::StopWaiter { end_time: now - 30 });
}

#[test]
fn a_put_event_without_an_end_time_is_ignored() {
    let now: i64 = 1_700_000_000;
    assert_eq!(
        event_action(Some("put"), "{\"data\":{}}", now),
        TimerAction::Ignore
    );
    assert_eq!(event_action(Some("put"), "no json here", now), TimerAction::Ignore);
    assert_eq!(
        event_action(Some("put"), "{\"data\":{\"endTime\":\"soon\"}}", now),
        TimerAction::Ignore
    );
}

#[test]
fn events_of_other_kinds_are_ignored() {
    let now: i64 = 1_700_000_000;
    let payload = format!("{{\"data\":{{\"endTime\":{}}}}}", now + 120);
    assert_eq!(event_action(Some("keep-alive"), &payload, now), TimerAction::Ignore);
    assert_eq!(event_action(None, &payload, now), TimerAction::Ignore);
}
