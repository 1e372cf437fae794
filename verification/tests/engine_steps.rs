//! The engine, one step at a time.

use mouse_clipboard::capability::{AxisSet, Capabilities, KeySet};
use mouse_clipboard::config::{
    EngineConfig, STANDARD_INACTIVITY_TIMEOUT_MS, STANDARD_POLL_INTERVAL_MS,
};
use mouse_clipboard::engine::{Command, Engine, GrabState, Reply, RunState, UnexpectedReply};
use mouse_clipboard::event::{EventRecord, EV_KEY, EV_REL};
use mouse_clipboard::intercept::{Action, BTN_EXTRA, BTN_SIDE};
use mouse_clipboard::outcome::{DispatchOutcome, EngineError, Outcome, StopReason};
use mouse_clipboard::watchdog::Signals;

fn at(now_ms: u64) -> Signals {
    Signals { cancelled: false, now_ms }
}

fn cancelled_at(now_ms: u64) -> Signals {
    Signals { cancelled: true, now_ms }
}

fn mouse() -> Capabilities {
    Capabilities {
        keys: Some(KeySet::from_codes(&vec![272, 273, 274, 275, 276])),
        axes: Some(AxisSet::from_codes(&vec![0, 1, 8])),
    }
}

fn key(code: u16, value: i32) -> EventRecord {
    EventRecord { event_type: EV_KEY, code, value }
}

fn motion(code: u16, value: i32) -> EventRecord {
    EventRecord { event_type: EV_REL, code, value }
}

/// An engine that holds exclusive access since `now_ms` and awaits its first read.
fn grabbed(now_ms: u64) -> Engine {
    let (mut engine, first) = Engine::start(EngineConfig::standard());
    assert!(matches!(first, Command::QueryCapabilities));
    assert!(matches!(
        engine.step(at(now_ms), Reply::Capabilities(mouse())),
        Ok(Command::CreateVirtual(_))
    ));
    assert!(matches!(engine.step(at(now_ms), Reply::VirtualCreated), Ok(Command::Acquire)));
    assert!(matches!(engine.step(at(now_ms), Reply::Acquired), Ok(Command::Read)));
    engine
}

#[test]
fn standard_configuration() {
    let config = EngineConfig::standard();
    assert_eq!(config.inactivity_timeout_ms, 30_000);
    assert_eq!(config.poll_interval_ms, 10);
    assert_eq!(STANDARD_INACTIVITY_TIMEOUT_MS, 30_000);
    assert_eq!(STANDARD_POLL_INTERVAL_MS, 10);
    assert_eq!(config.name_fragments, vec!["Logitech", "G502", "Mouse"]);
    assert_eq!(config.virtual_name, "Mouse Virtual (mouse-clipboard)");
    assert_eq!(config.intercepted.len(), 2);
    assert_eq!(config.intercepted.action_for(BTN_SIDE), Some(Action::Copy));
    assert_eq!(config.intercepted.action_for(BTN_EXTRA), Some(Action::ShowClipboard));
    assert_eq!(config.intercepted.action_for(272), None);
}

#[test]
fn exit_codes() {
    assert_eq!(Outcome::Clean(StopReason::Cancelled).exit_code(), 0);
    assert_eq!(Outcome::Clean(StopReason::Timeout).exit_code(), 0);
    assert_eq!(Outcome::Failed(EngineError::NotFound).exit_code(), 1);
    assert_eq!(Outcome::Failed(EngineError::CapabilityQueryFailure).exit_code(), 1);
    assert_eq!(Outcome::Failed(EngineError::CreationFailure).exit_code(), 1);
    assert_eq!(Outcome::Failed(EngineError::GrabDenied).exit_code(), 1);
    assert_eq!(Outcome::Failed(EngineError::ForwardWriteError).exit_code(), 1);
    assert!(Outcome::Clean(StopReason::Timeout).is_clean());
    assert!(!Outcome::Failed(EngineError::GrabDenied).is_clean());
}

#[test]
fn stages_of_an_ordinary_start() {
    let (mut engine, first) = Engine::start(EngineConfig::standard());
    assert!(matches!(first, Command::QueryCapabilities));
    assert_eq!(engine.run_state(), RunState::Located);
    assert_eq!(engine.grab_state(), GrabState::Free);
    assert_eq!(engine.outcome(), None);

    let plan = match engine.step(at(7), Reply::Capabilities(mouse())) {
        Ok(Command::CreateVirtual(plan)) => plan,
        other => panic!("unexpected {:?}", other),
    };
    assert_eq!(plan.name, "Mouse Virtual (mouse-clipboard)");
    assert_eq!(plan.keys.expect("keys").codes(), vec![272, 273, 274]);
    assert_eq!(plan.axes.expect("axes").codes(), vec![0, 1, 8]);
    assert_eq!(engine.run_state(), RunState::Located);

    assert!(matches!(engine.step(at(8), Reply::VirtualCreated), Ok(Command::Acquire)));
    assert_eq!(engine.run_state(), RunState::VirtualReady);
    assert_eq!(engine.grab_state(), GrabState::Free);

    assert!(matches!(engine.step(at(9), Reply::Acquired), Ok(Command::Read)));
    assert_eq!(engine.run_state(), RunState::Grabbed);
    assert_eq!(engine.grab_state(), GrabState::Grabbed);
    assert_eq!(engine.last_activity_ms(), 9);

    assert!(matches!(engine.step(at(10), Reply::WouldBlock), Ok(Command::Sleep(10))));
    assert_eq!(engine.run_state(), RunState::Running);
    assert!(matches!(engine.step(at(20), Reply::Slept), Ok(Command::Read)));
    assert_eq!(engine.run_state(), RunState::Running);
    assert_eq!(engine.last_activity_ms(), 9);
    assert_eq!(engine.outcome(), None);
}

#[test]
fn stages_of_the_way_out() {
    let mut engine = grabbed(0);
    assert!(matches!(engine.step(cancelled_at(5), Reply::Batch(Vec::new())), Ok(Command::Release)));
    assert_eq!(engine.run_state(), RunState::Draining);
    assert_eq!(engine.grab_state(), GrabState::Grabbed);
    assert_eq!(engine.outcome(), Some(Outcome::Clean(StopReason::Cancelled)));

    assert!(matches!(
        engine.step(at(6), Reply::Released),
        Ok(Command::Exit(Outcome::Clean(StopReason::Cancelled)))
    ));
    assert_eq!(engine.run_state(), RunState::Released);
    assert_eq!(engine.grab_state(), GrabState::Released);

    assert!(matches!(
        engine.step(at(7), Reply::Slept),
        Ok(Command::Exit(Outcome::Clean(StopReason::Cancelled)))
    ));
    assert_eq!(engine.run_state(), RunState::Terminated);
    assert_eq!(engine.grab_state(), GrabState::Released);
    assert!(matches!(
        engine.step(cancelled_at(8), Reply::Acquired),
        Ok(Command::Exit(Outcome::Clean(StopReason::Cancelled)))
    ));
    assert_eq!(engine.run_state(), RunState::Terminated);
    assert_eq!(engine.grab_state(), GrabState::Released);
}

#[test]
fn a_reply_that_answers_nothing_is_refused() {
    let (mut engine, _) = Engine::start(EngineConfig::standard());
    assert_eq!(engine.step(at(0), Reply::Acquired).err(), Some(UnexpectedReply));
    assert_eq!(engine.step(at(0), Reply::VirtualCreated).err(), Some(UnexpectedReply));
    assert_eq!(engine.step(at(0), Reply::Batch(vec![motion(0, 1)])).err(), Some(UnexpectedReply));
    assert_eq!(engine.run_state(), RunState::Located);
    assert_eq!(engine.grab_state(), GrabState::Free);

    engine.step(at(0), Reply::Capabilities(mouse())).unwrap();
    assert!(engine.step(at(0), Reply::Capabilities(mouse())).is_err());
    assert!(engine.step(at(0), Reply::Acquired).is_err());
    engine.step(at(0), Reply::VirtualCreated).unwrap();
    assert!(engine.step(at(0), Reply::VirtualCreated).is_err());
    assert!(engine.step(at(0), Reply::Released).is_err());
    assert_eq!(engine.run_state(), RunState::VirtualReady);
    engine.step(at(0), Reply::Acquired).unwrap();

    assert!(engine.step(at(1), Reply::Slept).is_err());
    assert!(engine.step(at(1), Reply::Forwarded).is_err());
    assert!(engine.step(at(1), Reply::Released).is_err());
    assert!(engine.step(cancelled_at(1), Reply::Acquired).is_err());
    assert_eq!(engine.run_state(), RunState::Grabbed);
    assert_eq!(engine.outcome(), None);

    let batch = vec![motion(0, 1), key(BTN_SIDE, 1)];
    assert!(matches!(engine.step(at(2), Reply::Batch(batch)), Ok(Command::Forward(_))));
    assert!(engine.step(at(2), Reply::Dispatched(DispatchOutcome::Succeeded)).is_err());
    assert!(engine.step(at(2), Reply::WouldBlock).is_err());
    assert!(matches!(engine.step(at(2), Reply::Forwarded), Ok(Command::Dispatch(Action::Copy))));
    assert!(engine.step(at(2), Reply::Forwarded).is_err());
    assert!(engine.step(at(2), Reply::ForwardFailed).is_err());
    assert!(matches!(
        engine.step(at(2), Reply::Dispatched(DispatchOutcome::Succeeded)),
        Ok(Command::Read)
    ));
    assert!(matches!(engine.step(at(3), Reply::ReadFailed), Ok(Command::Sleep(10))));
    assert!(engine.step(at(3), Reply::WouldBlock).is_err());
    assert!(engine.step(at(3), Reply::Batch(Vec::new())).is_err());
    assert!(matches!(engine.step(at(13), Reply::Slept), Ok(Command::Read)));
}

#[test]
fn a_batch_with_records_restarts_the_clock() {
    let mut engine = grabbed(100);
    assert_eq!(engine.last_activity_ms(), 100);
    assert!(matches!(engine.step(at(200), Reply::Batch(Vec::new())), Ok(Command::Read)));
    assert_eq!(engine.last_activity_ms(), 100);
    assert!(matches!(engine.step(at(300), Reply::WouldBlock), Ok(Command::Sleep(10))));
    assert!(matches!(engine.step(at(310), Reply::Slept), Ok(Command::Read)));
    assert_eq!(engine.last_activity_ms(), 100);
    let batch = vec![key(BTN_SIDE, 0)];
    assert!(matches!(engine.step(at(400), Reply::Batch(batch)), Ok(Command::Read)));
    assert_eq!(engine.last_activity_ms(), 400);
    assert!(matches!(
        engine.step(at(500), Reply::Batch(vec![motion(0, 1)])),
        Ok(Command::Forward(_))
    ));
    assert_eq!(engine.last_activity_ms(), 500);
}

#[test]
fn the_bound_is_reached_exactly() {
    let mut engine = grabbed(1_000);
    assert!(matches!(engine.step(at(1_010), Reply::WouldBlock), Ok(Command::Sleep(10))));
    assert!(matches!(engine.step(at(30_999), Reply::Slept), Ok(Command::Read)));
    assert!(matches!(engine.step(at(30_999), Reply::WouldBlock), Ok(Command::Sleep(10))));
    assert!(matches!(engine.step(at(31_000), Reply::Slept), Ok(Command::Release)));
    assert_eq!(engine.outcome(), Some(Outcome::Clean(StopReason::Timeout)));
}

#[test]
fn a_clock_that_runs_backwards_does_not_time_out() {
    let mut engine = grabbed(50_000);
    assert!(matches!(engine.step(at(10), Reply::WouldBlock), Ok(Command::Sleep(10))));
    assert!(matches!(engine.step(at(20), Reply::Slept), Ok(Command::Read)));
}

#[test]
fn inactivity_is_looked_at_after_an_empty_batch_too() {
    let mut engine = grabbed(0);
    assert!(matches!(engine.step(at(30_000), Reply::Batch(Vec::new())), Ok(Command::Release)));
    assert_eq!(engine.outcome(), Some(Outcome::Clean(StopReason::Timeout)));
}

#[test]
fn inactivity_is_not_looked_at_between_records() {
    let mut engine = grabbed(0);
    let batch = vec![key(BTN_SIDE, 1), motion(0, 1)];
    assert!(matches!(
        engine.step(at(10), Reply::Batch(batch)),
        Ok(Command::Dispatch(Action::Copy))
    ));
    assert!(matches!(
        engine.step(at(90_000), Reply::Dispatched(DispatchOutcome::Succeeded)),
        Ok(Command::Forward(_))
    ));
    assert!(matches!(engine.step(at(90_001), Reply::Forwarded), Ok(Command::Release)));
    assert_eq!(engine.outcome(), Some(Outcome::Clean(StopReason::Timeout)));
}

#[test]
fn a_bound_of_zero_ends_the_run_at_once() {
    let mut config = EngineConfig::standard();
    config.inactivity_timeout_ms = 0;
    let (mut engine, _) = Engine::start(config);
    engine.step(at(5), Reply::Capabilities(mouse())).unwrap();
    engine.step(at(5), Reply::VirtualCreated).unwrap();
    assert!(matches!(engine.step(at(5), Reply::Acquired), Ok(Command::Release)));
    assert_eq!(engine.grab_state(), GrabState::Grabbed);
    assert!(matches!(
        engine.step(at(5), Reply::Released),
        Ok(Command::Exit(Outcome::Clean(StopReason::Timeout)))
    ));
}

#[test]
fn cancellation_before_the_first_read() {
    let (mut engine, _) = Engine::start(EngineConfig::standard());
    engine.step(cancelled_at(0), Reply::Capabilities(mouse())).unwrap();
    assert!(matches!(engine.step(cancelled_at(0), Reply::VirtualCreated), Ok(Command::Acquire)));
    assert!(matches!(engine.step(cancelled_at(0), Reply::Acquired), Ok(Command::Release)));
    assert_eq!(engine.run_state(), RunState::Draining);
    assert_eq!(engine.outcome(), Some(Outcome::Clean(StopReason::Cancelled)));
}

#[test]
fn cancellation_wins_over_inactivity() {
    let mut engine = grabbed(0);
    engine.step(at(1), Reply::WouldBlock).unwrap();
    assert!(matches!(engine.step(cancelled_at(99_000), Reply::Slept), Ok(Command::Release)));
    assert_eq!(engine.outcome(), Some(Outcome::Clean(StopReason::Cancelled)));
}

#[test]
fn cancellation_during_a_read_that_finds_nothing() {
    let mut engine = grabbed(0);
    assert!(matches!(engine.step(cancelled_at(1), Reply::WouldBlock), Ok(Command::Sleep(10))));
    assert!(matches!(engine.step(cancelled_at(11), Reply::Slept), Ok(Command::Release)));
    assert_eq!(engine.outcome(), Some(Outcome::Clean(StopReason::Cancelled)));

    let mut engine = grabbed(0);
    assert!(matches!(engine.step(cancelled_at(1), Reply::ReadFailed), Ok(Command::Sleep(10))));
    assert!(matches!(engine.step(cancelled_at(11), Reply::Slept), Ok(Command::Release)));
}

#[test]
fn cancellation_drops_a_batch_that_just_arrived() {
    let mut engine = grabbed(0);
    let batch = vec![motion(0, 1), motion(1, 1)];
    assert!(matches!(engine.step(cancelled_at(3), Reply::Batch(batch)), Ok(Command::Release)));
    assert_eq!(engine.outcome(), Some(Outcome::Clean(StopReason::Cancelled)));
}

#[test]
fn a_failed_write_wins_over_cancellation() {
    let mut engine = grabbed(0);
    engine.step(at(1), Reply::Batch(vec![motion(0, 1), motion(1, 1)])).unwrap();
    assert!(matches!(engine.step(cancelled_at(2), Reply::ForwardFailed), Ok(Command::Release)));
    assert_eq!(engine.outcome(), Some(Outcome::Failed(EngineError::ForwardWriteError)));
    assert!(matches!(
        engine.step(at(3), Reply::ReleaseFailed),
        Ok(Command::Exit(Outcome::Failed(EngineError::ForwardWriteError)))
    ));
    assert_eq!(engine.grab_state(), GrabState::Released);
}

#[test]
fn records_are_forwarded_as_they_came() {
    let mut engine = grabbed(0);
    let odd = EventRecord { event_type: 4, code: 4, value: -589_825 };
    let sync = EventRecord { event_type: 0, code: 0, value: 0 };
    let batch = vec![odd, key(272, 1), sync];
    match engine.step(at(1), Reply::Batch(batch)) {
        Ok(Command::Forward(record)) => assert_eq!(record, odd),
        other => panic!("unexpected {:?}", other),
    }
    match engine.step(at(1), Reply::Forwarded) {
        Ok(Command::Forward(record)) => assert_eq!(record, key(272, 1)),
        other => panic!("unexpected {:?}", other),
    }
    match engine.step(at(1), Reply::Forwarded) {
        Ok(Command::Forward(record)) => assert_eq!(record, sync),
        other => panic!("unexpected {:?}", other),
    }
    assert!(matches!(engine.step(at(1), Reply::Forwarded), Ok(Command::Read)));
}

#[test]
fn a_warning_is_answered_like_a_success() {
    let batch = || vec![key(BTN_EXTRA, 1), motion(0, 2)];
    let mut calm = grabbed(0);
    let mut noisy = grabbed(0);
    assert!(matches!(
        calm.step(at(1), Reply::Batch(batch())),
        Ok(Command::Dispatch(Action::ShowClipboard))
    ));
    noisy.step(at(1), Reply::Batch(batch())).unwrap();
    let warning = DispatchOutcome::Warning("qdbus: not found".to_string());
    match (
        calm.step(at(2), Reply::Dispatched(DispatchOutcome::Succeeded)),
        noisy.step(at(2), Reply::Dispatched(warning)),
    ) {
        (Ok(Command::Forward(left)), Ok(Command::Forward(right))) => {
            assert_eq!(left, motion(0, 2));
            assert_eq!(right, motion(0, 2));
        }
        other => panic!("unexpected {:?}", other),
    }
    assert_eq!(noisy.run_state(), RunState::Running);
    assert_eq!(noisy.outcome(), None);
}

#[test]
fn early_failures_end_the_run_without_a_release() {
    let (mut engine, _) = Engine::start(EngineConfig::standard());
    assert!(matches!(
        engine.step(at(0), Reply::CapabilityQueryFailed),
        Ok(Command::Exit(Outcome::Failed(EngineError::CapabilityQueryFailure)))
    ));
    assert_eq!(engine.run_state(), RunState::Terminated);
    assert_eq!(engine.grab_state(), GrabState::Free);

    let (mut engine, _) = Engine::start(EngineConfig::standard());
    engine.step(at(0), Reply::Capabilities(mouse())).unwrap();
    assert!(matches!(
        engine.step(at(0), Reply::VirtualFailed),
        Ok(Command::Exit(Outcome::Failed(EngineError::CreationFailure)))
    ));
    assert_eq!(engine.run_state(), RunState::Terminated);

    let (mut engine, _) = Engine::start(EngineConfig::standard());
    engine.step(at(0), Reply::Capabilities(mouse())).unwrap();
    engine.step(at(0), Reply::VirtualCreated).unwrap();
    assert!(matches!(
        engine.step(at(0), Reply::AcquireDenied),
        Ok(Command::Exit(Outcome::Failed(EngineError::GrabDenied)))
    ));
    assert_eq!(engine.run_state(), RunState::Terminated);
    assert_eq!(engine.grab_state(), GrabState::Free);
    assert!(matches!(
        engine.step(at(0), Reply::Released),
        Ok(Command::Exit(Outcome::Failed(EngineError::GrabDenied)))
    ));
    assert_eq!(engine.grab_state(), GrabState::Free);
}
