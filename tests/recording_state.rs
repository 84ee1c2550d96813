use screenpipe_supervisor::recording::{Busy, Phase, RecordingState};

#[test]
fn new_state_is_idle() {
    let s = RecordingState::new();
    assert_eq!(s.phase(), Phase::Idle);
    assert!(!s.is_running());
    assert!(!s.is_cancelled());
}

#[test]
fn second_try_start_without_reset_is_busy() {
    let mut s = RecordingState::new();
    assert_eq!(s.try_start(), Ok(()));
    assert_eq!(s.try_start(), Err(Busy));
    assert_eq!(s.try_start(), Err(Busy));
    assert!(s.is_running());
    s.reset();
    assert_eq!(s.try_start(), Ok(()));
}

#[test]
fn try_start_is_busy_while_cancelling() {
    let mut s = RecordingState::new();
    assert_eq!(s.try_start(), Ok(()));
    s.cancel();
    assert_eq!(s.phase(), Phase::Cancelling);
    assert_eq!(s.try_start(), Err(Busy));
    assert_eq!(s.phase(), Phase::Cancelling);
}

#[test]
fn cancel_when_idle_changes_nothing() {
    let mut s = RecordingState::new();
    s.cancel();
    s.cancel();
    assert_eq!(s.phase(), Phase::Idle);
    assert_eq!(s.try_start(), Ok(()));
}

#[test]
fn repeated_cancel_equals_one_cancel() {
    let mut a = RecordingState::new();
    let mut b = RecordingState::new();
    a.try_start().unwrap();
    b.try_start().unwrap();
    a.cancel();
    for _ in 0..5 {
        b.cancel();
    }
    assert_eq!(a.phase(), b.phase());
    assert!(b.is_cancelled());
    assert!(b.is_running());
}

#[test]
fn finish_then_reset_returns_to_idle() {
    let mut s = RecordingState::new();
    s.try_start().unwrap();
    s.finish();
    assert!(!s.is_running());
    s.reset();
    assert_eq!(s.phase(), Phase::Idle);
}
