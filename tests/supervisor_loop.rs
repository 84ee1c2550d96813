use screenpipe_supervisor::bus::DeviceControlBus;
use screenpipe_supervisor::device::DeviceControl;
use screenpipe_supervisor::recording::{Phase, RecordingState};
use screenpipe_supervisor::supervisor::{Action, Event, Stage, Supervisor, BUSY_BACKOFF_MS};

#[test]
fn restart_signal_cancels_and_resets() {
    let mut sup = Supervisor::new(vec![1]);
    let mut state = RecordingState::new();
    assert_eq!(sup.step(&mut state, Event::LoopTop, 0), Action::Launch);
    assert_eq!(sup.stage(), Stage::Racing);
    // the engine never finishes; a restart signal arrives five seconds in
    assert_eq!(sup.step(&mut state, Event::RestartSignal, 5_000), Action::Cancelled);
    assert_eq!(state.phase(), Phase::Idle);
    assert_eq!(sup.stage(), Stage::Ready);
    // further signals and a late completion of the old engine change nothing
    assert_eq!(sup.step(&mut state, Event::RestartSignal, 5_500), Action::Ignored);
    assert_eq!(sup.step(&mut state, Event::EngineFinished { failed: false }, 6_000), Action::Ignored);
    assert_eq!(sup.step(&mut state, Event::LoopTop, 6_000), Action::Launch);
}

#[test]
fn busy_state_backs_off_without_launch() {
    let mut sup = Supervisor::new(vec![]);
    let mut state = RecordingState::new();
    state.try_start().unwrap();
    assert_eq!(sup.step(&mut state, Event::LoopTop, 0), Action::Backoff { millis: BUSY_BACKOFF_MS });
    assert_eq!(BUSY_BACKOFF_MS, 30_000);
    assert_eq!(sup.stage(), Stage::Ready);
    assert_eq!(state.phase(), Phase::Running);
}

#[test]
fn loop_top_during_race_launches_nothing() {
    let mut sup = Supervisor::new(vec![]);
    let mut state = RecordingState::new();
    assert_eq!(sup.step(&mut state, Event::LoopTop, 0), Action::Launch);
    assert_eq!(sup.step(&mut state, Event::LoopTop, 1), Action::Ignored);
    assert_eq!(state.try_start(), Err(screenpipe_supervisor::recording::Busy));
}

#[test]
fn engine_failure_resets_and_loop_continues() {
    let mut sup = Supervisor::new(vec![2]);
    let mut state = RecordingState::new();
    assert_eq!(sup.step(&mut state, Event::LoopTop, 0), Action::Launch);
    assert_eq!(
        sup.step(&mut state, Event::EngineFinished { failed: true }, 100),
        Action::Completed { failed: true }
    );
    assert_eq!(state.phase(), Phase::Idle);
    assert_eq!(sup.step(&mut state, Event::LoopTop, 200), Action::Launch);
    assert!(state.is_running());
}

#[test]
fn every_launch_schedules_device_activation() {
    let mut sup = Supervisor::new(vec![5, 6]);
    let mut state = RecordingState::new();
    let mut bus = DeviceControlBus::new();
    assert_eq!(sup.step(&mut state, Event::LoopTop, 1_000), Action::Launch);
    assert_eq!(sup.pending_len(), 2);
    sup.release_due(10_000, &mut bus);
    assert!(bus.is_empty());
    sup.release_due(16_000, &mut bus);
    assert_eq!(sup.pending_len(), 0);
    assert_eq!(bus.drain_next(), Some((5, DeviceControl::active())));
    assert_eq!(bus.drain_next(), Some((6, DeviceControl::active())));
    assert_eq!(sup.step(&mut state, Event::EngineFinished { failed: false }, 20_000), Action::Completed { failed: false });
    assert_eq!(sup.step(&mut state, Event::LoopTop, 20_000), Action::Launch);
    assert_eq!(sup.pending_len(), 2);
}

#[test]
fn resets_match_launches_over_a_run() {
    let mut sup = Supervisor::new(vec![]);
    let mut state = RecordingState::new();
    let mut launched = 0;
    let mut reset = 0;
    let events = [
        Event::LoopTop,
        Event::RestartSignal,
        Event::RestartSignal,
        Event::LoopTop,
        Event::EngineFinished { failed: true },
        Event::LoopTop,
        Event::LoopTop,
        Event::EngineFinished { failed: false },
    ];
    for e in events {
        match sup.step(&mut state, e, 0) {
            Action::Launch => launched += 1,
            Action::Cancelled | Action::Completed { .. } => reset += 1,
            _ => {}
        }
    }
    assert_eq!(launched, 3);
    assert_eq!(reset, 3);
    assert_eq!(state.phase(), Phase::Idle);
}
