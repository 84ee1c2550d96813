use vstd::prelude::*;
use crate::activation::{initialize_audio_devices, ActivationSchedule, PendingCommand, ACTIVATION_DELAY_MS};
use crate::bus::DeviceControlBus;
use crate::device::DeviceControl;
use crate::recording::{active, next_phase, Phase, RecordingState, StateOp};

verus! {

/// Wait before retrying when an engine is already active, in milliseconds.
pub const BUSY_BACKOFF_MS: u64 = 30000;

/// Where the supervisor is within one loop iteration.
#[derive(Clone, Copy, Debug, PartialEq, Eq, Structural)]
pub enum Stage {
    /// At the top of the loop, about to claim the engine slot.
    Ready,
    /// An engine was launched; waiting for it to finish or for a restart signal.
    Racing,
}

/// What the supervisor's driver observed.
#[derive(Clone, Copy, Debug, PartialEq, Eq, Structural)]
pub enum Event {
    /// The loop reached its top (first pass, after a backoff, or after a reset).
    LoopTop,
    /// The engine task returned; `failed` when it reported an error.
    EngineFinished { failed: bool },
    /// The resource monitor asked for a restart.
    RestartSignal,
}

/// What the driver must do next.
#[derive(Clone, Copy, Debug, PartialEq, Eq, Structural)]
pub enum Action {
    /// Warn that an engine is active, wait `millis`, then report `LoopTop`.
    Backoff { millis: u64 },
    /// Spawn the capture engine and wait for it against restart signals.
    Launch,
    /// A restart signal won the race: the engine was told to stop and the
    /// state was reset; report `LoopTop`.
    Cancelled,
    /// The engine returned first (`failed` when it reported an error) and the
    /// state was reset; report `LoopTop`.
    Completed { failed: bool },
    /// The event does not apply at this stage; nothing changed.
    Ignored,
}

/// Whether an event ends the race of an iteration.
pub open spec fn is_race_outcome(e: Event) -> bool {
    e is EngineFinished || e is RestartSignal
}

/// The supervisor's decision: next stage, next recording phase, and action.
pub open spec fn decide(stage: Stage, phase: Phase, e: Event) -> (Stage, Phase, Action) {
    match (stage, e) {
        (Stage::Ready, Event::LoopTop) => if phase == Phase::Idle {
            (Stage::Racing, Phase::Running, Action::Launch)
        } else {
            (Stage::Ready, phase, Action::Backoff { millis: BUSY_BACKOFF_MS })
        },
        (Stage::Racing, Event::RestartSignal) => (Stage::Ready, Phase::Idle, Action::Cancelled),
        (Stage::Racing, Event::EngineFinished { failed }) => (
            Stage::Ready,
            Phase::Idle,
            Action::Completed { failed },
        ),
        _ => (stage, phase, Action::Ignored),
    }
}

/// Whether a step resets the recording state.
pub open spec fn resets(stage: Stage, e: Event) -> bool {
    stage == Stage::Racing && is_race_outcome(e)
}

/// Whether a step launches an engine.
pub open spec fn launches(stage: Stage, phase: Phase, e: Event) -> bool {
    decide(stage, phase, e).2 == Action::Launch
}

/// Stage and phase after a sequence of events.
pub open spec fn replay(stage: Stage, phase: Phase, es: Seq<Event>) -> (Stage, Phase)
    decreases es.len(),
{
    if es.len() == 0 {
        (stage, phase)
    } else {
        let (s, p) = replay(stage, phase, es.drop_last());
        let d = decide(s, p, es.last());
        (d.0, d.1)
    }
}

/// Number of launches along a sequence of events.
pub open spec fn launch_count(stage: Stage, phase: Phase, es: Seq<Event>) -> nat
    decreases es.len(),
{
    if es.len() == 0 {
        0
    } else {
        let (s, p) = replay(stage, phase, es.drop_last());
        launch_count(stage, phase, es.drop_last()) + if launches(s, p, es.last()) {
            1nat
        } else {
            0nat
        }
    }
}

/// Number of resets along a sequence of events.
pub open spec fn reset_count(stage: Stage, phase: Phase, es: Seq<Event>) -> nat
    decreases es.len(),
{
    if es.len() == 0 {
        0
    } else {
        let (s, p) = replay(stage, phase, es.drop_last());
        reset_count(stage, phase, es.drop_last()) + if resets(s, es.last()) {
            1nat
        } else {
            0nat
        }
    }
}

/// The recording supervisor: decides each loop iteration's transitions and
/// schedules the activation of the configured devices at each launch.
pub struct Supervisor {
    stage: Stage,
    devices: Vec<u64>,
    schedule: ActivationSchedule,
}

impl Supervisor {
    pub closed spec fn stage_spec(&self) -> Stage {
        self.stage
    }

    /// The devices activated at each launch.
    pub closed spec fn devices_spec(&self) -> Seq<u64> {
        self.devices@
    }

    /// Activation commands not yet published.
    pub closed spec fn pending_spec(&self) -> Seq<PendingCommand> {
        self.schedule.view()
    }

    pub closed spec fn wf(&self) -> bool {
        self.schedule.wf()
    }

    /// A supervisor at the top of its loop, for the given devices.
    pub fn new(devices: Vec<u64>) -> (r: Supervisor)
        ensures
            r.wf(),
            r.stage_spec() == Stage::Ready,
            r.devices_spec() == devices@,
            r.pending_spec() == Seq::<PendingCommand>::empty(),
    {
        Supervisor { stage: Stage::Ready, devices, schedule: ActivationSchedule::new() }
    }

    pub fn stage(&self) -> (r: Stage)
        ensures
            r == self.stage_spec(),
    {
        self.stage
    }

    /// Number of activation commands still waiting for their delay.
    pub fn pending_len(&self) -> (r: usize)
        ensures
            r == self.pending_spec().len(),
    {
        self.schedule.len()
    }

    /// Takes one decision. On `LoopTop` it claims the engine slot and, when
    /// that succeeds, schedules each device's activation at `now_ms`; on a
    /// restart signal during the race it cancels the engine, and on either
    /// race outcome it resets the state.
    pub fn step(&mut self, state: &mut RecordingState, event: Event, now_ms: u64) -> (a: Action)
        requires
            old(self).wf(),
            now_ms <= u64::MAX - ACTIVATION_DELAY_MS,
        ensures
            final(self).wf(),
            (final(self).stage_spec(), final(state).phase_spec(), a) == decide(
                old(self).stage_spec(),
                old(state).phase_spec(),
                event,
            ),
            final(self).devices_spec() == old(self).devices_spec(),
            final(self).pending_spec() == if a == Action::Launch {
                old(self).pending_spec() + old(self).devices_spec().map_values(
                    |d: u64| PendingCommand { registered_ms: now_ms, device: d, control: DeviceControl { is_running: true, is_paused: false } },
                )
            } else {
                old(self).pending_spec()
            },
    {
        match (self.stage, event) {
            (Stage::Ready, Event::LoopTop) => {
                match state.try_start() {
                    Ok(()) => {
                        initialize_audio_devices(&self.devices, &mut self.schedule, now_ms);
                        self.stage = Stage::Racing;
                        Action::Launch
                    },
                    Err(_) => Action::Backoff { millis: BUSY_BACKOFF_MS },
                }
            },
            (Stage::Racing, Event::RestartSignal) => {
                state.cancel();
                state.cancel();
                state.reset();
                self.stage = Stage::Ready;
                Action::Cancelled
            },
            (Stage::Racing, Event::EngineFinished { failed }) => {
                state.finish();
                state.reset();
                self.stage = Stage::Ready;
                Action::Completed { failed }
            },
            _ => Action::Ignored,
        }
    }

    /// Publishes on the bus every scheduled activation whose delay has
    /// passed at `now_ms`.
    pub fn release_due(&mut self, now_ms: u64, bus: &mut DeviceControlBus)
        requires
            old(self).wf(),
        ensures
            final(self).wf(),
            final(self).stage_spec() == old(self).stage_spec(),
            final(self).devices_spec() == old(self).devices_spec(),
            final(self).pending_spec() == crate::activation::waiting(old(self).pending_spec(), now_ms),
            final(bus).view() == old(bus).view() + crate::activation::released(
                old(self).pending_spec(),
                now_ms,
            ).map_values(|p: PendingCommand| crate::activation::as_command(p)),
    {
        self.schedule.release_due(now_ms, bus);
    }
}

/// The supervisor and the recording state agree: at the top of the loop no
/// engine is active, and during the race one is.
pub open spec fn consistent(stage: Stage, phase: Phase) -> bool {
    (stage == Stage::Ready && phase == Phase::Idle) || (stage == Stage::Racing && active(phase))
}

/// Every iteration that reaches the race is reset exactly once: from a
/// consistent start, along any sequence of events the number of resets equals
/// the number of launches, less one while a race is under way; the two stay
/// consistent throughout; and either race outcome ends the race with a reset
/// that leaves the state idle.
pub proof fn law_reset_once_per_iteration(stage: Stage, phase: Phase, es: Seq<Event>)
    requires
        consistent(stage, phase),
    ensures
        consistent(replay(stage, phase, es).0, replay(stage, phase, es).1),
        launch_count(stage, phase, es) + (if stage == Stage::Racing { 1nat } else { 0nat })
            == reset_count(stage, phase, es) + (if replay(stage, phase, es).0 == Stage::Racing {
            1nat
        } else {
            0nat
        }),
        forall|e: Event|
            is_race_outcome(e) && stage == Stage::Racing ==> #[trigger] decide(stage, phase, e).0
                == Stage::Ready && decide(stage, phase, e).1 == Phase::Idle && resets(stage, e),
    decreases es.len(),
{
    if es.len() > 0 {
        law_reset_once_per_iteration(stage, phase, es.drop_last());
    }
}

/// While a race is under way, no further engine is launched: a supervisor
/// in the race ignores `LoopTop`, and a busy state makes `LoopTop` back off
/// without changing anything.
pub proof fn law_no_second_launch(phase: Phase)
    ensures
        !launches(Stage::Racing, phase, Event::LoopTop),
        active(phase) ==> decide(Stage::Ready, phase, Event::LoopTop) == (
            Stage::Ready,
            phase,
            Action::Backoff { millis: BUSY_BACKOFF_MS },
        ),
        decide(Stage::Ready, phase, Event::LoopTop).1 == next_phase(phase, StateOp::TryStart),
{
}

} // verus!
