use vstd::prelude::*;
use crate::bus::{Command, DeviceControlBus};
use crate::device::DeviceControl;

verus! {

/// Delay between registering a device for an iteration and publishing its
/// activation command, in milliseconds.
pub const ACTIVATION_DELAY_MS: u64 = 15000;

/// An activation command waiting for its delay to pass.
#[derive(Clone, Copy, Debug, PartialEq, Eq, Structural)]
pub struct PendingCommand {
    pub registered_ms: u64,
    pub device: u64,
    pub control: DeviceControl,
}

/// Earliest time at which a pending command may be published.
pub open spec fn due(p: PendingCommand) -> int {
    p.registered_ms + ACTIVATION_DELAY_MS
}

/// The pending commands whose delay has passed at `now`, in order.
pub open spec fn released(s: Seq<PendingCommand>, now: u64) -> Seq<PendingCommand>
    decreases s.len(),
{
    if s.len() == 0 {
        Seq::empty()
    } else if due(s.last()) <= now {
        released(s.drop_last(), now).push(s.last())
    } else {
        released(s.drop_last(), now)
    }
}

/// The pending commands still waiting at `now`, in order.
pub open spec fn waiting(s: Seq<PendingCommand>, now: u64) -> Seq<PendingCommand>
    decreases s.len(),
{
    if s.len() == 0 {
        Seq::empty()
    } else if due(s.last()) <= now {
        waiting(s.drop_last(), now)
    } else {
        waiting(s.drop_last(), now).push(s.last())
    }
}

/// The bus command that a pending command becomes.
pub open spec fn as_command(p: PendingCommand) -> Command {
    (p.device, p.control)
}

/// Commands scheduled for publication after the activation delay.
pub struct ActivationSchedule {
    pending: Vec<PendingCommand>,
}

impl ActivationSchedule {
    pub closed spec fn view(&self) -> Seq<PendingCommand> {
        self.pending@
    }

    /// Every pending command's due time fits in a `u64`.
    pub open spec fn wf(&self) -> bool {
        forall|i: int| 0 <= i < self.view().len() ==> due(#[trigger] self.view()[i]) <= u64::MAX
    }

    pub fn new() -> (r: ActivationSchedule)
        ensures
            r.wf(),
            r.view() == Seq::<PendingCommand>::empty(),
    {
        ActivationSchedule { pending: Vec::new() }
    }

    /// Number of commands still waiting.
    pub fn len(&self) -> (r: usize)
        ensures
            r == self.view().len(),
    {
        self.pending.len()
    }

    /// Registers one command at time `now_ms`.
    pub fn schedule(&mut self, device: u64, control: DeviceControl, now_ms: u64)
        requires
            old(self).wf(),
            now_ms <= u64::MAX - ACTIVATION_DELAY_MS,
        ensures
            final(self).wf(),
            final(self).view() == old(self).view().push(
                PendingCommand { registered_ms: now_ms, device, control },
            ),
    {
        self.pending.push(PendingCommand { registered_ms: now_ms, device, control });
        assert forall|i: int| 0 <= i < self.view().len() implies due(
            #[trigger] self.view()[i],
        ) <= u64::MAX by {
            if i < old(self).view().len() {
                assert(self.view()[i] == old(self).view()[i]);
            }
        }
    }

    /// Publishes, in registration order, every command whose delay has
    /// passed at `now_ms`, and keeps the others waiting.
    pub fn release_due(&mut self, now_ms: u64, bus: &mut DeviceControlBus)
        requires
            old(self).wf(),
        ensures
            final(self).wf(),
            final(self).view() == waiting(old(self).view(), now_ms),
            final(bus).view() == old(bus).view() + released(old(self).view(), now_ms).map_values(
                |p: PendingCommand| as_command(p),
            ),
    {
        let ghost s = self.pending@;
        let ghost b0 = bus.view();
        assert forall|j: int| 0 <= j < s.len() implies due(#[trigger] s[j]) <= u64::MAX by {
            assert(s[j] == self.view()[j]);
        }
        let mut kept: Vec<PendingCommand> = Vec::new();
        let mut i: usize = 0;
        while i < self.pending.len()
            invariant
                s == self.pending@,
                i <= s.len(),
                forall|j: int| 0 <= j < s.len() ==> due(#[trigger] s[j]) <= u64::MAX,
                kept@ == waiting(s.subrange(0, i as int), now_ms),
                bus.view() == b0 + released(s.subrange(0, i as int), now_ms).map_values(
                    |p: PendingCommand| as_command(p),
                ),
            decreases s.len() - i,
        {
            let p = self.pending[i];
            let ghost pre = s.subrange(0, i as int);
            let ghost cur = s.subrange(0, i as int + 1);
            assert(cur.drop_last() =~= pre);
            assert(cur.last() == p);
            if p.registered_ms + ACTIVATION_DELAY_MS <= now_ms {
                bus.publish(p.device, p.control);
                assert(released(cur, now_ms).map_values(|p: PendingCommand| as_command(p))
                    =~= released(pre, now_ms).map_values(|p: PendingCommand| as_command(p)).push(
                    as_command(p),
                ));
            } else {
                kept.push(p);
            }
            i = i + 1;
        }
        assert(s.subrange(0, s.len() as int) =~= s);
        proof {
            lemma_waiting_in(s, now_ms);
        }
        self.pending = kept;
    }
}

/// Every waiting command comes from `s`.
proof fn lemma_waiting_in(s: Seq<PendingCommand>, now: u64)
    ensures
        forall|j: int|
            0 <= j < waiting(s, now).len() ==> s.contains(#[trigger] waiting(s, now)[j]),
    decreases s.len(),
{
    if s.len() > 0 {
        lemma_waiting_in(s.drop_last(), now);
        assert forall|j: int| 0 <= j < waiting(s, now).len() implies s.contains(
            #[trigger] waiting(s, now)[j],
        ) by {
            let w = waiting(s.drop_last(), now);
            if j < w.len() {
                let k = choose|k: int| 0 <= k < s.drop_last().len() && s.drop_last()[k] == w[j];
                assert(s[k] == w[j]);
            } else {
                assert(s[s.len() - 1] == s.last());
            }
        }
    }
}

/// Registers each device's activation at `now_ms`, to be published on the
/// bus once the activation delay has passed.
pub fn initialize_audio_devices(devices: &Vec<u64>, schedule: &mut ActivationSchedule, now_ms: u64)
    requires
        old(schedule).wf(),
        now_ms <= u64::MAX - ACTIVATION_DELAY_MS,
    ensures
        final(schedule).wf(),
        final(schedule).view() == old(schedule).view() + devices@.map_values(
            |d: u64| PendingCommand { registered_ms: now_ms, device: d, control: DeviceControl { is_running: true, is_paused: false } },
        ),
{
    let ghost s0 = schedule.view();
    let mut i: usize = 0;
    while i < devices.len()
        invariant
            i <= devices.len(),
            schedule.wf(),
            now_ms <= u64::MAX - ACTIVATION_DELAY_MS,
            schedule.view() == s0 + devices@.subrange(0, i as int).map_values(
                |d: u64| PendingCommand { registered_ms: now_ms, device: d, control: DeviceControl { is_running: true, is_paused: false } },
            ),
        decreases devices.len() - i,
    {
        schedule.schedule(devices[i], DeviceControl::active(), now_ms);
        assert(devices@.subrange(0, i as int + 1) =~= devices@.subrange(0, i as int).push(devices@[i as int]));
        assert(s0 + devices@.subrange(0, i as int + 1).map_values(
                |d: u64| PendingCommand { registered_ms: now_ms, device: d, control: DeviceControl { is_running: true, is_paused: false } },
            ) =~= (s0 + devices@.subrange(0, i as int).map_values(
                |d: u64| PendingCommand { registered_ms: now_ms, device: d, control: DeviceControl { is_running: true, is_paused: false } },
            )).push(PendingCommand { registered_ms: now_ms, device: devices@[i as int], control: DeviceControl { is_running: true, is_paused: false } }));
        i = i + 1;
    }
    assert(devices@.subrange(0, devices@.len() as int) =~= devices@);
}

/// A command is never published before its delay has passed: every command
/// released at `now` was registered at least the activation delay earlier,
/// and every command still waiting was not.
pub proof fn law_delayed_activation(s: Seq<PendingCommand>, now: u64)
    ensures
        forall|j: int|
            0 <= j < released(s, now).len() ==> (#[trigger] released(s, now)[j]).registered_ms
                + ACTIVATION_DELAY_MS <= now,
        forall|j: int|
            0 <= j < waiting(s, now).len() ==> (#[trigger] waiting(s, now)[j]).registered_ms
                + ACTIVATION_DELAY_MS > now,
        released(s, now).len() + waiting(s, now).len() == s.len(),
    decreases s.len(),
{
    if s.len() > 0 {
        law_delayed_activation(s.drop_last(), now);
    }
}

} // verus!
