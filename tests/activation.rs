use screenpipe_supervisor::activation::{initialize_audio_devices, ActivationSchedule, ACTIVATION_DELAY_MS};
use screenpipe_supervisor::bus::DeviceControlBus;
use screenpipe_supervisor::device::DeviceControl;

#[test]
fn command_not_on_bus_before_delay() {
    let mut sched = ActivationSchedule::new();
    let mut bus = DeviceControlBus::new();
    initialize_audio_devices(&vec![3, 4], &mut sched, 1_000);
    assert_eq!(sched.len(), 2);
    sched.release_due(1_000, &mut bus);
    assert!(bus.is_empty());
    sched.release_due(15_999, &mut bus);
    assert!(bus.is_empty());
    assert_eq!(sched.len(), 2);
    sched.release_due(16_000, &mut bus);
    assert_eq!(sched.len(), 0);
    assert_eq!(bus.drain_next(), Some((3, DeviceControl::active())));
    assert_eq!(bus.drain_next(), Some((4, DeviceControl::active())));
    assert_eq!(bus.drain_next(), None);
}

#[test]
fn delay_is_fifteen_seconds() {
    assert_eq!(ACTIVATION_DELAY_MS, 15_000);
}

#[test]
fn only_due_commands_are_released() {
    let mut sched = ActivationSchedule::new();
    let mut bus = DeviceControlBus::new();
    sched.schedule(1, DeviceControl::active(), 0);
    sched.schedule(2, DeviceControl::inactive(), 10_000);
    sched.release_due(20_000, &mut bus);
    assert_eq!(sched.len(), 1);
    assert_eq!(bus.drain_next(), Some((1, DeviceControl::active())));
    assert_eq!(bus.drain_next(), None);
    sched.release_due(25_000, &mut bus);
    assert_eq!(sched.len(), 0);
    assert_eq!(bus.drain_next(), Some((2, DeviceControl::inactive())));
}

#[test]
fn no_devices_schedules_nothing() {
    let mut sched = ActivationSchedule::new();
    initialize_audio_devices(&vec![], &mut sched, 5);
    assert_eq!(sched.len(), 0);
}
