use screenpipe_supervisor::bus::DeviceControlBus;
use screenpipe_supervisor::device::DeviceControl;

fn on() -> DeviceControl {
    DeviceControl { is_running: true, is_paused: false }
}

fn paused() -> DeviceControl {
    DeviceControl { is_running: true, is_paused: true }
}

#[test]
fn empty_bus_drains_nothing() {
    let mut bus = DeviceControlBus::new();
    assert!(bus.is_empty());
    assert_eq!(bus.len(), 0);
    assert_eq!(bus.drain_next(), None);
}

#[test]
fn publish_then_drain_returns_the_command() {
    let mut bus = DeviceControlBus::new();
    bus.publish(7, on());
    assert_eq!(bus.len(), 1);
    assert!(!bus.is_empty());
    assert_eq!(bus.drain_next(), Some((7, on())));
    assert!(bus.is_empty());
}

#[test]
fn commands_of_one_device_drain_in_publish_order() {
    let mut bus = DeviceControlBus::new();
    bus.publish(1, on());
    bus.publish(2, DeviceControl::inactive());
    bus.publish(1, paused());
    assert_eq!(bus.len(), 3);
    assert_eq!(bus.drain_next(), Some((1, on())));
    assert_eq!(bus.drain_next(), Some((2, DeviceControl::inactive())));
    assert_eq!(bus.drain_next(), Some((1, paused())));
    assert_eq!(bus.drain_next(), None);
}
