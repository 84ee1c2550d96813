use vstd::prelude::*;

verus! {

/// Desired operating mode of one capture device.
#[derive(Clone, Copy, Debug, PartialEq, Eq, Structural)]
pub struct DeviceControl {
    pub is_running: bool,
    pub is_paused: bool,
}

impl DeviceControl {
    pub open spec fn active_spec() -> DeviceControl {
        DeviceControl { is_running: true, is_paused: false }
    }

    pub open spec fn inactive_spec() -> DeviceControl {
        DeviceControl { is_running: false, is_paused: false }
    }

    /// A device that should capture.
    pub fn active() -> (r: DeviceControl)
        ensures
            r == DeviceControl::active_spec(),
    {
        DeviceControl { is_running: true, is_paused: false }
    }

    /// A device that should stay off.
    pub fn inactive() -> (r: DeviceControl)
        ensures
            r == DeviceControl::inactive_spec(),
    {
        DeviceControl { is_running: false, is_paused: false }
    }
}

} // verus!
