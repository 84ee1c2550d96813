use screenpipe_supervisor::config::{select_audio_devices, uses_cloud_processing, OcrEngine};
use screenpipe_supervisor::device::DeviceControl;
use screenpipe_supervisor::status::{initial_device_status, DeviceStatus};

#[test]
fn only_selected_device_is_running() {
    let status = initial_device_status(&vec![10, 20], &vec![20]);
    assert_eq!(status.len(), 2);
    assert_eq!(status.get(10), Some(DeviceControl { is_running: false, is_paused: false }));
    assert_eq!(status.get(20), Some(DeviceControl { is_running: true, is_paused: false }));
    assert_eq!(status.running_devices(), vec![20]);
}

#[test]
fn selected_device_outside_list_is_added() {
    let status = initial_device_status(&vec![1], &vec![9]);
    assert_eq!(status.len(), 2);
    assert_eq!(status.get(9), Some(DeviceControl::active()));
    assert_eq!(status.get(1), Some(DeviceControl::inactive()));
    assert_eq!(status.get(5), None);
}

#[test]
fn insert_replaces_earlier_status() {
    let mut status = DeviceStatus::new();
    status.insert(4, DeviceControl::inactive());
    status.insert(4, DeviceControl::active());
    assert_eq!(status.len(), 1);
    assert_eq!(status.get(4), Some(DeviceControl::active()));
}

#[test]
fn disabled_audio_selects_nothing() {
    assert_eq!(select_audio_devices(true, &vec![1, 2], Some(3), Some(4), true), Vec::<u64>::new());
}

#[test]
fn requested_devices_win_over_defaults() {
    assert_eq!(select_audio_devices(false, &vec![1, 2], Some(3), Some(4), true), vec![1, 2]);
}

#[test]
fn defaults_used_when_none_requested() {
    assert_eq!(select_audio_devices(false, &vec![], Some(3), Some(4), true), vec![3, 4]);
    assert_eq!(select_audio_devices(false, &vec![], Some(3), Some(4), false), vec![3]);
    assert_eq!(select_audio_devices(false, &vec![], None, Some(4), true), vec![4]);
    assert_eq!(select_audio_devices(false, &vec![], None, None, true), Vec::<u64>::new());
}

#[test]
fn cloud_warning_rules() {
    assert!(uses_cloud_processing(true, OcrEngine::Tesseract));
    assert!(uses_cloud_processing(false, OcrEngine::Unstructured));
    assert!(!uses_cloud_processing(false, OcrEngine::Tesseract));
    assert!(!uses_cloud_processing(false, OcrEngine::WindowsNative));
}
