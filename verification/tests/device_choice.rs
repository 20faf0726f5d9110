use mirrorx_core::device::scan_event_allowed;
use mirrorx_core::capture::CaptureError;
use mirrorx_core::device::{
    attached_to_desktop, device_result, driver_step, driver_type_at, driver_type_name,
    feature_level_name, DriverStep,
    monitor_wanted, scan_step, ScanAction, ScanEvent,
};

#[test]
fn driver_types_in_order() {
    assert_eq!(driver_type_at(0), Some(1));
    assert_eq!(driver_type_at(1), Some(5));
    assert_eq!(driver_type_at(2), Some(2));
    assert_eq!(driver_type_at(3), None);
}

#[test]
fn device_needs_device_and_context() {
    assert_eq!(device_result(true, true), Ok(()));
    assert_eq!(device_result(true, false), Err(CaptureError::DeviceUnavailable));
    assert_eq!(device_result(false, true), Err(CaptureError::DeviceUnavailable));
}

#[test]
fn names() {
    assert_eq!(driver_type_name(1), "D3D_DRIVER_TYPE_HARDWARE");
    assert_eq!(driver_type_name(5), "D3D_DRIVER_TYPE_WARP");
    assert_eq!(driver_type_name(2), "D3D_DRIVER_TYPE_REFERENCE");
    assert_eq!(driver_type_name(0), "D3D_DRIVER_TYPE_UNKNOWN");
    assert_eq!(driver_type_name(3), "D3D_DRIVER_TYPE_NULL");
    assert_eq!(driver_type_name(4), "D3D_DRIVER_TYPE_SOFTWARE");
    assert_eq!(driver_type_name(9), "Unknown");
    assert_eq!(feature_level_name(0xb000), "D3D_FEATURE_LEVEL_11_0");
    assert_eq!(feature_level_name(0xc200), "D3D_FEATURE_LEVEL_12_2");
    assert_eq!(feature_level_name(0x9100), "D3D_FEATURE_LEVEL_9_1");
    assert_eq!(feature_level_name(0x1000), "D3D_FEATURE_LEVEL_1_0_CORE");
    assert_eq!(feature_level_name(0x1234), "Unknown");
}

#[test]
fn monitor_matching() {
    let id = "\\\\?\\DISPLAY#ABC#1".to_string();
    assert!(monitor_wanted(&None, &id));
    assert!(monitor_wanted(&Some(id.clone()), &id));
    assert!(!monitor_wanted(&Some("other".to_string()), &id));
    assert!(attached_to_desktop(0x1));
    assert!(attached_to_desktop(0x5));
    assert!(!attached_to_desktop(0x4));
}

fn device(flags: u32, id: &str) -> ScanEvent {
    ScanEvent::Device(flags, id.to_string())
}

#[test]
fn scan_picks_first_attached_output_with_wanted_monitor() {
    let wanted = Some("B".to_string());
    let mut action = ScanAction::EnumerateOutput(0);
    // output 0 is not attached
    action = scan_step(action, &ScanEvent::Output(false), &wanted);
    assert_eq!(action, ScanAction::EnumerateOutput(1));
    // output 1 is attached, its devices: detached "B", attached "A", then none left
    action = scan_step(action, &ScanEvent::Output(true), &wanted);
    assert_eq!(action, ScanAction::EnumerateDevice(1, 0));
    action = scan_step(action, &device(0, ""), &wanted);
    assert_eq!(action, ScanAction::EnumerateDevice(1, 1));
    action = scan_step(action, &device(1, "A"), &wanted);
    assert_eq!(action, ScanAction::EnumerateDevice(1, 2));
    action = scan_step(action, &ScanEvent::NoMoreDevices, &wanted);
    assert_eq!(action, ScanAction::EnumerateOutput(2));
    // output 2 is attached and its first device is the attached "B"
    action = scan_step(action, &ScanEvent::Output(true), &wanted);
    action = scan_step(action, &device(1, "B"), &wanted);
    assert_eq!(action, ScanAction::Duplicate(2));
}

#[test]
fn scan_without_monitor_takes_first_attached_device() {
    let mut action = ScanAction::EnumerateOutput(0);
    action = scan_step(action, &ScanEvent::Output(true), &None);
    action = scan_step(action, &device(1, "any"), &None);
    assert_eq!(action, ScanAction::Duplicate(0));
}

#[test]
fn scan_gives_up_without_outputs() {
    let action = scan_step(ScanAction::EnumerateOutput(3), &ScanEvent::NoMoreOutputs, &None);
    assert_eq!(action, ScanAction::GiveUp);
}

fn drivers_tried(created: [bool; 3]) -> Vec<i32> {
    let mut tried = Vec::new();
    let mut attempt = 0usize;
    let mut last = false;
    while let DriverStep::Try(driver) = driver_step(attempt, last) {
        tried.push(driver);
        last = created[attempt];
        attempt += 1;
    }
    tried
}

#[test]
fn drivers_tried_in_order_until_one_creates_a_device() {
    assert_eq!(drivers_tried([true, true, true]), vec![1]);
    assert_eq!(drivers_tried([false, true, false]), vec![1, 5]);
    assert_eq!(drivers_tried([false, false, true]), vec![1, 5, 2]);
    assert_eq!(drivers_tried([false, false, false]), vec![1, 5, 2]);
}

#[test]
fn scan_events_must_answer_their_action() {
    assert!(scan_event_allowed(ScanAction::EnumerateOutput(0), &ScanEvent::Output(true)));
    assert!(scan_event_allowed(ScanAction::EnumerateOutput(0), &ScanEvent::NoMoreOutputs));
    assert!(!scan_event_allowed(ScanAction::EnumerateOutput(u32::MAX), &ScanEvent::Output(true)));
    assert!(!scan_event_allowed(ScanAction::EnumerateOutput(0), &ScanEvent::NoMoreDevices));
    assert!(scan_event_allowed(ScanAction::EnumerateDevice(1, 2), &device(1, "A")));
    assert!(!scan_event_allowed(ScanAction::EnumerateDevice(1, u32::MAX), &device(1, "A")));
    assert!(!scan_event_allowed(ScanAction::Duplicate(0), &ScanEvent::NoMoreOutputs));
}
