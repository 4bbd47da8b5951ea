use gpu_report::gpu::{fans_of_answers, DeviceReadings, GPUStats, Reading};
use gpu_report::machine::{keep_device, session_of, ReportError};
use gpu_report::throttle::ThrottleFlags;
use nvml_wrapper::error::NvmlError;

fn readings(index: u32) -> DeviceReadings {
    DeviceReadings {
        index: Reading::Value(index),
        name: Reading::Value("Tesla T4".to_string()),
        temperature: Reading::Value(40),
        power_usage: Reading::Value(30000),
        power_limit: Reading::Value(70000),
        utilization: Reading::Value((0, 0)),
        memory: Reading::Value((0, 16_106_127_360)),
        capability: Reading::Value((7, 5)),
        cores: Reading::Value(2560),
        throttle: Reading::Value(ThrottleFlags::empty()),
        fans: Reading::Value(vec![]),
        display_connected: Reading::Value(false),
        display_active: Reading::Value(false),
        processes: Reading::Value(vec![]),
    }
}

fn speeds(r: Reading<Vec<u32>>) -> Vec<u32> {
    match r {
        Reading::Value(v) => v,
        Reading::Unsupported => panic!("the fans are not supported"),
        Reading::Failed => panic!("the fans failed"),
    }
}

fn is_unsupported(r: &Reading<Vec<u32>>) -> bool {
    matches!(r, Reading::Unsupported)
}

fn is_failed(r: &Reading<Vec<u32>>) -> bool {
    matches!(r, Reading::Failed)
}

fn ordinals(devices: &Vec<GPUStats>) -> Vec<u32> {
    devices.iter().map(|d| d.index().expect("the ordinal was read")).collect()
}

#[test]
fn every_fan_with_a_speed_gives_the_speeds_in_order() {
    let answers = vec![Reading::Value(30), Reading::Value(41), Reading::Value(0)];
    assert_eq!(speeds(fans_of_answers(Reading::Value(3), &answers)), vec![30, 41, 0]);
    assert_eq!(speeds(fans_of_answers(Reading::Value(0), &vec![])), Vec::<u32>::new());
}

#[test]
fn a_count_that_is_not_known_decides_the_fans() {
    let answers = vec![Reading::Value(30)];
    assert!(is_unsupported(&fans_of_answers(Reading::Unsupported, &answers)));
    assert!(is_failed(&fans_of_answers(Reading::Failed, &answers)));
    assert!(is_unsupported(&fans_of_answers(Reading::Unsupported, &vec![])));
}

#[test]
fn the_first_fan_without_a_speed_decides_the_fans() {
    let answers = vec![Reading::Value(30), Reading::Unsupported, Reading::Failed];
    assert!(is_unsupported(&fans_of_answers(Reading::Value(3), &answers)));
    let answers = vec![Reading::Failed, Reading::Unsupported, Reading::Value(5)];
    assert!(is_failed(&fans_of_answers(Reading::Value(3), &answers)));
    let answers = vec![Reading::Value(30), Reading::Value(31), Reading::Failed];
    assert!(is_failed(&fans_of_answers(Reading::Value(3), &answers)));
}

#[test]
fn a_device_that_was_read_joins_the_devices() {
    let mut devices = vec![];
    keep_device(&mut devices, Some(readings(0)));
    keep_device(&mut devices, Some(readings(1)));
    assert_eq!(ordinals(&devices), vec![0, 1]);
}

#[test]
fn a_device_that_cannot_be_reached_or_read_is_left_out() {
    let mut devices = vec![];
    keep_device(&mut devices, Some(readings(0)));
    keep_device(&mut devices, None);
    let mut failed = readings(1);
    failed.memory = Reading::Failed;
    keep_device(&mut devices, Some(failed));
    let mut nameless = readings(2);
    nameless.name = Reading::Failed;
    keep_device(&mut devices, Some(nameless));
    keep_device(&mut devices, Some(readings(3)));
    assert_eq!(ordinals(&devices), vec![0, 3]);
}

#[test]
fn a_device_that_lacks_support_for_a_query_is_kept() {
    let mut devices = vec![];
    let mut nameless = readings(2);
    nameless.name = Reading::Unsupported;
    nameless.throttle = Reading::Unsupported;
    nameless.processes = Reading::Unsupported;
    keep_device(&mut devices, Some(nameless));
    assert_eq!(ordinals(&devices), vec![2]);
    assert_eq!(devices[0].display_name(), "N/A");
}

#[test]
fn a_session_that_does_not_open_is_the_initialization_failure() {
    for error in [NvmlError::DriverNotLoaded, NvmlError::NoPermission, NvmlError::NotSupported] {
        match session_of(Err(error)) {
            Ok(_) => panic!("a failure opens no session"),
            Err(e) => assert_eq!(e, ReportError::InitializationFailure),
        }
    }
}
