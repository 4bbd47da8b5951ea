use gpu_report::bottleneck::{bottleneck_section, diagnosis_line_string, unknown_line_string};
use gpu_report::gpu::{DeviceReadings, GPUStats, Reading};
use gpu_report::throttle::{every_reason, ThrottleFlags, ThrottleReason};

fn device(index: u32, throttle: Reading<ThrottleFlags>) -> GPUStats {
    GPUStats::from_readings(DeviceReadings {
        index: Reading::Value(index),
        name: Reading::Value("Tesla T4".to_string()),
        temperature: Reading::Value(40),
        power_usage: Reading::Value(30000),
        power_limit: Reading::Value(70000),
        utilization: Reading::Value((0, 0)),
        memory: Reading::Value((0, 16_106_127_360)),
        capability: Reading::Value((7, 5)),
        cores: Reading::Value(2560),
        throttle,
        fans: Reading::Value(vec![]),
        display_connected: Reading::Value(false),
        display_active: Reading::Value(false),
        processes: Reading::Value(vec![]),
    })
    .expect("the readings are complete")
}

fn flags(active: &[ThrottleReason]) -> ThrottleFlags {
    let mut f = ThrottleFlags::empty();
    for reason in active {
        match reason {
            ThrottleReason::GpuIdle => f.gpu_idle = true,
            ThrottleReason::ApplicationsClocksSetting => f.applications_clocks_setting = true,
            ThrottleReason::SwPowerCap => f.sw_power_cap = true,
            ThrottleReason::HwSlowdown => f.hw_slowdown = true,
            ThrottleReason::SyncBoost => f.sync_boost = true,
            ThrottleReason::SwThermalSlowdown => f.sw_thermal_slowdown = true,
            ThrottleReason::HwThermalSlowdown => f.hw_thermal_slowdown = true,
            ThrottleReason::HwPowerBrakeSlowdown => f.hw_power_brake_slowdown = true,
            ThrottleReason::DisplayClockSetting => f.display_clock_setting = true,
        }
    }
    f
}

#[test]
fn no_flag_is_no_reason() {
    let f = ThrottleFlags::empty();
    assert!(f.is_empty());
    assert!(f.reasons().is_empty());
    for reason in every_reason() {
        assert!(!f.is_active(reason));
    }
}

#[test]
fn reasons_come_in_reporting_order() {
    let f = flags(&[
        ThrottleReason::DisplayClockSetting,
        ThrottleReason::GpuIdle,
        ThrottleReason::HwSlowdown,
    ]);
    assert!(!f.is_empty());
    assert_eq!(
        f.reasons(),
        vec![
            ThrottleReason::GpuIdle,
            ThrottleReason::HwSlowdown,
            ThrottleReason::DisplayClockSetting
        ]
    );
    assert!(f.is_active(ThrottleReason::HwSlowdown));
    assert!(!f.is_active(ThrottleReason::SyncBoost));
}

#[test]
fn every_flag_gives_every_reason_once() {
    let all = every_reason();
    assert_eq!(all.len(), 9);
    assert_eq!(flags(&all).reasons(), all);
    for reason in every_reason() {
        assert_eq!(flags(&[reason]).reasons(), vec![reason]);
    }
}

#[test]
fn reasons_have_their_names() {
    let names: Vec<String> = every_reason().iter().map(|r| r.name()).collect();
    assert_eq!(
        names,
        vec![
            "GPU_IDLE",
            "APPLICATIONS_CLOCKS_SETTING",
            "SW_POWER_CAP",
            "HW_SLOWDOWN",
            "SYNC_BOOST",
            "SW_THERMAL_SLOWDOWN",
            "HW_THERMAL_SLOWDOWN",
            "HW_POWER_BRAKE_SLOWDOWN",
            "DISPLAY_CLOCK_SETTING",
        ]
    );
}

#[test]
fn a_device_that_is_not_throttled_has_no_entry() {
    assert_eq!(device(0, Reading::Value(ThrottleFlags::empty())).diagnose(), Some(vec![]));
}

#[test]
fn a_throttled_device_has_one_entry_for_each_flag() {
    let d = device(
        2,
        Reading::Value(flags(&[ThrottleReason::SwThermalSlowdown, ThrottleReason::SwPowerCap])),
    );
    assert_eq!(
        d.diagnose(),
        Some(vec![
            (Some(2), "SW_POWER_CAP".to_string()),
            (Some(2), "SW_THERMAL_SLOWDOWN".to_string())
        ])
    );
}

#[test]
fn the_line_of_an_entry() {
    assert_eq!(
        diagnosis_line_string(Some(12), "HW_SLOWDOWN"),
        "GPU 12 is throttling due to: HW_SLOWDOWN"
    );
    assert_eq!(
        diagnosis_line_string(None, "HW_SLOWDOWN"),
        "GPU N/A is throttling due to: HW_SLOWDOWN"
    );
}

#[test]
fn the_section_has_one_line_for_each_flag_of_each_device() {
    let devices = vec![
        device(0, Reading::Value(ThrottleFlags::empty())),
        device(1, Reading::Value(flags(&[ThrottleReason::HwSlowdown, ThrottleReason::GpuIdle]))),
        device(2, Reading::Value(ThrottleFlags::empty())),
        device(3, Reading::Value(flags(&[ThrottleReason::SyncBoost]))),
    ];
    assert_eq!(
        bottleneck_section(&devices),
        "\nBottleneck diagnosis:\n\
         GPU 1 is throttling due to: GPU_IDLE\n\
         GPU 1 is throttling due to: HW_SLOWDOWN\n\
         GPU 3 is throttling due to: SYNC_BOOST\n"
    );
}

#[test]
fn a_section_without_throttled_devices_is_its_title() {
    let devices = vec![device(0, Reading::Value(ThrottleFlags::empty()))];
    assert_eq!(bottleneck_section(&devices), "\nBottleneck diagnosis:\n");
    assert_eq!(bottleneck_section(&vec![]), "\nBottleneck diagnosis:\n");
}

#[test]
fn a_device_that_is_not_throttled_changes_no_section() {
    let throttled = || device(1, Reading::Value(flags(&[ThrottleReason::HwSlowdown])));
    let quiet = || device(0, Reading::Value(ThrottleFlags::empty()));
    let without = bottleneck_section(&vec![throttled()]);
    assert_eq!(bottleneck_section(&vec![quiet(), throttled()]), without);
    assert_eq!(bottleneck_section(&vec![throttled(), quiet()]), without);
}

#[test]
fn a_device_that_does_not_tell_its_reasons_has_no_list() {
    assert_eq!(device(0, Reading::Unsupported).diagnose(), None);
}

#[test]
fn a_device_that_does_not_tell_its_reasons_has_the_line_that_says_so() {
    assert_eq!(unknown_line_string(Some(4)), "GPU 4 throttle reasons: N/A");
    assert_eq!(unknown_line_string(None), "GPU N/A throttle reasons: N/A");
    let devices = vec![
        device(0, Reading::Value(flags(&[ThrottleReason::SyncBoost]))),
        device(1, Reading::Unsupported),
        device(2, Reading::Value(ThrottleFlags::empty())),
    ];
    assert_eq!(
        bottleneck_section(&devices),
        "\nBottleneck diagnosis:\n\
         GPU 0 is throttling due to: SYNC_BOOST\n\
         GPU 1 throttle reasons: N/A\n"
    );
}
