use gpu_report::gpu::driver_stats;
use gpu_report::units::{fixed2_string, hundredths_of_gib, mean_of, version_string, watts};

#[test]
fn watts_round_to_the_nearest() {
    assert_eq!(watts(150000), 150);
    assert_eq!(watts(350000), 350);
    assert_eq!(watts(0), 0);
    assert_eq!(watts(499), 0);
    assert_eq!(watts(500), 1);
    assert_eq!(watts(1499), 1);
    assert_eq!(watts(1500), 2);
    assert_eq!(watts(u32::MAX), 4294967);
}

#[test]
fn watts_agree_with_rounding_in_floating_point() {
    for mw in [0u32, 1, 499, 501, 999, 12345, 150000, 249400, 349999, 350000] {
        let expected = (mw as f64 / 1000.0).round() as u32;
        assert_eq!(watts(mw), expected, "{} mW", mw);
    }
}

#[test]
fn gib_in_hundredths() {
    assert_eq!(hundredths_of_gib(8_589_934_592), 800);
    assert_eq!(hundredths_of_gib(25_769_803_776), 2400);
    assert_eq!(hundredths_of_gib(0), 0);
    assert_eq!(hundredths_of_gib(1_073_741_824), 100);
    assert_eq!(hundredths_of_gib(1_610_612_736), 150);
    // 5 MiB are 0.0048828125 GiB, 6 MiB are 0.005859375 GiB
    assert_eq!(hundredths_of_gib(5 * 1024 * 1024), 0);
    assert_eq!(hundredths_of_gib(6 * 1024 * 1024), 1);
    assert_eq!(hundredths_of_gib(u64::MAX), 1_717_986_918_400);
}

#[test]
fn two_decimal_places() {
    assert_eq!(fixed2_string(800), "8.00");
    assert_eq!(fixed2_string(2400), "24.00");
    assert_eq!(fixed2_string(0), "0.00");
    assert_eq!(fixed2_string(7), "0.07");
    assert_eq!(fixed2_string(70), "0.70");
    assert_eq!(fixed2_string(1234), "12.34");
}

#[test]
fn version_with_one_decimal_place() {
    assert_eq!(version_string(12000), "12.0");
    assert_eq!(version_string(12020), "12.0");
    assert_eq!(version_string(11080), "11.1");
    assert_eq!(version_string(12040), "12.0");
    assert_eq!(version_string(12050), "12.1");
    assert_eq!(version_string(0), "0.0");
    assert_eq!(version_string(-12000), "-12.0");
    assert_eq!(version_string(i32::MAX), "2147483.6");
    assert_eq!(version_string(i32::MIN), "-2147483.6");
}

#[test]
fn version_agrees_with_formatting_in_floating_point() {
    for v in [0i32, 9020, 10010, 11000, 11040, 11080, 12000, 12020, 12080, 13000] {
        let expected = format!("{:.1}", v as f64 / 1000.0);
        assert_eq!(version_string(v), expected, "{}", v);
    }
}

#[test]
fn mean_is_rounded_to_the_nearest() {
    assert_eq!(mean_of(&vec![30, 41]), Some(36));
    assert_eq!(mean_of(&vec![50]), Some(50));
    assert_eq!(mean_of(&vec![0, 0, 1]), Some(0));
    assert_eq!(mean_of(&vec![0, 1, 1]), Some(1));
    assert_eq!(mean_of(&vec![100, 100, 100]), Some(100));
    assert_eq!(mean_of(&vec![u32::MAX, u32::MAX]), Some(u32::MAX));
    assert_eq!(mean_of(&vec![u32::MAX, 0]), Some(2147483648));
    assert_eq!(mean_of(&vec![30, 40]), Some(35));
    assert_eq!(mean_of(&vec![1, 2, 2, 2]), Some(2));
    assert_eq!(mean_of(&vec![1, 1, 1, 2]), Some(1));
}

#[test]
fn mean_agrees_with_rounding_in_floating_point() {
    let samples: [&[u32]; 6] =
        [&[30, 41], &[0, 0, 1], &[10, 20, 31], &[99, 100], &[7], &[33, 33, 34, 35, 36]];
    for sample in samples {
        let exact = sample.iter().map(|v| *v as f64).sum::<f64>() / sample.len() as f64;
        let expected = (exact + 0.5).floor() as u32;
        assert_eq!(mean_of(&sample.to_vec()), Some(expected), "{:?}", sample);
    }
}

#[test]
fn no_readings_have_no_mean() {
    assert_eq!(mean_of(&vec![]), None);
}

#[test]
fn driver_versions_as_text() {
    let (cuda, driver) = driver_stats(Some(12020), Some("535.104.05".to_string()));
    assert_eq!(cuda, "12.0");
    assert_eq!(driver, "535.104.05");
    let (cuda, driver) = driver_stats(None, None);
    assert_eq!(cuda, "N/A");
    assert_eq!(driver, "N/A");
}
