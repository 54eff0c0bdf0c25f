//! Tests of the value normalizer: the continuous DDC/CI scale, the
//! discrete level list, the kernel single scale, and the decimal text of
//! backlight attributes.

use brightness::backlight::desired_raw_value;
use brightness::backlight::format_backlight_value;
use brightness::backlight::parse_backlight_value;
use brightness::backlight::percentage_from_raw;
use brightness::backlight::plan_after_bus_call;
use brightness::backlight::BusCallOutcome;
use brightness::backlight::SetAction;
use brightness::backlight::Value;
use brightness::monitor::interpret_display_brightness;
use brightness::monitor::BackendReading;
use brightness::monitor::BackendSetReading;
use brightness::monitor::BackendSetRequest;
use brightness::monitor::Brightness;
use brightness::monitor::OUTPUT_TECHNOLOGY_INTERNAL;
use brightness::monitor::plan_external_set;
use brightness::monitor::plan_internal_set;
use brightness::monitor::set_display_brightness_request;
use brightness::monitor::DdcciBrightnessValues;
use brightness::monitor::IoctlSupportedBrightnessLevels;
use brightness::monitor::SysError;
use brightness::monitor::DISPLAYPOLICY_AC;
use brightness::monitor::DISPLAYPOLICY_BOTH;
use brightness::monitor::DISPLAYPOLICY_DC;

#[test]
fn continuous_percentage_basic() {
    let v = DdcciBrightnessValues { min: 0, current: 37, max: 100 };
    assert_eq!(v.get_current_percentage(), Some(37));
}

#[test]
fn continuous_percentage_rounds_half_away_from_zero() {
    // 1 / 200 of the span is exactly 0.5%, which rounds up to 1.
    let v = DdcciBrightnessValues { min: 0, current: 1, max: 200 };
    assert_eq!(v.get_current_percentage(), Some(1));
    // 0.4% rounds down.
    let v = DdcciBrightnessValues { min: 0, current: 1, max: 250 };
    assert_eq!(v.get_current_percentage(), Some(0));
}

#[test]
fn continuous_percentage_with_offset_scale() {
    let v = DdcciBrightnessValues { min: 10, current: 60, max: 110 };
    assert_eq!(v.get_current_percentage(), Some(50));
    assert_eq!(v.percentage_to_current(50), Some(60));
}

#[test]
fn degenerate_scale_is_a_failure_not_a_number() {
    let v = DdcciBrightnessValues { min: 5, current: 5, max: 5 };
    assert_eq!(v.get_current_percentage(), None);
    assert_eq!(v.percentage_to_current(40), None);
    let inverted = DdcciBrightnessValues { min: 9, current: 9, max: 3 };
    assert_eq!(inverted.percentage_to_current(40), None);
}

#[test]
fn round_trip_recovers_current_within_one_unit() {
    let triples = [
        (0u32, 1u32, 3u32),
        (0, 2, 3),
        (10, 37, 110),
        (0, 199, 200),
        (5, 6, 7),
        (0, 150, 300),
    ];
    for &(min, current, max) in triples.iter() {
        let v = DdcciBrightnessValues { min, current, max };
        let p = v.get_current_percentage().unwrap();
        let back = v.percentage_to_current(p).unwrap();
        let diff = if back >= current { back - current } else { current - back };
        assert!(diff <= 1, "triple ({min},{current},{max}) came back as {back}");
    }
}

#[test]
fn external_set_clamps_the_requested_percentage() {
    let v = DdcciBrightnessValues { min: 0, current: 50, max: 100 };
    assert_eq!(plan_external_set(&v, 250), Some(100));
    assert_eq!(plan_external_set(&v, 75), Some(75));
}

#[test]
fn nearest_level_snaps_to_member_with_minimal_distance() {
    let levels = IoctlSupportedBrightnessLevels(vec![0, 25, 50, 75, 100]);
    assert_eq!(levels.get_nearest(60), 50);
    assert_eq!(levels.get_nearest(63), 75);
    assert_eq!(levels.get_nearest(0), 0);
    assert_eq!(levels.get_nearest(100), 100);
    assert_eq!(levels.get_nearest(2000), 100);
}

#[test]
fn nearest_level_first_minimum_wins_ties() {
    let levels = IoctlSupportedBrightnessLevels(vec![40, 60]);
    assert_eq!(levels.get_nearest(50), 40);
    let levels = IoctlSupportedBrightnessLevels(vec![60, 40]);
    assert_eq!(levels.get_nearest(50), 60);
}

#[test]
fn nearest_level_of_empty_set_is_zero() {
    let levels = IoctlSupportedBrightnessLevels(vec![]);
    assert_eq!(levels.get_nearest(80), 0);
}

#[test]
fn discrete_set_issues_combined_ac_dc_request() {
    let levels = IoctlSupportedBrightnessLevels(vec![0, 25, 50, 75, 100]);
    let req = plan_internal_set(&levels, 60);
    assert_eq!(req.display_policy, DISPLAYPOLICY_BOTH);
    assert_eq!(req.ac_brightness, 50);
    assert_eq!(req.dc_brightness, 50);
    let direct = set_display_brightness_request(33);
    assert_eq!(direct.display_policy, 3);
    assert_eq!(direct.ac_brightness, 33);
    assert_eq!(direct.dc_brightness, 33);
}

#[test]
fn ioctl_reply_follows_the_policy_selector() {
    // The platform selectors: AC is 1, DC is 2, and the combined set
    // selector is their bitwise union.
    assert_eq!(DISPLAYPOLICY_AC, 1);
    assert_eq!(DISPLAYPOLICY_DC, 2);
    assert_eq!(DISPLAYPOLICY_BOTH, DISPLAYPOLICY_AC | DISPLAYPOLICY_DC);

    let name = String::from("mon1");
    let reply = brightness::monitor::DisplayBrightness {
        display_policy: DISPLAYPOLICY_AC,
        ac_brightness: 70,
        dc_brightness: 30,
    };
    assert_eq!(interpret_display_brightness(&reply, &name), Ok(70));
    let reply = brightness::monitor::DisplayBrightness {
        display_policy: DISPLAYPOLICY_DC,
        ac_brightness: 70,
        dc_brightness: 30,
    };
    assert_eq!(interpret_display_brightness(&reply, &name), Ok(30));
    // A selector outside {AC, DC} is a malformed response.
    let reply = brightness::monitor::DisplayBrightness {
        display_policy: 0,
        ac_brightness: 70,
        dc_brightness: 30,
    };
    let err = interpret_display_brightness(&reply, &name).unwrap_err();
    assert!(matches!(
        err,
        SysError::IoctlQueryDisplayBrightnessUnexpectedResponse { device_name } if device_name == "mon1"
    ));
}

fn device(output_technology: u32) -> Brightness {
    Brightness {
        physical_monitor: 1,
        file_handle: 2,
        device_name: String::from("mon1"),
        device_description: String::from("desc"),
        device_key: String::from("key"),
        device_path: String::from("path"),
        output_technology,
    }
}

#[test]
fn get_routes_internal_panels_to_the_ioctl_reading() {
    let d = device(OUTPUT_TECHNOLOGY_INTERNAL);
    let reply = brightness::monitor::DisplayBrightness {
        display_policy: DISPLAYPOLICY_AC,
        ac_brightness: 70,
        dc_brightness: 30,
    };
    assert_eq!(d.get_percentage(&BackendReading::Internal(reply)), Ok(70));
    let reply = brightness::monitor::DisplayBrightness {
        display_policy: 0,
        ac_brightness: 70,
        dc_brightness: 30,
    };
    assert!(matches!(
        d.get_percentage(&BackendReading::Internal(reply)),
        Err(SysError::IoctlQueryDisplayBrightnessUnexpectedResponse { .. })
    ));
}

#[test]
fn get_routes_everything_else_to_the_continuous_reading() {
    let d = device(10);
    let v = DdcciBrightnessValues { min: 0, current: 37, max: 100 };
    assert_eq!(d.get_percentage(&BackendReading::External(v)), Ok(37));
    let degenerate = DdcciBrightnessValues { min: 5, current: 5, max: 5 };
    assert!(matches!(
        d.get_percentage(&BackendReading::External(degenerate)),
        Err(SysError::DdcciInvalidBrightnessRange { device_name }) if device_name == "mon1"
    ));
}

#[test]
fn set_routes_and_converts_per_protocol() {
    let d = device(OUTPUT_TECHNOLOGY_INTERNAL);
    let levels = IoctlSupportedBrightnessLevels(vec![0, 25, 50, 75, 100]);
    let req = d.plan_set(&BackendSetReading::Internal(levels), 60).unwrap();
    assert!(matches!(
        req,
        BackendSetRequest::Internal(r)
            if r.display_policy == DISPLAYPOLICY_BOTH && r.ac_brightness == 50 && r.dc_brightness == 50
    ));

    let d = device(10);
    let v = DdcciBrightnessValues { min: 0, current: 50, max: 100 };
    assert_eq!(
        d.plan_set(&BackendSetReading::External(v), 250).unwrap(),
        BackendSetRequest::External(100)
    );
    let degenerate = DdcciBrightnessValues { min: 5, current: 5, max: 5 };
    assert!(matches!(
        d.plan_set(&BackendSetReading::External(degenerate), 40),
        Err(SysError::DdcciInvalidBrightnessRange { .. })
    ));
}

#[test]
fn kernel_percentage_examples() {
    assert_eq!(percentage_from_raw(0, 0), 0);
    assert_eq!(percentage_from_raw(50, 100), 50);
    // An inconsistent reading (actual > max) is reported unclamped.
    assert_eq!(percentage_from_raw(200, 100), 200);
    assert_eq!(percentage_from_raw(128, 255), 50);
}

#[test]
fn kernel_set_clamps_input_and_truncates() {
    assert_eq!(desired_raw_value(75, 255), 191);
    assert_eq!(desired_raw_value(100, 255), 255);
    assert_eq!(desired_raw_value(250, 255), 255);
    assert_eq!(desired_raw_value(0, 255), 0);
    assert_eq!(desired_raw_value(33, 3), 0);
}

#[test]
fn bus_call_outcome_decides_the_set_flow() {
    assert_eq!(plan_after_bus_call(&BusCallOutcome::Succeeded), SetAction::Done);
    assert_eq!(
        plan_after_bus_call(&BusCallOutcome::MethodError),
        SetAction::FallBackToFileWrite
    );
    assert_eq!(
        plan_after_bus_call(&BusCallOutcome::OtherError { message: String::from("io") }),
        SetAction::Surface
    );
}

#[test]
fn single_registry_end_to_end_values() {
    // A device with max 255 and actual 128 reads as 50%.
    assert_eq!(percentage_from_raw(128, 255), 50);
    // Setting 75% computes raw 191 (75 * 255 / 100, truncating)...
    let raw = desired_raw_value(75, 255);
    assert_eq!(raw, 191);
    // ...and a method error from the bus triggers exactly one file
    // fallback, which writes the decimal text of the raw value.
    assert_eq!(
        plan_after_bus_call(&BusCallOutcome::MethodError),
        SetAction::FallBackToFileWrite
    );
    assert_eq!(format_backlight_value(raw), b"191".to_vec());
}

#[test]
fn parse_accepts_trimmed_decimal_text() {
    assert_eq!(parse_backlight_value(&b" 191\n".to_vec()), Some(191));
    assert_eq!(parse_backlight_value(&b"0".to_vec()), Some(0));
    assert_eq!(parse_backlight_value(&b"+42".to_vec()), Some(42));
    assert_eq!(parse_backlight_value(&b"\t007\r\n".to_vec()), Some(7));
    assert_eq!(parse_backlight_value(&b"4294967295".to_vec()), Some(u32::MAX));
}

#[test]
fn parse_rejects_malformed_or_oversized_text() {
    assert_eq!(parse_backlight_value(&b"".to_vec()), None);
    assert_eq!(parse_backlight_value(&b"  \n".to_vec()), None);
    assert_eq!(parse_backlight_value(&b"12a".to_vec()), None);
    assert_eq!(parse_backlight_value(&b"-3".to_vec()), None);
    assert_eq!(parse_backlight_value(&b"+".to_vec()), None);
    assert_eq!(parse_backlight_value(&b"4294967296".to_vec()), None);
    assert_eq!(parse_backlight_value(&b"1 2".to_vec()), None);
}

#[test]
fn format_renders_plain_decimal_digits() {
    assert_eq!(format_backlight_value(0), b"0".to_vec());
    assert_eq!(format_backlight_value(7), b"7".to_vec());
    assert_eq!(format_backlight_value(10200), b"10200".to_vec());
    assert_eq!(format_backlight_value(u32::MAX), b"4294967295".to_vec());
}

#[test]
fn attribute_names_match_the_registry_layout() {
    assert_eq!(Value::Actual.as_str(), "actual_brightness");
    assert_eq!(Value::Max.as_str(), "max_brightness");
    assert_eq!(brightness::backlight::backlight_dir(), "/sys/class/backlight");
    assert_eq!(brightness::backlight::brightness_file(), "brightness");
}
