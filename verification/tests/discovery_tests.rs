//! Tests of discovery and correlation: the classification map, the
//! positional pairing, a whole pass over monitor inputs, the backlight
//! registry pass, and the error mapping.

use brightness::backlight::backlight_devices;
use brightness::backlight::BacklightError;
use brightness::backlight::EntryProbe;
use brightness::discover::assemble_device;
use brightness::discover::brightness_devices;
use brightness::discover::build_device_info_map;
use brightness::discover::check_enumeration;
use brightness::discover::filter_active_devices;
use brightness::discover::filter_target_modes;
use brightness::discover::wchar_to_string;
use brightness::discover::DeviceInfoEntry;
use brightness::discover::DeviceInfoMap;
use brightness::discover::DisplayDeviceRecord;
use brightness::discover::ModeInfoRecord;
use brightness::discover::MonitorInput;
use brightness::discover::OpenOutcome;
use brightness::discover::TargetNameOutcome;
use brightness::error_from_backlight;
use brightness::error_from_sys;
use brightness::monitor::BrightnessExt;
use brightness::monitor::BrightnessProtocol;
use brightness::monitor::SysError;
use brightness::monitor::OUTPUT_TECHNOLOGY_INTERNAL;
use brightness::Cause;
use brightness::Error;

fn wide(s: &str, padded_len: usize) -> Vec<u16> {
    let mut units: Vec<u16> = s.encode_utf16().collect();
    while units.len() < padded_len {
        units.push(0);
    }
    units
}

fn record(name: &str, id: &str, flags: u32) -> DisplayDeviceRecord {
    DisplayDeviceRecord {
        device_name: wide(name, 32),
        device_string: wide("Generic Monitor", 128),
        device_id: wide(id, 128),
        device_key: wide("KEY", 128),
        state_flags: flags,
    }
}

#[test]
fn wide_strings_are_cut_at_the_first_nul() {
    assert_eq!(wchar_to_string(&wide("DISPLAY1", 32)), "DISPLAY1");
    let mut units = wide("AB", 2);
    units.push(0);
    units.push(0x43);
    assert_eq!(wchar_to_string(&units), "AB");
    assert_eq!(wchar_to_string(&vec![]), "");
}

#[test]
fn active_devices_are_kept_in_order() {
    let devices = vec![
        record("a", "ida", 1),
        record("b", "idb", 0),
        record("c", "idc", 5),
    ];
    let kept = filter_active_devices(devices);
    assert_eq!(kept.len(), 2);
    assert_eq!(wchar_to_string(&kept[0].device_name), "a");
    assert_eq!(wchar_to_string(&kept[1].device_name), "c");
}

#[test]
fn only_target_modes_carry_name_records() {
    let modes = vec![
        ModeInfoRecord { info_type: 1, adapter_id: 7, id: 0 },
        ModeInfoRecord { info_type: 2, adapter_id: 7, id: 1 },
        ModeInfoRecord { info_type: 3, adapter_id: 7, id: 2 },
    ];
    let targets = filter_target_modes(modes);
    assert_eq!(targets.len(), 1);
    assert_eq!(targets[0].id, 1);
}

#[test]
fn info_map_skips_denied_queries_and_later_records_win() {
    let outcomes = vec![
        TargetNameOutcome::Found { monitor_device_path: wide("p1", 128), output_technology: 5 },
        TargetNameOutcome::AccessDenied,
        TargetNameOutcome::Found { monitor_device_path: wide("p2", 128), output_technology: 6 },
        TargetNameOutcome::Found {
            monitor_device_path: wide("p1", 128),
            output_technology: 9,
        },
    ];
    let map = build_device_info_map(outcomes).unwrap();
    assert_eq!(map.entries.len(), 3);
    assert_eq!(map.get(&wide("p1", 128)), Some(9));
    assert_eq!(map.get(&wide("p2", 128)), Some(6));
    assert_eq!(map.get(&wide("p3", 128)), None);
}

#[test]
fn info_map_aborts_on_the_first_fatal_query() {
    let outcomes = vec![
        TargetNameOutcome::Found { monitor_device_path: wide("p1", 128), output_technology: 5 },
        TargetNameOutcome::Failed { code: 7 },
        TargetNameOutcome::Failed { code: 8 },
    ];
    let err = build_device_info_map(outcomes).unwrap_err();
    assert_eq!(err, SysError::DisplayConfigGetDeviceInfoFailed { code: 7 });
}

#[test]
fn unequal_enumeration_counts_are_a_correlation_error() {
    let physical: Vec<u64> = vec![11, 12];
    let devices = vec![
        record("a", "ida", 1),
        record("b", "idb", 1),
        record("c", "idc", 1),
    ];
    assert_eq!(
        check_enumeration(&physical, &devices).unwrap_err(),
        SysError::EnumerationMismatch
    );

    let info = Ok(DeviceInfoMap { entries: vec![] });
    let monitors = Ok(vec![MonitorInput {
        physical: Ok(vec![11, 12]),
        devices: Ok(vec![
            record("a", "ida", 1),
            record("b", "idb", 1),
            record("c", "idc", 1),
        ]),
        opens: vec![],
    }]);
    let items = brightness_devices(info, monitors);
    assert_eq!(items.len(), 1);
    assert!(matches!(items[0], Err(SysError::EnumerationMismatch)));
}

#[test]
fn assembly_skips_denied_opens_and_requires_a_classification() {
    let info = DeviceInfoMap {
        entries: vec![DeviceInfoEntry {
            monitor_device_path: wide("ida", 128),
            output_technology: 3,
        }],
    };
    assert!(assemble_device(4, record("a", "ida", 1), OpenOutcome::AccessDenied, &info).is_none());
    let err = assemble_device(4, record("a", "ida", 1), OpenOutcome::Failed { code: 5 }, &info)
        .unwrap()
        .unwrap_err();
    assert!(matches!(
        err,
        SysError::OpeningMonitorDeviceInterfaceHandleFailed { ref device_name, code: 5 } if device_name == "a"
    ));
    let err = assemble_device(
        4,
        record("a", "other", 1),
        OpenOutcome::Opened { handle: 9 },
        &info,
    )
        .unwrap()
        .unwrap_err();
    assert_eq!(err, SysError::DeviceInfoMissing);
}

#[test]
fn a_whole_pass_yields_one_device_per_controllable_display() {
    let info = Ok(DeviceInfoMap {
        entries: vec![
            DeviceInfoEntry {
                monitor_device_path: wide("ida", 128),
                output_technology: OUTPUT_TECHNOLOGY_INTERNAL,
            },
            DeviceInfoEntry { monitor_device_path: wide("idb", 128), output_technology: 10 },
        ],
    });
    let monitors = Ok(vec![
        MonitorInput {
            physical: Ok(vec![21]),
            devices: Ok(vec![record("DISPLAY1", "ida", 1)]),
            opens: vec![OpenOutcome::Opened { handle: 31 }],
        },
        MonitorInput {
            physical: Ok(vec![22, 23]),
            devices: Ok(vec![record("DISPLAY2", "idb", 1), record("DISPLAY3", "idc", 1)]),
            opens: vec![OpenOutcome::Opened { handle: 32 }, OpenOutcome::AccessDenied],
        },
        MonitorInput { physical: Err(40), devices: Ok(vec![]), opens: vec![] },
    ]);
    let items = brightness_devices(info, monitors);
    assert_eq!(items.len(), 3);

    let first = items[0].as_ref().unwrap();
    assert_eq!(first.device_name(), "DISPLAY1");
    assert_eq!(first.physical_monitor, 21);
    assert_eq!(first.file_handle, 31);
    assert!(first.is_internal());
    assert_eq!(first.protocol(), BrightnessProtocol::Internal);
    assert_eq!(first.device_description().unwrap(), "Generic Monitor");
    assert_eq!(first.device_registry_key().unwrap(), "KEY");
    assert_eq!(first.device_path().unwrap(), "ida");

    let second = items[1].as_ref().unwrap();
    assert_eq!(second.device_name(), "DISPLAY2");
    assert!(!second.is_internal());
    assert_eq!(second.protocol(), BrightnessProtocol::External);

    assert!(matches!(
        items[2],
        Err(SysError::GetPhysicalMonitorsFailed { code: 40 })
    ));
}

#[test]
fn structural_failures_are_the_single_item_of_the_pass() {
    let items = brightness_devices(
        Err(SysError::QueryDisplayConfigFailed { code: 3 }),
        Ok(vec![]),
    );
    assert_eq!(items.len(), 1);
    assert!(matches!(items[0], Err(SysError::QueryDisplayConfigFailed { code: 3 })));

    let items = brightness_devices(Ok(DeviceInfoMap { entries: vec![] }), Err(4));
    assert_eq!(items.len(), 1);
    assert!(matches!(items[0], Err(SysError::EnumDisplayMonitorsFailed { code: 4 })));
}

#[test]
fn backlight_pass_reports_and_skips_per_entry() {
    let listing = Ok(vec![
        Ok(EntryProbe { name: Some(String::from("intel")), has_actual: true, has_max: true }),
        Ok(EntryProbe { name: Some(String::from("noattrs")), has_actual: false, has_max: true }),
        Err(13),
        Ok(EntryProbe { name: None, has_actual: true, has_max: true }),
    ]);
    let items = backlight_devices(listing);
    assert_eq!(items.len(), 2);
    assert_eq!(items[0].as_ref().unwrap().device_name(), "intel");
    assert_eq!(
        items[1].as_ref().unwrap_err(),
        &BacklightError::ReadingBacklightDirFailed { code: 13 }
    );
}

#[test]
fn missing_backlight_directory_is_one_fatal_item() {
    let items = backlight_devices(Err(2));
    assert_eq!(items.len(), 1);
    assert_eq!(
        items[0].as_ref().unwrap_err(),
        &BacklightError::ReadingBacklightDirFailed { code: 2 }
    );
}

#[test]
fn monitor_failures_map_to_their_public_kind() {
    let e = error_from_sys(SysError::EnumerationMismatch);
    assert_eq!(
        e,
        Error::ListingDevicesFailed { source: Cause::Monitor(SysError::EnumerationMismatch) }
    );

    let sys = SysError::GettingMonitorBrightnessFailed {
        device_name: String::from("mon1"),
        code: 9,
    };
    let e = error_from_sys(sys.clone());
    assert_eq!(
        e,
        Error::GettingDeviceInfoFailed { device: String::from("mon1"), source: Cause::Monitor(sys) }
    );

    let sys = SysError::DdcciInvalidBrightnessRange { device_name: String::from("mon3") };
    let e = error_from_sys(sys.clone());
    assert_eq!(
        e,
        Error::GettingDeviceInfoFailed { device: String::from("mon3"), source: Cause::Monitor(sys) }
    );

    let sys = SysError::IoctlSetBrightnessFailed { device_name: String::from("mon2"), code: 8 };
    let e = error_from_sys(sys.clone());
    assert_eq!(
        e,
        Error::SettingBrightnessFailed { device: String::from("mon2"), source: Cause::Monitor(sys) }
    );
}

#[test]
fn backlight_failures_map_to_their_public_kind() {
    let b = BacklightError::ReadingBacklightDirFailed { code: 1 };
    assert_eq!(
        error_from_backlight(b.clone()),
        Error::ListingDevicesFailed { source: Cause::Backlight(b) }
    );

    let b = BacklightError::ParsingBacklightInfoFailed { device: String::from("intel") };
    assert_eq!(
        error_from_backlight(b.clone()),
        Error::GettingDeviceInfoFailed { device: String::from("intel"), source: Cause::Backlight(b) }
    );

    let b = BacklightError::WritingBrightnessFailed { device: String::from("intel"), code: 13 };
    assert_eq!(
        error_from_backlight(b.clone()),
        Error::SettingBrightnessFailed { device: String::from("intel"), source: Cause::Backlight(b) }
    );

    let e = brightness::backlight::bus_set_error(&String::from("intel"), String::from("busy"));
    assert_eq!(
        e,
        Error::SettingBrightnessFailed {
            device: String::from("intel"),
            source: Cause::Bus { message: String::from("busy") },
        }
    );
}
