use monitorctl::monitors::{
    get_monitors, plan_set_power, monitor_statuses, target_queries, DeviceIdentity, ModeEntry,
    PhysicalMonitorRecord, TargetDisplayInfo, MODE_INFO_TYPE_TARGET,
};
use monitorctl::power::{MonitorError, PowerMode};
use monitorctl::wide::{utf16_nt_to_string, wide_eq, wide_name_matches};

/// A nul-terminated UTF-16 buffer, padded with junk after the terminator
/// the way a fixed-size OS buffer would be.
fn wbuf(s: &str) -> Vec<u16> {
    let mut v: Vec<u16> = s.encode_utf16().collect();
    v.push(0);
    v.push(0x5a5a);
    v
}

fn device(id: &str, name: &str) -> DeviceIdentity {
    DeviceIdentity {
        device_id: wbuf(id),
        device_name: wbuf(name),
    }
}

fn target(friendly: &str, path: &str, adapter_id: u64, target_id: u32) -> TargetDisplayInfo {
    TargetDisplayInfo {
        friendly_name: friendly.to_string(),
        device_path: wbuf(path),
        adapter_id,
        target_id,
    }
}

fn record(name: &str, handle: u64) -> PhysicalMonitorRecord {
    PhysicalMonitorRecord {
        device_name: wbuf(name),
        handle,
    }
}

fn two_display_setup() -> (
    Vec<DeviceIdentity>,
    Vec<TargetDisplayInfo>,
    Vec<PhysicalMonitorRecord>,
) {
    let devices = vec![
        device("MONITOR\\DELA1E2\\{guid}\\0001", "\\\\.\\DISPLAY1\\Monitor0"),
        device("MONITOR\\ACR0404\\{guid}\\0002", "\\\\.\\DISPLAY2\\Monitor0"),
    ];
    let targets = vec![
        target("Dell U2720Q", "MONITOR\\DELA1E2\\{guid}\\0001", 7, 1),
        target("Acer XV272U", "MONITOR\\ACR0404\\{guid}\\0002", 7, 2),
    ];
    let records = vec![
        record("\\\\.\\DISPLAY2", 0xbeef),
        record("\\\\.\\DISPLAY1", 0xcafe),
    ];
    (devices, targets, records)
}

#[test]
fn resolve_assigns_sequential_ids_in_target_order() {
    let (devices, targets, records) = two_display_setup();
    let out = get_monitors(&devices, &targets, &records);
    assert_eq!(out.unresolved, Vec::<i32>::new());
    assert_eq!(out.monitors.len(), 2);
    for (k, m) in out.monitors.iter().enumerate() {
        assert_eq!(m.id, (k + 1) as i32);
    }
    assert_eq!(out.monitors[0].name(), "Dell U2720Q");
    assert_eq!(out.monitors[1].name(), "Acer XV272U");
    assert_eq!(out.monitors[0].handle(), 0xcafe);
    assert_eq!(out.monitors[1].handle(), 0xbeef);
    assert_eq!(out.monitors[0].id(), 1);
    assert_eq!(out.monitors[1].id(), 2);
}

#[test]
fn resolve_is_deterministic() {
    let (devices, targets, records) = two_display_setup();
    let a = get_monitors(&devices, &targets, &records);
    let b = get_monitors(&devices, &targets, &records);
    assert_eq!(a.unresolved, b.unresolved);
    assert_eq!(a.monitors.len(), b.monitors.len());
    for (x, y) in a.monitors.iter().zip(b.monitors.iter()) {
        assert_eq!(x.id, y.id);
        assert_eq!(x.name, y.name);
        assert_eq!(x.handle, y.handle);
    }
}

#[test]
fn prefix_join_matches_own_display_only() {
    let resolved = wbuf("\\\\.\\DISPLAY1\\Monitor0");
    assert!(wide_name_matches(&resolved, &wbuf("\\\\.\\DISPLAY1")));
    assert!(!wide_name_matches(&resolved, &wbuf("\\\\.\\DISPLAY2")));
}

#[test]
fn prefix_join_picks_the_matching_record() {
    let devices = vec![device("MONITOR\\X\\1", "\\\\.\\DISPLAY1\\Monitor0")];
    let targets = vec![target("One", "MONITOR\\X\\1", 1, 1)];
    let records = vec![record("\\\\.\\DISPLAY2", 2), record("\\\\.\\DISPLAY1", 1)];
    let out = get_monitors(&devices, &targets, &records);
    assert_eq!(out.monitors.len(), 1);
    assert_eq!(out.monitors[0].handle, 1);
}

#[test]
fn zero_targets_give_an_empty_list_not_an_error() {
    let devices = vec![device("MONITOR\\X\\1", "\\\\.\\DISPLAY1\\Monitor0")];
    let targets: Vec<TargetDisplayInfo> = Vec::new();
    let records = vec![record("\\\\.\\DISPLAY1", 1)];
    let out = get_monitors(&devices, &targets, &records);
    assert!(out.monitors.is_empty());
    assert!(out.unresolved.is_empty());
    let statuses = monitor_statuses(&out.monitors, &Vec::new()).unwrap();
    assert!(statuses.is_empty());
}

#[test]
fn dangling_target_keeps_the_other_monitors() {
    let (devices, mut targets, records) = two_display_setup();
    targets.insert(
        1,
        target("Ghost", "MONITOR\\GONE\\{guid}\\0009", 7, 9),
    );
    let out = get_monitors(&devices, &targets, &records);
    assert_eq!(out.unresolved, vec![2]);
    assert_eq!(out.monitors.len(), 2);
    assert_eq!(out.monitors[0].id, 1);
    assert_eq!(out.monitors[0].name, "Dell U2720Q");
    assert_eq!(out.monitors[1].id, 3);
    assert_eq!(out.monitors[1].name, "Acer XV272U");
}

#[test]
fn target_without_record_match_is_unresolved_only() {
    let devices = vec![
        device("MONITOR\\A\\1", "\\\\.\\DISPLAY1\\Monitor0"),
        device("MONITOR\\B\\2", "\\\\.\\DISPLAY9\\Monitor0"),
    ];
    let targets = vec![
        target("Good", "MONITOR\\A\\1", 1, 1),
        target("NoRecord", "MONITOR\\B\\2", 1, 2),
    ];
    let records = vec![record("\\\\.\\DISPLAY1", 11)];
    let out = get_monitors(&devices, &targets, &records);
    assert_eq!(out.monitors.len(), 1);
    assert_eq!(out.monitors[0].name, "Good");
    assert_eq!(out.unresolved, vec![2]);
}

#[test]
fn set_power_plans_the_documented_raw_values() {
    let (devices, targets, records) = two_display_setup();
    let out = get_monitors(&devices, &targets, &records);
    let on = plan_set_power(&out.monitors, 1, PowerMode::On).unwrap();
    assert_eq!(on.handle, 0xcafe);
    assert_eq!(on.feature, 0xd6);
    assert_eq!(on.value, 0x01);
    let off = plan_set_power(&out.monitors, 2, PowerMode::Off).unwrap();
    assert_eq!(off.handle, 0xbeef);
    assert_eq!(off.value, 0x05);
}

#[test]
fn set_power_with_absent_id_plans_no_hardware_call() {
    let (devices, targets, records) = two_display_setup();
    let out = get_monitors(&devices, &targets, &records);
    assert!(plan_set_power(&out.monitors, 42, PowerMode::On).is_none());
    assert!(plan_set_power(&Vec::new(), 1, PowerMode::Off).is_none());
}

#[test]
fn statuses_decode_each_monitor_reply() {
    let (devices, targets, records) = two_display_setup();
    let out = get_monitors(&devices, &targets, &records);
    let statuses = monitor_statuses(&out.monitors, &vec![0x01, 0x00]).unwrap();
    assert_eq!(statuses.len(), 2);
    assert_eq!(statuses[0].id, 1);
    assert_eq!(statuses[0].name, "Dell U2720Q");
    assert_eq!(statuses[0].power_mode, PowerMode::On);
    assert_eq!(statuses[1].power_mode, PowerMode::Off);
}

#[test]
fn statuses_report_the_first_unrecognized_reply() {
    let (devices, targets, records) = two_display_setup();
    let out = get_monitors(&devices, &targets, &records);
    let res = monitor_statuses(&out.monitors, &vec![0x01, 0x04]);
    assert_eq!(res.unwrap_err(), MonitorError::UnrecognizedPowerMode(0x04));
}

#[test]
fn target_queries_keep_only_target_kind_modes() {
    let modes = vec![
        ModeEntry { info_type: 1, adapter_id: 7, target_id: 100 },
        ModeEntry { info_type: MODE_INFO_TYPE_TARGET, adapter_id: 7, target_id: 101 },
        ModeEntry { info_type: 1, adapter_id: 8, target_id: 102 },
        ModeEntry { info_type: MODE_INFO_TYPE_TARGET, adapter_id: 8, target_id: 103 },
    ];
    assert_eq!(target_queries(&modes), vec![(7, 101), (8, 103)]);
    assert_eq!(target_queries(&Vec::new()), Vec::<(u64, u32)>::new());
}

#[test]
fn nul_terminated_utf16_decodes_the_prefix_only() {
    assert_eq!(utf16_nt_to_string(&wbuf("Dell U2720Q")), "Dell U2720Q");
    let no_nul: Vec<u16> = "AB".encode_utf16().collect();
    assert_eq!(utf16_nt_to_string(&no_nul), "AB");
    assert_eq!(utf16_nt_to_string(&vec![0u16, 0x41]), "");
    assert_eq!(utf16_nt_to_string(&Vec::new()), "");
    // an unpaired surrogate is replaced, never rejected
    assert_eq!(utf16_nt_to_string(&vec![0xd800u16, 0]), "\u{fffd}");
}

#[test]
fn wide_eq_compares_whole_buffers() {
    assert!(wide_eq(&wbuf("abc"), &wbuf("abc")));
    assert!(!wide_eq(&wbuf("abc"), &wbuf("abd")));
    let mut longer = wbuf("abc");
    longer.push(7);
    assert!(!wide_eq(&wbuf("abc"), &longer));
}
