use arkd_core::config::{DeviceConfig, DeviceKind};
use arkd_core::device::{geometry_for, not_playtools, select_device, summarize};
use arkd_core::error::Error;

fn named(name: &str, default: bool) -> DeviceConfig {
    let mut d = DeviceConfig::new_default();
    d.name = name.to_string();
    d.default = default;
    d
}

#[test]
fn get_picks_the_default_and_rejects_unknown_names() {
    let devices = vec![named("first", false), named("second", true)];
    assert_eq!(devices[select_device(&devices, None).unwrap()].name, "second");
    assert_eq!(devices[select_device(&devices, Some("first")).unwrap()].name, "first");
    let err = select_device(&devices, Some("nope")).unwrap_err();
    assert!(matches!(err, Error::Config(_)));
    let msg = err.message();
    assert!(msg.contains("first"), "{msg}");
    assert!(msg.contains("second"), "{msg}");
    let list: Vec<_> = devices.iter().map(|d| summarize(d, false, false)).collect();
    assert_eq!(list.len(), 2);
    assert!(list[1].default);
    assert!(!list[1].connected);
    assert!(!list[1].busy);
}

#[test]
fn without_a_marked_default_the_first_device_is_picked() {
    let devices = vec![named("a", false), named("b", false)];
    assert_eq!(select_device(&devices, None).unwrap(), 0);
}

#[test]
fn an_empty_registry_has_no_default() {
    let devices: Vec<DeviceConfig> = vec![];
    assert!(select_device(&devices, None).is_err());
}

#[test]
fn adb_devices_have_no_playtools() {
    let err = not_playtools("mumu");
    assert!(matches!(err, Error::PlayTools(_)));
    assert!(err.message().contains("not a PlayTools device"));
}

#[test]
fn geometry_prefers_configured_device_size() {
    let mut d = DeviceConfig::new_default();
    d.device_size = Some((2560, 1440));
    let g = geometry_for(&d, Some((1920, 1080)));
    assert_eq!(g.device, (2560, 1440));
    assert_eq!(g.screenshot, (1280, 720));
}

#[test]
fn geometry_uses_the_playtools_size_when_not_configured() {
    let d = DeviceConfig::new_default();
    let g = geometry_for(&d, Some((1920, 1080)));
    assert_eq!(g.device, (1920, 1080));
}

#[test]
fn geometry_falls_back_to_screenshot_size_without_a_socket() {
    let d = DeviceConfig::new_default();
    let g = geometry_for(&d, None);
    assert_eq!(g.device, (1280, 720));
}

#[test]
fn summaries_name_the_kind_and_address() {
    let mut d = named("mumu", true);
    d.kind = DeviceKind::Adb {
        adb_path: "adb".to_string(),
        address: "127.0.0.1:16384".to_string(),
        touch_mode: "maatouch".to_string(),
    };
    let s = summarize(&d, true, false);
    assert_eq!(s.kind, "adb");
    assert_eq!(s.address, "127.0.0.1:16384");
    assert!(s.connected);
    let p = summarize(&named("pc", false), false, true);
    assert_eq!(p.kind, "playtools");
    assert!(p.busy);
}
