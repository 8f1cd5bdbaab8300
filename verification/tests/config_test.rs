use arkd_core::config::{
    default_config_path, Config, DeviceConfig, DeviceKind, EnvOverrides, Platform,
};
use arkd_core::error::Error;
use arkd_core::json::to_text;

fn no_env() -> EnvOverrides {
    EnvOverrides {
        bind: None,
        token_file: None,
        core_dir: None,
        resource_dir: None,
        user_dir: None,
        job_dir: None,
    }
}

fn playtools(name: &str, address: &str, default: bool) -> DeviceConfig {
    let mut d = DeviceConfig::new_default();
    d.name = name.to_string();
    d.default = default;
    d.kind = DeviceKind::Playtools { address: address.to_string() };
    d
}

fn with_devices(devices: Vec<DeviceConfig>) -> Config {
    let mut c = Config::new_default(Platform::Other);
    c.devices = devices;
    c
}

#[test]
fn defaults_on_macos() {
    let mut config = Config::new_default(Platform::MacOs);
    config.apply_env(no_env());
    config.validate().unwrap();
    assert_eq!(config.maa.core_dir, "/Applications/MAA.app/Contents/Frameworks");
    assert_eq!(config.maa.resource_dir, "/Applications/MAA.app/Contents/Resources");
    assert_eq!(config.devices.len(), 1);
    assert_eq!(config.devices[0].name, "playcover");
    assert!(matches!(config.devices[0].kind, DeviceKind::Playtools { .. }));
    assert!(config.devices[0].default);
    assert_eq!(config.devices[0].touch_mode(), "MacPlayTools");
    assert_eq!(config.devices[0].connect_config, "General");
    assert_eq!(config.server.max_events, 2000);
}

#[test]
fn bind_default_and_env_override() {
    let config = Config::new_default(Platform::Other);
    assert_eq!(config.server.bind, "127.0.0.1:7717");
    let mut config = Config::new_default(Platform::Other);
    let mut env = no_env();
    env.bind = Some("0.0.0.0:9999".to_string());
    config.apply_env(env);
    assert_eq!(config.server.bind, "0.0.0.0:9999");
}

#[test]
fn toml_with_two_devices_and_one_default() {
    let mut mumu = DeviceConfig::new_default();
    mumu.name = "mumu".to_string();
    mumu.kind = DeviceKind::Adb {
        adb_path: "adb".to_string(),
        address: "127.0.0.1:16384".to_string(),
        touch_mode: "maatouch".to_string(),
    };
    let mut config = with_devices(vec![playtools("playcover", "127.0.0.1:1717", true), mumu]);
    config.validate().unwrap();
    assert_eq!(config.devices.len(), 2);
    assert_eq!(config.devices[1].name, "mumu");
    assert!(matches!(config.devices[1].kind, DeviceKind::Adb { .. }));
    assert_eq!(config.devices[1].touch_mode(), "maatouch");
}

#[test]
fn zero_defaults_with_two_devices_is_an_error() {
    let mut config = with_devices(vec![
        playtools("a", "127.0.0.1:1717", false),
        playtools("b", "127.0.0.1:1718", false),
    ]);
    assert!(matches!(config.validate().unwrap_err(), Error::Config(_)));
}

#[test]
fn two_defaults_is_an_error() {
    let mut config = with_devices(vec![
        playtools("a", "127.0.0.1:1717", true),
        playtools("b", "127.0.0.1:1718", true),
    ]);
    assert!(matches!(config.validate().unwrap_err(), Error::Config(_)));
}

#[test]
fn single_device_becomes_default_implicitly() {
    let mut config = with_devices(vec![playtools("only", "127.0.0.1:1717", false)]);
    config.validate().unwrap();
    assert!(config.devices[0].default);
}

#[test]
fn duplicate_names_is_an_error() {
    let mut config = with_devices(vec![
        playtools("a", "127.0.0.1:1717", true),
        playtools("a", "127.0.0.1:1718", false),
    ]);
    assert!(matches!(config.validate().unwrap_err(), Error::Config(_)));
}

#[test]
fn describe_is_json_friendly() {
    let config = Config::new_default(Platform::MacOs);
    let json = to_text(&config.describe());
    assert!(json.contains("core_dir"));
    assert!(json.contains("bind"));
}

#[test]
fn validation_messages_name_the_rule() {
    let mut config = with_devices(vec![
        playtools("a", "127.0.0.1:1717", true),
        playtools("a", "127.0.0.1:1718", false),
    ]);
    assert_eq!(config.validate().unwrap_err().message(), "duplicate device name \"a\"");

    let mut config = with_devices(vec![
        playtools("a", "127.0.0.1:1717", true),
        playtools("b", "127.0.0.1:1718", true),
    ]);
    assert_eq!(
        config.validate().unwrap_err().message(),
        "config must mark exactly one device as default, got 2"
    );

    let mut config = with_devices(vec![playtools("", "127.0.0.1:1717", true)]);
    assert_eq!(config.validate().unwrap_err().message(), "device name must not be empty");

    let mut config = with_devices(vec![playtools("x", "", true)]);
    assert_eq!(config.validate().unwrap_err().message(), "device \"x\" has an empty address");

    let mut config = with_devices(vec![]);
    config.server.max_events = 0;
    assert_eq!(
        config.validate().unwrap_err().message(),
        "server.max_events must be >= 1, got 0"
    );
}

#[test]
fn no_devices_is_fine() {
    let mut config = with_devices(vec![]);
    assert!(config.validate().is_ok());
    assert!(config.devices.is_empty());
}

#[test]
fn the_default_config_path_follows_the_platform() {
    assert_eq!(
        default_config_path(Platform::MacOs, Some("/Users/doc"), None),
        "/Users/doc/.config/arkd/config.toml"
    );
    assert_eq!(
        default_config_path(Platform::Windows, None, Some("C:\\Users\\doc\\AppData\\Local")),
        "C:\\Users\\doc\\AppData\\Local\\arkd\\config.toml"
    );
    assert_eq!(default_config_path(Platform::Other, Some("/home/doc"), None), "config.toml");
    assert_eq!(
        default_config_path(Platform::MacOs, None, None),
        "~/.config/arkd/config.toml"
    );
}

#[test]
fn the_windows_config_path_uses_backslashes() {
    assert_eq!(
        default_config_path(Platform::Windows, None, Some("C:\\Users\\me\\AppData\\Local")),
        "C:\\Users\\me\\AppData\\Local\\arkd\\config.toml"
    );
    assert_eq!(
        default_config_path(Platform::Windows, None, Some("C:\\Users\\me\\AppData\\Local\\")),
        "C:\\Users\\me\\AppData\\Local\\arkd\\config.toml"
    );
    assert_eq!(
        default_config_path(Platform::Windows, None, None),
        "%LOCALAPPDATA%\\arkd\\config.toml"
    );
}

#[test]
fn paths_are_expanded_against_home() {
    let mut config = Config::new_default(Platform::MacOs);
    config.maa.incremental = vec!["~/extra".to_string(), "/abs".to_string()];
    config.expand_paths(Platform::MacOs, Some("/Users/doc"), None);
    assert_eq!(config.maa.user_dir, "/Users/doc/.local/state/arkd");
    assert_eq!(config.maa.incremental, vec!["/Users/doc/extra".to_string(), "/abs".to_string()]);
    assert_eq!(config.server.token_file.as_deref(), Some("/Users/doc/.config/arkd/token"));
    assert_eq!(config.maa.core_dir, "/Applications/MAA.app/Contents/Frameworks");
}

#[test]
fn the_environment_overrides_each_path() {
    let mut config = Config::new_default(Platform::Other);
    config.apply_env(EnvOverrides {
        bind: None,
        token_file: Some("/t".to_string()),
        core_dir: Some("/core".to_string()),
        resource_dir: Some("/res".to_string()),
        user_dir: Some("/user".to_string()),
        job_dir: Some("/jobs".to_string()),
    });
    assert_eq!(config.server.bind, "127.0.0.1:7717");
    assert_eq!(config.server.token_file.as_deref(), Some("/t"));
    assert_eq!(config.maa.core_dir, "/core");
    assert_eq!(config.maa.resource_dir, "/res");
    assert_eq!(config.maa.user_dir, "/user");
    assert_eq!(config.job_dir.as_deref(), Some("/jobs"));
}

#[test]
fn device_defaults_match_the_docs() {
    let d = DeviceConfig::new_default();
    assert_eq!(d.address(), "127.0.0.1:1717");
    assert_eq!(d.adb_path(), "");
    assert_eq!(d.screenshot_size, (1280, 720));
    assert_eq!(d.pause_button_screenshot, (1210, 55));
    assert_eq!(f64::from_bits(d.hud_threshold_bits), 0.85);
    let config = Config::new_default(Platform::MacOs);
    assert_eq!(config.devices[0].device_size, Some((1920, 1080)));
    assert!(!config.server.require_token_on_loopback);
}
