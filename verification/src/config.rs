use vstd::prelude::*;
use vstd::string::*;

use crate::error::Error;
use crate::json::{field, fields_view, json_items, Json, JsonV};
use crate::paths::{expand_tilde, expand_tilde_spec};
use crate::text::{debug_str, debug_text, nat_text, push_str, str_eq, write_u64};

verus! {

broadcast use vstd::string::group_string_axioms;

/// The operating system the daemon runs on; several defaults depend on it.
#[derive(Clone, Copy, PartialEq, Eq, Structural)]
pub enum Platform {
    MacOs,
    Windows,
    Other,
}

/// The daemon's configuration. Paths are held as text.
pub struct Config {
    pub server: ServerConfig,
    pub maa: MaaConfig,
    pub devices: Vec<DeviceConfig>,
    pub job_dir: Option<String>,
}

/// Where the daemon listens and how it authenticates.
pub struct ServerConfig {
    /// The socket address, as `ip:port` text.
    pub bind: String,
    pub token_file: Option<String>,
    pub max_events: usize,
    /// Whether loopback peers must present the token too.
    pub require_token_on_loopback: bool,
}

/// Where MaaCore and its resources live.
pub struct MaaConfig {
    pub core_dir: String,
    pub resource_dir: String,
    pub user_dir: String,
    pub incremental: Vec<String>,
}

/// How a device is reached.
pub enum DeviceKind {
    Playtools { address: String },
    Adb { adb_path: String, address: String, touch_mode: String },
}

/// One configured device.
pub struct DeviceConfig {
    pub name: String,
    pub default: bool,
    pub kind: DeviceKind,
    pub connect_config: String,
    pub screenshot_size: (u32, u32),
    pub device_size: Option<(u32, u32)>,
    pub pause_button_screenshot: (u32, u32),
    pub client_type: String,
    pub hud_template: Option<String>,
    pub hud_roi: (u32, u32, u32, u32),
    /// The HUD match threshold, held as the bit pattern of its `f64`.
    pub hud_threshold_bits: u64,
}

/// The bits of the `f64` 0.85, the default HUD threshold.
pub const DEFAULT_HUD_THRESHOLD_BITS: u64 = 0x3FEB333333333333u64;

/// The address a device is reached at.
pub open spec fn kind_address(k: DeviceKind) -> Seq<char> {
    match k {
        DeviceKind::Playtools { address } => address@,
        DeviceKind::Adb { address, .. } => address@,
    }
}

/// The touch mode MaaCore is told to use for a device.
pub open spec fn kind_touch_mode(k: DeviceKind) -> Seq<char> {
    match k {
        DeviceKind::Playtools { .. } => "MacPlayTools"@,
        DeviceKind::Adb { touch_mode, .. } => touch_mode@,
    }
}

/// The adb executable of a device; empty for PlayTools devices.
pub open spec fn kind_adb_path(k: DeviceKind) -> Seq<char> {
    match k {
        DeviceKind::Playtools { .. } => Seq::empty(),
        DeviceKind::Adb { adb_path, .. } => adb_path@,
    }
}

impl DeviceKind {
    pub fn copy(&self) -> (r: DeviceKind)
        ensures
            kind_address(r) == kind_address(*self),
            kind_touch_mode(r) == kind_touch_mode(*self),
            kind_adb_path(r) == kind_adb_path(*self),
            (r is Playtools) == (*self is Playtools),
    {
        match self {
            DeviceKind::Playtools { address } => DeviceKind::Playtools { address: address.clone() },
            DeviceKind::Adb { adb_path, address, touch_mode } => DeviceKind::Adb {
                adb_path: adb_path.clone(),
                address: address.clone(),
                touch_mode: touch_mode.clone(),
            },
        }
    }
}

impl DeviceConfig {
    /// The device's touch mode: "MacPlayTools" for PlayTools, the configured one for adb.
    pub fn touch_mode(&self) -> (r: &str)
        ensures
            r@ == kind_touch_mode(self.kind),
    {
        match &self.kind {
            DeviceKind::Playtools { .. } => "MacPlayTools",
            DeviceKind::Adb { touch_mode, .. } => touch_mode.as_str(),
        }
    }

    /// The device's address.
    pub fn address(&self) -> (r: &str)
        ensures
            r@ == kind_address(self.kind),
    {
        match &self.kind {
            DeviceKind::Playtools { address } => address.as_str(),
            DeviceKind::Adb { address, .. } => address.as_str(),
        }
    }

    /// The device's adb path; empty for PlayTools devices.
    pub fn adb_path(&self) -> (r: &str)
        ensures
            r@ == kind_adb_path(self.kind),
    {
        proof {
            reveal_strlit("");
        }
        match &self.kind {
            DeviceKind::Playtools { .. } => "",
            DeviceKind::Adb { adb_path, .. } => adb_path.as_str(),
        }
    }

    /// A device with every field at its default: an unnamed PlayTools device at
    /// 127.0.0.1:1717 with the "General" profile and a 1280x720 screenshot space.
    pub fn new_default() -> (r: DeviceConfig)
        ensures
            r.name@ == Seq::<char>::empty(),
            !r.default,
            r.kind matches DeviceKind::Playtools { address } && address@ == "127.0.0.1:1717"@,
            r.connect_config@ == "General"@,
            r.screenshot_size == (1280u32, 720u32),
            r.device_size is None,
            r.pause_button_screenshot == (1210u32, 55u32),
            r.client_type@ == "Official"@,
            r.hud_template is None,
            r.hud_roi == (1180u32, 30u32, 60u32, 50u32),
            r.hud_threshold_bits == DEFAULT_HUD_THRESHOLD_BITS,
    {
        DeviceConfig {
            name: String::new(),
            default: false,
            kind: DeviceKind::Playtools { address: String::from_str("127.0.0.1:1717") },
            connect_config: String::from_str("General"),
            screenshot_size: (1280, 720),
            device_size: None,
            pause_button_screenshot: (1210, 55),
            client_type: String::from_str("Official"),
            hud_template: None,
            hud_roi: (1180, 30, 60, 50),
            hud_threshold_bits: DEFAULT_HUD_THRESHOLD_BITS,
        }
    }
}

impl ServerConfig {
    /// Listening on 127.0.0.1:7717, the token in ~/.config/arkd/token, 2000 events kept,
    /// loopback peers let in without the token.
    pub fn new_default() -> (r: ServerConfig)
        ensures
            r.bind@ == "127.0.0.1:7717"@,
            r.token_file matches Some(t) && t@ == "~/.config/arkd/token"@,
            r.max_events == 2000,
            !r.require_token_on_loopback,
    {
        ServerConfig {
            bind: String::from_str("127.0.0.1:7717"),
            token_file: Some(String::from_str("~/.config/arkd/token")),
            max_events: 2000,
            require_token_on_loopback: false,
        }
    }
}

impl MaaConfig {
    /// Where MAA lives by default: the MAA.app bundle on macOS, C:\MAA on Windows,
    /// nowhere elsewhere.
    pub fn new_default(platform: Platform) -> (r: MaaConfig)
        ensures
            r.incremental@.len() == 0,
            platform == Platform::MacOs ==> r.core_dir@
                == "/Applications/MAA.app/Contents/Frameworks"@ && r.resource_dir@
                == "/Applications/MAA.app/Contents/Resources"@ && r.user_dir@
                == "~/.local/state/arkd"@,
            platform == Platform::Windows ==> r.core_dir@ == "C:\\MAA"@ && r.resource_dir@
                == "C:\\MAA"@ && r.user_dir@ == "%LOCALAPPDATA%\\arkd"@,
            platform == Platform::Other ==> r.core_dir@.len() == 0 && r.resource_dir@.len() == 0
                && r.user_dir@.len() == 0,
    {
        match platform {
            Platform::MacOs => MaaConfig {
                core_dir: String::from_str("/Applications/MAA.app/Contents/Frameworks"),
                resource_dir: String::from_str("/Applications/MAA.app/Contents/Resources"),
                user_dir: String::from_str("~/.local/state/arkd"),
                incremental: Vec::new(),
            },
            Platform::Windows => MaaConfig {
                core_dir: String::from_str("C:\\MAA"),
                resource_dir: String::from_str("C:\\MAA"),
                user_dir: String::from_str("%LOCALAPPDATA%\\arkd"),
                incremental: Vec::new(),
            },
            Platform::Other => MaaConfig {
                core_dir: String::new(),
                resource_dir: String::new(),
                user_dir: String::new(),
                incremental: Vec::new(),
            },
        }
    }
}

impl Config {
    /// The configuration used when no file exists: default server and MAA settings,
    /// no job directory, and on macOS one default PlayCover device.
    pub fn new_default(platform: Platform) -> (r: Config)
        ensures
            r.server.bind@ == "127.0.0.1:7717"@,
            r.server.max_events == 2000,
            r.job_dir is None,
            r.maa.incremental@.len() == 0,
            platform == Platform::MacOs ==> r.maa.core_dir@
                == "/Applications/MAA.app/Contents/Frameworks"@,
            platform == Platform::MacOs ==> r.devices@.len() == 1 && r.devices@[0].name@
                == "playcover"@ && r.devices@[0].default && r.devices@[0].kind is Playtools
                && r.devices@[0].device_size == Some((1920u32, 1080u32))
                && r.devices@[0].connect_config@ == "General"@,
            platform != Platform::MacOs ==> r.devices@.len() == 0,
    {
        let mut devices: Vec<DeviceConfig> = Vec::new();
        if platform == Platform::MacOs {
            let mut d = DeviceConfig::new_default();
            d.name = String::from_str("playcover");
            d.default = true;
            d.device_size = Some((1920, 1080));
            devices.push(d);
        }
        Config {
            server: ServerConfig::new_default(),
            maa: MaaConfig::new_default(platform),
            devices,
            job_dir: None,
        }
    }
}

// ---------------------------------------------------------------------------
// Validation.

/// How many devices are marked default.
pub open spec fn default_count(devs: Seq<DeviceConfig>) -> nat
    decreases devs.len(),
{
    if devs.len() == 0 {
        0
    } else {
        default_count(devs.drop_last()) + if devs.last().default {
            1nat
        } else {
            0nat
        }
    }
}

/// What is wrong with device `i`, given the devices before it: an empty name, a name
/// already used, or an empty address.
pub open spec fn device_problem(devs: Seq<DeviceConfig>, i: int) -> Option<Seq<char>> {
    let name = devs[i].name@;
    if name.len() == 0 {
        Some("device name must not be empty"@)
    } else if exists|j: int| 0 <= j < i && (#[trigger] devs[j].name@) == name {
        Some("duplicate device name "@ + debug_text(name))
    } else if kind_address(devs[i].kind).len() == 0 {
        Some("device "@ + debug_text(name) + " has an empty address"@)
    } else {
        None
    }
}

/// The problem of the first of the first `n` devices that has one.
pub open spec fn first_device_problem(devs: Seq<DeviceConfig>, n: int) -> Option<Seq<char>>
    decreases n,
{
    if n <= 0 {
        None
    } else {
        match first_device_problem(devs, n - 1) {
            Some(p) => Some(p),
            None => device_problem(devs, n - 1),
        }
    }
}

/// Whether the device list has an acceptable number of defaults: exactly one, none
/// at all for an empty list, or none for a single device (which then becomes the
/// default).
pub open spec fn defaults_ok(devs: Seq<DeviceConfig>) -> bool {
    default_count(devs) == 1 || devs.len() == 0 || (devs.len() == 1 && default_count(devs) == 0)
}

/// The device list after validation fixed it up: a lone device becomes the default.
pub open spec fn devices_fixed(devs: Seq<DeviceConfig>) -> Seq<DeviceConfig> {
    if devs.len() == 1 && default_count(devs) == 0 {
        devs.update(0, DeviceConfig { default: true, ..devs[0] })
    } else {
        devs
    }
}

/// What validating a configuration answers: the first rule it breaks, or nothing.
pub open spec fn config_problem(max_events: usize, devs: Seq<DeviceConfig>) -> Option<Seq<char>> {
    if max_events < 1 {
        Some("server.max_events must be >= 1, got "@ + nat_text(max_events as nat))
    } else if !defaults_ok(devs) {
        Some("config must mark exactly one device as default, got "@ + nat_text(default_count(devs)))
    } else {
        first_device_problem(devices_fixed(devs), devs.len() as int)
    }
}

proof fn lemma_default_count_prefix(devs: Seq<DeviceConfig>, i: int)
    requires
        0 <= i < devs.len(),
    ensures
        default_count(devs.subrange(0, i + 1)) == default_count(devs.subrange(0, i)) + if devs[i].default {
            1nat
        } else {
            0nat
        },
{
    let p = devs.subrange(0, i + 1);
    assert(p.drop_last() =~= devs.subrange(0, i));
}

proof fn lemma_first_problem_stable(devs: Seq<DeviceConfig>, m: int, n: int)
    requires
        0 <= m <= n,
        first_device_problem(devs, m) is Some,
    ensures
        first_device_problem(devs, n) == first_device_problem(devs, m),
    decreases n - m,
{
    if n > m {
        lemma_first_problem_stable(devs, m, n - 1);
    }
}

proof fn lemma_device_problem_prefix_free(devs: Seq<DeviceConfig>, n: int, k: int)
    requires
        0 <= k < n <= devs.len(),
        first_device_problem(devs, n) is None,
    ensures
        device_problem(devs, k) is None,
    decreases n,
{
    if k < n - 1 {
        lemma_device_problem_prefix_free(devs, n - 1, k);
    }
}

impl Config {
    /// Checks the configuration and fixes up a lone device as the default; the error
    /// names the first rule broken (see `config_problem`).
    #[verifier::loop_isolation(false)]
    pub fn validate(&mut self) -> (r: Result<(), Error>)
        ensures
            final(self).server == old(self).server,
            final(self).maa == old(self).maa,
            final(self).job_dir == old(self).job_dir,
            old(self).server.max_events >= 1 && defaults_ok(old(self).devices@)
                ==> final(self).devices@ == devices_fixed(old(self).devices@),
            !(old(self).server.max_events >= 1 && defaults_ok(old(self).devices@))
                ==> final(self).devices@ == old(self).devices@,
            match config_problem(old(self).server.max_events, old(self).devices@) {
                None => r is Ok,
                Some(p) => r matches Err(Error::Config(m)) && m@ == p,
            },
    {
        if self.server.max_events < 1 {
            let mut m = String::from_str("server.max_events must be >= 1, got ");
            write_u64(&mut m, self.server.max_events as u64);
            return Err(Error::Config(m));
        }
        let ghost devs0 = self.devices@;
        let mut defaults: usize = 0;
        let mut i: usize = 0;
        while i < self.devices.len()
            invariant
                self.devices@ == devs0,
                i <= devs0.len(),
                defaults == default_count(devs0.subrange(0, i as int)),
                defaults <= i,
            decreases self.devices.len() - i,
        {
            proof {
                lemma_default_count_prefix(devs0, i as int);
            }
            if self.devices[i].default {
                defaults = defaults + 1;
            }
            i = i + 1;
        }
        proof {
            assert(devs0.subrange(0, devs0.len() as int) =~= devs0);
        }
        let n = self.devices.len();
        if n == 1 && defaults == 0 {
            let mut d = self.devices.remove(0);
            d.default = true;
            self.devices.insert(0, d);
            proof {
                assert(self.devices@ =~= devices_fixed(devs0));
            }
        } else if defaults == 1 || n == 0 {
        } else {
            let mut m = String::from_str("config must mark exactly one device as default, got ");
            write_u64(&mut m, defaults as u64);
            return Err(Error::Config(m));
        }
        let ghost devs = self.devices@;
        proof {
            assert(devs == devices_fixed(devs0));
        }
        let mut k: usize = 0;
        while k < self.devices.len()
            invariant
                self.devices@ == devs,
                devs.len() == devs0.len(),
                k <= devs.len(),
                first_device_problem(devs, k as int) is None,
            decreases self.devices.len() - k,
        {
            let name = self.devices[k].name.as_str();
            if name.unicode_len() == 0 {
                proof {
                    lemma_first_problem_stable(devs, k + 1, devs.len() as int);
                }
                return Err(Error::Config(String::from_str("device name must not be empty")));
            }
            let mut j: usize = 0;
            while j < k
                invariant
                    self.devices@ == devs,
                    k < devs.len(),
                    j <= k,
                    name@ == devs[k as int].name@,
                    forall|jj: int| 0 <= jj < j ==> (#[trigger] devs[jj].name@) != name@,
                decreases k - j,
            {
                if str_eq(self.devices[j].name.as_str(), name) {
                    let mut m = String::from_str("duplicate device name ");
                    let q = debug_str(name);
                    m.append(q.as_str());
                    proof {
                        assert(devs[j as int].name@ == devs[k as int].name@);
                        assert(device_problem(devs, k as int) == Some(
                            "duplicate device name "@ + debug_text(name@),
                        ));
                        lemma_first_problem_stable(devs, k + 1, devs.len() as int);
                    }
                    return Err(Error::Config(m));
                }
                j = j + 1;
            }
            let address = self.devices[k].address();
            if address.unicode_len() == 0 {
                let mut m = String::from_str("device ");
                let q = debug_str(name);
                m.append(q.as_str());
                push_str(&mut m, " has an empty address");
                proof {
                    lemma_first_problem_stable(devs, k + 1, devs.len() as int);
                }
                return Err(Error::Config(m));
            }
            k = k + 1;
        }
        Ok(())
    }
}

/// After a successful validation, a non-empty device list has exactly one default,
/// every device has a non-empty name and address, and no two devices share a name.
pub proof fn validated_devices_are_consistent(max_events: usize, devs: Seq<DeviceConfig>)
    requires
        config_problem(max_events, devs) is None,
    ensures
        ({
            let fixed = devices_fixed(devs);
            &&& fixed.len() > 0 ==> default_count(fixed) == 1
            &&& forall|i: int| 0 <= i < fixed.len() ==> (#[trigger] fixed[i]).name@.len() > 0
            &&& forall|i: int|
                0 <= i < fixed.len() ==> kind_address((#[trigger] fixed[i]).kind).len() > 0
            &&& forall|i: int, j: int|
                0 <= i < j < fixed.len() ==> (#[trigger] fixed[i]).name@ != (#[trigger] fixed[j]).name@
        }),
{
    let fixed = devices_fixed(devs);
    assert forall|i: int| 0 <= i < fixed.len() implies device_problem(fixed, i) is None by {
        lemma_device_problem_prefix_free(fixed, fixed.len() as int, i);
    }
    assert forall|i: int, j: int| 0 <= i < j < fixed.len() implies (#[trigger] fixed[i]).name@ != (
    #[trigger] fixed[j]).name@ by {
        assert(device_problem(fixed, j) is None);
        if fixed[i].name@ == fixed[j].name@ {
            assert(fixed[j].name@.len() > 0) by {
                assert(device_problem(fixed, j) is None);
            }
            assert(exists|jj: int| 0 <= jj < j && (#[trigger] fixed[jj].name@) == fixed[j].name@);
        }
    }
    assert forall|i: int| 0 <= i < fixed.len() implies (#[trigger] fixed[i]).name@.len() > 0 by {
        assert(device_problem(fixed, i) is None);
    }
    assert forall|i: int| 0 <= i < fixed.len() implies kind_address((#[trigger] fixed[i]).kind).len()
        > 0 by {
        assert(device_problem(fixed, i) is None);
    }
    if devs.len() == 1 && default_count(devs) == 0 {
        assert(fixed.drop_last() =~= Seq::<DeviceConfig>::empty());
        assert(default_count(Seq::<DeviceConfig>::empty()) == 0);
        assert(fixed.last().default);
        assert(default_count(fixed) == 1);
    }
}

proof fn lemma_no_device_problem(devs: Seq<DeviceConfig>, n: int)
    requires
        0 <= n <= devs.len(),
        forall|i: int| 0 <= i < devs.len() ==> (#[trigger] devs[i]).name@.len() > 0,
        forall|i: int| 0 <= i < devs.len() ==> kind_address((#[trigger] devs[i]).kind).len() > 0,
        forall|i: int, j: int|
            0 <= i < j < devs.len() ==> (#[trigger] devs[i]).name@ != (#[trigger] devs[j]).name@,
    ensures
        first_device_problem(devs, n) is None,
    decreases n,
{
    if n > 0 {
        lemma_no_device_problem(devs, n - 1);
        let k = n - 1;
        assert(!exists|j: int| 0 <= j < k && (#[trigger] devs[j].name@) == devs[k].name@);
        assert(device_problem(devs, k) is None);
    }
}

/// A configuration validates exactly when the event log keeps at least one event, the
/// defaults are acceptable, and the devices (a lone one made the default) have
/// non-empty names and addresses with no name used twice.
pub proof fn configs_validate_exactly_when_consistent(max_events: usize, devs: Seq<DeviceConfig>)
    ensures
        config_problem(max_events, devs) is None <==> ({
            let fixed = devices_fixed(devs);
            &&& max_events >= 1
            &&& defaults_ok(devs)
            &&& forall|i: int| 0 <= i < fixed.len() ==> (#[trigger] fixed[i]).name@.len() > 0
            &&& forall|i: int|
                0 <= i < fixed.len() ==> kind_address((#[trigger] fixed[i]).kind).len() > 0
            &&& forall|i: int, j: int|
                0 <= i < j < fixed.len() ==> (#[trigger] fixed[i]).name@ != (#[trigger] fixed[j]).name@
        }),
{
    let fixed = devices_fixed(devs);
    if config_problem(max_events, devs) is None {
        validated_devices_are_consistent(max_events, devs);
    }
    if max_events >= 1 && defaults_ok(devs) && (forall|i: int| 0 <= i < fixed.len() ==> (
    #[trigger] fixed[i]).name@.len() > 0) && (forall|i: int|
        0 <= i < fixed.len() ==> kind_address((#[trigger] fixed[i]).kind).len() > 0) && (forall|
        i: int,
        j: int,
    | 0 <= i < j < fixed.len() ==> (#[trigger] fixed[i]).name@ != (#[trigger] fixed[j]).name@) {
        assert(fixed.len() == devs.len());
        lemma_no_device_problem(fixed, devs.len() as int);
    }
}

// ---------------------------------------------------------------------------
// Paths, the environment and the summary.

/// Where the configuration file is looked for by default: under the home directory on
/// macOS, under the local application data directory on Windows, and `config.toml`
/// in the working directory elsewhere.
pub fn default_config_path(platform: Platform, home: Option<&str>, local_app_data: Option<&str>) -> (r: String)
    ensures
        r@ == match platform {
            Platform::MacOs => expand_tilde_spec(
                platform,
                "~/.config/arkd/config.toml"@,
                match home {
                    Some(h) => Some(h@),
                    None => None,
                },
                match local_app_data {
                    Some(d) => Some(d@),
                    None => None,
                },
            ),
            Platform::Windows => expand_tilde_spec(
                platform,
                "%LOCALAPPDATA%\\arkd\\config.toml"@,
                match home {
                    Some(h) => Some(h@),
                    None => None,
                },
                match local_app_data {
                    Some(d) => Some(d@),
                    None => None,
                },
            ),
            Platform::Other => "config.toml"@,
        },
{
    match platform {
        Platform::MacOs => expand_tilde(platform, "~/.config/arkd/config.toml", home, local_app_data),
        Platform::Windows => expand_tilde(platform, "%LOCALAPPDATA%\\arkd\\config.toml", home, local_app_data),
        Platform::Other => String::from_str("config.toml"),
    }
}

/// The settings the environment can override; each is taken when present. `bind` is
/// given only when it parses as a socket address.
pub struct EnvOverrides {
    pub bind: Option<String>,
    pub token_file: Option<String>,
    pub core_dir: Option<String>,
    pub resource_dir: Option<String>,
    pub user_dir: Option<String>,
    pub job_dir: Option<String>,
}

/// `Some(x)` keeps `x`, `None` keeps `old`.
pub open spec fn overridden(old: Seq<char>, v: Option<String>) -> Seq<char> {
    match v {
        Some(x) => x@,
        None => old,
    }
}

/// The home and local application data directories, when known.
pub open spec fn opt_view(v: Option<&str>) -> Option<Seq<char>> {
    match v {
        Some(s) => Some(s@),
        None => None,
    }
}

/// An optional path expanded, when present.
pub open spec fn expand_opt(
    platform: Platform,
    p: Option<String>,
    home: Option<Seq<char>>,
    lad: Option<Seq<char>>,
) -> Option<Seq<char>> {
    match p {
        Some(x) => Some(expand_tilde_spec(platform, x@, home, lad)),
        None => None,
    }
}

fn expand_opt_exec(platform: Platform, p: &Option<String>, home: Option<&str>, lad: Option<&str>) -> (r: Option<String>)
    ensures
        match r {
            Some(x) => expand_opt(platform, *p, opt_view(home), opt_view(lad)) == Some(x@),
            None => p is None,
        },
{
    match p {
        Some(x) => Some(expand_tilde(platform, x.as_str(), home, lad)),
        None => None,
    }
}

impl Config {
    /// Applies the environment's overrides.
    pub fn apply_env(&mut self, env: EnvOverrides)
        ensures
            final(self).server.bind@ == overridden(old(self).server.bind@, env.bind),
            final(self).server.max_events == old(self).server.max_events,
            match env.token_file {
                Some(t) => final(self).server.token_file matches Some(x) && x@ == t@,
                None => final(self).server.token_file == old(self).server.token_file,
            },
            final(self).maa.core_dir@ == overridden(old(self).maa.core_dir@, env.core_dir),
            final(self).maa.resource_dir@ == overridden(
                old(self).maa.resource_dir@,
                env.resource_dir,
            ),
            final(self).maa.user_dir@ == overridden(old(self).maa.user_dir@, env.user_dir),
            final(self).maa.incremental == old(self).maa.incremental,
            match env.job_dir {
                Some(j) => final(self).job_dir matches Some(x) && x@ == j@,
                None => final(self).job_dir == old(self).job_dir,
            },
            final(self).devices == old(self).devices,
    {
        let EnvOverrides { bind, token_file, core_dir, resource_dir, user_dir, job_dir } = env;
        if let Some(b) = bind {
            self.server.bind = b;
        }
        if let Some(t) = token_file {
            self.server.token_file = Some(t);
        }
        if let Some(c) = core_dir {
            self.maa.core_dir = c;
        }
        if let Some(r) = resource_dir {
            self.maa.resource_dir = r;
        }
        if let Some(u) = user_dir {
            self.maa.user_dir = u;
        }
        if let Some(j) = job_dir {
            self.job_dir = Some(j);
        }
    }

    /// Expands `~` and `%LOCALAPPDATA%` in every configured path.
    #[verifier::loop_isolation(false)]
    pub fn expand_paths(&mut self, platform: Platform, home: Option<&str>, local_app_data: Option<&str>)
        ensures
            final(self).server.bind == old(self).server.bind,
            final(self).server.max_events == old(self).server.max_events,
            ({
                let h = opt_view(home);
                let l = opt_view(local_app_data);
                &&& final(self).maa.core_dir@ == expand_tilde_spec(platform, old(self).maa.core_dir@, h, l)
                &&& final(self).maa.resource_dir@ == expand_tilde_spec(
                    platform,
                    old(self).maa.resource_dir@,
                    h,
                    l,
                )
                &&& final(self).maa.user_dir@ == expand_tilde_spec(platform, old(self).maa.user_dir@, h, l)
                &&& final(self).maa.incremental@.len() == old(self).maa.incremental@.len()
                &&& forall|i: int|
                    0 <= i < old(self).maa.incremental@.len() ==> (
                    #[trigger] final(self).maa.incremental@[i])@ == expand_tilde_spec(
                        platform,
                        old(self).maa.incremental@[i]@,
                        h,
                        l,
                    )
                &&& expand_opt(platform, old(self).server.token_file, h, l) == match final(self).server.token_file {
                    Some(x) => Some(x@),
                    None => None,
                }
                &&& expand_opt(platform, old(self).job_dir, h, l) == match final(self).job_dir {
                    Some(x) => Some(x@),
                    None => None,
                }
                &&& final(self).devices@.len() == old(self).devices@.len()
                &&& forall|i: int|
                    0 <= i < old(self).devices@.len() ==> {
                        let a = #[trigger] final(self).devices@[i];
                        let b = old(self).devices@[i];
                        &&& a.name == b.name
                        &&& a.default == b.default
                        &&& a.kind == b.kind
                        &&& expand_opt(platform, b.hud_template, h, l) == match a.hud_template {
                            Some(x) => Some(x@),
                            None => None,
                        }
                    }
            }),
    {
        let c = expand_tilde(platform, self.maa.core_dir.as_str(), home, local_app_data);
        self.maa.core_dir = c;
        let r = expand_tilde(platform, self.maa.resource_dir.as_str(), home, local_app_data);
        self.maa.resource_dir = r;
        let u = expand_tilde(platform, self.maa.user_dir.as_str(), home, local_app_data);
        self.maa.user_dir = u;
        let mut inc: Vec<String> = Vec::new();
        let mut i: usize = 0;
        while i < self.maa.incremental.len()
            invariant
                i <= self.maa.incremental@.len(),
                inc@.len() == i,
                forall|k: int|
                    0 <= k < i ==> (#[trigger] inc@[k])@ == expand_tilde_spec(
                        platform,
                        self.maa.incremental@[k]@,
                        opt_view(home),
                        opt_view(local_app_data),
                    ),
            decreases self.maa.incremental.len() - i,
        {
            inc.push(expand_tilde(platform, self.maa.incremental[i].as_str(), home, local_app_data));
            i = i + 1;
        }
        self.maa.incremental = inc;
        let t = expand_opt_exec(platform, &self.server.token_file, home, local_app_data);
        self.server.token_file = t;
        let j = expand_opt_exec(platform, &self.job_dir, home, local_app_data);
        self.job_dir = j;
        let ghost devs0 = self.devices@;
        let ghost before = *self;
        let mut k: usize = 0;
        while k < self.devices.len()
            invariant
                self.server == before.server,
                self.maa == before.maa,
                self.job_dir == before.job_dir,
                k <= self.devices@.len(),
                self.devices@.len() == devs0.len(),
                forall|m: int|
                    k <= m < devs0.len() ==> #[trigger] self.devices@[m] == devs0[m],
                forall|m: int|
                    0 <= m < k ==> {
                        let a = #[trigger] self.devices@[m];
                        let b = devs0[m];
                        &&& a.name == b.name
                        &&& a.default == b.default
                        &&& a.kind == b.kind
                        &&& expand_opt(platform, b.hud_template, opt_view(home), opt_view(local_app_data))
                            == match a.hud_template {
                            Some(x) => Some(x@),
                            None => None,
                        }
                    },
            decreases self.devices.len() - k,
        {
            let mut d = self.devices.remove(k);
            let ht = expand_opt_exec(platform, &d.hud_template, home, local_app_data);
            d.hud_template = ht;
            self.devices.insert(k, d);
            proof {
                assert forall|m: int| k + 1 <= m < devs0.len() implies #[trigger] self.devices@[m]
                    == devs0[m] by {}
            }
            k = k + 1;
        }
    }
}

/// A pair of sizes as a JSON array.
pub open spec fn pair_json(p: (u32, u32)) -> JsonV {
    JsonV::Array(seq![JsonV::Int(p.0 as int), JsonV::Int(p.1 as int)])
}

fn pair_exec(p: (u32, u32)) -> (r: Json)
    ensures
        r@ == pair_json(p),
{
    let mut v: Vec<Json> = Vec::new();
    v.push(Json::Int(p.0 as i64));
    v.push(Json::Int(p.1 as i64));
    let r = Json::array(v);
    proof {
        assert(json_items(v@) =~= seq![JsonV::Int(p.0 as int), JsonV::Int(p.1 as int)]);
    }
    r
}

/// An optional path as JSON: its text, or null.
pub open spec fn opt_text_json(p: Option<String>) -> JsonV {
    match p {
        Some(x) => JsonV::Str(x@),
        None => JsonV::Null,
    }
}

/// A device's summary in the configuration report.
pub open spec fn device_json(d: DeviceConfig) -> JsonV {
    JsonV::Object(
        seq![
            ("name"@, JsonV::Str(d.name@)),
            ("default"@, JsonV::Bool(d.default)),
            ("address"@, JsonV::Str(kind_address(d.kind))),
            ("connect_config"@, JsonV::Str(d.connect_config@)),
            ("touch_mode"@, JsonV::Str(kind_touch_mode(d.kind))),
            ("client_type"@, JsonV::Str(d.client_type@)),
            ("screenshot_size"@, pair_json(d.screenshot_size)),
            ("device_size"@, match d.device_size {
                Some(p) => pair_json(p),
                None => JsonV::Null,
            }),
            ("pause_button_screenshot"@, pair_json(d.pause_button_screenshot)),
        ],
    )
}

/// The configuration report: server, MAA paths, job directory and devices.
pub open spec fn config_json(c: Config) -> JsonV {
    JsonV::Object(
        seq![
            ("server"@, JsonV::Object(
                seq![
                    ("bind"@, JsonV::Str(c.server.bind@)),
                    ("token_file"@, opt_text_json(c.server.token_file)),
                    ("max_events"@, JsonV::Int(c.server.max_events as int)),
                ],
            )),
            ("maa"@, JsonV::Object(
                seq![
                    ("core_dir"@, JsonV::Str(c.maa.core_dir@)),
                    ("resource_dir"@, JsonV::Str(c.maa.resource_dir@)),
                    ("user_dir"@, JsonV::Str(c.maa.user_dir@)),
                    ("incremental"@, JsonV::Array(
                        Seq::new(c.maa.incremental@.len(), |i: int| JsonV::Str(c.maa.incremental@[i]@)),
                    )),
                ],
            )),
            ("job_dir"@, opt_text_json(c.job_dir)),
            ("devices"@, JsonV::Array(
                Seq::new(c.devices@.len(), |i: int| device_json(c.devices@[i])),
            )),
        ],
    )
}

fn opt_text_exec(p: &Option<String>) -> (r: Json)
    ensures
        r@ == opt_text_json(*p),
{
    match p {
        Some(x) => Json::Str(x.clone()),
        None => Json::Null,
    }
}

impl DeviceConfig {
    /// The device's summary; see `device_json`.
    pub fn describe(&self) -> (r: Json)
        ensures
            r@ == device_json(*self),
    {
        let mut f: Vec<(String, Json)> = Vec::new();
        f.push(field("name", Json::Str(self.name.clone())));
        f.push(field("default", Json::Bool(self.default)));
        f.push(field("address", Json::new_str(self.address())));
        f.push(field("connect_config", Json::Str(self.connect_config.clone())));
        f.push(field("touch_mode", Json::new_str(self.touch_mode())));
        f.push(field("client_type", Json::Str(self.client_type.clone())));
        f.push(field("screenshot_size", pair_exec(self.screenshot_size)));
        let ds = match self.device_size {
            Some(p) => pair_exec(p),
            None => Json::Null,
        };
        f.push(field("device_size", ds));
        f.push(field("pause_button_screenshot", pair_exec(self.pause_button_screenshot)));
        let r = Json::object(f);
        proof {
            assert(fields_view(f@) =~= match device_json(*self) {
                JsonV::Object(x) => x,
                _ => Seq::empty(),
            });
        }
        r
    }
}

impl Config {
    /// The configuration report; see `config_json`.
    pub fn describe(&self) -> (r: Json)
        ensures
            r@ == config_json(*self),
    {
        let mut sf: Vec<(String, Json)> = Vec::new();
        sf.push(field("bind", Json::Str(self.server.bind.clone())));
        sf.push(field("token_file", opt_text_exec(&self.server.token_file)));
        sf.push(field("max_events", Json::UInt(self.server.max_events as u64)));
        let server = Json::object(sf);
        proof {
            assert(fields_view(sf@) =~= seq![
                ("bind"@, JsonV::Str(self.server.bind@)),
                ("token_file"@, opt_text_json(self.server.token_file)),
                ("max_events"@, JsonV::Int(self.server.max_events as int)),
            ]);
        }
        let mut inc: Vec<Json> = Vec::new();
        let mut i: usize = 0;
        while i < self.maa.incremental.len()
            invariant
                i <= self.maa.incremental@.len(),
                inc@.len() == i,
                forall|k: int| 0 <= k < i ==> (#[trigger] inc@[k])@ == JsonV::Str(self.maa.incremental@[k]@),
            decreases self.maa.incremental.len() - i,
        {
            inc.push(Json::Str(self.maa.incremental[i].clone()));
            i = i + 1;
        }
        let mut mf: Vec<(String, Json)> = Vec::new();
        mf.push(field("core_dir", Json::Str(self.maa.core_dir.clone())));
        mf.push(field("resource_dir", Json::Str(self.maa.resource_dir.clone())));
        mf.push(field("user_dir", Json::Str(self.maa.user_dir.clone())));
        let ghost incv = inc@;
        mf.push(field("incremental", Json::array(inc)));
        let maa = Json::object(mf);
        proof {
            assert(json_items(incv) =~= Seq::new(
                self.maa.incremental@.len(),
                |i: int| JsonV::Str(self.maa.incremental@[i]@),
            ));
            assert(fields_view(mf@) =~= seq![
                ("core_dir"@, JsonV::Str(self.maa.core_dir@)),
                ("resource_dir"@, JsonV::Str(self.maa.resource_dir@)),
                ("user_dir"@, JsonV::Str(self.maa.user_dir@)),
                ("incremental"@, JsonV::Array(
                    Seq::new(self.maa.incremental@.len(), |i: int| JsonV::Str(self.maa.incremental@[i]@)),
                )),
            ]);
        }
        let mut devs: Vec<Json> = Vec::new();
        let mut k: usize = 0;
        while k < self.devices.len()
            invariant
                k <= self.devices@.len(),
                devs@.len() == k,
                forall|m: int| 0 <= m < k ==> (#[trigger] devs@[m])@ == device_json(self.devices@[m]),
            decreases self.devices.len() - k,
        {
            devs.push(self.devices[k].describe());
            k = k + 1;
        }
        let ghost devsv = devs@;
        let mut top: Vec<(String, Json)> = Vec::new();
        top.push(field("server", server));
        top.push(field("maa", maa));
        top.push(field("job_dir", opt_text_exec(&self.job_dir)));
        top.push(field("devices", Json::array(devs)));
        let r = Json::object(top);
        proof {
            assert(json_items(incv) =~= Seq::new(
                self.maa.incremental@.len(),
                |i: int| JsonV::Str(self.maa.incremental@[i]@),
            ));
            assert(json_items(devsv) =~= Seq::new(
                self.devices@.len(),
                |i: int| device_json(self.devices@[i]),
            ));
            assert(fields_view(sf@) =~= seq![
                ("bind"@, JsonV::Str(self.server.bind@)),
                ("token_file"@, opt_text_json(self.server.token_file)),
                ("max_events"@, JsonV::Int(self.server.max_events as int)),
            ]);
            assert(fields_view(top@) =~= match config_json(*self) {
                JsonV::Object(x) => x,
                _ => Seq::empty(),
            });
        }
        r
    }
}

} // verus!
