use vstd::prelude::*;
use vstd::string::*;

use crate::config::{kind_address, DeviceConfig, DeviceKind};
use crate::error::Error;
use crate::json::{field, fields_view, Json, JsonV};
use crate::screen::Geometry;
use crate::text::{debug_str, debug_text, join_strings, join_text, push_str, str_eq, strings_view};

verus! {

broadcast use vstd::string::group_string_axioms;

/// What the device list shows of one device.
pub struct DeviceSummary {
    pub name: String,
    pub kind: String,
    pub address: String,
    pub default: bool,
    pub connected: bool,
    pub busy: bool,
}

/// The name of a device's kind: "playtools" or "adb".
pub open spec fn kind_name(k: DeviceKind) -> Seq<char> {
    match k {
        DeviceKind::Playtools { .. } => "playtools"@,
        DeviceKind::Adb { .. } => "adb"@,
    }
}

/// The summary of a configured device in its live state.
pub fn summarize(config: &DeviceConfig, connected: bool, busy: bool) -> (r: DeviceSummary)
    ensures
        r.name@ == config.name@,
        r.kind@ == kind_name(config.kind),
        r.address@ == kind_address(config.kind),
        r.default == config.default,
        r.connected == connected,
        r.busy == busy,
{
    let kind = match &config.kind {
        DeviceKind::Playtools { .. } => String::from_str("playtools"),
        DeviceKind::Adb { .. } => String::from_str("adb"),
    };
    DeviceSummary {
        name: config.name.clone(),
        kind,
        address: String::from_str(config.address()),
        default: config.default,
        connected,
        busy,
    }
}

/// The names of the configured devices.
pub open spec fn device_names(devs: Seq<DeviceConfig>) -> Seq<Seq<char>> {
    Seq::new(devs.len(), |i: int| devs[i].name@)
}

/// The message for a device name nobody configured.
pub open spec fn unknown_device_text(name: Seq<char>, devs: Seq<DeviceConfig>) -> Seq<char> {
    "unknown device "@ + debug_text(name) + "; known devices: "@ + join_text(
        device_names(devs),
        ", "@,
    )
}

/// Picks the device a request means: the one named, or without a name the default
/// device (the first one when none is marked). The index is into `devs`.
#[verifier::loop_isolation(false)]
pub fn select_device(devs: &Vec<DeviceConfig>, name: Option<&str>) -> (r: Result<usize, Error>)
    ensures
        match name {
            Some(n) => match r {
                Ok(i) => i < devs@.len() && devs@[i as int].name@ == n@ && forall|j: int|
                    0 <= j < i ==> devs@[j].name@ != n@,
                Err(e) => (forall|j: int| 0 <= j < devs@.len() ==> devs@[j].name@ != n@) && (e matches Error::Config(
                    m,
                ) && m@ == unknown_device_text(n@, devs@)),
            },
            None => match r {
                Ok(i) => i < devs@.len() && (devs@[i as int].default && forall|j: int|
                    0 <= j < i ==> !devs@[j].default) || (i == 0 && forall|j: int|
                    0 <= j < devs@.len() ==> !devs@[j].default),
                Err(e) => devs@.len() == 0 && (e matches Error::Config(m) && m@
                    == "no devices configured"@),
            },
        },
{
    match name {
        Some(n) => {
            let mut i: usize = 0;
            while i < devs.len()
                invariant
                    i <= devs@.len(),
                    forall|j: int| 0 <= j < i ==> devs@[j].name@ != n@,
                decreases devs.len() - i,
            {
                if str_eq(devs[i].name.as_str(), n) {
                    return Ok(i);
                }
                i = i + 1;
            }
            let mut names: Vec<String> = Vec::new();
            let mut k: usize = 0;
            while k < devs.len()
                invariant
                    k <= devs@.len(),
                    names@.len() == k,
                    forall|j: int| 0 <= j < k ==> (#[trigger] names@[j])@ == devs@[j].name@,
                decreases devs.len() - k,
            {
                names.push(devs[k].name.clone());
                k = k + 1;
            }
            proof {
                assert(strings_view(names@) =~= device_names(devs@));
            }
            let known = join_strings(&names, ", ");
            let mut m = String::from_str("unknown device ");
            let q = debug_str(n);
            m.append(q.as_str());
            push_str(&mut m, "; known devices: ");
            m.append(known.as_str());
            Err(Error::Config(m))
        },
        None => {
            let mut i: usize = 0;
            while i < devs.len()
                invariant
                    i <= devs@.len(),
                    forall|j: int| 0 <= j < i ==> !devs@[j].default,
                decreases devs.len() - i,
            {
                if devs[i].default {
                    return Ok(i);
                }
                i = i + 1;
            }
            if devs.len() > 0 {
                Ok(0)
            } else {
                Err(Error::Config(String::from_str("no devices configured")))
            }
        },
    }
}

/// The geometry of a device: its configured size, else the size a PlayTools client
/// reported, else the screenshot size itself.
pub fn geometry_for(config: &DeviceConfig, playtools_size: Option<(u16, u16)>) -> (r: Geometry)
    ensures
        r.screenshot == config.screenshot_size,
        r.device == match config.device_size {
            Some(d) => d,
            None => match playtools_size {
                Some((w, h)) => (w as u32, h as u32),
                None => config.screenshot_size,
            },
        },
{
    let screenshot = config.screenshot_size;
    match config.device_size {
        Some(device) => Geometry { device, screenshot },
        None => match playtools_size {
            Some((w, h)) => Geometry { device: (w as u32, h as u32), screenshot },
            None => Geometry { device: screenshot, screenshot },
        },
    }
}

/// The error for a PlayTools request to a device of another kind.
pub fn not_playtools(name: &str) -> (r: Error)
    ensures
        r matches Error::PlayTools(m) && m@ == "device "@ + name@ + " is not a PlayTools device"@,
{
    let mut m = String::from_str("device ");
    push_str(&mut m, name);
    push_str(&mut m, " is not a PlayTools device");
    Error::PlayTools(m)
}

/// The error for a HUD template that could not be loaded.
pub fn hud_unavailable(cause: &str) -> (r: Error)
    ensures
        r matches Error::Image(m) && m@ == "HUD template unavailable: "@ + cause@,
{
    let mut m = String::from_str("HUD template unavailable: ");
    push_str(&mut m, cause);
    Error::Image(m)
}

/// The answer when a connected session has no record of its connection.
pub fn no_connection_record() -> (r: Error)
    ensures
        r matches Error::NotConnected(m) && m@ == "no connection record"@,
{
    Error::NotConnected(String::from_str("no connection record"))
}

/// An entry of the device list.
pub open spec fn device_entry_json(s: DeviceSummary, device_size: Option<(u32, u32)>, screenshot_size: (u32, u32)) -> JsonV {
    JsonV::Object(
        seq![
            ("name"@, JsonV::Str(s.name@)),
            ("kind"@, JsonV::Str(s.kind@)),
            ("address"@, JsonV::Str(s.address@)),
            ("default"@, JsonV::Bool(s.default)),
            ("connected"@, JsonV::Bool(s.connected)),
            ("busy"@, JsonV::Bool(s.busy)),
            ("device_size"@, match device_size {
                Some(p) => crate::config::pair_json(p),
                None => JsonV::Null,
            }),
            ("screenshot_size"@, crate::config::pair_json(screenshot_size)),
        ],
    )
}

fn pair_value(p: (u32, u32)) -> (r: Json)
    ensures
        r@ == crate::config::pair_json(p),
{
    let mut v: Vec<Json> = Vec::new();
    v.push(Json::Int(p.0 as i64));
    v.push(Json::Int(p.1 as i64));
    let r = Json::array(v);
    proof {
        assert(crate::json::json_items(v@) =~= seq![JsonV::Int(p.0 as int), JsonV::Int(p.1 as int)]);
    }
    r
}

/// An entry of the device list; see `device_entry_json`.
pub fn device_entry(s: &DeviceSummary, device_size: Option<(u32, u32)>, screenshot_size: (u32, u32)) -> (r: Json)
    ensures
        r@ == device_entry_json(*s, device_size, screenshot_size),
{
    let mut f: Vec<(String, Json)> = Vec::new();
    f.push(field("name", Json::Str(s.name.clone())));
    f.push(field("kind", Json::Str(s.kind.clone())));
    f.push(field("address", Json::Str(s.address.clone())));
    f.push(field("default", Json::Bool(s.default)));
    f.push(field("connected", Json::Bool(s.connected)));
    f.push(field("busy", Json::Bool(s.busy)));
    let ds = match device_size {
        Some(p) => pair_value(p),
        None => Json::Null,
    };
    f.push(field("device_size", ds));
    f.push(field("screenshot_size", pair_value(screenshot_size)));
    let r = Json::object(f);
    proof {
        assert(fields_view(f@) =~= match device_entry_json(*s, device_size, screenshot_size) {
            JsonV::Object(x) => x,
            _ => Seq::empty(),
        });
    }
    r
}

} // verus!
