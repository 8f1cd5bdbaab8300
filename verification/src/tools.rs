use vstd::prelude::*;
use vstd::string::*;

use crate::catalog::{Catalog, TaskSpec, TaskSummary};
use crate::config::Platform;
use crate::error::Error;
use crate::json::{field, fields_view, json_get, json_items, Json, JsonV};
use crate::playtools::TouchPhase;
use crate::screen::{parse_coord_space, CoordSpace};
use crate::text::{
    debug_str, debug_text, int_text, nat_text, push_str, str_eq, strings_view, write_i64,
    write_u64,
};

verus! {

broadcast use vstd::string::group_string_axioms;

// ---------------------------------------------------------------------------
// Errors as the MCP tools report them.

/// Whether a tool error blames the caller's parameters or the server.
#[derive(Clone, Copy, PartialEq, Eq, Structural)]
pub enum ToolErrorKind {
    InvalidParams,
    Internal,
    /// A resource that does not exist was asked for.
    NotFound,
}

/// A tool's error: its kind and message.
pub struct ToolError {
    pub kind: ToolErrorKind,
    pub message: String,
}

/// A caller's mistake with this message.
pub fn invalid_params(message: String) -> (r: ToolError)
    ensures
        r.kind == ToolErrorKind::InvalidParams,
        r.message@ == message@,
{
    ToolError { kind: ToolErrorKind::InvalidParams, message }
}

/// The tool error for a library error: validation, unknown task types and
/// configuration problems are the caller's; everything else is internal. The message
/// is the error's own.
pub fn tool_error(e: Error) -> (r: ToolError)
    ensures
        r.kind == if e is Validation || e is UnknownTaskType || e is Config {
            ToolErrorKind::InvalidParams
        } else {
            ToolErrorKind::Internal
        },
        r.message@ == e.text(),
{
    let invalid = match &e {
        Error::Validation(_) => true,
        Error::UnknownTaskType(_) => true,
        Error::Config(_) => true,
        _ => false,
    };
    let message = e.message();
    ToolError {
        kind: if invalid {
            ToolErrorKind::InvalidParams
        } else {
            ToolErrorKind::Internal
        },
        message,
    }
}

// ---------------------------------------------------------------------------
// Parameters and their defaults.

/// The device a request names, if any.
pub struct DeviceParam {
    pub device: Option<String>,
}

/// A connect request.
pub struct ConnectParams {
    pub device: Option<String>,
    pub reconnect: bool,
}

/// A request for one task type's schema.
pub struct TaskSchemaParams {
    pub task_type: String,
}

/// A page request for the event history.
pub struct EventsParams {
    pub device: Option<String>,
    pub after_seq: u64,
    pub limit: u32,
    pub significant_only: bool,
    pub include_payload: bool,
}

/// A request to queue the daily routine.
pub struct DailyParams {
    pub device: Option<String>,
    pub stage: String,
    pub client_type: Option<String>,
    pub medicine: u32,
    pub start_game: bool,
    pub close_when_done: bool,
    pub included: Option<Vec<String>>,
}

/// A request to set the stage for manual battle control.
pub struct BattleStageParams {
    pub device: Option<String>,
    pub stage: String,
}

/// A request for one battle action.
pub struct BattleActionParams {
    pub device: Option<String>,
    pub action: String,
    pub name: Option<String>,
    pub location: Option<[i32; 2]>,
    pub direction: Option<String>,
    pub skill_usage: Option<i64>,
}

/// The wait condition when none is given.
pub fn default_until() -> (r: String)
    ensures
        r@ == "all_done"@,
{
    String::from_str("all_done")
}

/// The wait timeout when none is given (seconds).
pub fn default_timeout() -> (r: u32)
    ensures
        r == 60,
{
    60
}

/// The value of flags that default to on.
pub fn default_true() -> (r: bool)
    ensures
        r,
{
    true
}

/// The page size when none is given.
pub fn default_limit() -> (r: u32)
    ensures
        r == 50,
{
    50
}

/// The capture and input path when none is given.
pub fn default_via() -> (r: String)
    ensures
        r@ == "auto"@,
{
    String::from_str("auto")
}

/// The image format when none is given.
pub fn default_format() -> (r: String)
    ensures
        r@ == "png"@,
{
    String::from_str("png")
}

/// The JPEG quality when none is given.
pub fn default_quality() -> (r: u8)
    ensures
        r == 80,
{
    80
}

/// The coordinate space when none is given.
pub fn default_space() -> (r: String)
    ensures
        r@ == "screenshot"@,
{
    String::from_str("screenshot")
}

/// How long a drag holds before moving, when not given (ms).
pub fn default_hold_ms() -> (r: u64)
    ensures
        r == 250,
{
    250
}

/// The pause between drag moves, when not given (ms).
pub fn default_step_ms() -> (r: u64)
    ensures
        r == 20,
{
    20
}

/// The battle action when none is given.
pub fn default_action() -> (r: String)
    ensures
        r@ == "Deploy"@,
{
    String::from_str("Deploy")
}

// ---------------------------------------------------------------------------
// Checks on parameters.

/// Whether a `via` asks for the PlayTools path: "playtools" does, "maacore" does not,
/// and "auto" does for a PlayTools device while a task runs.
pub open spec fn via_playtools(via: Seq<char>, playtools_device: bool, running: bool) -> Option<bool> {
    if via == "maacore"@ {
        Some(false)
    } else if via == "playtools"@ {
        Some(true)
    } else if via == "auto"@ {
        Some(playtools_device && running)
    } else {
        None
    }
}

/// Decides the capture or input path; an unknown `via` is the caller's mistake.
pub fn via_is_playtools(via: &str, playtools_device: bool, running: bool) -> (r: Result<bool, ToolError>)
    ensures
        match via_playtools(via@, playtools_device, running) {
            Some(b) => r == Ok::<bool, ToolError>(b),
            None => r matches Err(e) && e.kind == ToolErrorKind::InvalidParams && e.message@
                == "unknown via "@ + debug_text(via@)
                + "; expected 'auto', 'maacore' or 'playtools'"@,
        },
{
    if str_eq(via, "maacore") {
        Ok(false)
    } else if str_eq(via, "playtools") {
        Ok(true)
    } else if str_eq(via, "auto") {
        Ok(playtools_device && running)
    } else {
        let mut m = String::from_str("unknown via ");
        let q = debug_str(via);
        m.append(q.as_str());
        push_str(&mut m, "; expected 'auto', 'maacore' or 'playtools'");
        Err(invalid_params(m))
    }
}

/// Checks a wait's timeout: 1 to 300 seconds.
pub fn check_wait_timeout(timeout_seconds: u32) -> (r: Result<(), ToolError>)
    ensures
        r is Ok <==> 1 <= timeout_seconds <= 300,
        r matches Err(e) ==> e.kind == ToolErrorKind::InvalidParams && e.message@
            == "timeout_seconds must be within 1..=300"@,
{
    if 1 <= timeout_seconds && timeout_seconds <= 300 {
        Ok(())
    } else {
        Err(invalid_params(String::from_str("timeout_seconds must be within 1..=300")))
    }
}

/// Checks an event page size: 1 to 500.
pub fn check_events_limit(limit: u32) -> (r: Result<(), ToolError>)
    ensures
        r is Ok <==> 1 <= limit <= 500,
        r matches Err(e) ==> e.kind == ToolErrorKind::InvalidParams && e.message@
            == "limit must be within 1..=500"@,
{
    if 1 <= limit && limit <= 500 {
        Ok(())
    } else {
        Err(invalid_params(String::from_str("limit must be within 1..=500")))
    }
}

/// A device coordinate for PlayTools: negative ones are refused, larger than a u16
/// can hold are held at its maximum.
pub fn to_u16(v: i32, axis: &str) -> (r: Result<u16, ToolError>)
    ensures
        v >= 0 <==> r is Ok,
        r matches Ok(x) ==> x == (if v > 65535 {
            65535
        } else {
            v
        }),
        r matches Err(e) ==> e.kind == ToolErrorKind::InvalidParams && e.message@ == axis@
            + " resolved to "@ + int_text(v as int) + ", below the device coordinate range"@,
{
    if v < 0 {
        let mut m = String::from_str(axis);
        push_str(&mut m, " resolved to ");
        write_i64(&mut m, v as i64);
        push_str(&mut m, ", below the device coordinate range");
        return Err(invalid_params(m));
    }
    if v > 65535 {
        Ok(65535)
    } else {
        Ok(v as u16)
    }
}

/// The coordinate space a parameter names; anything else is the caller's mistake.
pub fn coord_space_param(s: &str) -> (r: Result<CoordSpace, ToolError>)
    ensures
        s@ == "screenshot"@ ==> r == Ok::<CoordSpace, ToolError>(CoordSpace::Screenshot),
        s@ != "screenshot"@ && s@ == "device"@ ==> r == Ok::<CoordSpace, ToolError>(
            CoordSpace::Device,
        ),
        s@ != "screenshot"@ && s@ != "device"@ ==> (r matches Err(e) && e.kind
            == ToolErrorKind::InvalidParams && e.message@ == "unknown coord_space "@ + debug_text(
            s@,
        ) + "; expected 'screenshot' or 'device'"@),
{
    match parse_coord_space(s) {
        Some(c) => Ok(c),
        None => {
            let mut m = String::from_str("unknown coord_space ");
            let q = debug_str(s);
            m.append(q.as_str());
            push_str(&mut m, "; expected 'screenshot' or 'device'");
            Err(invalid_params(m))
        },
    }
}

/// The touch phase a parameter names: "began", "moved" or "ended".
pub fn touch_phase_param(s: &str) -> (r: Result<TouchPhase, ToolError>)
    ensures
        s@ == "began"@ ==> r == Ok::<TouchPhase, ToolError>(TouchPhase::Began),
        s@ != "began"@ && s@ == "moved"@ ==> r == Ok::<TouchPhase, ToolError>(TouchPhase::Moved),
        s@ != "began"@ && s@ != "moved"@ && s@ == "ended"@ ==> r == Ok::<TouchPhase, ToolError>(
            TouchPhase::Ended,
        ),
        s@ != "began"@ && s@ != "moved"@ && s@ != "ended"@ ==> (r matches Err(e) && e.kind
            == ToolErrorKind::InvalidParams && e.message@ == "unknown phase "@ + debug_text(s@)
            + "; expected 'began', 'moved' or 'ended'"@),
{
    if str_eq(s, "began") {
        Ok(TouchPhase::Began)
    } else if str_eq(s, "moved") {
        Ok(TouchPhase::Moved)
    } else if str_eq(s, "ended") {
        Ok(TouchPhase::Ended)
    } else {
        let mut m = String::from_str("unknown phase ");
        let q = debug_str(s);
        m.append(q.as_str());
        push_str(&mut m, "; expected 'began', 'moved' or 'ended'");
        Err(invalid_params(m))
    }
}

/// The image format a parameter names: "png" or "jpeg".
pub fn image_format_param(s: &str) -> (r: Result<crate::screen::ImageFormat, ToolError>)
    ensures
        s@ == "png"@ ==> r == Ok::<crate::screen::ImageFormat, ToolError>(
            crate::screen::ImageFormat::Png,
        ),
        s@ != "png"@ && s@ == "jpeg"@ ==> r == Ok::<crate::screen::ImageFormat, ToolError>(
            crate::screen::ImageFormat::Jpeg,
        ),
        s@ != "png"@ && s@ != "jpeg"@ ==> (r matches Err(e) && e.kind
            == ToolErrorKind::InvalidParams && e.message@ == "unknown format "@ + debug_text(s@)
            + "; expected 'png' or 'jpeg'"@),
{
    match crate::screen::parse_image_format(s) {
        Some(f) => Ok(f),
        None => {
            let mut m = String::from_str("unknown format ");
            let q = debug_str(s);
            m.append(q.as_str());
            push_str(&mut m, "; expected 'png' or 'jpeg'");
            Err(invalid_params(m))
        },
    }
}

/// A drag needs at least one point.
pub fn check_drag_points(count: usize) -> (r: Result<(), ToolError>)
    ensures
        r is Ok <==> count > 0,
        r matches Err(e) ==> e.kind == ToolErrorKind::InvalidParams && e.message@
            == "points must not be empty"@,
{
    if count == 0 {
        Err(invalid_params(String::from_str("points must not be empty")))
    } else {
        Ok(())
    }
}

// ---------------------------------------------------------------------------
// Waiting in slices.

/// The longest single wait between progress reports (ms).
pub const WAIT_SLICE_MS: u64 = 5000;

/// How long the next slice of a wait may take: what is left of the budget, at most one
/// slice; nothing when the budget is spent.
pub fn wait_slice(total_ms: u64, elapsed_ms: u64) -> (r: Option<u64>)
    ensures
        elapsed_ms >= total_ms <==> r is None,
        r matches Some(s) ==> s == (if total_ms - elapsed_ms < WAIT_SLICE_MS {
            total_ms - elapsed_ms
        } else {
            WAIT_SLICE_MS as int
        }),
{
    if elapsed_ms >= total_ms {
        return None;
    }
    let remaining = total_ms - elapsed_ms;
    if remaining < WAIT_SLICE_MS {
        Some(remaining)
    } else {
        Some(WAIT_SLICE_MS)
    }
}

// ---------------------------------------------------------------------------
// Battle actions.

/// The details object of a battle action: its type, then whichever of name, location,
/// direction and skill usage were given.
pub open spec fn action_details_json(p: BattleActionParams) -> JsonV {
    JsonV::Object(
        seq![("type"@, JsonV::Str(p.action@))] + match p.name {
            Some(n) => seq![("name"@, JsonV::Str(n@))],
            None => Seq::empty(),
        } + match p.location {
            Some(l) => seq![("location"@, crate::battle::location_json(l))],
            None => Seq::empty(),
        } + match p.direction {
            Some(d) => seq![("direction"@, JsonV::Str(d@))],
            None => Seq::empty(),
        } + match p.skill_usage {
            Some(u) => seq![("skill_usage"@, JsonV::Int(u as int))],
            None => Seq::empty(),
        },
    )
}

/// What is wrong with a battle action request, if anything.
pub open spec fn action_problem(p: BattleActionParams) -> Option<Seq<char>> {
    if p.action@ == "Deploy"@ && (p.name is None || p.location is None || p.direction is None) {
        Some(
            "A 'Deploy' needs name, location and direction. Read the tile coordinates off a screen_capture image rather than guessing."@,
        )
    } else if (p.action@ == "Skill"@ || p.action@ == "Retreat"@) && p.name is None && p.location is None {
        Some("A "@ + debug_text(p.action@) + " needs either name or location to say which operator."@)
    } else if p.action@ == "SkillUsage"@ && p.skill_usage is None {
        Some("A 'SkillUsage' action needs skill_usage."@)
    } else {
        None
    }
}

/// Checks a battle action request and builds its details; see `action_problem` and
/// `action_details_json`.
pub fn battle_action_details(p: &BattleActionParams) -> (r: Result<Json, ToolError>)
    ensures
        match action_problem(*p) {
            Some(m) => r matches Err(e) && e.kind == ToolErrorKind::InvalidParams && e.message@ == m,
            None => r matches Ok(j) && j@ == action_details_json(*p),
        },
{
    let action = p.action.as_str();
    if str_eq(action, "Deploy") && (p.name.is_none() || p.location.is_none()
        || p.direction.is_none()) {
        return Err(
            invalid_params(
                String::from_str(
                    "A 'Deploy' needs name, location and direction. Read the tile coordinates off a screen_capture image rather than guessing.",
                ),
            ),
        );
    }
    if (str_eq(action, "Skill") || str_eq(action, "Retreat")) && p.name.is_none()
        && p.location.is_none() {
        let mut m = String::from_str("A ");
        let q = debug_str(action);
        m.append(q.as_str());
        push_str(&mut m, " needs either name or location to say which operator.");
        return Err(invalid_params(m));
    }
    if str_eq(action, "SkillUsage") && p.skill_usage.is_none() {
        return Err(invalid_params(String::from_str("A 'SkillUsage' action needs skill_usage.")));
    }
    let mut f: Vec<(String, Json)> = Vec::new();
    f.push(field("type", Json::Str(p.action.clone())));
    let ghost f0 = crate::json::fields_view(f@);
    match &p.name {
        Some(n) => f.push(field("name", Json::Str(n.clone()))),
        None => {},
    }
    let ghost f1 = crate::json::fields_view(f@);
    match p.location {
        Some(l) => {
            let mut v: Vec<Json> = Vec::new();
            v.push(Json::Int(l[0] as i64));
            v.push(Json::Int(l[1] as i64));
            proof {
                assert(json_items(v@) =~= seq![JsonV::Int(l@[0] as int), JsonV::Int(l@[1] as int)]);
            }
            f.push(field("location", Json::array(v)));
        },
        None => {},
    }
    let ghost f2 = crate::json::fields_view(f@);
    match &p.direction {
        Some(d) => f.push(field("direction", Json::Str(d.clone()))),
        None => {},
    }
    let ghost f3 = crate::json::fields_view(f@);
    match p.skill_usage {
        Some(u) => f.push(field("skill_usage", Json::Int(u))),
        None => {},
    }
    proof {
        assert(f0 =~= seq![("type"@, JsonV::Str(p.action@))]);
        assert(f1 =~= f0 + match p.name {
            Some(n) => seq![("name"@, JsonV::Str(n@))],
            None => Seq::empty(),
        });
        assert(f2 =~= f1 + match p.location {
            Some(l) => seq![("location"@, crate::battle::location_json(l))],
            None => Seq::empty(),
        });
        assert(f3 =~= f2 + match p.direction {
            Some(d) => seq![("direction"@, JsonV::Str(d@))],
            None => Seq::empty(),
        });
        assert(crate::json::fields_view(f@) =~= f3 + match p.skill_usage {
            Some(u) => seq![("skill_usage"@, JsonV::Int(u as int))],
            None => Seq::empty(),
        });
    }
    Ok(Json::object(f))
}

/// The details of the stage step: `{"stage_name": stage}`.
pub fn stage_details(stage: &str) -> (r: Json)
    ensures
        r@ == JsonV::Object(seq![("stage_name"@, JsonV::Str(stage@))]),
{
    let mut f: Vec<(String, Json)> = Vec::new();
    f.push(field("stage_name", Json::new_str(stage)));
    proof {
        assert(crate::json::fields_view(f@) =~= seq![("stage_name"@, JsonV::Str(stage@))]);
    }
    Json::object(f)
}

// ---------------------------------------------------------------------------
// The daily routine.

/// The routine's steps when none are given.
pub open spec fn default_daily_steps() -> Seq<Seq<char>> {
    seq!["StartUp"@, "Fight"@, "Recruit"@, "Infrast"@, "Mall"@, "Award"@]
}

/// The steps to queue: those given (or the usual six), with CloseDown added at the end
/// when asked for and not already there.
pub open spec fn daily_steps_spec(given: Option<Seq<Seq<char>>>, close_when_done: bool) -> Seq<Seq<char>> {
    let steps = match given {
        Some(s) => s,
        None => default_daily_steps(),
    };
    if close_when_done && !steps.contains("CloseDown"@) {
        steps.push("CloseDown"@)
    } else {
        steps
    }
}

/// The steps to queue; see `daily_steps_spec`.
pub fn daily_steps(given: Option<Vec<String>>, close_when_done: bool) -> (r: Vec<String>)
    ensures
        strings_view(r@) == daily_steps_spec(
            match given {
                Some(g) => Some(strings_view(g@)),
                None => None,
            },
            close_when_done,
        ),
{
    let mut steps = match given {
        Some(g) => g,
        None => {
            let mut v: Vec<String> = Vec::new();
            v.push(String::from_str("StartUp"));
            v.push(String::from_str("Fight"));
            v.push(String::from_str("Recruit"));
            v.push(String::from_str("Infrast"));
            v.push(String::from_str("Mall"));
            v.push(String::from_str("Award"));
            proof {
                assert(strings_view(v@) =~= default_daily_steps());
            }
            v
        },
    };
    let ghost base = strings_view(steps@);
    if close_when_done {
        let mut present = false;
        let mut i: usize = 0;
        while i < steps.len()
            invariant
                i <= steps@.len(),
                base == strings_view(steps@),
                present == exists|k: int| 0 <= k < i && base[k] == "CloseDown"@,
            decreases steps.len() - i,
        {
            if str_eq(steps[i].as_str(), "CloseDown") {
                present = true;
            }
            proof {
                assert(base[i as int] == steps@[i as int]@);
            }
            i = i + 1;
        }
        if !present {
            steps.push(String::from_str("CloseDown"));
            proof {
                assert(strings_view(steps@) =~= base.push("CloseDown"@));
            }
        }
    }
    steps
}

/// The JSON of 0.3, the routine's drone threshold.
pub open spec fn three_tenths() -> JsonV {
    JsonV::Float("0.3"@, 0x3FD3333333333333u64)
}

/// The preset params of a routine step, for the task types the routine knows.
pub open spec fn daily_preset_spec(canonical: Seq<char>, client: Seq<char>, stage: Seq<char>, medicine: u32, start_game: bool) -> Option<JsonV> {
    if canonical == "StartUp"@ {
        Some(
            JsonV::Object(
                seq![
                    ("client_type"@, JsonV::Str(client)),
                    ("start_game_enabled"@, JsonV::Bool(start_game)),
                ],
            ),
        )
    } else if canonical == "Fight"@ {
        Some(JsonV::Object(seq![("stage"@, JsonV::Str(stage)), ("medicine"@, JsonV::Int(medicine as int))]))
    } else if canonical == "Recruit"@ {
        Some(
            JsonV::Object(
                seq![
                    ("select"@, JsonV::Array(seq![JsonV::Int(4)])),
                    ("confirm"@, JsonV::Array(seq![JsonV::Int(3), JsonV::Int(4)])),
                    ("times"@, JsonV::Int(4)),
                    ("skip_robot"@, JsonV::Bool(true)),
                ],
            ),
        )
    } else if canonical == "Infrast"@ {
        Some(
            JsonV::Object(
                seq![
                    ("facility"@, JsonV::Array(
                        seq![
                            JsonV::Str("Mfg"@),
                            JsonV::Str("Trade"@),
                            JsonV::Str("Power"@),
                            JsonV::Str("Control"@),
                            JsonV::Str("Reception"@),
                            JsonV::Str("Office"@),
                            JsonV::Str("Dorm"@),
                        ],
                    )),
                    ("drones"@, JsonV::Str("Money"@)),
                    ("threshold"@, three_tenths()),
                ],
            ),
        )
    } else if canonical == "Mall"@ {
        Some(JsonV::Object(seq![("shopping"@, JsonV::Bool(true)), ("visit_friends"@, JsonV::Bool(true))]))
    } else if canonical == "Award"@ {
        Some(JsonV::Object(seq![("award"@, JsonV::Bool(true)), ("mail"@, JsonV::Bool(true))]))
    } else if canonical == "CloseDown"@ {
        Some(JsonV::Object(seq![("client_type"@, JsonV::Str(client))]))
    } else {
        None
    }
}

/// Whether one key of a routine preset spends nothing beyond what was asked: it is not
/// originite prime ("stone"), and a key naming sanity potions ("medicine") is the Fight
/// step's, with the count given.
pub open spec fn key_spends_only_what_is_asked(canonical: Seq<char>, kv: (Seq<char>, JsonV), medicine: u32) -> bool {
    kv.0 != "stone"@ && (kv.0 == "medicine"@ ==> (canonical == "Fight"@ && kv.1 == JsonV::Int(medicine as int)))
}

/// Whether every key of a routine preset spends nothing beyond what was asked.
pub open spec fn spends_only_what_is_asked(canonical: Seq<char>, preset: JsonV, medicine: u32) -> bool {
    match preset {
        JsonV::Object(f) => forall|i: int|
            0 <= i < f.len() ==> key_spends_only_what_is_asked(canonical, #[trigger] f[i], medicine),
        _ => false,
    }
}

proof fn lemma_fields_spend(canonical: Seq<char>, f: Seq<(Seq<char>, JsonV)>, medicine: u32)
    requires
        f.len() <= 4,
        f.len() > 0 ==> key_spends_only_what_is_asked(canonical, f[0], medicine),
        f.len() > 1 ==> key_spends_only_what_is_asked(canonical, f[1], medicine),
        f.len() > 2 ==> key_spends_only_what_is_asked(canonical, f[2], medicine),
        f.len() > 3 ==> key_spends_only_what_is_asked(canonical, f[3], medicine),
    ensures
        spends_only_what_is_asked(canonical, JsonV::Object(f), medicine),
{
    assert forall|i: int| 0 <= i < f.len() implies key_spends_only_what_is_asked(canonical, #[trigger] f[i], medicine) by {
        if i == 0 {
        } else if i == 1 {
        } else if i == 2 {
        } else {
        }
    }
}

/// The routine's StartUp step starts the game exactly when the caller asked for it,
/// and on the client the caller named.
pub proof fn the_startup_step_follows_its_arguments(
    client: Seq<char>,
    stage: Seq<char>,
    medicine: u32,
    start_game: bool,
)
    ensures
        daily_preset_spec("StartUp"@, client, stage, medicine, start_game) matches Some(p) && json_get(
            p,
            "start_game_enabled"@,
        ) == Some(JsonV::Bool(start_game)) && json_get(p, "client_type"@) == Some(
            JsonV::Str(client),
        ),
{
    reveal_strlit("client_type");
    reveal_strlit("start_game_enabled");
    assert("client_type"@.len() != "start_game_enabled"@.len());
    let f = seq![("client_type"@, JsonV::Str(client)), ("start_game_enabled"@, JsonV::Bool(start_game))];
    let f1 = f.subrange(1, 2);
    assert(f1[0] == f[1]);
    assert(f1.subrange(1, 1).len() == 0);
    assert(f1[0].0 == "start_game_enabled"@);
    assert(crate::json::fields_get(f1, "start_game_enabled"@) == Some(JsonV::Bool(start_game)));
    assert(f[0].0 != "start_game_enabled"@);
    assert(crate::json::fields_get(f, "start_game_enabled"@) == crate::json::fields_get(f1, "start_game_enabled"@));
    assert(crate::json::fields_get(f, "start_game_enabled"@) == Some(JsonV::Bool(start_game)));
    assert(crate::json::fields_get(f, "client_type"@) == Some(JsonV::Str(client)));
}

/// The routine's Fight step fights on the stage the caller named, with the sanity
/// potions the caller allowed.
pub proof fn the_fight_step_follows_its_arguments(
    client: Seq<char>,
    stage: Seq<char>,
    medicine: u32,
    start_game: bool,
)
    ensures
        daily_preset_spec("Fight"@, client, stage, medicine, start_game) matches Some(p) && json_get(
            p,
            "stage"@,
        ) == Some(JsonV::Str(stage)) && json_get(p, "medicine"@) == Some(
            JsonV::Int(medicine as int),
        ),
{
    reveal_strlit("stage");
    reveal_strlit("medicine");
    reveal_strlit("Fight");
    reveal_strlit("StartUp");
    assert("Fight"@.len() != "StartUp"@.len());
    assert("stage"@.len() != "medicine"@.len());
    let f = seq![("stage"@, JsonV::Str(stage)), ("medicine"@, JsonV::Int(medicine as int))];
    let f1 = f.subrange(1, 2);
    assert(f1[0] == f[1]);
    assert(f1[0].0 == "medicine"@);
    assert(crate::json::fields_get(f1, "medicine"@) == Some(JsonV::Int(medicine as int)));
    assert(f[0].0 != "medicine"@);
    assert(crate::json::fields_get(f, "medicine"@) == crate::json::fields_get(f1, "medicine"@));
    assert(crate::json::fields_get(f, "stage"@) == Some(JsonV::Str(stage)));
}

/// The daily routine never raises a resource-spending parameter on its own: every
/// preset it queues spends only the sanity potions given, and never originite prime.
pub proof fn daily_presets_spend_only_what_is_asked(
    canonical: Seq<char>,
    client: Seq<char>,
    stage: Seq<char>,
    medicine: u32,
    start_game: bool,
)
    ensures
        daily_preset_spec(canonical, client, stage, medicine, start_game) matches Some(p)
            ==> spends_only_what_is_asked(canonical, p, medicine),
{
    reveal_strlit("stone");
    reveal_strlit("medicine");
    reveal_strlit("Fight");
    reveal_strlit("client_type");
    reveal_strlit("start_game_enabled");
    reveal_strlit("stage");
    reveal_strlit("select");
    reveal_strlit("confirm");
    reveal_strlit("times");
    reveal_strlit("skip_robot");
    reveal_strlit("facility");
    reveal_strlit("drones");
    reveal_strlit("threshold");
    reveal_strlit("shopping");
    reveal_strlit("visit_friends");
    reveal_strlit("award");
    reveal_strlit("mail");
    assert("stage"@[2] != "stone"@[2]);
    assert("times"@[0] != "stone"@[0]);
    assert("award"@[0] != "stone"@[0]);
    assert("facility"@[0] != "medicine"@[0]);
    assert("shopping"@[0] != "medicine"@[0]);
    if let Some(JsonV::Object(f)) = daily_preset_spec(canonical, client, stage, medicine, start_game) {
        if canonical == "StartUp"@ {
            assert(f[0].0 == "client_type"@ && f[1].0 == "start_game_enabled"@);
        } else if canonical == "Fight"@ {
            assert(f[0].0 == "stage"@ && f[1].0 == "medicine"@);
        } else if canonical == "Recruit"@ {
            assert(f[0].0 == "select"@ && f[1].0 == "confirm"@ && f[2].0 == "times"@ && f[3].0
                == "skip_robot"@);
        } else if canonical == "Infrast"@ {
            assert(f[0].0 == "facility"@ && f[1].0 == "drones"@ && f[2].0 == "threshold"@);
        } else if canonical == "Mall"@ {
            assert(f[0].0 == "shopping"@ && f[1].0 == "visit_friends"@);
        } else if canonical == "Award"@ {
            assert(f[0].0 == "award"@ && f[1].0 == "mail"@);
        } else {
            assert(f[0].0 == "client_type"@);
        }
        lemma_fields_spend(canonical, f, medicine);
    }
}

fn obj2(k1: &str, v1: Json, k2: &str, v2: Json) -> (r: Json)
    ensures
        r@ == JsonV::Object(seq![(k1@, v1@), (k2@, v2@)]),
{
    let mut f: Vec<(String, Json)> = Vec::new();
    f.push(field(k1, v1));
    f.push(field(k2, v2));
    proof {
        assert(crate::json::fields_view(f@) =~= seq![(k1@, v1@), (k2@, v2@)]);
    }
    Json::object(f)
}

/// The preset params of a routine step; see `daily_preset_spec`.
pub fn daily_preset(canonical: &str, client: &str, stage: &str, medicine: u32, start_game: bool) -> (r: Option<Json>)
    ensures
        match r {
            Some(j) => daily_preset_spec(canonical@, client@, stage@, medicine, start_game) == Some(j@),
            None => daily_preset_spec(canonical@, client@, stage@, medicine, start_game) is None,
        },
{
    if str_eq(canonical, "StartUp") {
        Some(obj2("client_type", Json::new_str(client), "start_game_enabled", Json::Bool(start_game)))
    } else if str_eq(canonical, "Fight") {
        Some(obj2("stage", Json::new_str(stage), "medicine", Json::Int(medicine as i64)))
    } else if str_eq(canonical, "Recruit") {
        let mut sv: Vec<Json> = Vec::new();
        sv.push(Json::Int(4));
        let mut cv: Vec<Json> = Vec::new();
        cv.push(Json::Int(3));
        cv.push(Json::Int(4));
        proof {
            assert(json_items(sv@) =~= seq![JsonV::Int(4)]);
            assert(json_items(cv@) =~= seq![JsonV::Int(3), JsonV::Int(4)]);
        }
        let select = Json::array(sv);
        let confirm = Json::array(cv);
        let mut f: Vec<(String, Json)> = Vec::new();
        f.push(field("select", select));
        f.push(field("confirm", confirm));
        f.push(field("times", Json::Int(4)));
        f.push(field("skip_robot", Json::Bool(true)));
        let r = Json::object(f);
        proof {
            assert(crate::json::fields_view(f@) =~= seq![
                ("select"@, JsonV::Array(seq![JsonV::Int(4)])),
                ("confirm"@, JsonV::Array(seq![JsonV::Int(3), JsonV::Int(4)])),
                ("times"@, JsonV::Int(4)),
                ("skip_robot"@, JsonV::Bool(true)),
            ]);
        }
        Some(r)
    } else if str_eq(canonical, "Infrast") {
        let mut fac: Vec<Json> = Vec::new();
        fac.push(Json::new_str("Mfg"));
        fac.push(Json::new_str("Trade"));
        fac.push(Json::new_str("Power"));
        fac.push(Json::new_str("Control"));
        fac.push(Json::new_str("Reception"));
        fac.push(Json::new_str("Office"));
        fac.push(Json::new_str("Dorm"));
        proof {
            assert(json_items(fac@) =~= seq![
                JsonV::Str("Mfg"@),
                JsonV::Str("Trade"@),
                JsonV::Str("Power"@),
                JsonV::Str("Control"@),
                JsonV::Str("Reception"@),
                JsonV::Str("Office"@),
                JsonV::Str("Dorm"@),
            ]);
        }
        let mut f: Vec<(String, Json)> = Vec::new();
        f.push(field("facility", Json::array(fac)));
        f.push(field("drones", Json::new_str("Money")));
        f.push(field("threshold", Json::Float(String::from_str("0.3"), 0x3FD3333333333333u64)));
        let r = Json::object(f);
        proof {
            assert(crate::json::fields_view(f@) =~= match daily_preset_spec(
                canonical@,
                client@,
                stage@,
                medicine,
                start_game,
            ) {
                Some(JsonV::Object(x)) => x,
                _ => Seq::empty(),
            });
        }
        Some(r)
    } else if str_eq(canonical, "Mall") {
        Some(obj2("shopping", Json::Bool(true), "visit_friends", Json::Bool(true)))
    } else if str_eq(canonical, "Award") {
        Some(obj2("award", Json::Bool(true), "mail", Json::Bool(true)))
    } else if str_eq(canonical, "CloseDown") {
        let mut f: Vec<(String, Json)> = Vec::new();
        f.push(field("client_type", Json::new_str(client)));
        proof {
            assert(crate::json::fields_view(f@) =~= seq![("client_type"@, JsonV::Str(client@))]);
        }
        Some(Json::object(f))
    } else {
        None
    }
}

/// The entry for a step the routine has no preset for.
pub fn skipped_entry(canonical: &str) -> (r: Json)
    ensures
        r@ == JsonV::Object(
            seq![
                ("task_type"@, JsonV::Str(canonical@)),
                ("reason"@, JsonV::Str(
                    "no preset for that task type in the daily routine; queue it with maa_append"@,
                )),
            ],
        ),
{
    obj2(
        "task_type",
        Json::new_str(canonical),
        "reason",
        Json::new_str("no preset for that task type in the daily routine; queue it with maa_append"),
    )
}

/// What a routine step does: queue the canonical task with its preset, or skip it.
pub enum DailyStep {
    Queue { task_type: String, params: Json },
    Skip { entry: Json },
}

/// Decides one routine step: the step's task type is resolved against the catalog (an
/// unknown one ends the routine with that error), then queued with its preset or
/// skipped.
pub fn daily_step<F: Fn(&str) -> Vec<String>>(
    cat: &Catalog,
    step: &str,
    client: &str,
    stage: &str,
    medicine: u32,
    start_game: bool,
    suggest: &F,
) -> (r: Result<DailyStep, Error>)
    requires
        forall|t: &str| suggest.requires((t,)),
    ensures
        match crate::catalog::first_ci_match(
            cat.specs(),
            crate::catalog::lowercase_text(crate::text::trimmed(step@)),
        ) {
            Some(i) => match daily_preset_spec(cat.specs()[i].task_type@, client@, stage@, medicine, start_game) {
                Some(p) => r matches Ok(DailyStep::Queue { task_type, params }) && task_type@
                    == cat.specs()[i].task_type@ && params@ == p,
                None => r matches Ok(DailyStep::Skip { entry }) && entry@ == JsonV::Object(
                    seq![
                        ("task_type"@, JsonV::Str(cat.specs()[i].task_type@)),
                        ("reason"@, JsonV::Str(
                            "no preset for that task type in the daily routine; queue it with maa_append"@,
                        )),
                    ],
                ),
            },
            None => exists|sug: Vec<String>|
                suggest.ensures((step,), sug) && (r matches Err(Error::UnknownTaskType(m)) && m@
                    == crate::catalog::unknown_type_text(step@, strings_view(sug@), cat.specs())),
        },
{
    let canonical = match crate::catalog::resolve(cat, step, suggest) {
        Ok(c) => c,
        Err(e) => {
            return Err(e);
        },
    };
    match daily_preset(canonical.as_str(), client, stage, medicine, start_game) {
        Some(params) => Ok(DailyStep::Queue { task_type: canonical, params }),
        None => Ok(DailyStep::Skip { entry: skipped_entry(canonical.as_str()) }),
    }
}

/// The answer of the routine: what was queued, how many, what was skipped, and the
/// next call.
pub fn daily_result(queued: Vec<Json>, skipped: Vec<Json>) -> (r: Json)
    ensures
        r@ == JsonV::Object(
            seq![
                ("queued"@, JsonV::Array(json_items(queued@))),
                ("count"@, JsonV::Int(queued@.len() as int)),
                ("skipped"@, JsonV::Array(json_items(skipped@))),
                ("next"@, JsonV::Str("call maa_start"@)),
            ],
        ),
{
    let n = queued.len();
    let mut f: Vec<(String, Json)> = Vec::new();
    f.push(field("queued", Json::array(queued)));
    f.push(field("count", Json::UInt(n as u64)));
    f.push(field("skipped", Json::array(skipped)));
    f.push(field("next", Json::new_str("call maa_start")));
    proof {
        assert(crate::json::fields_view(f@) =~= seq![
            ("queued"@, JsonV::Array(json_items(queued@))),
            ("count"@, JsonV::Int(queued@.len() as int)),
            ("skipped"@, JsonV::Array(json_items(skipped@))),
            ("next"@, JsonV::Str("call maa_start"@)),
        ]);
    }
    Json::object(f)
}

// ---------------------------------------------------------------------------
// The environment check.

/// The file name of the MaaCore library on a platform.
pub open spec fn core_library_name(platform: Platform) -> Seq<char> {
    match platform {
        Platform::MacOs => "libMaaCore.dylib"@,
        Platform::Windows => "MaaCore.dll"@,
        Platform::Other => "libMaaCore.so"@,
    }
}

fn core_library_name_exec(platform: Platform) -> (r: &'static str)
    ensures
        r@ == core_library_name(platform),
{
    match platform {
        Platform::MacOs => "libMaaCore.dylib",
        Platform::Windows => "MaaCore.dll",
        Platform::Other => "libMaaCore.so",
    }
}

/// One line of the environment check.
pub open spec fn check_json(name: Seq<char>, ok: bool, detail: Seq<char>) -> JsonV {
    JsonV::Object(
        seq![("check"@, JsonV::Str(name)), ("ok"@, JsonV::Bool(ok)), ("detail"@, JsonV::Str(detail))],
    )
}

fn check_entry(name: String, ok: bool, detail: String) -> (r: Json)
    ensures
        r@ == check_json(name@, ok, detail@),
{
    let mut f: Vec<(String, Json)> = Vec::new();
    f.push(field("check", Json::Str(name)));
    f.push(field("ok", Json::Bool(ok)));
    f.push(field("detail", Json::Str(detail)));
    proof {
        assert(crate::json::fields_view(f@) =~= seq![
            ("check"@, JsonV::Str(name@)),
            ("ok"@, JsonV::Bool(ok)),
            ("detail"@, JsonV::Str(detail@)),
        ]);
    }
    Json::object(f)
}

/// What the environment check found of one device: its name, address and whether its
/// address took a TCP connection.
pub struct Reachability {
    pub name: String,
    pub address: String,
    pub reachable: bool,
}

/// The lines of the environment check: the core library file, the core version, the
/// resource directory, each device's reachability, on macOS whether MAA.app runs, and
/// the bind address.
pub open spec fn doctor_checks(
    platform: Platform,
    core_dir: Seq<char>,
    lib_is_file: bool,
    core_version: Seq<char>,
    resource_dir: Seq<char>,
    resource_is_dir: bool,
    devices: Seq<Reachability>,
    maa_app_running: bool,
    bind: Seq<char>,
) -> Seq<JsonV> {
    seq![
        check_json("core library"@, lib_is_file, crate::paths::join_spec(platform, core_dir, core_library_name(platform))),
        check_json("core version"@, core_version.len() > 0, core_version),
        check_json("resource_dir/resource"@, resource_is_dir, crate::paths::join_spec(platform, resource_dir, "resource"@)),
    ] + Seq::new(
        devices.len(),
        |i: int| check_json("device:"@ + devices[i].name@ + ":reachable"@, devices[i].reachable, devices[i].address@),
    ) + (if platform == Platform::MacOs {
        seq![
            check_json(
                "MAA.app running"@,
                !maa_app_running,
                if maa_app_running {
                    "MAA.app is running; it holds its own MaaCore connection and may conflict with arkd"@
                } else {
                    "MAA.app is not running"@
                },
            ),
        ]
    } else {
        Seq::empty()
    }) + seq![check_json("server bind"@, true, bind)]
}

/// Whether a line of the check passed.
pub open spec fn check_passed(c: JsonV) -> bool {
    match c {
        JsonV::Object(f) => f.len() == 3 && f[1].1 == JsonV::Bool(true),
        _ => false,
    }
}

/// Whether every line of a check passed.
pub open spec fn all_ok(checks: Seq<JsonV>) -> bool {
    forall|i: int| 0 <= i < checks.len() ==> check_passed(#[trigger] checks[i])
}

/// The paths the environment check looks at: the core library and the resource
/// directory.
pub fn doctor_paths(platform: Platform, core_dir: &str, resource_dir: &str) -> (r: (String, String))
    ensures
        r.0@ == crate::paths::join_spec(platform, core_dir@, core_library_name(platform)),
        r.1@ == crate::paths::join_spec(platform, resource_dir@, "resource"@),
{
    (
        crate::paths::join_path(platform, core_dir, core_library_name_exec(platform)),
        crate::paths::join_path(platform, resource_dir, "resource"),
    )
}

/// The environment report: `{"ok": all passed, "checks": [...]}`; see `doctor_checks`.
pub fn doctor_report(
    platform: Platform,
    core_dir: &str,
    lib_is_file: bool,
    core_version: &str,
    resource_dir: &str,
    resource_is_dir: bool,
    devices: &Vec<Reachability>,
    maa_app_running: bool,
    bind: &str,
) -> (r: Json)
    ensures
        ({
            let checks = doctor_checks(
                platform,
                core_dir@,
                lib_is_file,
                core_version@,
                resource_dir@,
                resource_is_dir,
                devices@,
                maa_app_running,
                bind@,
            );
            r@ == JsonV::Object(
                seq![("ok"@, JsonV::Bool(all_ok(checks))), ("checks"@, JsonV::Array(checks))],
            )
        }),
{
    let (lib, res) = doctor_paths(platform, core_dir, resource_dir);
    let mut checks: Vec<Json> = Vec::new();
    let mut ok = lib_is_file && core_version.unicode_len() > 0 && resource_is_dir;
    checks.push(check_entry(String::from_str("core library"), lib_is_file, lib));
    checks.push(
        check_entry(
            String::from_str("core version"),
            core_version.unicode_len() > 0,
            String::from_str(core_version),
        ),
    );
    checks.push(check_entry(String::from_str("resource_dir/resource"), resource_is_dir, res));
    let ghost head = json_items(checks@);
    proof {
        assert(head =~= seq![
            check_json("core library"@, lib_is_file, crate::paths::join_spec(platform, core_dir@, core_library_name(platform))),
            check_json("core version"@, core_version@.len() > 0, core_version@),
            check_json("resource_dir/resource"@, resource_is_dir, crate::paths::join_spec(platform, resource_dir@, "resource"@)),
        ]);
    }
    let mut i: usize = 0;
    while i < devices.len()
        invariant
            i <= devices@.len(),
            head.len() == 3,
            json_items(checks@) == head + Seq::new(
                i as nat,
                |k: int|
                    check_json(
                        "device:"@ + devices@[k].name@ + ":reachable"@,
                        devices@[k].reachable,
                        devices@[k].address@,
                    ),
            ),
            ok == (lib_is_file && core_version@.len() > 0 && resource_is_dir && forall|k: int|
                0 <= k < i ==> devices@[k].reachable),
        decreases devices.len() - i,
    {
        let mut n = String::from_str("device:");
        n.append(devices[i].name.as_str());
        push_str(&mut n, ":reachable");
        let ghost prev = json_items(checks@);
        let ghost nv = n@;
        let entry = check_entry(n, devices[i].reachable, devices[i].address.clone());
        let ghost ev = entry@;
        checks.push(entry);
        proof {
            assert(json_items(checks@) =~= prev.push(ev));
        }
        ok = ok && devices[i].reachable;
        proof {
            assert(json_items(checks@) =~= head + Seq::new(
                (i + 1) as nat,
                |k: int|
                    check_json(
                        "device:"@ + devices@[k].name@ + ":reachable"@,
                        devices@[k].reachable,
                        devices@[k].address@,
                    ),
            ));
        }
        i = i + 1;
    }
    let ghost mid = json_items(checks@);
    if platform == Platform::MacOs {
        let detail = if maa_app_running {
            String::from_str(
                "MAA.app is running; it holds its own MaaCore connection and may conflict with arkd",
            )
        } else {
            String::from_str("MAA.app is not running")
        };
        checks.push(check_entry(String::from_str("MAA.app running"), !maa_app_running, detail));
        ok = ok && !maa_app_running;
    }
    let ghost tail = json_items(checks@);
    proof {
        if platform == Platform::MacOs {
            assert(tail =~= mid + seq![
                check_json(
                    "MAA.app running"@,
                    !maa_app_running,
                    if maa_app_running {
                        "MAA.app is running; it holds its own MaaCore connection and may conflict with arkd"@
                    } else {
                        "MAA.app is not running"@
                    },
                ),
            ]);
        } else {
            assert(tail =~= mid + Seq::<JsonV>::empty());
        }
    }
    let last = check_entry(String::from_str("server bind"), true, String::from_str(bind));
    let ghost lv = last@;
    checks.push(last);
    proof {
        assert(json_items(checks@) =~= tail.push(lv));
    }
    let ghost cv = doctor_checks(
        platform,
        core_dir@,
        lib_is_file,
        core_version@,
        resource_dir@,
        resource_is_dir,
        devices@,
        maa_app_running,
        bind@,
    );
    proof {
        assert(json_items(checks@) =~= cv);
        let nd = devices@.len() as int;
        if ok {
            assert forall|k: int| 0 <= k < cv.len() implies check_passed(#[trigger] cv[k]) by {
                if 3 <= k < 3 + nd {
                    assert(devices@[k - 3].reachable);
                }
            }
        } else {
            if !lib_is_file {
                assert(!check_passed(cv[0]));
            } else if !(core_version@.len() > 0) {
                assert(!check_passed(cv[1]));
            } else if !resource_is_dir {
                assert(!check_passed(cv[2]));
            } else if exists|k: int| 0 <= k < nd && !devices@[k].reachable {
                let k = choose|k: int| 0 <= k < nd && !devices@[k].reachable;
                assert(!check_passed(cv[3 + k]));
            } else {
                assert(!check_passed(cv[3 + nd]));
            }
        }
    }
    let mut f: Vec<(String, Json)> = Vec::new();
    f.push(field("ok", Json::Bool(ok)));
    f.push(field("checks", Json::array(checks)));
    proof {
        assert(crate::json::fields_view(f@) =~= seq![
            ("ok"@, JsonV::Bool(all_ok(cv))),
            ("checks"@, JsonV::Array(cv)),
        ]);
    }
    Json::object(f)
}

/// The message when the platform cannot load MaaCore.
pub open spec fn unsupported_platform_text() -> Seq<char> {
    "arkd does not support this platform; MaaCore is only loaded on macOS and Windows."@
}

/// Where MaaCore is loaded from: the platform's library in `core_dir`, when the file
/// exists (as `is_file` reports); other platforms are refused.
pub fn core_library_path<F: Fn(&str) -> bool>(platform: Platform, core_dir: &str, is_file: &F) -> (r: Result<String, Error>)
    requires
        forall|p: &str| is_file.requires((p,)),
    ensures
        platform == Platform::Other ==> (r matches Err(Error::CoreNotFound(m)) && m@
            == unsupported_platform_text()),
        platform != Platform::Other ==> exists|p: &str, found: bool|
            p@ == crate::paths::join_spec(platform, core_dir@, core_library_name(platform)) && is_file.ensures(
                (p,),
                found,
            ) && if found {
                r matches Ok(s) && s@ == p@
            } else {
                r matches Err(Error::CoreNotFound(m)) && m@ == "No MaaCore library at "@ + p@
                    + ". Point maa.core_dir at an installed MAA directory."@
            },
{
    if platform == Platform::Other {
        return Err(
            Error::CoreNotFound(
                String::from_str(
                    "arkd does not support this platform; MaaCore is only loaded on macOS and Windows.",
                ),
            ),
        );
    }
    let path = crate::paths::join_path(platform, core_dir, core_library_name_exec(platform));
    let p = path.as_str();
    let found = is_file(p);
    if !found {
        let mut m = String::from_str("No MaaCore library at ");
        push_str(&mut m, p);
        push_str(&mut m, ". Point maa.core_dir at an installed MAA directory.");
        return Err(Error::CoreNotFound(m));
    }
    Ok(String::from_str(p))
}

/// The result of a core call that answers with a flag: nonzero is success.
pub fn bool_result(ok: u8, what: &str) -> (r: Result<(), Error>)
    ensures
        r is Ok <==> ok != 0,
        r matches Err(e) ==> (e matches Error::CoreLoad(m) && m@ == what@
            + " returned false; check the MaaCore log for details"@),
{
    if ok != 0 {
        Ok(())
    } else {
        let mut m = String::from_str(what);
        push_str(&mut m, " returned false; check the MaaCore log for details");
        Err(Error::CoreLoad(m))
    }
}

// ---------------------------------------------------------------------------
// The tools' answers.

/// A page of events as the events tool answers.
pub fn events_page_json(page: crate::events::EventsPage) -> (r: Json)
    ensures
        r@ == JsonV::Object(
            seq![
            ("events"@, JsonV::Array(json_items(page.events@))),
            ("count"@, JsonV::Int(page.count as int)),
            ("next_seq"@, JsonV::Int(page.next_seq as int)),
            ("latest_seq"@, JsonV::Int(page.latest_seq as int)),
            ("has_more"@, JsonV::Bool(page.has_more)),
            ("dropped"@, JsonV::Int(page.dropped as int)),
            ],
        ),
{
    let mut f: Vec<(String, Json)> = Vec::new();
    f.push(field("events", Json::array(page.events)));
    f.push(field("count", Json::UInt(page.count as u64)));
    f.push(field("next_seq", Json::UInt(page.next_seq)));
    f.push(field("latest_seq", Json::UInt(page.latest_seq)));
    f.push(field("has_more", Json::Bool(page.has_more)));
    f.push(field("dropped", Json::UInt(page.dropped)));
    proof {
        assert(crate::json::fields_view(f@) =~= seq![
            ("events"@, JsonV::Array(json_items(page.events@))),
            ("count"@, JsonV::Int(page.count as int)),
            ("next_seq"@, JsonV::Int(page.next_seq as int)),
            ("latest_seq"@, JsonV::Int(page.latest_seq as int)),
            ("has_more"@, JsonV::Bool(page.has_more)),
            ("dropped"@, JsonV::Int(page.dropped as int)),
        ]);
    }
    Json::object(f)
}

/// What starting the queue answers: the started ids, their types and the event cursor to wait from.
pub fn start_json(started: Vec<i32>, task_types: Vec<String>, next_seq: u64) -> (r: Json)
    ensures
        r@ == JsonV::Object(
            seq![
            ("started"@, JsonV::Array(Seq::new(started@.len(), |i: int| JsonV::Int(started@[i] as int)))),
            ("task_types"@, JsonV::Array(Seq::new(task_types@.len(), |i: int| JsonV::Str(task_types@[i]@)))),
            ("next_seq"@, JsonV::Int(next_seq as int)),
            ],
        ),
{
    let mut f: Vec<(String, Json)> = Vec::new();
    f.push(field("started", int_list(&started)));
    f.push(field("task_types", str_list(&task_types)));
    f.push(field("next_seq", Json::UInt(next_seq)));
    proof {
        assert(crate::json::fields_view(f@) =~= seq![
            ("started"@, JsonV::Array(Seq::new(started@.len(), |i: int| JsonV::Int(started@[i] as int)))),
            ("task_types"@, JsonV::Array(Seq::new(task_types@.len(), |i: int| JsonV::Str(task_types@[i]@)))),
            ("next_seq"@, JsonV::Int(next_seq as int)),
        ]);
    }
    Json::object(f)
}

/// What stopping answers.
pub fn stop_json(res: &crate::session::StopResult) -> (r: Json)
    ensures
        r@ == JsonV::Object(
            seq![
            ("stopped"@, JsonV::Bool(res.stopped)),
            ("cleared_tasks"@, JsonV::Int(res.cleared_tasks as int)),
            ("reason"@, match res.reason { Some(t) => JsonV::Str(t@), None => JsonV::Null }),
            ],
        ),
{
    let mut f: Vec<(String, Json)> = Vec::new();
    f.push(field("stopped", Json::Bool(res.stopped)));
    f.push(field("cleared_tasks", Json::UInt(res.cleared_tasks as u64)));
    f.push(field("reason", Json::opt_string(res.reason.clone())));
    proof {
        assert(crate::json::fields_view(f@) =~= seq![
            ("stopped"@, JsonV::Bool(res.stopped)),
            ("cleared_tasks"@, JsonV::Int(res.cleared_tasks as int)),
            ("reason"@, match res.reason { Some(t) => JsonV::Str(t@), None => JsonV::Null }),
        ]);
    }
    Json::object(f)
}

/// The plain success answer: `{"ok": true}`.
pub fn ok_json() -> (r: Json)
    ensures
        r@ == JsonV::Object(
            seq![
            ("ok"@, JsonV::Bool(true)),
            ],
        ),
{
    let mut f: Vec<(String, Json)> = Vec::new();
    f.push(field("ok", Json::Bool(true)));
    proof {
        assert(crate::json::fields_view(f@) =~= seq![
            ("ok"@, JsonV::Bool(true)),
        ]);
    }
    Json::object(f)
}

/// The queue as the queue tool answers.
pub fn queue_json(tasks: Vec<Json>) -> (r: Json)
    ensures
        r@ == JsonV::Object(
            seq![
            ("count"@, JsonV::Int(tasks@.len() as int)),
            ("tasks"@, JsonV::Array(json_items(tasks@))),
            ],
        ),
{
    let n = tasks.len();
    let mut f: Vec<(String, Json)> = Vec::new();
    f.push(field("count", Json::UInt(n as u64)));
    f.push(field("tasks", Json::array(tasks)));
    proof {
        assert(crate::json::fields_view(f@) =~= seq![
            ("count"@, JsonV::Int(tasks@.len() as int)),
            ("tasks"@, JsonV::Array(json_items(tasks@))),
        ]);
    }
    Json::object(f)
}

/// What a tap answers: where it landed and by which path.
pub fn tap_json(device_x: i32, device_y: i32, via: &str) -> (r: Json)
    ensures
        r@ == JsonV::Object(
            seq![
            ("ok"@, JsonV::Bool(true)),
            ("device_x"@, JsonV::Int(device_x as int)),
            ("device_y"@, JsonV::Int(device_y as int)),
            ("via"@, JsonV::Str(via@)),
            ],
        ),
{
    let mut f: Vec<(String, Json)> = Vec::new();
    f.push(field("ok", Json::Bool(true)));
    f.push(field("device_x", Json::Int(device_x as i64)));
    f.push(field("device_y", Json::Int(device_y as i64)));
    f.push(field("via", Json::new_str(via)));
    proof {
        assert(crate::json::fields_view(f@) =~= seq![
            ("ok"@, JsonV::Bool(true)),
            ("device_x"@, JsonV::Int(device_x as int)),
            ("device_y"@, JsonV::Int(device_y as int)),
            ("via"@, JsonV::Str(via@)),
        ]);
    }
    Json::object(f)
}

/// What a drag answers: how many points it followed.
pub fn drag_json(points: usize) -> (r: Json)
    ensures
        r@ == JsonV::Object(
            seq![
            ("ok"@, JsonV::Bool(true)),
            ("points"@, JsonV::Int(points as int)),
            ("via"@, JsonV::Str("playtools"@)),
            ],
        ),
{
    let mut f: Vec<(String, Json)> = Vec::new();
    f.push(field("ok", Json::Bool(true)));
    f.push(field("points", Json::UInt(points as u64)));
    f.push(field("via", Json::new_str("playtools")));
    proof {
        assert(crate::json::fields_view(f@) =~= seq![
            ("ok"@, JsonV::Bool(true)),
            ("points"@, JsonV::Int(points as int)),
            ("via"@, JsonV::Str("playtools"@)),
        ]);
    }
    Json::object(f)
}

/// The description of a captured image: its size, the path it came by and its coordinate space.
pub fn capture_meta(width: u32, height: u32, via: &str) -> (r: Json)
    ensures
        r@ == JsonV::Object(
            seq![
            ("width"@, JsonV::Int(width as int)),
            ("height"@, JsonV::Int(height as int)),
            ("via"@, JsonV::Str(via@)),
            ("coord_space"@, JsonV::Str("screenshot"@)),
            ],
        ),
{
    let mut f: Vec<(String, Json)> = Vec::new();
    f.push(field("width", Json::Int(width as i64)));
    f.push(field("height", Json::Int(height as i64)));
    f.push(field("via", Json::new_str(via)));
    f.push(field("coord_space", Json::new_str("screenshot")));
    proof {
        assert(crate::json::fields_view(f@) =~= seq![
            ("width"@, JsonV::Int(width as int)),
            ("height"@, JsonV::Int(height as int)),
            ("via"@, JsonV::Str(via@)),
            ("coord_space"@, JsonV::Str("screenshot"@)),
        ]);
    }
    Json::object(f)
}

/// The description of a captured image written to a file: as `capture_meta`, with the path and the byte count.
pub fn saved_capture_meta(width: u32, height: u32, via: &str, path: &str, bytes: usize) -> (r: Json)
    ensures
        r@ == JsonV::Object(
            seq![
            ("width"@, JsonV::Int(width as int)),
            ("height"@, JsonV::Int(height as int)),
            ("via"@, JsonV::Str(via@)),
            ("coord_space"@, JsonV::Str("screenshot"@)),
            ("path"@, JsonV::Str(path@)),
            ("bytes"@, JsonV::Int(bytes as int)),
            ],
        ),
{
    let mut f: Vec<(String, Json)> = Vec::new();
    f.push(field("width", Json::Int(width as i64)));
    f.push(field("height", Json::Int(height as i64)));
    f.push(field("via", Json::new_str(via)));
    f.push(field("coord_space", Json::new_str("screenshot")));
    f.push(field("path", Json::new_str(path)));
    f.push(field("bytes", Json::UInt(bytes as u64)));
    proof {
        assert(crate::json::fields_view(f@) =~= seq![
            ("width"@, JsonV::Int(width as int)),
            ("height"@, JsonV::Int(height as int)),
            ("via"@, JsonV::Str(via@)),
            ("coord_space"@, JsonV::Str("screenshot"@)),
            ("path"@, JsonV::Str(path@)),
            ("bytes"@, JsonV::Int(bytes as int)),
        ]);
    }
    Json::object(f)
}

/// One entry of the task type listing.
pub fn task_summary_json(t: &TaskSummary) -> (r: Json)
    ensures
        r@ == JsonV::Object(
            seq![
            ("task_type"@, JsonV::Str(t.task_type@)),
            ("summary"@, JsonV::Str(t.summary@)),
            ("required"@, JsonV::Str(t.required@)),
            ],
        ),
{
    let mut f: Vec<(String, Json)> = Vec::new();
    f.push(field("task_type", Json::Str(t.task_type.clone())));
    f.push(field("summary", Json::Str(t.summary.clone())));
    f.push(field("required", Json::Str(t.required.clone())));
    proof {
        assert(crate::json::fields_view(f@) =~= seq![
            ("task_type"@, JsonV::Str(t.task_type@)),
            ("summary"@, JsonV::Str(t.summary@)),
            ("required"@, JsonV::Str(t.required@)),
        ]);
    }
    Json::object(f)
}

/// One task type's schema, notes and example.
pub fn task_schema_json(spec: &TaskSpec) -> (r: Json)
    ensures
        r@ == JsonV::Object(
            seq![
            ("task_type"@, JsonV::Str(spec.task_type@)),
            ("summary"@, JsonV::Str(spec.summary@)),
            ("notes"@, JsonV::Str(spec.notes@)),
            ("schema"@, spec.schema@),
            ("example"@, spec.example@),
            ],
        ),
{
    let mut f: Vec<(String, Json)> = Vec::new();
    f.push(field("task_type", Json::Str(spec.task_type.clone())));
    f.push(field("summary", Json::Str(spec.summary.clone())));
    f.push(field("notes", Json::Str(spec.notes.clone())));
    f.push(field("schema", spec.schema.copy()));
    f.push(field("example", spec.example.copy()));
    proof {
        assert(crate::json::fields_view(f@) =~= seq![
            ("task_type"@, JsonV::Str(spec.task_type@)),
            ("summary"@, JsonV::Str(spec.summary@)),
            ("notes"@, JsonV::Str(spec.notes@)),
            ("schema"@, spec.schema@),
            ("example"@, spec.example@),
        ]);
    }
    Json::object(f)
}

/// The task type listing with its count.
pub fn task_types_json(entries: Vec<Json>) -> (r: Json)
    ensures
        r@ == JsonV::Object(
            seq![
            ("count"@, JsonV::Int(entries@.len() as int)),
            ("task_types"@, JsonV::Array(json_items(entries@))),
            ],
        ),
{
    let n = entries.len();
    let mut f: Vec<(String, Json)> = Vec::new();
    f.push(field("count", Json::UInt(n as u64)));
    f.push(field("task_types", Json::array(entries)));
    proof {
        assert(crate::json::fields_view(f@) =~= seq![
            ("count"@, JsonV::Int(entries@.len() as int)),
            ("task_types"@, JsonV::Array(json_items(entries@))),
        ]);
    }
    Json::object(f)
}

/// The device list.
pub fn devices_json(entries: Vec<Json>) -> (r: Json)
    ensures
        r@ == JsonV::Object(
            seq![
            ("devices"@, JsonV::Array(json_items(entries@))),
            ],
        ),
{
    let mut f: Vec<(String, Json)> = Vec::new();
    f.push(field("devices", Json::array(entries)));
    proof {
        assert(crate::json::fields_view(f@) =~= seq![
            ("devices"@, JsonV::Array(json_items(entries@))),
        ]);
    }
    Json::object(f)
}

/// What the wait tool answers: whether and why the wait ended, how long it took (the number given), the condition, the significant events since the cursor, the next cursor (never behind the one given), whether the core runs, and the task counts.
pub fn wait_json(triggered: bool, reason: String, waited_seconds: Json, until: String, events: Vec<Json>, next_seq: u64, after_seq: u64, running: bool, task_counts: Json) -> (r: Json)
    ensures
        r@ == JsonV::Object(
            seq![
            ("triggered"@, JsonV::Bool(triggered)),
            ("reason"@, JsonV::Str(reason@)),
            ("waited_seconds"@, waited_seconds@),
            ("until"@, JsonV::Str(until@)),
            ("events"@, JsonV::Array(json_items(events@))),
            ("next_seq"@, JsonV::Int(if next_seq > after_seq { next_seq as int } else { after_seq as int })),
            ("running"@, JsonV::Bool(running)),
            ("task_counts"@, task_counts@),
            ],
        ),
{
    let mut f: Vec<(String, Json)> = Vec::new();
    f.push(field("triggered", Json::Bool(triggered)));
    f.push(field("reason", Json::Str(reason)));
    f.push(field("waited_seconds", waited_seconds));
    f.push(field("until", Json::Str(until)));
    f.push(field("events", Json::array(events)));
    f.push(field("next_seq", Json::UInt(if next_seq > after_seq { next_seq } else { after_seq })));
    f.push(field("running", Json::Bool(running)));
    f.push(field("task_counts", task_counts));
    proof {
        assert(crate::json::fields_view(f@) =~= seq![
            ("triggered"@, JsonV::Bool(triggered)),
            ("reason"@, JsonV::Str(reason@)),
            ("waited_seconds"@, waited_seconds@),
            ("until"@, JsonV::Str(until@)),
            ("events"@, JsonV::Array(json_items(events@))),
            ("next_seq"@, JsonV::Int(if next_seq > after_seq { next_seq as int } else { after_seq as int })),
            ("running"@, JsonV::Bool(running)),
            ("task_counts"@, task_counts@),
        ]);
    }
    Json::object(f)
}

fn int_list(v: &Vec<i32>) -> (r: Json)
    ensures
        r@ == JsonV::Array(Seq::new(v@.len(), |i: int| JsonV::Int(v@[i] as int))),
{
    let mut out: Vec<Json> = Vec::new();
    let mut i: usize = 0;
    while i < v.len()
        invariant
            i <= v@.len(),
            out@.len() == i,
            forall|k: int| 0 <= k < i ==> (#[trigger] out@[k])@ == JsonV::Int(v@[k] as int),
        decreases v.len() - i,
    {
        out.push(Json::Int(v[i] as i64));
        i = i + 1;
    }
    proof {
        assert(json_items(out@) =~= Seq::new(v@.len(), |i: int| JsonV::Int(v@[i] as int)));
    }
    Json::array(out)
}

pub(crate) fn str_list(v: &Vec<String>) -> (r: Json)
    ensures
        r@ == JsonV::Array(Seq::new(v@.len(), |i: int| JsonV::Str(v@[i]@))),
{
    let mut out: Vec<Json> = Vec::new();
    let mut i: usize = 0;
    while i < v.len()
        invariant
            i <= v@.len(),
            out@.len() == i,
            forall|k: int| 0 <= k < i ==> (#[trigger] out@[k])@ == JsonV::Str(v@[k]@),
        decreases v.len() - i,
    {
        out.push(Json::Str(v[i].clone()));
        i = i + 1;
    }
    proof {
        assert(json_items(out@) =~= Seq::new(v@.len(), |i: int| JsonV::Str(v@[i]@)));
    }
    Json::array(out)
}

/// The task counts as an object from state to count, in the order given.
pub fn counts_json(counts: &Vec<(String, usize)>) -> (r: Json)
    ensures
        r@ == JsonV::Object(Seq::new(counts@.len(), |i: int| (counts@[i].0@, JsonV::Int(counts@[i].1 as int)))),
{
    let mut f: Vec<(String, Json)> = Vec::new();
    let mut i: usize = 0;
    while i < counts.len()
        invariant
            i <= counts@.len(),
            f@.len() == i,
            forall|k: int| 0 <= k < i ==> (#[trigger] f@[k]).0@ == counts@[k].0@ && f@[k].1@ == JsonV::Int(counts@[k].1 as int),
        decreases counts.len() - i,
    {
        f.push((counts[i].0.clone(), Json::UInt(counts[i].1 as u64)));
        i = i + 1;
    }
    proof {
        assert(crate::json::fields_view(f@) =~= Seq::new(counts@.len(), |i: int| (counts@[i].0@, JsonV::Int(counts@[i].1 as int))));
    }
    Json::object(f)
}

} // verus!
