use arkd_core::catalog::{Catalog, TaskSpec};
use arkd_core::config::Platform;
use arkd_core::error::Error;
use arkd_core::json::{to_text, Json};
use arkd_core::session::StopResult;
use arkd_core::tools::{
    battle_action_details, bool_result, check_drag_points, check_events_limit,
    check_wait_timeout, coord_space_param, core_library_path, daily_preset, daily_result,
    daily_step, daily_steps, default_action, default_format, default_hold_ms, default_limit,
    default_quality, default_space, default_step_ms, default_timeout, default_true,
    default_until, default_via, doctor_paths, image_format_param, ok_json, stage_details,
    start_json, stop_json, tap_json, to_u16, tool_error, touch_phase_param, via_is_playtools,
    wait_slice, BattleActionParams, DailyStep, ToolErrorKind, WAIT_SLICE_MS,
};

fn plain_spec(name: &str) -> TaskSpec {
    TaskSpec {
        task_type: name.to_string(),
        summary: String::new(),
        notes: String::new(),
        schema: Json::Object(vec![("type".to_string(), Json::Str("object".to_string()))]),
        example: Json::Object(vec![]),
    }
}

fn no_suggestions(_: &str) -> Vec<String> {
    Vec::new()
}

#[test]
fn defaults_match_the_tool_schemas() {
    assert_eq!(default_until(), "all_done");
    assert_eq!(default_timeout(), 60);
    assert!(default_true());
    assert_eq!(default_limit(), 50);
    assert_eq!(default_via(), "auto");
    assert_eq!(default_format(), "png");
    assert_eq!(default_quality(), 80);
    assert_eq!(default_space(), "screenshot");
    assert_eq!(default_hold_ms(), 250);
    assert_eq!(default_step_ms(), 20);
    assert_eq!(default_action(), "Deploy");
}

#[test]
fn limits_are_checked() {
    assert!(check_wait_timeout(0).is_err());
    assert!(check_wait_timeout(300).is_ok());
    assert_eq!(check_wait_timeout(301).err().unwrap().message, "timeout_seconds must be within 1..=300");
    assert!(check_events_limit(500).is_ok());
    assert!(check_events_limit(0).is_err());
    assert!(check_drag_points(0).is_err());
    assert!(check_drag_points(1).is_ok());
}

#[test]
fn coordinates_are_clamped_for_playtools() {
    assert_eq!(to_u16(100, "x").ok(), Some(100));
    assert_eq!(to_u16(70000, "x").ok(), Some(65535));
    let err = to_u16(-5, "y").err().unwrap();
    assert!(err.kind == ToolErrorKind::InvalidParams);
    assert_eq!(err.message, "y resolved to -5, below the device coordinate range");
}

#[test]
fn via_picks_the_input_path() {
    assert_eq!(via_is_playtools("maacore", true, true).ok(), Some(false));
    assert_eq!(via_is_playtools("playtools", false, false).ok(), Some(true));
    assert_eq!(via_is_playtools("auto", true, true).ok(), Some(true));
    assert_eq!(via_is_playtools("auto", true, false).ok(), Some(false));
    assert_eq!(
        via_is_playtools("carrier-pigeon", true, true).err().unwrap().message,
        "unknown via \"carrier-pigeon\"; expected 'auto', 'maacore' or 'playtools'"
    );
}

#[test]
fn names_are_parsed_or_refused() {
    assert!(coord_space_param("device").is_ok());
    assert!(coord_space_param("world").is_err());
    assert!(touch_phase_param("moved").is_ok());
    assert_eq!(touch_phase_param("hover").err().unwrap().message, "unknown phase \"hover\"; expected 'began', 'moved' or 'ended'");
    assert!(image_format_param("jpeg").is_ok());
    assert!(image_format_param("bmp").is_err());
}

#[test]
fn waits_are_sliced() {
    assert_eq!(wait_slice(12_000, 0), Some(WAIT_SLICE_MS));
    assert_eq!(wait_slice(12_000, 10_000), Some(2_000));
    assert_eq!(wait_slice(12_000, 12_000), None);
}

#[test]
fn library_errors_become_tool_errors() {
    let e = tool_error(Error::Validation("bad".to_string()));
    assert!(e.kind == ToolErrorKind::InvalidParams);
    assert_eq!(e.message, "bad");
    let e = tool_error(Error::CoreLoad("down".to_string()));
    assert!(e.kind == ToolErrorKind::Internal);
}

#[test]
fn a_deploy_needs_name_location_and_direction() {
    let p = BattleActionParams {
        device: None,
        action: "Deploy".to_string(),
        name: Some("Thorns".to_string()),
        location: Some([3, 4]),
        direction: None,
        skill_usage: None,
    };
    assert!(battle_action_details(&p).is_err());
    let p = BattleActionParams { direction: Some("Left".to_string()), ..p };
    let d = battle_action_details(&p).ok().unwrap();
    assert_eq!(to_text(&d), r#"{"type":"Deploy","name":"Thorns","location":[3,4],"direction":"Left"}"#);
    let skill = BattleActionParams {
        device: None,
        action: "Skill".to_string(),
        name: None,
        location: None,
        direction: None,
        skill_usage: None,
    };
    assert_eq!(
        battle_action_details(&skill).err().unwrap().message,
        "A \"Skill\" needs either name or location to say which operator."
    );
    assert_eq!(to_text(&stage_details("1-7")), r#"{"stage_name":"1-7"}"#);
}

#[test]
fn the_daily_routine_has_six_steps_and_can_close_down() {
    let steps = daily_steps(None, false);
    assert_eq!(steps, vec!["StartUp", "Fight", "Recruit", "Infrast", "Mall", "Award"]);
    let steps = daily_steps(None, true);
    assert_eq!(steps.last().map(|s| s.as_str()), Some("CloseDown"));
    let given = daily_steps(Some(vec!["Fight".to_string(), "CloseDown".to_string()]), true);
    assert_eq!(given, vec!["Fight", "CloseDown"]);
}

#[test]
fn daily_presets_fill_in_the_params() {
    let fight = daily_preset("Fight", "Official", "1-7", 2, true).unwrap();
    assert_eq!(to_text(&fight), r#"{"stage":"1-7","medicine":2}"#);
    let infrast = daily_preset("Infrast", "Official", "", 0, true).unwrap();
    assert!(to_text(&infrast).ends_with(r#""drones":"Money","threshold":0.3}"#));
    assert!(daily_preset("Depot", "Official", "", 0, true).is_none());
}

#[test]
fn a_daily_step_is_queued_or_skipped() {
    let cat = Catalog::new(vec![plain_spec("Fight"), plain_spec("Depot")]);
    match daily_step(&cat, "fight", "Official", "1-7", 0, true, &no_suggestions).unwrap() {
        DailyStep::Queue { task_type, params } => {
            assert_eq!(task_type, "Fight");
            assert_eq!(params.get_str("stage").unwrap(), "1-7");
        }
        DailyStep::Skip { .. } => panic!("Fight has a preset"),
    }
    match daily_step(&cat, "Depot", "Official", "1-7", 0, true, &no_suggestions).unwrap() {
        DailyStep::Skip { entry } => assert_eq!(entry.get_str("task_type").unwrap(), "Depot"),
        DailyStep::Queue { .. } => panic!("Depot has no preset"),
    }
    assert!(daily_step(&cat, "Nope", "Official", "1-7", 0, true, &no_suggestions).is_err());
    let r = daily_result(vec![Json::Int(1)], vec![]);
    assert_eq!(to_text(&r), r#"{"queued":[1],"count":1,"skipped":[],"next":"call maa_start"}"#);
}

#[test]
fn the_core_library_is_found_by_platform() {
    let yes = |_: &str| true;
    let no = |_: &str| false;
    assert_eq!(
        core_library_path(Platform::MacOs, "/Applications/MAA.app/Contents/Frameworks", &yes).unwrap(),
        "/Applications/MAA.app/Contents/Frameworks/libMaaCore.dylib"
    );
    assert_eq!(core_library_path(Platform::Windows, "C:\\MAA", &yes).unwrap(), "C:\\MAA\\MaaCore.dll");
    let err = core_library_path(Platform::MacOs, "/nowhere", &no).unwrap_err();
    assert!(matches!(err, Error::CoreNotFound(_)));
    assert!(err.message().starts_with("No MaaCore library at /nowhere/libMaaCore.dylib"));
    assert!(core_library_path(Platform::Other, "/x", &yes).is_err());
    let (lib, res) = doctor_paths(Platform::MacOs, "/core", "/res");
    assert_eq!(lib, "/core/libMaaCore.dylib");
    assert_eq!(res, "/res/resource");
}

#[test]
fn core_flags_become_results() {
    assert!(bool_result(1, "AsstSetInstanceOption").is_ok());
    assert_eq!(
        bool_result(0, "AsstSetInstanceOption").unwrap_err().message(),
        "AsstSetInstanceOption returned false; check the MaaCore log for details"
    );
}

#[test]
fn tool_answers_have_their_fields() {
    assert_eq!(to_text(&ok_json()), r#"{"ok":true}"#);
    assert_eq!(
        to_text(&start_json(vec![1, 2], vec!["Fight".to_string(), "Award".to_string()], 9)),
        r#"{"started":[1,2],"task_types":["Fight","Award"],"next_seq":9}"#
    );
    let stop = stop_json(&StopResult { stopped: true, cleared_tasks: 2, reason: None });
    assert!(to_text(&stop).starts_with(r#"{"stopped":true,"cleared_tasks":2"#));
    assert_eq!(to_text(&tap_json(1815, 82, "maacore")), r#"{"ok":true,"device_x":1815,"device_y":82,"via":"maacore"}"#);
}

#[test]
fn daily_presets_spend_only_the_medicine_given() {
    for step in ["StartUp", "Fight", "Recruit", "Infrast", "Mall", "Award", "CloseDown"] {
        let preset = daily_preset(step, "Official", "1-7", 3, true).unwrap();
        let fields = match preset {
            Json::Object(f) => f,
            other => panic!("preset of {step} is not an object: {}", to_text(&other)),
        };
        for (key, value) in &fields {
            assert_ne!(key, "stone");
            if key == "medicine" {
                assert_eq!(step, "Fight");
                assert_eq!(to_text(value), "3");
            }
        }
    }
}
