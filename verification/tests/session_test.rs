use std::time::{Duration, Instant};

use arkd_core::battle_state::{diagnose, report_json};
use arkd_core::error::Error;
use arkd_core::json::{to_text, Json};
use arkd_core::config::Platform;
use arkd_core::session::{
    bgr_frame, callback_payload, check_wait, connect_failed, connected_info, no_frame,
    require_connection, resolve_paths, single_step_params, start_declined, QueuedTask,
    SessionState, WaitCondition, wait_turn, WaitTurn,
};

fn to_json(v: serde_json::Value) -> Json {
    match v {
        serde_json::Value::Null => Json::Null,
        serde_json::Value::Bool(b) => Json::Bool(b),
        serde_json::Value::Number(n) => {
            if let Some(i) = n.as_i64() {
                Json::Int(i)
            } else if let Some(u) = n.as_u64() {
                Json::UInt(u)
            } else {
                let f = n.as_f64().unwrap();
                Json::Float(n.to_string(), f.to_bits())
            }
        }
        serde_json::Value::String(s) => Json::Str(s),
        serde_json::Value::Array(a) => Json::Array(a.into_iter().map(to_json).collect()),
        serde_json::Value::Object(m) => {
            Json::Object(m.into_iter().map(|(k, v)| (k, to_json(v))).collect())
        }
    }
}

fn parse(text: &str) -> Json {
    to_json(serde_json::from_str(text).unwrap())
}

fn session_with_events(max_events: usize) -> SessionState {
    SessionState::new(max_events)
}

fn connect(s: &mut SessionState) {
    s.set_connection(connected_info("adb", "127.0.0.1:5555", "General", "maatouch", None));
}

fn connected() -> SessionState {
    let mut s = session_with_events(2000);
    connect(&mut s);
    s
}

/// A callback as the core delivers it: the id and its JSON text.
fn emit(s: &mut SessionState, id: i32, text: &str) {
    let parsed = serde_json::from_str::<serde_json::Value>(text).ok().map(to_json);
    s.on_callback(id, callback_payload(parsed, text));
}

fn append(s: &mut SessionState, task_id: i32, task_type: &str, params: &str) -> QueuedTask {
    s.record_appended(task_id, task_type.to_string(), parse(params)).unwrap()
}

/// Queues a copilot task, starts it and reports its chain as started.
fn start_copilot(s: &mut SessionState, task_id: i32, stage: &str) {
    append(s, task_id, "Copilot", &format!(r#"{{"filename": "{stage}.json"}}"#));
    s.pending().unwrap();
    emit(s, 10001, &format!(r#"{{"taskchain": "Copilot", "taskid": {task_id}}}"#));
}

fn formation_events(
    s: &mut SessionState,
    unavailable: &[(&str, &str)],
    selected: &[(&str, &str)],
    groups: &[&str],
) {
    let groups: Vec<String> = groups.iter().map(|g| format!("\"{g}\"")).collect();
    emit(
        s,
        20003,
        &format!(
            r#"{{"what": "BattleFormation", "details": {{"formation": [{}]}}}}"#,
            groups.join(", ")
        ),
    );
    for (oper, req) in unavailable {
        emit(
            s,
            20003,
            &format!(
                r#"{{"what": "BattleFormationOperUnavailable", "details": {{"oper_name": "{oper}", "requirement_type": "{req}"}}}}"#
            ),
        );
    }
    for (oper, group) in selected {
        emit(
            s,
            20003,
            &format!(
                r#"{{"what": "BattleFormationSelected", "details": {{"selected": "{oper}", "group_name": "{group}"}}}}"#
            ),
        );
    }
}

fn elapsed_ns(at: Option<Instant>) -> Option<u64> {
    at.map(|t| Instant::now().duration_since(t).as_nanos() as u64)
}

/// The battle's diagnosis now: status, diagnosis and problems.
fn battle_status(s: &SessionState, running: bool, stall: Duration) -> (String, String, Vec<String>) {
    let b = s.battle();
    diagnose(
        b,
        running,
        elapsed_ns(b.last_action_at),
        elapsed_ns(b.started_at),
        stall.as_nanos() as u64,
    )
}

/// Lets `ms` milliseconds pass.
fn pause(ms: u64) {
    let t = Instant::now();
    while t.elapsed() < Duration::from_millis(ms) {}
}

fn task_state(s: &SessionState, k: usize) -> String {
    s.tasks()[k].get_str("state").unwrap().clone()
}

#[test]
fn failed_connect_explains_what_to_check() {
    let err = connect_failed(
        "127.0.0.1:9999",
        "adb",
        "General",
        Some("device offline".to_string()),
        "AsstConnect returned false",
    );
    let msg = err.message();
    assert!(matches!(err, Error::DeviceConnection(_)));
    assert!(msg.contains("127.0.0.1:9999"), "{msg}");
    assert!(msg.contains("device offline"), "{msg}");
    assert!(msg.contains("adb devices"), "{msg}");
}

#[test]
fn operations_require_a_connection() {
    let err = require_connection(false).unwrap_err();
    assert!(matches!(err, Error::NotConnected(_)));
    assert!(err.message().contains("device_connect"));
    assert!(require_connection(true).is_ok());
}

#[test]
fn append_task_records_the_queue() {
    let mut s = connected();
    let task = append(&mut s, 1, "Fight", r#"{"stage": "1-7", "times": 3}"#);
    assert_eq!(task.state, "queued");
    assert_eq!(task.task_id, 1);
    assert_eq!(task.task_type, "Fight");
    let tasks = s.tasks();
    assert_eq!(tasks.len(), 1);
    assert_eq!(tasks[0].get_str("task_type").unwrap(), "Fight");
}

#[test]
fn append_task_reports_a_core_refusal() {
    let mut s = connected();
    let err = s.record_appended(0, "Fight".to_string(), parse(r#"{"stage": "XX-9"}"#)).err().unwrap();
    let msg = err.message();
    assert!(msg.contains("AsstAppendTask returned 0"), "{msg}");
    assert!(s.tasks().is_empty());
}

#[test]
fn set_task_params_rejects_an_unknown_id() {
    let mut s = connected();
    append(&mut s, 1, "Depot", "{}");
    let err = s.task_type_of(99).unwrap_err();
    let msg = err.message();
    assert!(msg.contains("Queued ids: 1"), "{msg}");
    assert!(s.set_params(99, parse("{}")).is_none());
}

#[test]
fn set_task_params_updates_the_core() {
    let mut s = connected();
    let task = append(&mut s, 1, "Fight", r#"{"stage": "1-7"}"#);
    assert_eq!(s.task_type_of(task.task_id).unwrap(), "Fight");
    let described = s.set_params(task.task_id, parse(r#"{"stage": "1-7", "times": 9}"#)).unwrap();
    assert_eq!(described.get("params").unwrap().get_i64("times"), Some(9));
    assert_eq!(s.tasks()[0].get("params").unwrap().get_i64("times"), Some(9));
}

#[test]
fn start_requires_something_queued() {
    let s = connected();
    let msg = s.pending().err().unwrap().message();
    assert!(msg.contains("maa_append"), "{msg}");
}

#[test]
fn start_moves_tasks_to_running() {
    let mut s = connected();
    append(&mut s, 1, "Fight", r#"{"stage": "1-7"}"#);
    append(&mut s, 2, "Award", "{}");
    let result = s.pending().unwrap();
    assert_eq!(result.started, vec![1, 2]);
    assert_eq!(result.task_types, vec!["Fight".to_string(), "Award".to_string()]);
    emit(&mut s, 10001, r#"{"taskchain": "Fight", "taskid": 1}"#);
    emit(&mut s, 10001, r#"{"taskchain": "Award", "taskid": 2}"#);
    assert!(s.tasks().iter().all(|t| t.get_str("state").unwrap() == "running"));
}

#[test]
fn run_completion_is_folded_into_task_state() {
    let mut s = connected();
    append(&mut s, 1, "Fight", r#"{"stage": "1-7"}"#);
    s.pending().unwrap();
    emit(&mut s, 10001, r#"{"taskchain": "Fight", "taskid": 1}"#);
    emit(&mut s, 10002, r#"{"taskchain": "Fight", "taskid": 1}"#);
    emit(&mut s, 3, r#"{"taskchain": "Fight"}"#);
    assert!(s.tasks().iter().all(|t| t.get_str("state").unwrap() == "completed"));
    let counts = s.task_counts();
    assert!(counts.iter().any(|(k, n)| k == "completed" && *n == 1));
}

#[test]
fn stop_clears_the_queue_and_marks_tasks_stopped() {
    let mut s = connected();
    append(&mut s, 1, "Fight", r#"{"stage": "1-7"}"#);
    s.pending().unwrap();
    let result = s.stop_all(true);
    assert!(result.stopped);
    assert_eq!(result.cleared_tasks, 1);
    assert!(s.tasks().is_empty());
}

#[test]
fn task_chain_error_is_recorded_as_last_error() {
    let mut s = connected();
    append(&mut s, 1, "Fight", r#"{"stage": "1-7"}"#);
    s.pending().unwrap();
    emit(&mut s, 10000, r#"{"taskchain": "Fight", "taskid": 1, "why": "stage not found"}"#);
    assert_eq!(s.last_error().as_deref(), Some("stage not found"));
    assert_eq!(task_state(&s, 0), "error");
}

#[test]
fn connection_loss_is_reflected_in_status() {
    let mut s = connected();
    assert!(s.connection().is_some());
    emit(&mut s, 2, r#"{"what": "Disconnect", "why": "emulator closed"}"#);
    assert!(s.connection().is_none());
}

#[test]
fn events_are_returned_newest_after_the_cursor() {
    let mut s = connected();
    append(&mut s, 1, "Fight", r#"{"stage": "1-7"}"#);
    s.pending().unwrap();
    emit(&mut s, 10001, r#"{"taskchain": "Fight", "taskid": 1}"#);
    let first = s.events(0, 10, true, false);
    assert!(first.count >= 1);
    assert_eq!(first.next_seq, first.latest_seq);

    emit(&mut s, 10002, r#"{"taskchain": "Fight", "taskid": 1}"#);
    emit(&mut s, 3, r#"{"taskchain": "Fight"}"#);
    let second = s.events(first.next_seq, 10, true, false);
    assert!(second.count >= 1);
    assert!(second
        .events
        .iter()
        .all(|e| e.get_i64("seq").unwrap() as u64 > first.next_seq));
}

#[test]
fn events_limit_sets_has_more() {
    let mut s = connected();
    for _ in 0..5 {
        emit(&mut s, 10002, r#"{"taskchain": "Fight", "taskid": 1}"#);
    }
    let page = s.events(0, 2, true, false);
    assert_eq!(page.count, 2);
    assert!(page.has_more);
}

#[test]
fn significant_filter_drops_subtask_chatter() {
    let mut s = connected();
    emit(&mut s, 20003, r#"{"what": "StageDrops", "details": {}}"#);
    emit(&mut s, 10002, r#"{"taskchain": "Fight", "taskid": 1}"#);
    let filtered = s.events(0, 50, true, false);
    assert!(filtered
        .events
        .iter()
        .all(|e| e.get_str("message").unwrap() != "SUB_TASK_EXTRA_INFO"));
    let unfiltered = s.events(0, 50, false, false);
    assert!(unfiltered
        .events
        .iter()
        .any(|e| e.get_str("message").unwrap() == "SUB_TASK_EXTRA_INFO"));
}

#[test]
fn payload_is_omitted_unless_requested() {
    let mut s = connected();
    emit(&mut s, 10000, r#"{"taskchain": "Fight", "taskid": 1, "why": "boom"}"#);
    let lean = s.events(0, 10, true, false);
    let last = lean.events.last().unwrap();
    assert!(last.get("payload").is_none());
    assert_eq!(last.get_str("why").unwrap(), "boom");
    let full = s.events(0, 10, true, true);
    let payload = full.events.last().unwrap().get("payload").unwrap();
    assert_eq!(payload.get_str("taskchain").unwrap(), "Fight");
}

#[test]
fn ring_buffer_reports_dropped_events() {
    let mut s = session_with_events(5);
    connect(&mut s);
    for index in 0..20 {
        emit(&mut s, 10002, &format!(r#"{{"taskchain": "Fight", "taskid": {index}}}"#));
    }
    let page = s.events(1, 50, false, false);
    assert!(page.dropped > 0);
}

#[test]
fn malformed_callback_json_is_kept_not_dropped() {
    let mut s = connected();
    emit(&mut s, 10003, "not json at all");
    let events = s.events(0, 50, false, true);
    let payload = events.events.last().unwrap().get("payload").unwrap();
    assert_eq!(payload.get_str("raw").unwrap(), "not json at all");
}

#[test]
fn a_non_object_callback_is_wrapped() {
    let p = callback_payload(Some(parse("[1, 2]")), "[1, 2]");
    assert_eq!(to_text(&p), r#"{"raw":[1,2]}"#);
    let q = callback_payload(Some(parse(r#"{"a": 1}"#)), r#"{"a": 1}"#);
    assert_eq!(to_text(&q), r#"{"a":1}"#);
}

#[test]
fn screenshot_without_a_frame_explains_why() {
    let err = no_frame();
    assert!(matches!(err, Error::NotConnected(_)));
    let msg = err.message();
    assert!(msg.contains("no frame to return"), "{msg}");
}

#[test]
fn a_frame_must_fill_its_size() {
    assert!(bgr_frame(2, 2, vec![0; 12]).is_ok());
    assert!(bgr_frame(2, 2, vec![0; 11]).is_err());
}

#[test]
fn a_declined_start_says_why() {
    let msg = start_declined().message();
    assert!(msg.contains("AsstStart returned false"), "{msg}");
}

#[test]
fn wait_rejects_an_unknown_condition() {
    assert!(WaitCondition::from_str("whenever").is_err());
    assert!(matches!(WaitCondition::from_str("all_done"), Ok(WaitCondition::AllDone)));
    assert_eq!(WaitCondition::BattleStalled.name(), "battle_stalled");
}

#[test]
fn wait_for_task_done_needs_a_task_id() {
    let err = check_wait(WaitCondition::TaskDone, None).unwrap_err();
    assert!(matches!(err, Error::Validation(_)));
    let msg = err.message();
    assert!(msg.contains("needs a task_id"), "{msg}");
    assert!(check_wait(WaitCondition::TaskDone, Some(1)).is_ok());
}

#[test]
fn wait_returns_at_once_when_the_condition_already_holds() {
    let s = connected();
    let r = s.condition_met(false, WaitCondition::AllDone, None, 0, None, None, 90_000_000_000);
    assert_eq!(r.as_deref(), Some("all_done"));
}

#[test]
fn wait_for_a_specific_task() {
    let mut s = connected();
    let task = append(&mut s, 1, "Fight", r#"{"stage": "1-7"}"#);
    let other = append(&mut s, 2, "Award", "{}");
    s.pending().unwrap();
    emit(&mut s, 10002, &format!(r#"{{"taskchain": "Fight", "taskid": {}}}"#, task.task_id));
    let done = s.condition_met(true, WaitCondition::TaskDone, Some(task.task_id), 0, None, None, 90_000_000_000);
    assert_eq!(done.as_deref(), Some("task_completed"));
    let pending =
        s.condition_met(true, WaitCondition::TaskDone, Some(other.task_id), 0, None, None, 90_000_000_000);
    assert!(pending.is_none());
}

#[test]
fn wait_for_error_catches_a_failing_chain() {
    let mut s = connected();
    append(&mut s, 1, "Fight", r#"{"stage": "1-7"}"#);
    s.pending().unwrap();
    assert!(s.condition_met(true, WaitCondition::Error, None, 0, None, None, 90_000_000_000).is_none());
    emit(&mut s, 10000, r#"{"taskchain": "Fight", "taskid": 1, "why": "stage not found"}"#);
    let r = s.condition_met(true, WaitCondition::Error, None, 0, None, None, 90_000_000_000).unwrap();
    assert!(matches!(r.as_str(), "error_event" | "task_error"), "{r}");
}

#[test]
fn wait_for_any_event_ignores_subtask_chatter() {
    let mut s = connected();
    let seq = s.latest_event_seq();
    emit(&mut s, 20003, r#"{"what": "StageDrops"}"#);
    assert!(s.condition_met(true, WaitCondition::AnyEvent, None, seq, None, None, 90_000_000_000).is_none());
    emit(&mut s, 10002, r#"{"taskchain": "Fight", "taskid": 1}"#);
    let r = s.condition_met(true, WaitCondition::AnyEvent, None, seq, None, None, 90_000_000_000);
    assert_eq!(r.as_deref(), Some("event"));
}

#[test]
fn wait_only_counts_events_after_the_cursor() {
    let mut s = connected();
    emit(&mut s, 10002, r#"{"taskchain": "Fight", "taskid": 1}"#);
    let seq = s.latest_event_seq();
    let hit = s.condition_met(true, WaitCondition::AnyEvent, None, 0, None, None, 90_000_000_000);
    assert_eq!(hit.as_deref(), Some("event"));
    assert!(s.condition_met(true, WaitCondition::AnyEvent, None, seq, None, None, 90_000_000_000).is_none());
}

#[test]
fn no_battle_before_one_runs() {
    let s = connected();
    let (status, _, problems) = battle_status(&s, false, Duration::from_secs(90));
    assert_eq!(status, "no_battle");
    assert!(problems.is_empty());
}

#[test]
fn a_squad_nobody_could_fill_is_diagnosed() {
    let mut s = connected();
    start_copilot(&mut s, 1, "1-7");
    formation_events(&mut s, &[("Thorns", "elite"), ("Mlynar", "level")], &[], &["Group A"]);
    emit(&mut s, 10002, r#"{"taskchain": "Copilot", "taskid": 1}"#);
    let (status, diagnosis, _) = battle_status(&s, true, Duration::from_secs(90));
    assert_eq!(status, "problem");
    assert!(diagnosis.contains("None of the job's operators could be fielded"), "{diagnosis}");
    assert!(diagnosis.contains("Thorns (needs elite)"), "{diagnosis}");
    assert!(diagnosis.contains("Mlynar (needs level)"), "{diagnosis}");
    assert!(s.battle().selected.is_empty());
    assert_eq!(s.battle().actions_run, 0);
    assert_eq!(task_state(&s, 0), "completed");
}

#[test]
fn a_partly_filled_squad_reads_differently() {
    let mut s = connected();
    start_copilot(&mut s, 1, "1-7");
    formation_events(&mut s, &[("Thorns", "module")], &[("Ptilopsis", "Group A")], &["Group A"]);
    let (status, diagnosis, _) = battle_status(&s, true, Duration::from_secs(90));
    assert_eq!(status, "problem");
    assert!(diagnosis.contains("only partly filled"), "{diagnosis}");
    assert!(diagnosis.contains("1 placed"), "{diagnosis}");
}

#[test]
fn an_unsupported_stage_is_diagnosed() {
    let mut s = connected();
    start_copilot(&mut s, 1, "1-7");
    emit(&mut s, 20003, r#"{"what": "UnsupportedLevel", "details": {"level": "SV-9"}}"#);
    let (status, diagnosis, _) = battle_status(&s, true, Duration::from_secs(90));
    assert_eq!(status, "problem");
    assert!(diagnosis.contains("'SV-9'"), "{diagnosis}");
    assert!(diagnosis.contains("no tile data"), "{diagnosis}");
}

#[test]
fn an_unparseable_job_is_diagnosed() {
    let mut s = connected();
    start_copilot(&mut s, 1, "1-7");
    emit(&mut s, 20003, r#"{"what": "BattleFormationParseFailed", "details": {}}"#);
    let (status, diagnosis, _) = battle_status(&s, true, Duration::from_secs(90));
    assert_eq!(status, "problem");
    assert!(diagnosis.contains("duplicate group names"), "{diagnosis}");
}

#[test]
fn unknown_operator_names_are_diagnosed() {
    let mut s = connected();
    start_copilot(&mut s, 1, "1-7");
    emit(
        &mut s,
        20000,
        r#"{"what": "UserAdditionalOperInvalid", "details": {"name": "Nonexistent"}}"#,
    );
    let (status, diagnosis, _) = battle_status(&s, true, Duration::from_secs(90));
    assert_eq!(status, "problem");
    assert!(diagnosis.contains("'Nonexistent'"), "{diagnosis}");
}

#[test]
fn a_healthy_battle_reads_ok() {
    let mut s = connected();
    start_copilot(&mut s, 1, "1-7");
    formation_events(
        &mut s,
        &[],
        &[("Ptilopsis", "Group A"), ("Thorns", "Group B")],
        &["Group A"],
    );
    for index in 0..3 {
        emit(
            &mut s,
            20003,
            &format!(
                r#"{{"what": "CopilotAction", "details": {{"action": "Deploy", "target": "Oper{index}", "doc": "", "elapsed_time": {}}}}}"#,
                index * 1000
            ),
        );
    }
    let (status, _, _) = battle_status(&s, true, Duration::from_secs(90));
    assert_eq!(status, "ok");
    let b = s.battle();
    assert_eq!(b.actions_run, 3);
    assert_eq!(b.last_action.as_ref().unwrap().get_str("target").unwrap(), "Oper2");
    assert!(b.last_action_at.is_some());
}

#[test]
fn battle_state_resets_between_battles() {
    let mut s = connected();
    start_copilot(&mut s, 1, "1-7");
    formation_events(&mut s, &[("Thorns", "elite")], &[], &["Group A"]);
    assert_eq!(battle_status(&s, true, Duration::from_secs(90)).0, "problem");
    emit(&mut s, 10001, r#"{"taskchain": "Copilot", "taskid": 2}"#);
    assert!(s.battle().unavailable.is_empty());
    assert_eq!(battle_status(&s, true, Duration::from_secs(90)).0, "ok");
}

#[test]
fn battle_events_survive_the_significance_filter() {
    let mut s = connected();
    let seq = s.latest_event_seq();
    emit(&mut s, 20003, r#"{"what": "StageDrops", "details": {}}"#);
    emit(
        &mut s,
        20003,
        r#"{"what": "BattleFormationOperUnavailable", "details": {"oper_name": "Thorns", "requirement_type": "elite"}}"#,
    );
    let page = s.events(seq, 50, true, false);
    let whats: Vec<String> = page.events.iter().filter_map(|e| e.get_str("what").cloned()).collect();
    assert!(whats.iter().any(|w| w == "BattleFormationOperUnavailable"));
    assert!(!whats.iter().any(|w| w == "StageDrops"));
    let entry = page
        .events
        .iter()
        .find(|e| e.get_str("what").map(|w| w.as_str()) == Some("BattleFormationOperUnavailable"))
        .unwrap();
    assert_eq!(entry.get("details").unwrap().get_str("oper_name").unwrap(), "Thorns");
}

#[test]
fn a_formation_failure_shows_up_as_last_error() {
    let mut s = connected();
    start_copilot(&mut s, 1, "1-7");
    formation_events(&mut s, &[("Thorns", "elite")], &[], &["Group A"]);
    assert!(s.last_error().unwrap().contains("BattleFormationOperUnavailable"));
}

#[test]
fn waiting_for_a_battle_problem() {
    let mut s = connected();
    start_copilot(&mut s, 1, "1-7");
    let quiet = s.condition_met_now(true, WaitCondition::BattleProblem, None, 0, 90_000_000_000);
    assert!(quiet.is_none());
    formation_events(&mut s, &[("Thorns", "elite")], &[], &["Group A"]);
    let hit = s.condition_met_now(true, WaitCondition::BattleProblem, None, 0, 90_000_000_000);
    assert_eq!(hit.as_deref(), Some("battle_problem"));
}

#[test]
fn a_stall_is_detected_after_the_threshold() {
    let mut s = connected();
    start_copilot(&mut s, 1, "1-7");
    formation_events(&mut s, &[], &[("Ptilopsis", "Group A")], &["Group A"]);
    pause(50);
    assert_eq!(battle_status(&s, true, Duration::from_secs(60)).0, "ok");
    let (status, diagnosis, _) = battle_status(&s, true, Duration::from_millis(20));
    assert_eq!(status, "stalled");
    assert!(diagnosis.contains("not executed a single copilot action"), "{diagnosis}");
}

#[test]
fn a_mid_battle_stall_names_the_last_action() {
    let mut s = connected();
    start_copilot(&mut s, 1, "1-7");
    formation_events(&mut s, &[], &[("Ptilopsis", "Group A")], &["Group A"]);
    emit(
        &mut s,
        20003,
        r#"{"what": "CopilotAction", "details": {"action": "Deploy", "target": "Ptilopsis"}}"#,
    );
    pause(50);
    assert_eq!(battle_status(&s, true, Duration::from_secs(60)).0, "ok");
    let (status, diagnosis, _) = battle_status(&s, true, Duration::from_millis(20));
    assert_eq!(status, "stalled");
    assert!(diagnosis.contains("'Deploy'"), "{diagnosis}");
    assert!(diagnosis.contains("'Ptilopsis'"), "{diagnosis}");
}

#[test]
fn a_stall_only_counts_while_running() {
    let mut s = connected();
    start_copilot(&mut s, 1, "1-7");
    formation_events(&mut s, &[], &[("Ptilopsis", "Group A")], &["Group A"]);
    pause(50);
    assert_eq!(battle_status(&s, true, Duration::from_millis(20)).0, "stalled");
    assert_eq!(battle_status(&s, false, Duration::from_millis(20)).0, "ok");
}

#[test]
fn single_step_queues_and_starts() {
    let mut s = connected();
    let params = single_step_params(false, "stage", Some(parse(r#"{"stage_name": "1-7"}"#))).unwrap();
    s.record_appended(1, "SingleStep".to_string(), params).unwrap();
    let tasks = s.tasks();
    assert_eq!(tasks[0].get_str("task_type").unwrap(), "SingleStep");
    assert_eq!(
        to_text(tasks[0].get("params").unwrap()),
        r#"{"type":"copilot","subtype":"stage","details":{"stage_name":"1-7"}}"#
    );
}

#[test]
fn single_step_refuses_while_a_run_is_in_progress() {
    let err = single_step_params(true, "start", None).unwrap_err();
    assert!(matches!(err, Error::Validation(_)));
    let msg = err.message();
    assert!(msg.contains("maa_stop first"), "{msg}");
}

fn lexical(_: &str) -> Option<String> {
    None
}

#[test]
fn job_dir_rejects_paths_that_escape_it() {
    let err = resolve_paths(
        Platform::MacOs,
        parse(r#"{"filename": "../../etc/passwd"}"#),
        Some("/srv/arkd-jobs"),
        &lexical,
    )
    .unwrap_err();
    assert!(matches!(err, Error::Validation(_)));
    let msg = err.message();
    assert!(msg.contains("ARKD_JOB_DIR"), "{msg}");
}

#[test]
fn job_dir_resolves_relative_paths() {
    let canon = |p: &str| -> Option<String> {
        if p == "/srv/jobs" || p == "/srv/jobs/a.json" {
            Some(p.replace("/srv", "/data"))
        } else {
            None
        }
    };
    let params = resolve_paths(Platform::MacOs, parse(r#"{"filename": "a.json"}"#), Some("/srv/jobs"), &canon).unwrap();
    assert_eq!(params.get_str("filename").unwrap(), "/data/jobs/a.json");
}

#[test]
fn without_job_dir_paths_pass_through() {
    let params = resolve_paths(Platform::MacOs, parse(r#"{"filename": "anywhere/a.json"}"#), None, &lexical).unwrap();
    assert_eq!(params.get_str("filename").unwrap(), "anywhere/a.json");
    let other = resolve_paths(Platform::MacOs, parse(r#"{"stage": "1-7"}"#), Some("/srv/jobs"), &lexical).unwrap();
    assert_eq!(to_text(&other), r#"{"stage":"1-7"}"#);
}

#[test]
fn zero_elapsed_is_reported_as_zero_not_missing() {
    let mut s = connected();
    start_copilot(&mut s, 1, "LS-1");
    emit(&mut s, 20003, r#"{"what": "CopilotAction", "details": {"action": "Deploy", "target": "X"}}"#);
    let b = s.battle();
    assert_eq!(b.actions_run, 1);
    let since = elapsed_ns(b.last_action_at).expect("a just-run action reports its elapsed time");
    assert!(since < 1_000_000_000, "{since}");
    let in_battle = elapsed_ns(b.started_at).expect("a just-started battle reports its elapsed time");
    assert!(in_battle < 1_000_000_000, "{in_battle}");
    let report = report_json(
        b,
        true,
        Some(since),
        Some(in_battle),
        90_000_000_000,
        Json::Float("0.0".to_string(), 0f64.to_bits()),
        Json::Float("0.0".to_string(), 0f64.to_bits()),
    );
    assert_eq!(report.get_str("status").unwrap(), "ok");
    assert_eq!(report.get_i64("actions_run"), Some(1));
    assert!(matches!(report.get("seconds_since_last_action"), Some(Json::Float(_, _))));
}

#[test]
fn the_report_lists_the_squad() {
    let mut s = connected();
    start_copilot(&mut s, 1, "1-7");
    formation_events(&mut s, &[("Thorns", "elite")], &[("Ptilopsis", "Group A")], &["Group A"]);
    let report = report_json(s.battle(), true, None, Some(5_000_000), 90_000_000_000, Json::Null, Json::Null);
    let text = to_text(&report);
    assert!(text.contains(r#""selected":[{"oper":"Ptilopsis","group":"Group A"}]"#), "{text}");
    assert!(text.contains(r#""unavailable":[{"oper":"Thorns","requirement":"elite"}]"#), "{text}");
    assert!(text.contains(r#""formation_groups":["Group A"]"#), "{text}");
    assert!(text.starts_with(r#"{"status":"problem""#), "{text}");
}

#[test]
fn task_state_follows_the_callbacks() {
    let mut s = connected();
    append(&mut s, 1, "Fight", r#"{"stage": "1-7"}"#);
    append(&mut s, 2, "Award", "{}");
    assert_eq!(s.task_state(1).as_deref(), Some("queued"));
    s.pending().unwrap();
    emit(&mut s, 10001, r#"{"taskchain": "Fight", "taskid": 1}"#);
    emit(&mut s, 10002, r#"{"taskchain": "Fight", "taskid": 1}"#);
    assert_eq!(s.task_state(1).as_deref(), Some("completed"));
    assert_eq!(s.task_state(2).as_deref(), Some("queued"));
    assert_eq!(s.task_state(3), None);
}

#[test]
fn status_reports_the_session() {
    let mut s = connected();
    append(&mut s, 1, "Fight", r#"{"stage": "1-7"}"#);
    s.set_frame_dims((1280, 720));
    let status = s.status("v5.1.0".to_string(), true, false);
    assert!(status.core_loaded);
    assert_eq!(status.task_counts, vec![("queued".to_string(), 1)]);
    let text = to_text(&status.into_json());
    assert!(text.starts_with(r#"{"core_loaded":true,"core_version":"v5.1.0","connected":true,"running":false,"connection":{"what":"#));
    assert!(text.contains(r#""task_counts":{"queued":1},"tasks":[{"task_id":1,"task_type":"Fight","state":"queued""#));
    assert!(text.ends_with(r#""latest_event_seq":0,"last_error":null,"frame_dims":[1280,720]}"#));
}

#[test]
fn status_reports_core_and_connection() {
    let s = connected();
    let status = s.status("v5.99.0-fake".to_string(), true, false);
    assert!(status.core_loaded);
    assert_eq!(status.core_version.as_deref(), Some("v5.99.0-fake"));
    assert!(status.connected);
    assert!(status.connection.is_some());
}

#[test]
fn click_requires_a_connection() {
    assert!(matches!(require_connection(false).unwrap_err(), Error::NotConnected(_)));
    assert!(require_connection(true).is_ok());
}

#[test]
fn a_wait_ends_when_its_condition_fires_or_its_time_is_up() {
    match wait_turn(Some("all_done".to_string()), 5, 1000) {
        WaitTurn::Finish(o) => {
            assert!(o.triggered);
            assert_eq!(o.reason, "all_done");
            assert_eq!(o.waited_ms, 5);
        }
        WaitTurn::Sleep { .. } => panic!("a met condition ends the wait"),
    }
    match wait_turn(None, 1000, 1000) {
        WaitTurn::Finish(o) => {
            assert!(!o.triggered);
            assert_eq!(o.reason, "");
            assert!(o.waited_ms >= 1000);
        }
        WaitTurn::Sleep { .. } => panic!("the time is up"),
    }
    assert!(matches!(wait_turn(None, 200, 1000), WaitTurn::Sleep { ms: 800 }));
    assert!(matches!(wait_turn(None, 200, 5000), WaitTurn::Sleep { ms: 1000 }));
}
