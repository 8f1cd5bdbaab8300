use vstd::prelude::*;
use vstd::string::*;

use crate::json::{get_str, Json};
use crate::text::{int_text, push_char, str_eq, write_i64};

pub mod msg;

verus! {

/// The callback message name of a known message id.
pub open spec fn known_name(id: i32) -> Option<Seq<char>> {
    if id == 0 {
        Some("INTERNAL_ERROR"@)
    } else if id == 1 {
        Some("INIT_FAILED"@)
    } else if id == 2 {
        Some("CONNECTION_INFO"@)
    } else if id == 3 {
        Some("ALL_TASKS_COMPLETED"@)
    } else if id == 4 {
        Some("ASYNC_CALL_INFO"@)
    } else if id == 5 {
        Some("DESTROYED"@)
    } else if id == 10000 {
        Some("TASK_CHAIN_ERROR"@)
    } else if id == 10001 {
        Some("TASK_CHAIN_START"@)
    } else if id == 10002 {
        Some("TASK_CHAIN_COMPLETED"@)
    } else if id == 10003 {
        Some("TASK_CHAIN_EXTRA_INFO"@)
    } else if id == 10004 {
        Some("TASK_CHAIN_STOPPED"@)
    } else if id == 20000 {
        Some("SUB_TASK_ERROR"@)
    } else if id == 20001 {
        Some("SUB_TASK_START"@)
    } else if id == 20002 {
        Some("SUB_TASK_COMPLETED"@)
    } else if id == 20003 {
        Some("SUB_TASK_EXTRA_INFO"@)
    } else if id == 20004 {
        Some("SUB_TASK_STOPPED"@)
    } else if id == 30000 {
        Some("REPORT_REQUEST"@)
    } else {
        None
    }
}

/// The name of a message id: its protocol name, or `Unknown(<id>)`.
pub open spec fn message_name_text(id: i32) -> Seq<char> {
    match known_name(id) {
        Some(n) => n,
        None => "Unknown("@ + int_text(id as int) + ")"@,
    }
}

/// The ids that report an error.
pub open spec fn is_error_id(id: i32) -> bool {
    id == msg::INTERNAL_ERROR || id == msg::INIT_FAILED || id == msg::TASK_CHAIN_ERROR || id
        == msg::SUB_TASK_ERROR
}

/// The ids a human cares about whatever their payload.
pub open spec fn is_significant_id(id: i32) -> bool {
    id == msg::INTERNAL_ERROR || id == msg::INIT_FAILED || id == msg::CONNECTION_INFO || id
        == msg::ALL_TASKS_COMPLETED || id == msg::TASK_CHAIN_ERROR || id == msg::TASK_CHAIN_START
        || id == msg::TASK_CHAIN_COMPLETED || id == msg::TASK_CHAIN_STOPPED || id
        == msg::SUB_TASK_ERROR || id == msg::SUB_TASK_STOPPED
}

/// The `what` values of the copilot battle callbacks.
pub open spec fn is_battle_what_text(w: Seq<char>) -> bool {
    w == "BattleFormation"@ || w == "BattleFormationSelected"@ || w
        == "BattleFormationOperUnavailable"@ || w == "BattleFormationParseFailed"@ || w
        == "UnsupportedLevel"@ || w == "CopilotAction"@ || w == "UserAdditionalOperInvalid"@
}

/// The battle `what` values that mean the battle could not be set up.
pub open spec fn is_battle_failure_what_text(w: Seq<char>) -> bool {
    w == "BattleFormationOperUnavailable"@ || w == "BattleFormationParseFailed"@ || w
        == "UnsupportedLevel"@ || w == "UserAdditionalOperInvalid"@
}

/// Whether an event with this id and payload is one a human cares about.
pub open spec fn is_significant_spec(id: i32, payload: crate::json::JsonV) -> bool {
    if is_significant_id(id) {
        true
    } else if id == msg::SUB_TASK_EXTRA_INFO {
        match get_str(payload, "what"@) {
            Some(w) => is_battle_what_text(w),
            None => false,
        }
    } else {
        false
    }
}

fn known(s: &str) -> (r: String)
    ensures
        r@ == s@,
{
    String::from_str(s)
}

/// The protocol name of a callback message id.
pub fn message_name(id: i32) -> (r: String)
    ensures
        r@ == message_name_text(id),
{
    if id == 0 {
        known("INTERNAL_ERROR")
    } else if id == 1 {
        known("INIT_FAILED")
    } else if id == 2 {
        known("CONNECTION_INFO")
    } else if id == 3 {
        known("ALL_TASKS_COMPLETED")
    } else if id == 4 {
        known("ASYNC_CALL_INFO")
    } else if id == 5 {
        known("DESTROYED")
    } else if id == 10000 {
        known("TASK_CHAIN_ERROR")
    } else if id == 10001 {
        known("TASK_CHAIN_START")
    } else if id == 10002 {
        known("TASK_CHAIN_COMPLETED")
    } else if id == 10003 {
        known("TASK_CHAIN_EXTRA_INFO")
    } else if id == 10004 {
        known("TASK_CHAIN_STOPPED")
    } else if id == 20000 {
        known("SUB_TASK_ERROR")
    } else if id == 20001 {
        known("SUB_TASK_START")
    } else if id == 20002 {
        known("SUB_TASK_COMPLETED")
    } else if id == 20003 {
        known("SUB_TASK_EXTRA_INFO")
    } else if id == 20004 {
        known("SUB_TASK_STOPPED")
    } else if id == 30000 {
        known("REPORT_REQUEST")
    } else {
        let mut s = String::from_str("Unknown(");
        write_i64(&mut s, id as i64);
        push_char(&mut s, ')');
        proof {
            reveal_strlit(")");
            assert(s@ =~= message_name_text(id));
        }
        s
    }
}

/// Whether the message id reports an error.
pub fn is_error(id: i32) -> (r: bool)
    ensures
        r == is_error_id(id),
{
    id == msg::INTERNAL_ERROR || id == msg::INIT_FAILED || id == msg::TASK_CHAIN_ERROR || id
        == msg::SUB_TASK_ERROR
}

/// Whether `w` is the `what` of a copilot battle callback.
pub fn is_battle_what(w: &str) -> (r: bool)
    ensures
        r == is_battle_what_text(w@),
{

    str_eq(w, "BattleFormation") || str_eq(w, "BattleFormationSelected") || str_eq(
        w,
        "BattleFormationOperUnavailable",
    ) || str_eq(w, "BattleFormationParseFailed") || str_eq(w, "UnsupportedLevel") || str_eq(
        w,
        "CopilotAction",
    ) || str_eq(w, "UserAdditionalOperInvalid")
}

/// Whether `w` is a battle `what` that means the battle could not be set up.
pub fn is_battle_failure_what(w: &str) -> (r: bool)
    ensures
        r == is_battle_failure_what_text(w@),
{

    str_eq(w, "BattleFormationOperUnavailable") || str_eq(w, "BattleFormationParseFailed")
        || str_eq(w, "UnsupportedLevel") || str_eq(w, "UserAdditionalOperInvalid")
}

/// Whether an event is significant: its id is, or it is a sub-task extra info whose
/// `what` names a copilot battle callback.
pub fn is_significant(id: i32, payload: &Json) -> (r: bool)
    ensures
        r == is_significant_spec(id, payload@),
{
    if id == msg::INTERNAL_ERROR || id == msg::INIT_FAILED || id == msg::CONNECTION_INFO || id
        == msg::ALL_TASKS_COMPLETED || id == msg::TASK_CHAIN_ERROR || id == msg::TASK_CHAIN_START
        || id == msg::TASK_CHAIN_COMPLETED || id == msg::TASK_CHAIN_STOPPED || id
        == msg::SUB_TASK_ERROR || id == msg::SUB_TASK_STOPPED {
        return true;
    }
    if id == msg::SUB_TASK_EXTRA_INFO {
        return match payload.get_str("what") {
            Some(w) => is_battle_what(w.as_str()),
            None => false,
        };
    }
    false
}

/// Every error id is a significant id.
pub proof fn error_ids_are_significant(id: i32)
    ensures
        is_error_id(id) ==> is_significant_id(id),
{
}

/// Every battle failure `what` is a battle `what`.
pub proof fn battle_failures_are_battle_whats(w: Seq<char>)
    ensures
        is_battle_failure_what_text(w) ==> is_battle_what_text(w),
{
}

} // verus!
