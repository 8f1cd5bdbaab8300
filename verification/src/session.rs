use vstd::prelude::*;
use vstd::string::*;

use crate::battle_state::{
    diagnose, diagnose_spec, fresh_battle, instant_now, nanos_between, note_event_post,
    BattleState,
};
use crate::error::Error;
use crate::config::Platform;
use crate::paths::{job_path_resolved, resolve_job_path};
use crate::events::{event_hits, iso, iso_text, Event, EventLog, EventsPage};
use crate::json::{
    field, lemma_insert_new_key, json_items, get_i64, get_str, json_as_i64, json_as_str, json_get, json_insert, json_text, to_text, Json,
    JsonV,
};
use crate::messages::{
    is_battle_failure_what, is_battle_failure_what_text, is_battle_what, is_battle_what_text,
    is_error, is_error_id, is_significant, is_significant_spec, message_name, message_name_text,
    msg,
};
use crate::text::{
    debug_str, debug_text, int_text, join_strings, join_text, nat_text, push_char, push_str,
    str_eq, strings_view, write_i64, write_u128, write_u64,
};

verus! {

broadcast use vstd::string::group_string_axioms;

/// The states a queued task goes through.
pub open spec fn is_task_state(s: Seq<char>) -> bool {
    s == "queued"@ || s == "running"@ || s == "completed"@ || s == "error"@ || s == "stopped"@
}

/// The states a task does not leave.
pub open spec fn is_terminal_state(s: Seq<char>) -> bool {
    s == "completed"@ || s == "error"@ || s == "stopped"@
}

/// The states in which a task still has work to do.
pub open spec fn is_pending_state(s: Seq<char>) -> bool {
    s == "queued"@ || s == "running"@
}

proof fn lemma_state_words()
    ensures
        "queued"@ != "running"@,
        "queued"@ != "completed"@,
        "queued"@ != "error"@,
        "queued"@ != "stopped"@,
        "running"@ != "completed"@,
        "running"@ != "error"@,
        "running"@ != "stopped"@,
        "completed"@ != "error"@,
        "completed"@ != "stopped"@,
        "error"@ != "stopped"@,
{
    reveal_strlit("queued");
    reveal_strlit("running");
    reveal_strlit("completed");
    reveal_strlit("error");
    reveal_strlit("stopped");
    assert("queued"@[0] == 'q');
    assert("running"@[0] == 'r');
    assert("completed"@[0] == 'c');
    assert("error"@[0] == 'e');
    assert("stopped"@[0] == 's');
}

/// A task appended to the core's queue.
pub struct QueuedTask {
    pub task_id: i32,
    pub task_type: String,
    pub params: Json,
    /// Seconds since the Unix epoch at which the task was appended.
    pub appended_at: u64,
    pub state: String,
}

/// The summary object of a task.
pub open spec fn task_describe_spec(t: QueuedTask) -> JsonV {
    JsonV::Object(
        seq![
            ("task_id"@, JsonV::Int(t.task_id as int)),
            ("task_type"@, JsonV::Str(t.task_type@)),
            ("state"@, JsonV::Str(t.state@)),
            ("params"@, t.params@),
            ("appended_at"@, JsonV::Str(iso_text(t.appended_at as nat))),
        ],
    )
}

impl QueuedTask {
    /// The task's summary: id, type, state, params and when it was appended.
    pub fn describe(&self) -> (r: Json)
        requires
            self.appended_at <= i64::MAX,
        ensures
            r@ == task_describe_spec(*self),
    {
        let mut fields: Vec<(String, Json)> = Vec::new();
        fields.push((String::from_str("task_id"), Json::Int(self.task_id as i64)));
        let tt = self.task_type.clone();
        let ghost ttv = tt@;
        fields.push((String::from_str("task_type"), Json::Str(tt)));
        let st = self.state.clone();
        let ghost stv = st@;
        fields.push((String::from_str("state"), Json::Str(st)));
        let p = self.params.copy();
        let ghost pv = p@;
        fields.push((String::from_str("params"), p));
        let at = iso(self.appended_at);
        let ghost atv = at@;
        fields.push((String::from_str("appended_at"), Json::Str(at)));
        let ghost fv = fields@;
        let r = Json::Object(fields);
        proof {
            if let JsonV::Object(f) = r@ {
                if let JsonV::Object(g) = task_describe_spec(*self) {
                    assert(fv[0].0@ == "task_id"@ && fv[0].1@ == JsonV::Int(self.task_id as int));
                    assert(f[0] == g[0]);
                    assert(fv[1].0@ == "task_type"@ && fv[1].1@ == JsonV::Str(ttv));
                    assert(fv[2].0@ == "state"@ && fv[2].1@ == JsonV::Str(stv));
                    assert(fv[3].0@ == "params"@ && fv[3].1@ == pv);
                    assert(fv[4].0@ == "appended_at"@ && fv[4].1@ == JsonV::Str(atv));
                    assert(f[1] == g[1]);
                    assert(f[2] == g[2]);
                    assert(f[3] == g[3]);
                    assert(f[4] == g[4]);
                    assert(f =~= g);
                }
            }
        }
        r
    }

    /// An exact copy of the task.
    pub fn copy(&self) -> (r: QueuedTask)
        ensures
            r.task_id == self.task_id,
            r.task_type@ == self.task_type@,
            r.params@ == self.params@,
            r.appended_at == self.appended_at,
            r.state@ == self.state@,
    {
        QueuedTask {
            task_id: self.task_id,
            task_type: self.task_type.clone(),
            params: self.params.copy(),
            appended_at: self.appended_at,
            state: self.state.clone(),
        }
    }
}

/// The connection the core last reported.
pub struct ConnectionInfo {
    pub what: String,
    pub uuid: Option<String>,
    pub details: Json,
}

impl ConnectionInfo {
    pub fn copy(&self) -> (r: ConnectionInfo)
        ensures
            r.what@ == self.what@,
            r.uuid == self.uuid,
            r.details@ == self.details@,
    {
        ConnectionInfo {
            what: self.what.clone(),
            uuid: match &self.uuid {
                Some(u) => Some(u.clone()),
                None => None,
            },
            details: self.details.copy(),
        }
    }
}

/// The tasks a start will run.
pub struct StartResult {
    pub started: Vec<i32>,
    pub task_types: Vec<String>,
}

/// What a stop did.
pub struct StopResult {
    pub stopped: bool,
    pub cleared_tasks: usize,
    pub reason: Option<String>,
}

/// How a wait ended: whether its condition fired, why, and how long it waited (ms).
pub struct WaitOutcome {
    pub triggered: bool,
    pub reason: String,
    pub waited_ms: u64,
}

/// A raw frame in BGR byte order.
pub struct BgrFrame {
    pub width: u32,
    pub height: u32,
    pub data: Vec<u8>,
}

/// What a wait does after looking at its condition.
pub enum WaitTurn {
    /// The wait is over.
    Finish(WaitOutcome),
    /// Sleep at most this long (or until something happens), then look again.
    Sleep { ms: u64 },
}

/// The longest a wait sleeps before looking at its condition again.
pub const WAIT_TURN_MS: u64 = 1000;

/// One turn of a wait that has run `elapsed_ms` of its `timeout_ms`: when the
/// condition was met (`met` names why) it ends triggered with that reason; otherwise,
/// once the time is up, it ends untriggered with an empty reason; otherwise it sleeps
/// for the rest of the time, a second at most.
pub fn wait_turn(met: Option<String>, elapsed_ms: u64, timeout_ms: u64) -> (r: WaitTurn)
    ensures
        match met {
            Some(m) => r matches WaitTurn::Finish(o) && o.triggered && o.reason@ == m@
                && o.waited_ms == elapsed_ms,
            None => if elapsed_ms >= timeout_ms {
                r matches WaitTurn::Finish(o) && !o.triggered && o.reason@ == Seq::<char>::empty()
                    && o.waited_ms == elapsed_ms && o.waited_ms >= timeout_ms
            } else {
                r matches WaitTurn::Sleep { ms } && ms == if timeout_ms - elapsed_ms < WAIT_TURN_MS {
                    timeout_ms - elapsed_ms
                } else {
                    WAIT_TURN_MS as int
                }
            },
        },
{
    match met {
        Some(m) => WaitTurn::Finish(WaitOutcome { triggered: true, reason: m, waited_ms: elapsed_ms }),
        None => if elapsed_ms >= timeout_ms {
            WaitTurn::Finish(WaitOutcome { triggered: false, reason: String::new(), waited_ms: elapsed_ms })
        } else {
            let rest = timeout_ms - elapsed_ms;
            WaitTurn::Sleep {
                ms: if rest < WAIT_TURN_MS {
                    rest
                } else {
                    WAIT_TURN_MS
                },
            }
        },
    }
}

/// The conditions a wait can block on.
#[derive(Clone, Copy, PartialEq, Eq, Structural)]
pub enum WaitCondition {
    AnyEvent,
    TaskDone,
    AllDone,
    Error,
    Idle,
    BattleProblem,
    BattleStalled,
}

/// The name of a wait condition.
pub open spec fn condition_name(c: WaitCondition) -> Seq<char> {
    match c {
        WaitCondition::AnyEvent => "any_event"@,
        WaitCondition::TaskDone => "task_done"@,
        WaitCondition::AllDone => "all_done"@,
        WaitCondition::Error => "error"@,
        WaitCondition::Idle => "idle"@,
        WaitCondition::BattleProblem => "battle_problem"@,
        WaitCondition::BattleStalled => "battle_stalled"@,
    }
}

/// The condition with the given name, if any.
pub open spec fn condition_named(s: Seq<char>) -> Option<WaitCondition> {
    if s == "any_event"@ {
        Some(WaitCondition::AnyEvent)
    } else if s == "task_done"@ {
        Some(WaitCondition::TaskDone)
    } else if s == "all_done"@ {
        Some(WaitCondition::AllDone)
    } else if s == "error"@ {
        Some(WaitCondition::Error)
    } else if s == "idle"@ {
        Some(WaitCondition::Idle)
    } else if s == "battle_problem"@ {
        Some(WaitCondition::BattleProblem)
    } else if s == "battle_stalled"@ {
        Some(WaitCondition::BattleStalled)
    } else {
        None
    }
}

proof fn lemma_condition_words()
    ensures
        "any_event"@.len() == 9,
        "task_done"@.len() == 9,
        "all_done"@.len() == 8,
        "error"@.len() == 5,
        "idle"@.len() == 4,
        "battle_problem"@.len() == 14,
        "battle_stalled"@.len() == 14,
        "any_event"@[0] == 'a' && "task_done"@[0] == 't',
        "battle_problem"@[7] == 'p' && "battle_stalled"@[7] == 's',
{
    reveal_strlit("any_event");
    reveal_strlit("task_done");
    reveal_strlit("all_done");
    reveal_strlit("error");
    reveal_strlit("idle");
    reveal_strlit("battle_problem");
    reveal_strlit("battle_stalled");
}

/// Naming a wait condition and reading the name back gives the same condition.
pub proof fn condition_names_round_trip(c: WaitCondition)
    ensures
        condition_named(condition_name(c)) == Some(c),
{
    lemma_condition_words();
}

impl WaitCondition {
    /// Reads a wait condition by name.
    pub fn from_str(s: &str) -> (r: Result<WaitCondition, Error>)
        ensures
            match condition_named(s@) {
                Some(c) => r == Ok::<WaitCondition, Error>(c),
                None => r matches Err(Error::Validation(m)) && m@ == "Unknown wait condition "@
                    + crate::text::debug_text(s@)
                    + "; expected one of [\"any_event\", \"task_done\", \"all_done\", \"error\", \"idle\", \"battle_problem\", \"battle_stalled\"]"@,
            },
    {
        if str_eq(s, "any_event") {
            Ok(WaitCondition::AnyEvent)
        } else if str_eq(s, "task_done") {
            Ok(WaitCondition::TaskDone)
        } else if str_eq(s, "all_done") {
            Ok(WaitCondition::AllDone)
        } else if str_eq(s, "error") {
            Ok(WaitCondition::Error)
        } else if str_eq(s, "idle") {
            Ok(WaitCondition::Idle)
        } else if str_eq(s, "battle_problem") {
            Ok(WaitCondition::BattleProblem)
        } else if str_eq(s, "battle_stalled") {
            Ok(WaitCondition::BattleStalled)
        } else {
            let mut m = String::from_str("Unknown wait condition ");
            let d = crate::text::debug_str(s);
            m.append(d.as_str());
            push_str(
                &mut m,
                "; expected one of [\"any_event\", \"task_done\", \"all_done\", \"error\", \"idle\", \"battle_problem\", \"battle_stalled\"]",
            );
            Err(Error::Validation(m))
        }
    }

    /// The condition's name.
    pub fn name(&self) -> (r: String)
        ensures
            r@ == condition_name(*self),
    {
        match self {
            WaitCondition::AnyEvent => String::from_str("any_event"),
            WaitCondition::TaskDone => String::from_str("task_done"),
            WaitCondition::AllDone => String::from_str("all_done"),
            WaitCondition::Error => String::from_str("error"),
            WaitCondition::Idle => String::from_str("idle"),
            WaitCondition::BattleProblem => String::from_str("battle_problem"),
            WaitCondition::BattleStalled => String::from_str("battle_stalled"),
        }
    }
}

/// Waiting for `task_done` needs a task id.
pub fn check_wait(until: WaitCondition, task_id: Option<i32>) -> (r: Result<(), Error>)
    ensures
        r is Err <==> (until == WaitCondition::TaskDone && task_id is None),
        r matches Err(e) ==> e matches Error::Validation(m) && m@
            == "Waiting for 'task_done' needs a task_id. Pass the id returned by maa_append, or wait for 'all_done' instead."@,
{
    if until == WaitCondition::TaskDone && task_id.is_none() {
        return Err(
            Error::Validation(
                String::from_str(
                    "Waiting for 'task_done' needs a task_id. Pass the id returned by maa_append, or wait for 'all_done' instead.",
                ),
            ),
        );
    }
    Ok(())
}

// ---------------------------------------------------------------------------
// The session's bookkeeping.

/// The taskchains whose start begins a new battle.
pub open spec fn is_battle_taskchain(t: Seq<char>) -> bool {
    t == "Copilot"@ || t == "SSSCopilot"@ || t == "ParadoxCopilot"@ || t == "SingleStep"@
}

/// The connection `what` values that report a failure.
pub open spec fn is_connection_failure(w: Seq<char>) -> bool {
    w == "ConnectFailed"@ || w == "Disconnect"@ || w == "ScreencapFailed"@ || w
        == "UnsupportedResolution"@ || w == "ResolutionError"@ || w == "TouchModeNotAvailable"@
}

/// The state a task-chain message puts its task in.
pub open spec fn chain_state(message_id: i32) -> Option<Seq<char>> {
    if message_id == msg::TASK_CHAIN_START {
        Some("running"@)
    } else if message_id == msg::TASK_CHAIN_COMPLETED {
        Some("completed"@)
    } else if message_id == msg::TASK_CHAIN_ERROR {
        Some("error"@)
    } else if message_id == msg::TASK_CHAIN_STOPPED {
        Some("stopped"@)
    } else {
        None
    }
}

/// Whether a JSON value is an integer that, cut to `i32`, is `id`.
pub open spec fn item_is_id(v: JsonV, id: i32) -> bool {
    match json_as_i64(v) {
        Some(x) => (x as i32) == id,
        None => false,
    }
}

/// Whether one of `items` is an integer that, cut to `i32`, is `id`.
pub open spec fn seq_lists_id(items: Seq<JsonV>, id: i32) -> bool {
    exists|j: int| 0 <= j < items.len() && #[trigger] item_is_id(items[j], id)
}

/// Whether the payload's `finished_tasks` array lists `task_id` (as an `i64` cut to `i32`).
pub open spec fn lists_finished(payload: JsonV, task_id: i32) -> bool {
    match json_get(payload, "finished_tasks"@) {
        Some(JsonV::Array(items)) => seq_lists_id(items, task_id),
        _ => false,
    }
}

/// The state of a task after a callback.
pub open spec fn next_task_state(
    t: QueuedTask,
    message_id: i32,
    payload: JsonV,
) -> Seq<char> {
    let s1 = match (chain_state(message_id), get_i64(payload, "taskid"@)) {
        (Some(s), Some(x)) => if (x as i32) == t.task_id {
            s
        } else {
            t.state@
        },
        _ => t.state@,
    };
    if message_id == msg::ALL_TASKS_COMPLETED && lists_finished(payload, t.task_id)
        && is_pending_state(s1) {
        "completed"@
    } else {
        s1
    }
}

/// The run-completed callback marks completed exactly the tasks it lists that were still
/// queued or running; every other task keeps its state.
pub proof fn run_completion_finishes_the_listed_tasks(t: QueuedTask, payload: JsonV)
    ensures
        next_task_state(t, msg::ALL_TASKS_COMPLETED, payload) == if lists_finished(
            payload,
            t.task_id,
        ) && is_pending_state(t.state@) {
            "completed"@
        } else {
            t.state@
        },
{
}

/// The `why` or `what` of an error callback, or the message name.
pub open spec fn error_reason(message_id: i32, payload: JsonV) -> Seq<char> {
    let v = match json_get(payload, "why"@) {
        Some(w) => Some(w),
        None => json_get(payload, "what"@),
    };
    match v {
        Some(x) => match json_as_str(x) {
            Some(s) => s,
            None => message_name_text(message_id),
        },
        None => message_name_text(message_id),
    }
}

/// The payload's `what` as text, empty when missing or not a string.
pub open spec fn what_or_empty(payload: JsonV) -> Seq<char> {
    match get_str(payload, "what"@) {
        Some(w) => w,
        None => Seq::empty(),
    }
}

/// The `details` of a payload, `{}` when missing.
pub open spec fn details_or_empty(payload: JsonV) -> JsonV {
    match json_get(payload, "details"@) {
        Some(d) => d,
        None => JsonV::Object(Seq::empty()),
    }
}

/// The last error after a callback.
pub open spec fn next_last_error(
    last_error: Option<Seq<char>>,
    message_id: i32,
    payload: JsonV,
) -> Option<Seq<char>> {
    let e1 = match get_str(payload, "what"@) {
        Some(w) => if is_battle_what_text(w) && is_battle_failure_what_text(w) {
            Some(w + ": "@ + json_text(details_or_empty(payload)))
        } else {
            last_error
        },
        None => last_error,
    };
    let e2 = if message_id == msg::CONNECTION_INFO && is_connection_failure(
        what_or_empty(payload),
    ) {
        Some(
            match get_str(payload, "why"@) {
                Some(w) => w,
                None => what_or_empty(payload),
            },
        )
    } else {
        e1
    };
    if is_error_id(message_id) {
        Some(error_reason(message_id, payload))
    } else {
        e2
    }
}

/// The session's own state: the event log, the queued tasks in id order, the last
/// reported connection and error, the current battle and the last frame size seen.
pub struct SessionState {
    events: EventLog,
    tasks: Vec<QueuedTask>,
    connection: Option<ConnectionInfo>,
    last_error: Option<String>,
    battle: BattleState,
    frame_dims: Option<(u32, u32)>,
}

/// Tasks listed in strictly increasing id order, each in a known state.
pub open spec fn tasks_wf(tasks: Seq<QueuedTask>) -> bool {
    &&& forall|i: int, j: int| 0 <= i < j < tasks.len() ==> tasks[i].task_id < tasks[j].task_id
    &&& forall|i: int|
        0 <= i < tasks.len() ==> is_task_state((#[trigger] tasks[i]).state@) && tasks[i].appended_at
            <= i64::MAX
}

/// The first index at which `id` is or would be, keeping the ids ordered.
pub open spec fn task_index(tasks: Seq<QueuedTask>, id: i32) -> Option<int> {
    if exists|i: int| 0 <= i < tasks.len() && tasks[i].task_id == id {
        Some(choose|i: int| 0 <= i < tasks.len() && tasks[i].task_id == id)
    } else {
        None
    }
}

impl SessionState {
    pub closed spec fn event_log(&self) -> EventLog {
        self.events
    }

    pub closed spec fn task_list(&self) -> Seq<QueuedTask> {
        self.tasks@
    }

    pub closed spec fn connection_view(&self) -> Option<ConnectionInfo> {
        self.connection
    }

    pub closed spec fn last_error_view(&self) -> Option<Seq<char>> {
        match self.last_error {
            Some(e) => Some(e@),
            None => None,
        }
    }

    pub closed spec fn battle_view(&self) -> BattleState {
        self.battle
    }

    pub closed spec fn frame_dims_view(&self) -> Option<(u32, u32)> {
        self.frame_dims
    }

    /// The state's invariant: a well-formed log and an ordered task list.
    pub open spec fn wf(&self) -> bool {
        &&& self.event_log().wf()
        &&& tasks_wf(self.task_list())
    }

    /// A fresh session state whose log keeps `max_events` events (at least one).
    pub fn new(max_events: usize) -> (r: SessionState)
        ensures
            r.wf(),
            r.event_log().events().len() == 0,
            r.event_log().latest() == 0,
            r.event_log().capacity() == if max_events < 1 {
                1
            } else {
                max_events
            },
            r.task_list().len() == 0,
            r.connection_view() is None,
            r.last_error_view() is None,
            r.battle_view().started_at is None,
            r.battle_view().taskchain is None,
            r.battle_view().actions_run == 0,
            r.battle_view().last_action is None,
            r.battle_view().last_action_at is None,
            r.frame_dims_view() is None,
    {
        let cap = if max_events < 1 {
            1
        } else {
            max_events
        };
        SessionState {
            events: EventLog::new(cap),
            tasks: Vec::new(),
            connection: None,
            last_error: None,
            battle: BattleState::empty(),
            frame_dims: None,
        }
    }

    fn find_task(&self, id: i32) -> (r: Option<usize>)
        requires
            tasks_wf(self.tasks@),
        ensures
            match r {
                Some(i) => i < self.tasks@.len() && self.tasks@[i as int].task_id == id,
                None => forall|k: int| 0 <= k < self.tasks@.len() ==> self.tasks@[k].task_id != id,
            },
    {
        let mut i: usize = 0;
        while i < self.tasks.len()
            invariant
                i <= self.tasks@.len(),
                forall|k: int| 0 <= k < i ==> self.tasks@[k].task_id != id,
            decreases self.tasks.len() - i,
        {
            if self.tasks[i].task_id == id {
                return Some(i);
            }
            i = i + 1;
        }
        None
    }

    /// Records a callback (`message_id` with its parsed `payload`) at the current time
    /// and folds it into the tasks, the connection, the last error and the battle.
    pub fn on_callback(&mut self, message_id: i32, payload: Json)
        requires
            old(self).wf(),
            old(self).event_log().latest() < u64::MAX,
            old(self).battle_view().actions_run < u32::MAX,
        ensures
            final(self).wf(),
            final(self).event_log().latest() == old(self).event_log().latest() + 1,
            final(self).event_log().events().last().message_id == message_id,
            final(self).event_log().events().last().payload@ == payload@,
            exists|now: std::time::Instant|
                Self::applied(*old(self), *final(self), message_id, payload@, now),
    {
        let at = crate::events::now_secs();
        let now = instant_now();
        let copy = payload.copy();
        let ghost before = *self;
        self.apply_event(message_id, &payload, now);
        let ghost applied = *self;
        self.events.push_at(message_id, copy, at);
        proof {
            assert(self.battle_view() == applied.battle_view());
            assert(self.task_list() == applied.task_list());
            assert(Self::applied(before, *self, message_id, payload@, now));
        }
    }

    /// What folding a callback into the state does, apart from recording it in the log.
    pub open spec fn applied(
        old: SessionState,
        new: SessionState,
        message_id: i32,
        payload: JsonV,
        now: std::time::Instant,
    ) -> bool {
        &&& new.task_list().len() == old.task_list().len()
        &&& forall|k: int|
            0 <= k < old.task_list().len() ==> {
                let t = old.task_list()[k];
                let u = #[trigger] new.task_list()[k];
                &&& u.task_id == t.task_id
                &&& u.task_type@ == t.task_type@
                &&& u.params@ == t.params@
                &&& u.appended_at == t.appended_at
                &&& u.state@ == next_task_state(t, message_id, payload)
            }
        &&& new.last_error_view() == next_last_error(old.last_error_view(), message_id, payload)
        &&& new.frame_dims_view() == old.frame_dims_view()
        &&& Self::connection_applied(old.connection_view(), new.connection_view(), message_id, payload)
        &&& Self::battle_applied(old, new.battle_view(), message_id, payload, now)
    }

    /// What a callback does to the recorded connection.
    pub open spec fn connection_applied(
        old: Option<ConnectionInfo>,
        new: Option<ConnectionInfo>,
        message_id: i32,
        payload: JsonV,
    ) -> bool {
        let what = what_or_empty(payload);
        if message_id == msg::CONNECTION_INFO && (what == "Connected"@ || what == "UuidGot"@
            || what == "Reconnected"@) {
            new matches Some(c) && c.what@ == what && c.details@ == details_or_empty(payload)
                && match get_str(payload, "uuid"@) {
                Some(u) => c.uuid matches Some(cu) && cu@ == u,
                None => match old {
                    Some(o) => match o.uuid {
                        Some(ou) => c.uuid matches Some(cu) && cu@ == ou@,
                        None => c.uuid is None,
                    },
                    None => c.uuid is None,
                },
            }
        } else if message_id == msg::CONNECTION_INFO && (what == "ConnectFailed"@ || what
            == "Disconnect"@) {
            new is None
        } else {
            new == old
        }
    }

    /// What a callback does to the battle: a battle taskchain's start begins a fresh
    /// battle (with the stage or job file of its task); a battle callback is noted.
    pub open spec fn battle_applied(
        old: SessionState,
        new: BattleState,
        message_id: i32,
        payload: JsonV,
        now: std::time::Instant,
    ) -> bool {
        let what = get_str(payload, "what"@);
        let noted = match what {
            Some(w) => is_battle_what_text(w),
            None => false,
        };
        exists|mid: BattleState|
            {
                &&& #[trigger] Self::battle_reset(old, mid, message_id, payload)
                &&& if noted {
                    note_event_post(mid, new, what->0, details_or_empty(payload), now)
                } else {
                    new == mid
                }
            }
    }

    /// Whether a callback starts a battle: a battle taskchain's start.
    pub open spec fn starts_battle(message_id: i32, payload: JsonV) -> bool {
        message_id == msg::TASK_CHAIN_START && match get_str(payload, "taskchain"@) {
            Some(t) => is_battle_taskchain(t),
            None => false,
        }
    }

    /// The battle after the reset step of a callback.
    pub open spec fn battle_reset(
        old: SessionState,
        mid: BattleState,
        message_id: i32,
        payload: JsonV,
    ) -> bool {
        if Self::starts_battle(message_id, payload) {
            &&& fresh_battle(mid, mid.taskchain)
            &&& mid.taskchain matches Some(t) && get_str(payload, "taskchain"@) == Some(t@)
            &&& match mid.stage {
                Some(st) => Self::stage_of(old, payload) == Some(st@),
                None => Self::stage_of(old, payload) is None,
            }
        } else {
            mid == old.battle_view()
        }
    }

    /// The stage (or job file) of the task a callback names, when known.
    pub open spec fn stage_of(old: SessionState, payload: JsonV) -> Option<Seq<char>> {
        match get_i64(payload, "taskid"@) {
            Some(x) => match task_index(old.task_list(), x as i32) {
                Some(i) => stage_from_params(old.task_list()[i].params@),
                None => None,
            },
            None => None,
        }
    }

    /// The start of a Copilot, SSSCopilot, ParadoxCopilot or SingleStep taskchain begins a
    /// fresh battle on that taskchain: started, with nothing observed yet. The start of
    /// any other taskchain leaves the battle as it was.
    pub proof fn battle_taskchains_start_fresh_battles(
        old: SessionState,
        new: SessionState,
        payload: JsonV,
        now: std::time::Instant,
        taskchain: Seq<char>,
    )
        requires
            Self::applied(old, new, msg::TASK_CHAIN_START, payload, now),
            get_str(payload, "taskchain"@) == Some(taskchain),
            get_str(payload, "what"@) is None,
        ensures
            (taskchain == "Copilot"@ || taskchain == "SSSCopilot"@ || taskchain == "ParadoxCopilot"@
                || taskchain == "SingleStep"@) ==> {
                let b = new.battle_view();
                &&& b.taskchain matches Some(t) && t@ == taskchain
                &&& b.started_at is Some
                &&& b.actions_run == 0
                &&& b.selected@.len() == 0
                &&& b.formation_groups@.len() == 0
                &&& b.unavailable@.len() == 0
                &&& b.invalid_opers@.len() == 0
                &&& b.last_action is None
                &&& b.last_action_at is None
                &&& !b.parse_failed
                &&& b.unsupported_level is None
            },
            !(taskchain == "Copilot"@ || taskchain == "SSSCopilot"@ || taskchain
                == "ParadoxCopilot"@ || taskchain == "SingleStep"@) ==> new.battle_view()
                == old.battle_view(),
    {
        let mid = choose|mid: BattleState|
            {
                &&& #[trigger] Self::battle_reset(old, mid, msg::TASK_CHAIN_START, payload)
                &&& new.battle_view() == mid
            };
    }

    /// Folds a callback into the state (see `applied`), without recording it in the log.
    pub fn apply_event(&mut self, message_id: i32, payload: &Json, now: std::time::Instant)
        requires
            old(self).wf(),
            old(self).battle_view().actions_run < u32::MAX,
        ensures
            final(self).wf(),
            final(self).event_log() == old(self).event_log(),
            Self::applied(*old(self), *final(self), message_id, payload@, now),
    {
        let ghost old_self = *self;
        proof {
            lemma_state_words();
        }
        // Task-chain messages move their task to a new state.
        let cs = chain_state_text(message_id);
        let taskid = payload.get_i64("taskid");
        match (cs, taskid) {
            (Some(st), Some(x)) => {
                match self.find_task(x as i32) {
                    Some(i) => {
                        let mut t = self.tasks[i].copy();
                        t.state = String::from_str(st);
                        self.tasks.set(i, t);
                    },
                    None => {},
                }
            },
            _ => {},
        }
        let ghost after_chain = self.tasks@;
        proof {
            assert forall|k: int| 0 <= k < old_self.tasks@.len() implies {
                let t = old_self.tasks@[k];
                let u = #[trigger] after_chain[k];
                &&& u.task_id == t.task_id
                &&& u.task_type@ == t.task_type@
                &&& u.params@ == t.params@
                &&& u.appended_at == t.appended_at
                &&& u.state@ == match (chain_state(message_id), get_i64(payload@, "taskid"@)) {
                    (Some(s), Some(x)) => if (x as i32) == t.task_id {
                        s
                    } else {
                        t.state@
                    },
                    _ => t.state@,
                }
            } by {
                let t = old_self.tasks@[k];
                if let (Some(s), Some(x)) = (chain_state(message_id), get_i64(payload@, "taskid"@)) {
                    if (x as i32) == t.task_id {
                        assert(after_chain[k].task_id == t.task_id);
                    }
                }
            }
            assert(tasks_wf(self.tasks@));
        }
        // A battle taskchain's start begins a fresh battle.
        let ghost stage = Self::stage_of(old_self, payload@);
        let taskchain = payload.get_str("taskchain");
        let starts = message_id == msg::TASK_CHAIN_START && match taskchain {
            Some(t) => is_battle_taskchain_exec(t.as_str()),
            None => false,
        };
        if starts {
            let tc = match taskchain {
                Some(t) => t.clone(),
                None => String::new(),
            };
            let mut b = BattleState::new(Some(tc));
            match taskid {
                Some(x) => match self.find_task(x as i32) {
                    Some(i) => {
                        b.stage = stage_from_params_exec(&self.tasks[i].params);
                        proof {
                            let j = task_index(old_self.tasks@, x as i32)->0;
                            assert(old_self.tasks@[j].task_id == x as i32);
                            assert(j == i);
                        }
                    },
                    None => {
                        proof {
                            assert forall|k: int| 0 <= k < old_self.tasks@.len() implies old_self.tasks@[k].task_id != x as i32 by {
                                assert(after_chain[k].task_id == old_self.tasks@[k].task_id);
                            }
                            assert(task_index(old_self.tasks@, x as i32) is None);
                        }
                    },
                },
                None => {},
            }
            self.battle = b;
        }
        let ghost mid = self.battle;
        proof {
            assert(Self::battle_reset(old_self, mid, message_id, payload@));
        }
        // A battle callback is noted; a failed setup becomes the last error.
        match payload.get_str("what") {
            Some(w) => {
                if is_battle_what(w.as_str()) {
                    let details = match payload.get("details") {
                        Some(d) => d.copy(),
                        None => Json::new_object(),
                    };
                    self.battle.note_event(w.as_str(), &details, now);
                    if is_battle_failure_what(w.as_str()) {
                        let mut e = w.clone();
                        push_str(&mut e, ": ");
                        let dt = to_text(&details);
                        e.append(dt.as_str());
                        self.last_error = Some(e);
                    }
                }
            },
            None => {},
        }
        let ghost e1 = self.last_error;
        // Queue completion and connection reports.
        if message_id == msg::ALL_TASKS_COMPLETED {
            self.complete_finished(payload);
        } else if message_id == msg::CONNECTION_INFO {
            let what: String = match payload.get_str("what") {
                Some(w) => w.clone(),
                None => String::new(),
            };
            let ws = what.as_str();
            if str_eq(ws, "Connected") || str_eq(ws, "UuidGot") || str_eq(ws, "Reconnected") {
                let prev_uuid: Option<String> = match &self.connection {
                    Some(c) => match &c.uuid {
                        Some(u) => Some(u.clone()),
                        None => None,
                    },
                    None => None,
                };
                let uuid = match payload.get_str("uuid") {
                    Some(u) => Some(u.clone()),
                    None => prev_uuid,
                };
                let details = match payload.get("details") {
                    Some(d) => d.copy(),
                    None => Json::new_object(),
                };
                self.connection = Some(ConnectionInfo { what: what.clone(), uuid, details });
            } else if str_eq(ws, "ConnectFailed") || str_eq(ws, "Disconnect") {
                self.connection = None;
            }
            if is_connection_failure_exec(ws) {
                let reason = match payload.get_str("why") {
                    Some(w) => w.clone(),
                    None => what.clone(),
                };
                self.last_error = Some(reason);
            }
        }
        if is_error(message_id) {
            let v = match payload.get("why") {
                Some(w) => Some(w),
                None => payload.get("what"),
            };
            let reason = match v {
                Some(x) => match x.as_str() {
                    Some(s) => s.clone(),
                    None => message_name(message_id),
                },
                None => message_name(message_id),
            };
            self.last_error = Some(reason);
        }
        proof {
            assert(self.task_list().len() == old_self.task_list().len());
            assert(self.last_error_view() == next_last_error(old_self.last_error_view(), message_id, payload@));
            assert(Self::connection_applied(old_self.connection_view(), self.connection_view(), message_id, payload@));
            let sp_what = get_str(payload@, "what"@);
            let sp_noted = match sp_what {
                Some(w) => is_battle_what_text(w),
                None => false,
            };
            if sp_noted {
                assert(note_event_post(mid, self.battle, sp_what->0, details_or_empty(payload@), now));
            } else {
                assert(self.battle == mid);
            }
            assert(Self::battle_applied(old_self, self.battle_view(), message_id, payload@, now));
        }
    }

    fn complete_finished(&mut self, payload: &Json)
        requires
            tasks_wf(old(self).tasks@),
        ensures
            tasks_wf(final(self).tasks@),
            final(self).events == old(self).events,
            final(self).connection == old(self).connection,
            final(self).last_error == old(self).last_error,
            final(self).battle == old(self).battle,
            final(self).frame_dims == old(self).frame_dims,
            final(self).tasks@.len() == old(self).tasks@.len(),
            forall|k: int|
                0 <= k < old(self).tasks@.len() ==> {
                    let t = old(self).tasks@[k];
                    let u = #[trigger] final(self).tasks@[k];
                    &&& u.task_id == t.task_id
                    &&& u.task_type@ == t.task_type@
                    &&& u.params@ == t.params@
                    &&& u.appended_at == t.appended_at
                    &&& u.state@ == if lists_finished(payload@, t.task_id) && is_pending_state(
                        t.state@,
                    ) {
                        "completed"@
                    } else {
                        t.state@
                    }
                },
    {
        let finished: Option<&Vec<Json>> = match payload.get("finished_tasks") {
            Some(f) => f.as_array(),
            None => None,
        };
        let ghost old_tasks = self.tasks@;
        proof {
            if let Some(items) = finished {
                assert(json_get(payload@, "finished_tasks"@) == Some(JsonV::Array(json_items(items@))));
            } else {
                assert(!(json_get(payload@, "finished_tasks"@) matches Some(JsonV::Array(_))));
            }
        }
        let mut k: usize = 0;
        while k < self.tasks.len()
            invariant
                match finished {
                    Some(items) => json_get(payload@, "finished_tasks"@) == Some(
                        JsonV::Array(json_items(items@)),
                    ),
                    None => !(json_get(payload@, "finished_tasks"@) matches Some(JsonV::Array(_))),
                },
                k <= self.tasks@.len(),
                self.tasks@.len() == old_tasks.len(),
                tasks_wf(old_tasks),
                self.events == old(self).events,
                self.connection == old(self).connection,
                self.last_error == old(self).last_error,
                self.battle == old(self).battle,
                self.frame_dims == old(self).frame_dims,
                old_tasks == old(self).tasks@,
                forall|j: int| k <= j < old_tasks.len() ==> self.tasks@[j] == old_tasks[j],
                forall|j: int|
                    0 <= j < k ==> {
                        let t = old_tasks[j];
                        let u = #[trigger] self.tasks@[j];
                        &&& u.task_id == t.task_id
                        &&& u.task_type@ == t.task_type@
                        &&& u.params@ == t.params@
                        &&& u.appended_at == t.appended_at
                        &&& u.state@ == if lists_finished(payload@, t.task_id) && is_pending_state(
                            t.state@,
                        ) {
                            "completed"@
                        } else {
                            t.state@
                        }
                    },
            decreases old_tasks.len() - k,
        {
            let id = self.tasks[k].task_id;
            let listed = match finished {
                Some(items) => lists_id(items, id),
                None => false,
            };
            proof {
                if let Some(items) = finished {
                    assert(listed == lists_finished(payload@, id));
                } else {
                    assert(!lists_finished(payload@, id));
                }
            }
            let st = self.tasks[k].state.as_str();
            if listed && (str_eq(st, "queued") || str_eq(st, "running")) {
                let mut t = self.tasks[k].copy();
                t.state = String::from_str("completed");
                self.tasks.set(k, t);
            }
            k = k + 1;
        }
        proof {
            lemma_state_words();
            assert forall|i: int| 0 <= i < self.tasks@.len() implies is_task_state(
                (#[trigger] self.tasks@[i]).state@,
            ) && self.tasks@[i].appended_at <= i64::MAX by {
                assert(is_task_state(old_tasks[i].state@));
            }
        }
    }
}

fn lists_id(items: &Vec<Json>, id: i32) -> (r: bool)
    ensures
        r == seq_lists_id(json_items(items@), id),
{
    let mut j: usize = 0;
    while j < items.len()
        invariant
            j <= items@.len(),
            forall|i: int| 0 <= i < j ==> !#[trigger] item_is_id(json_items(items@)[i], id),
        decreases items.len() - j,
    {
        match items[j].as_i64() {
            Some(x) => {
                if (x as i32) == id {
                    proof {
                        assert(item_is_id(json_items(items@)[j as int], id));
                    }
                    return true;
                }
            },
            None => {},
        }
        j = j + 1;
    }
    false
}

impl SessionState {
    /// Records a task the core accepted under `task_id` (a positive id), appended now;
    /// a non-positive id means the core refused it.
    pub fn record_appended(&mut self, task_id: i32, canonical: String, params: Json) -> (r: Result<
        QueuedTask,
        Error,
    >)
        requires
            old(self).wf(),
        ensures
            final(self).wf(),
            Self::appended(*old(self), *final(self), task_id, canonical@, params@, r),
    {
        let at = crate::events::now_secs();
        self.record_appended_at(task_id, canonical, params, at)
    }

    /// What recording an append does: a refusal leaves the state alone and explains
    /// itself; otherwise the task is queued under its id (replacing any with that id).
    pub open spec fn appended(
        old: SessionState,
        new: SessionState,
        task_id: i32,
        canonical: Seq<char>,
        params: JsonV,
        r: Result<QueuedTask, Error>,
    ) -> bool {
        if task_id <= 0 {
            &&& new == old
            &&& r matches Err(Error::Refused(m)) && m@ == refused_append_text(canonical, task_id)
        } else {
            &&& r matches Ok(t) && t.task_id == task_id && t.task_type@ == canonical
                && t.params@ == params && t.state@ == "queued"@
            &&& new.event_log() == old.event_log()
            &&& new.connection_view() == old.connection_view()
            &&& new.last_error_view() == old.last_error_view()
            &&& new.battle_view() == old.battle_view()
            &&& new.frame_dims_view() == old.frame_dims_view()
            &&& exists|i: int|
                0 <= i < new.task_list().len() && #[trigger] new.task_list()[i].task_id == task_id
                    && new.task_list()[i].task_type@ == canonical && new.task_list()[i].params@
                    == params && new.task_list()[i].state@ == "queued"@
            &&& forall|k: int|
                0 <= k < old.task_list().len() && old.task_list()[k].task_id != task_id
                    ==> new.task_list().contains(#[trigger] old.task_list()[k])
            &&& forall|k: int|
                0 <= k < new.task_list().len() && new.task_list()[k].task_id != task_id
                    ==> old.task_list().contains(#[trigger] new.task_list()[k])
        }
    }

    /// As `record_appended`, with the task stamped `at` seconds since the Unix epoch.
    #[verifier::rlimit(40)]
    pub fn record_appended_at(
        &mut self,
        task_id: i32,
        canonical: String,
        params: Json,
        at: u64,
    ) -> (r: Result<QueuedTask, Error>)
        requires
            old(self).wf(),
            at <= i64::MAX,
        ensures
            final(self).wf(),
            Self::appended(*old(self), *final(self), task_id, canonical@, params@, r),
    {
        if task_id <= 0 {
            return Err(Error::Refused(refused_append_message(&canonical, task_id)));
        }
        let task = QueuedTask {
            task_id,
            task_type: canonical,
            params,
            appended_at: at,
            state: String::from_str("queued"),
        };
        let out = task.copy();
        let ghost old_tasks = self.tasks@;
        // Keep the ids ordered: replace the task with this id, or insert before the
        // first larger id.
        let mut i: usize = 0;
        while i < self.tasks.len() && self.tasks[i].task_id < task_id
            invariant
                self.tasks@ == old_tasks,
                tasks_wf(old_tasks),
                i <= old_tasks.len(),
                forall|k: int| 0 <= k < i ==> old_tasks[k].task_id < task_id,
            decreases old_tasks.len() - i,
        {
            i = i + 1;
        }
        proof {
            reveal_strlit("queued");
        }
        if i < self.tasks.len() && self.tasks[i].task_id == task_id {
            self.tasks.set(i, task);
            proof {
                assert forall|k: int|
                    0 <= k < old_tasks.len() && old_tasks[k].task_id != task_id implies self.tasks@.contains(
                    #[trigger] old_tasks[k],
                ) by {
                    assert(self.tasks@[k] == old_tasks[k]);
                }
                assert forall|k: int|
                    0 <= k < self.tasks@.len() && self.tasks@[k].task_id != task_id implies old_tasks.contains(
                    #[trigger] self.tasks@[k],
                ) by {
                    assert(self.tasks@[k] == old_tasks[k]);
                }
                assert(self.tasks@[i as int].task_id == task_id);
            }
        } else {
            self.tasks.insert(i, task);
            proof {
                assert forall|k: int|
                    0 <= k < old_tasks.len() && old_tasks[k].task_id != task_id implies self.tasks@.contains(
                    #[trigger] old_tasks[k],
                ) by {
                    if k < i {
                        assert(self.tasks@[k] == old_tasks[k]);
                    } else {
                        assert(self.tasks@[k + 1] == old_tasks[k]);
                    }
                }
                assert forall|k: int|
                    0 <= k < self.tasks@.len() && self.tasks@[k].task_id != task_id implies old_tasks.contains(
                    #[trigger] self.tasks@[k],
                ) by {
                    if k < i {
                        assert(self.tasks@[k] == old_tasks[k]);
                    } else if k > i {
                        assert(self.tasks@[k] == old_tasks[k - 1]);
                    }
                }
                assert(self.tasks@[i as int].task_id == task_id);
                assert forall|a: int, b: int| 0 <= a < b < self.tasks@.len() implies self.tasks@[a].task_id
                    < self.tasks@[b].task_id by {
                    if b < i {
                    } else if a < i && b == i {
                    } else if a < i && b > i {
                        assert(self.tasks@[b] == old_tasks[b - 1]);
                    } else if a == i {
                        assert(self.tasks@[b] == old_tasks[b - 1]);
                        if i < old_tasks.len() {
                            assert(old_tasks[i as int].task_id > task_id);
                        }
                    } else {
                        assert(self.tasks@[a] == old_tasks[a - 1]);
                        assert(self.tasks@[b] == old_tasks[b - 1]);
                    }
                }
            }
        }
        proof {
            lemma_state_words();
            assert forall|k: int| 0 <= k < self.tasks@.len() implies is_task_state(
                (#[trigger] self.tasks@[k]).state@,
            ) && self.tasks@[k].appended_at <= i64::MAX by {
                if self.tasks@[k].task_id != task_id {
                    assert(old_tasks.contains(self.tasks@[k]));
                    let j = choose|j: int| 0 <= j < old_tasks.len() && old_tasks[j] == self.tasks@[k];
                    assert(is_task_state(old_tasks[j].state@));
                }
            }
        }
        Ok(out)
    }

    /// The type of the task with this id, or an error naming the ids that are queued.
    pub fn task_type_of(&self, task_id: i32) -> (r: Result<String, Error>)
        requires
            self.wf(),
        ensures
            match r {
                Ok(t) => exists|i: int|
                    0 <= i < self.task_list().len() && #[trigger] self.task_list()[i].task_id
                        == task_id && self.task_list()[i].task_type@ == t@,
                Err(e) => (forall|i: int|
                    0 <= i < self.task_list().len() ==> #[trigger] self.task_list()[i].task_id
                        != task_id) && (e matches Error::Validation(m) && m@ == unknown_task_text(
                    task_id,
                    self.task_list(),
                )),
            },
    {
        match self.find_task(task_id) {
            Some(i) => Ok(self.tasks[i].task_type.clone()),
            None => {
                let mut ids: Vec<String> = Vec::new();
                let mut k: usize = 0;
                while k < self.tasks.len()
                    invariant
                        k <= self.tasks@.len(),
                        ids@.len() == k,
                        forall|j: int|
                            0 <= j < k ==> (#[trigger] ids@[j])@ == int_text(
                                self.tasks@[j].task_id as int,
                            ),
                    decreases self.tasks.len() - k,
                {
                    ids.push(crate::text::i64_to_string(self.tasks[k].task_id as i64));
                    k = k + 1;
                }
                proof {
                    assert(strings_view(ids@) =~= ids_texts(self.tasks@));
                }
                let known = join_strings(&ids, ", ");
                let mut m = String::from_str("No task with id ");
                write_i64(&mut m, task_id as i64);
                push_str(&mut m, " in this session. Queued ids: ");
                if self.tasks.len() == 0 {
                    push_str(&mut m, "none");
                } else {
                    m.append(known.as_str());
                }
                push_str(&mut m, ".");
                Err(Error::Validation(m))
            },
        }
    }

    /// The state of the task with this id, when one is queued.
    pub fn task_state(&self, task_id: i32) -> (r: Option<String>)
        requires
            self.wf(),
        ensures
            match r {
                Some(s) => exists|i: int|
                    0 <= i < self.task_list().len() && #[trigger] self.task_list()[i].task_id
                        == task_id && self.task_list()[i].state@ == s@,
                None => forall|i: int|
                    0 <= i < self.task_list().len() ==> #[trigger] self.task_list()[i].task_id
                        != task_id,
            },
    {
        match self.find_task(task_id) {
            Some(i) => Some(self.tasks[i].state.clone()),
            None => None,
        }
    }

    /// Replaces the params of the task with this id and returns its summary; `None`
    /// (and no change) when no such task is queued.
    pub fn set_params(&mut self, task_id: i32, params: Json) -> (r: Option<Json>)
        requires
            old(self).wf(),
        ensures
            final(self).wf(),
            final(self).event_log() == old(self).event_log(),
            final(self).task_list().len() == old(self).task_list().len(),
            match r {
                Some(d) => exists|i: int|
                    0 <= i < old(self).task_list().len() && #[trigger] old(self).task_list()[i].task_id
                        == task_id && final(self).task_list()[i].params@ == params@
                        && final(self).task_list()[i].task_id == task_id
                        && final(self).task_list()[i].task_type@ == old(self).task_list()[i].task_type@
                        && final(self).task_list()[i].state@ == old(self).task_list()[i].state@
                        && d@ == task_describe_spec(final(self).task_list()[i])
                        && (forall|k: int|
                        0 <= k < old(self).task_list().len() && k != i ==> final(self).task_list()[k]
                            == old(self).task_list()[k]),
                None => (forall|i: int|
                    0 <= i < old(self).task_list().len() ==> #[trigger] old(self).task_list()[i].task_id
                        != task_id) && final(self).task_list() == old(self).task_list(),
            },
    {
        match self.find_task(task_id) {
            Some(i) => {
                let mut t = self.tasks[i].copy();
                t.params = params;
                let d = t.describe();
                self.tasks.set(i, t);
                Some(d)
            },
            None => None,
        }
    }

    /// The queued tasks a start will run, in id order; an error when there are none.
    pub fn pending(&self) -> (r: Result<StartResult, Error>)
        requires
            self.wf(),
        ensures
            ({
                let q = queued_tasks(self.task_list());
                match r {
                    Ok(s) => q.len() > 0 && s.started@ == Seq::new(q.len(), |i: int| q[i].task_id)
                        && strings_view(s.task_types@) == Seq::new(
                        q.len(),
                        |i: int| q[i].task_type@,
                    ),
                    Err(e) => q.len() == 0 && (e matches Error::CoreLoad(m) && m@
                        == "Nothing to start: the queue holds no tasks in the 'queued' state. Append tasks with 'maa_append' first."@),
                }
            }),
    {
        let mut started: Vec<i32> = Vec::new();
        let mut types: Vec<String> = Vec::new();
        let mut k: usize = 0;
        while k < self.tasks.len()
            invariant
                k <= self.tasks@.len(),
                ({
                    let q = queued_tasks(self.tasks@.subrange(0, k as int));
                    &&& started@ == Seq::new(q.len(), |i: int| q[i].task_id)
                    &&& strings_view(types@) == Seq::new(q.len(), |i: int| q[i].task_type@)
                }),
            decreases self.tasks.len() - k,
        {
            let ghost q0 = queued_tasks(self.tasks@.subrange(0, k as int));
            let ghost types0 = types@;
            let ghost pre = self.tasks@.subrange(0, k + 1);
            proof {
                assert(pre.subrange(0, pre.len() - 1) =~= self.tasks@.subrange(0, k as int));
            }
            if str_eq(self.tasks[k].state.as_str(), "queued") {
                started.push(self.tasks[k].task_id);
                let tt = self.tasks[k].task_type.clone();
                types.push(tt);
                proof {
                    let q = queued_tasks(pre);
                    assert(q == q0.push(self.tasks@[k as int]));
                    assert(types@ == types0.push(tt));
                    assert(tt@ == self.tasks@[k as int].task_type@);
                    assert(strings_view(types0) == Seq::new(q0.len(), |i: int| q0[i].task_type@));
                    assert(strings_view(types0).len() == types0.len());
                    assert(types@.len() == q.len());
                    assert forall|i: int| 0 <= i < q.len() implies strings_view(types@)[i]
                        == q[i].task_type@ by {
                        if i < q0.len() {
                            assert(strings_view(types0)[i] == q0[i].task_type@);
                        }
                    }
                    assert(strings_view(types@) =~= Seq::new(q.len(), |i: int| q[i].task_type@));
                    assert(started@ =~= Seq::new(q.len(), |i: int| q[i].task_id));
                }
            } else {
                proof {
                    assert(queued_tasks(pre) == q0);
                }
            }
            k = k + 1;
        }
        proof {
            assert(self.tasks@.subrange(0, self.tasks@.len() as int) =~= self.tasks@);
        }
        if started.len() == 0 {
            return Err(
                Error::CoreLoad(
                    String::from_str(
                        "Nothing to start: the queue holds no tasks in the 'queued' state. Append tasks with 'maa_append' first.",
                    ),
                ),
            );
        }
        Ok(StartResult { started, task_types: types })
    }

    /// Stops the queue: counts and clears the tasks. `core_stopped` is what the core's
    /// stop reported.
    pub fn stop_all(&mut self, core_stopped: bool) -> (r: StopResult)
        requires
            old(self).wf(),
        ensures
            final(self).wf(),
            final(self).task_list().len() == 0,
            final(self).event_log() == old(self).event_log(),
            final(self).last_error_view() == old(self).last_error_view(),
            final(self).connection_view() == old(self).connection_view(),
            r.stopped == core_stopped,
            r.cleared_tasks == old(self).task_list().len(),
            r.reason is None,
    {
        let cleared = self.tasks.len();
        self.tasks = Vec::new();
        StopResult { stopped: core_stopped, cleared_tasks: cleared, reason: None }
    }

    /// The summaries of the queued tasks, in id order.
    pub fn tasks(&self) -> (r: Vec<Json>)
        requires
            self.wf(),
        ensures
            r@.len() == self.task_list().len(),
            forall|k: int|
                0 <= k < r@.len() ==> (#[trigger] r@[k])@ == task_describe_spec(self.task_list()[k]),
    {
        let mut out: Vec<Json> = Vec::new();
        let mut k: usize = 0;
        while k < self.tasks.len()
            invariant
                tasks_wf(self.tasks@),
                k <= self.tasks@.len(),
                out@.len() == k,
                forall|j: int|
                    0 <= j < k ==> (#[trigger] out@[j])@ == task_describe_spec(self.tasks@[j]),
            decreases self.tasks.len() - k,
        {
            out.push(self.tasks[k].describe());
            k = k + 1;
        }
        out
    }

    /// How many tasks are in each state, for the states that occur, ordered by name.
    pub fn task_counts(&self) -> (r: Vec<(String, usize)>)
        requires
            self.wf(),
        ensures
            counts_match(r@, self.task_list()),
    {
        proof {
            lemma_state_words();
        }
        let mut out: Vec<(String, usize)> = Vec::new();
        let names: [&str; 5] = ["completed", "error", "queued", "running", "stopped"];
        let mut j: usize = 0;
        while j < 5
            invariant
                j <= 5,
                names@ == seq!["completed", "error", "queued", "running", "stopped"],
                forall|k: int|
                    0 <= k < out@.len() ==> out@[k].1 > 0 && out@[k].1 == count_state(
                        self.tasks@,
                        out@[k].0@,
                    ),
                forall|k: int| 0 <= k < out@.len() ==> is_task_state(#[trigger] out@[k].0@),
                forall|jj: int|
                    0 <= jj < j && count_state(self.tasks@, names@[jj]@) > 0 ==> exists|k: int|
                        0 <= k < out@.len() && (#[trigger] out@[k].0@) == names@[jj]@,
            decreases 5 - j,
        {
            let name = names[j];
            let n = count_tasks_in(&self.tasks, name);
            let ghost out0 = out@;
            if n > 0 {
                out.push((String::from_str(name), n));
                proof {
                    assert(out@[out@.len() - 1].0@ == name@);
                    assert forall|jj: int|
                        0 <= jj < j + 1 && count_state(self.tasks@, names@[jj]@) > 0 implies exists|
                        k: int,
                    |
                        0 <= k < out@.len() && (#[trigger] out@[k].0@) == names@[jj]@ by {
                        if jj < j {
                            let k0 = choose|k: int|
                                0 <= k < out0.len() && (#[trigger] out0[k].0@) == names@[jj]@;
                            assert(out@[k0] == out0[k0]);
                        } else {
                            assert(out@[out@.len() - 1].0@ == names@[jj]@);
                        }
                    }
                }
            }
            j = j + 1;
        }
        proof {
            assert forall|st: Seq<char>|
                is_task_state(st) && count_state(self.tasks@, st) > 0 implies exists|k: int|
                0 <= k < out@.len() && (#[trigger] out@[k].0@) == st by {
                if st == "completed"@ {
                    assert(names@[0]@ == st);
                } else if st == "error"@ {
                    assert(names@[1]@ == st);
                } else if st == "queued"@ {
                    assert(names@[2]@ == st);
                } else if st == "running"@ {
                    assert(names@[3]@ == st);
                } else {
                    assert(names@[4]@ == st);
                }
            }
        }
        out
    }

    /// A page of the recorded events; see `EventLog::page`.
    pub fn events(
        &self,
        after_seq: u64,
        limit: usize,
        significant_only: bool,
        include_payload: bool,
    ) -> (r: EventsPage)
        requires
            self.wf(),
            after_seq < u64::MAX,
        ensures
            self.event_log().paged(after_seq, limit, significant_only, include_payload, r),
    {
        self.events.page(after_seq, limit, significant_only, include_payload)
    }

    /// The sequence number of the latest recorded event.
    pub fn latest_event_seq(&self) -> (r: u64)
        ensures
            r == self.event_log().latest(),
    {
        self.events.latest_seq()
    }

    /// The last error reported.
    pub fn last_error(&self) -> (r: Option<String>)
        ensures
            match r {
                Some(e) => self.last_error_view() == Some(e@),
                None => self.last_error_view() is None,
            },
    {
        match &self.last_error {
            Some(e) => Some(e.clone()),
            None => None,
        }
    }

    /// The connection last reported.
    pub fn connection(&self) -> (r: Option<ConnectionInfo>)
        ensures
            match r {
                Some(c) => self.connection_view() matches Some(d) && c.what@ == d.what@ && c.uuid
                    == d.uuid && c.details@ == d.details@,
                None => self.connection_view() is None,
            },
    {
        match &self.connection {
            Some(c) => Some(c.copy()),
            None => None,
        }
    }

    /// Records a connection made by the session itself.
    pub fn set_connection(&mut self, conn: ConnectionInfo)
        requires
            old(self).wf(),
        ensures
            final(self).wf(),
            final(self).connection_view() == Some(conn),
            final(self).task_list() == old(self).task_list(),
            final(self).event_log() == old(self).event_log(),
    {
        self.connection = Some(conn);
    }

    /// The size of the last frame seen.
    pub fn frame_dims(&self) -> (r: Option<(u32, u32)>)
        ensures
            r == self.frame_dims_view(),
    {
        self.frame_dims
    }

    /// Records the size of a frame just seen.
    pub fn set_frame_dims(&mut self, dims: (u32, u32))
        requires
            old(self).wf(),
        ensures
            final(self).wf(),
            final(self).frame_dims_view() == Some(dims),
            final(self).task_list() == old(self).task_list(),
            final(self).event_log() == old(self).event_log(),
    {
        self.frame_dims = Some(dims);
    }

    /// The current battle.
    pub fn battle(&self) -> (r: &BattleState)
        ensures
            *r == self.battle_view(),
    {
        &self.battle
    }
}

/// Whether `counts` gives, for each state that occurs among `tasks`, how many tasks are
/// in it, and names no other.
pub open spec fn counts_match(counts: Seq<(String, usize)>, tasks: Seq<QueuedTask>) -> bool {
    &&& forall|k: int|
        0 <= k < counts.len() ==> counts[k].1 > 0 && counts[k].1 == count_state(tasks, counts[k].0@)
    &&& forall|k: int| 0 <= k < counts.len() ==> is_task_state(#[trigger] counts[k].0@)
    &&& forall|st: Seq<char>|
        is_task_state(st) && count_state(tasks, st) > 0 ==> exists|k: int|
            0 <= k < counts.len() && (#[trigger] counts[k].0@) == st
}

/// A task_done wait on a task is over once that task has completed, failed or been
/// stopped (the reason names its state), or once no task has its id; an idle wait is
/// over exactly when the core is not running; an error wait is over exactly when an
/// error event came after the given sequence number or some task is in error.
pub proof fn waits_end_when_their_condition_holds(
    events: Seq<Event>,
    tasks: Seq<QueuedTask>,
    battle: BattleState,
    running: bool,
    id: i32,
    after_seq: u64,
    since_ns: Option<u64>,
    in_battle_ns: Option<u64>,
    stall_ns: u64,
)
    ensures
        wait_reason(events, tasks, battle, running, WaitCondition::TaskDone, Some(id), after_seq, since_ns, in_battle_ns, stall_ns)
            == match task_index(tasks, id) {
            None => Some("task_gone"@),
            Some(i) => if tasks[i].state@ == "completed"@ || tasks[i].state@ == "error"@
                || tasks[i].state@ == "stopped"@ {
                Some("task_"@ + tasks[i].state@)
            } else {
                None
            },
        },
        wait_reason(events, tasks, battle, running, WaitCondition::Idle, Some(id), after_seq, since_ns, in_battle_ns, stall_ns)
            is Some <==> !running,
        wait_reason(events, tasks, battle, running, WaitCondition::Error, Some(id), after_seq, since_ns, in_battle_ns, stall_ns)
            is Some <==> ((exists|i: int| 0 <= i < events.len() && #[trigger] event_hits(events[i], after_seq, true))
            || (exists|i: int| 0 <= i < tasks.len() && (#[trigger] tasks[i].state@) == "error"@)),
{
}

/// An all_done wait is over, with the reason "all_done", exactly when no task is queued
/// or running; what else the session holds plays no part.
pub proof fn all_done_waits_for_every_queued_or_running_task(
    events: Seq<Event>,
    tasks: Seq<QueuedTask>,
    battle: BattleState,
    running: bool,
    task_id: Option<i32>,
    after_seq: u64,
    since_ns: Option<u64>,
    in_battle_ns: Option<u64>,
    stall_ns: u64,
)
    ensures
        wait_reason(
            events,
            tasks,
            battle,
            running,
            WaitCondition::AllDone,
            task_id,
            after_seq,
            since_ns,
            in_battle_ns,
            stall_ns,
        ) == if exists|i: int|
            0 <= i < tasks.len() && ((#[trigger] tasks[i].state@) == "queued"@ || tasks[i].state@
                == "running"@) {
            None
        } else {
            Some("all_done"@)
        },
{
    if exists|i: int|
        0 <= i < tasks.len() && ((#[trigger] tasks[i].state@) == "queued"@ || tasks[i].state@
            == "running"@) {
        let i = choose|i: int|
            0 <= i < tasks.len() && ((#[trigger] tasks[i].state@) == "queued"@ || tasks[i].state@
                == "running"@);
        assert(is_pending_state(tasks[i].state@));
    }
}

/// Why a wait on `until` is over in this state, or `None` while it is not.
/// Battle times are in nanoseconds, as `diagnose_spec` takes them.
pub open spec fn wait_reason(
    events: Seq<Event>,
    tasks: Seq<QueuedTask>,
    battle: BattleState,
    running: bool,
    until: WaitCondition,
    task_id: Option<i32>,
    after_seq: u64,
    since_ns: Option<u64>,
    in_battle_ns: Option<u64>,
    stall_ns: u64,
) -> Option<Seq<char>> {
    match until {
        WaitCondition::AnyEvent => if exists|i: int|
            0 <= i < events.len() && #[trigger] event_hits(events[i], after_seq, false) {
            Some("event"@)
        } else {
            None
        },
        WaitCondition::TaskDone => match task_id {
            None => Some("task_gone"@),
            Some(id) => match task_index(tasks, id) {
                None => Some("task_gone"@),
                Some(i) => if is_terminal_state(tasks[i].state@) {
                    Some("task_"@ + tasks[i].state@)
                } else {
                    None
                },
            },
        },
        WaitCondition::AllDone => if exists|i: int|
            0 <= i < tasks.len() && is_pending_state(#[trigger] tasks[i].state@) {
            None
        } else {
            Some("all_done"@)
        },
        WaitCondition::Error => if exists|i: int|
            0 <= i < events.len() && #[trigger] event_hits(events[i], after_seq, true) {
            Some("error_event"@)
        } else if exists|i: int| 0 <= i < tasks.len() && (#[trigger] tasks[i].state@) == "error"@ {
            Some("task_error"@)
        } else {
            None
        },
        WaitCondition::Idle => if running {
            None
        } else {
            Some("idle"@)
        },
        WaitCondition::BattleProblem => if diagnose_spec(
            battle,
            running,
            since_ns,
            in_battle_ns,
            stall_ns,
        ).0 == "problem"@ {
            Some("battle_problem"@)
        } else {
            None
        },
        WaitCondition::BattleStalled => if diagnose_spec(
            battle,
            running,
            since_ns,
            in_battle_ns,
            stall_ns,
        ).0 == "stalled"@ {
            Some("battle_stalled"@)
        } else {
            None
        },
    }
}

impl SessionState {
    /// Why a wait on `until` is over, or `None` while it is not; see `wait_reason`.
    #[verifier::loop_isolation(false)]
    pub fn condition_met(
        &self,
        running: bool,
        until: WaitCondition,
        task_id: Option<i32>,
        after_seq: u64,
        since_action_ns: Option<u64>,
        in_battle_ns: Option<u64>,
        stall_ns: u64,
    ) -> (r: Option<String>)
        requires
            self.wf(),
        ensures
            ({
                let w = wait_reason(
                    self.event_log().events(),
                    self.task_list(),
                    self.battle_view(),
                    running,
                    until,
                    task_id,
                    after_seq,
                    since_action_ns,
                    in_battle_ns,
                    stall_ns,
                );
                match r {
                    Some(s) => w == Some(s@),
                    None => w is None,
                }
            }),
    {
        match until {
            WaitCondition::AnyEvent => {
                if self.events.any_after(after_seq, false) {
                    Some(String::from_str("event"))
                } else {
                    None
                }
            },
            WaitCondition::TaskDone => {
                let id = match task_id {
                    None => {
                        return Some(String::from_str("task_gone"));
                    },
                    Some(id) => id,
                };
                match self.find_task(id) {
                    None => {
                        proof {
                            assert(task_index(self.tasks@, id) is None);
                        }
                        Some(String::from_str("task_gone"))
                    },
                    Some(i) => {
                        proof {
                            let j = choose|j: int|
                                0 <= j < self.tasks@.len() && self.tasks@[j].task_id == id;
                            assert(task_index(self.tasks@, id) == Some(j));
                            if j < i {
                                assert(self.tasks@[j].task_id < self.tasks@[i as int].task_id);
                            } else if j > i {
                                assert(self.tasks@[i as int].task_id < self.tasks@[j].task_id);
                            }
                            assert(j == i);
                        }
                        let st = self.tasks[i].state.as_str();
                        if str_eq(st, "completed") || str_eq(st, "error") || str_eq(st, "stopped") {
                            let mut out = String::from_str("task_");
                            out.append(st);
                            Some(out)
                        } else {
                            None
                        }
                    },
                }
            },
            WaitCondition::AllDone => {
                let mut k: usize = 0;
                while k < self.tasks.len()
                    invariant
                        k <= self.tasks@.len(),
                        forall|j: int| 0 <= j < k ==> !is_pending_state(#[trigger] self.tasks@[j].state@),
                    decreases self.tasks.len() - k,
                {
                    let st = self.tasks[k].state.as_str();
                    if str_eq(st, "queued") || str_eq(st, "running") {
                        assert(is_pending_state(self.tasks@[k as int].state@));
                        return None;
                    }
                    k = k + 1;
                }
                Some(String::from_str("all_done"))
            },
            WaitCondition::Error => {
                if self.events.any_after(after_seq, true) {
                    return Some(String::from_str("error_event"));
                }
                let mut k: usize = 0;
                while k < self.tasks.len()
                    invariant
                        k <= self.tasks@.len(),
                        forall|j: int| 0 <= j < k ==> (#[trigger] self.tasks@[j].state@) != "error"@,
                    decreases self.tasks.len() - k,
                {
                    if str_eq(self.tasks[k].state.as_str(), "error") {
                        assert(self.tasks@[k as int].state@ == "error"@);
                        return Some(String::from_str("task_error"));
                    }
                    k = k + 1;
                }
                None
            },
            WaitCondition::Idle => {
                if running {
                    None
                } else {
                    Some(String::from_str("idle"))
                }
            },
            WaitCondition::BattleProblem => {
                let (status, _, _) = diagnose(
                    &self.battle,
                    running,
                    since_action_ns,
                    in_battle_ns,
                    stall_ns,
                );
                if str_eq(status.as_str(), "problem") {
                    Some(String::from_str("battle_problem"))
                } else {
                    None
                }
            },
            WaitCondition::BattleStalled => {
                let (status, _, _) = diagnose(
                    &self.battle,
                    running,
                    since_action_ns,
                    in_battle_ns,
                    stall_ns,
                );
                if str_eq(status.as_str(), "stalled") {
                    Some(String::from_str("battle_stalled"))
                } else {
                    None
                }
            },
        }
    }

    /// `condition_met` with the battle's times read off the clock now: whatever the
    /// clock said, the result is `wait_reason` for some elapsed times that are present
    /// exactly when the battle has the matching instants.
    pub fn condition_met_now(
        &self,
        running: bool,
        until: WaitCondition,
        task_id: Option<i32>,
        after_seq: u64,
        stall_ns: u64,
    ) -> (r: Option<String>)
        requires
            self.wf(),
        ensures
            exists|since: Option<u64>, in_battle: Option<u64>|
                (since is Some <==> self.battle_view().last_action_at is Some) && (in_battle is Some
                    <==> self.battle_view().started_at is Some) && #[trigger] wait_reason(
                    self.event_log().events(),
                    self.task_list(),
                    self.battle_view(),
                    running,
                    until,
                    task_id,
                    after_seq,
                    since,
                    in_battle,
                    stall_ns,
                ) == match r {
                    Some(s) => Some(s@),
                    None => None,
                },
    {
        let now = instant_now();
        let since: Option<u64> = match &self.battle.last_action_at {
            Some(t) => Some(nanos_between(t, &now)),
            None => None,
        };
        let in_battle: Option<u64> = match &self.battle.started_at {
            Some(t) => Some(nanos_between(t, &now)),
            None => None,
        };
        let r = self.condition_met(running, until, task_id, after_seq, since, in_battle, stall_ns);
        proof {
            let w = wait_reason(
                self.event_log().events(),
                self.task_list(),
                self.battle_view(),
                running,
                until,
                task_id,
                after_seq,
                since,
                in_battle,
                stall_ns,
            );
            assert(w == match r {
                Some(s) => Some(s@),
                None => None,
            });
        }
        r
    }
}

pub open spec fn queued_tasks(tasks: Seq<QueuedTask>) -> Seq<QueuedTask>
    decreases tasks.len(),
{
    if tasks.len() == 0 {
        Seq::empty()
    } else {
        let rest = queued_tasks(tasks.subrange(0, tasks.len() - 1));
        if tasks[tasks.len() - 1].state@ == "queued"@ {
            rest.push(tasks[tasks.len() - 1])
        } else {
            rest
        }
    }
}

/// How many tasks are in state `st`.
pub open spec fn count_state(tasks: Seq<QueuedTask>, st: Seq<char>) -> nat
    decreases tasks.len(),
{
    if tasks.len() == 0 {
        0
    } else {
        count_state(tasks.subrange(0, tasks.len() - 1), st) + if tasks[tasks.len() - 1].state@
            == st {
            1nat
        } else {
            0nat
        }
    }
}

fn count_tasks_in(tasks: &Vec<QueuedTask>, st: &str) -> (r: usize)
    ensures
        r == count_state(tasks@, st@),
{
    let mut n: usize = 0;
    let mut k: usize = 0;
    while k < tasks.len()
        invariant
            k <= tasks@.len(),
            n == count_state(tasks@.subrange(0, k as int), st@),
            n <= k,
        decreases tasks.len() - k,
    {
        if str_eq(tasks[k].state.as_str(), st) {
            n = n + 1;
        }
        k = k + 1;
        proof {
            let pre = tasks@.subrange(0, k as int);
            assert(pre.subrange(0, pre.len() - 1) =~= tasks@.subrange(0, k - 1));
        }
    }
    proof {
        assert(tasks@.subrange(0, tasks@.len() as int) =~= tasks@);
    }
    n
}

/// The decimal ids of the tasks, in order.
pub open spec fn ids_texts(tasks: Seq<QueuedTask>) -> Seq<Seq<char>> {
    Seq::new(tasks.len(), |i: int| int_text(tasks[i].task_id as int))
}

/// The message for an id no queued task has.
pub open spec fn unknown_task_text(task_id: i32, tasks: Seq<QueuedTask>) -> Seq<char> {
    "No task with id "@ + int_text(task_id as int) + " in this session. Queued ids: "@ + (if tasks.len()
        == 0 {
        "none"@
    } else {
        join_text(ids_texts(tasks), ", "@)
    }) + "."@
}

/// The message for a task the core refused to queue.
pub open spec fn refused_append_text(canonical: Seq<char>, task_id: i32) -> Seq<char> {
    "MaaCore refused the "@ + canonical + " task (AsstAppendTask returned "@ + int_text(
        task_id as int,
    )
        + "). The parameters are structurally valid, so this is usually a value the loaded resources do not know -- an unknown stage code, or a theme not present in this resource version."@
}

fn refused_append_message(canonical: &String, task_id: i32) -> (r: String)
    ensures
        r@ == refused_append_text(canonical@, task_id),
{
    let mut m = String::from_str("MaaCore refused the ");
    m.append(canonical.as_str());
    push_str(&mut m, " task (AsstAppendTask returned ");
    write_i64(&mut m, task_id as i64);
    push_str(
        &mut m,
        "). The parameters are structurally valid, so this is usually a value the loaded resources do not know -- an unknown stage code, or a theme not present in this resource version.",
    );
    m
}

/// The stage of a task's params: its `stage`, else its `filename`, when that is a string.
pub open spec fn stage_from_params(params: JsonV) -> Option<Seq<char>> {
    let v = match json_get(params, "stage"@) {
        Some(x) => Some(x),
        None => json_get(params, "filename"@),
    };
    match v {
        Some(x) => json_as_str(x),
        None => None,
    }
}

fn stage_from_params_exec(params: &Json) -> (r: Option<String>)
    ensures
        match r {
            Some(s) => stage_from_params(params@) == Some(s@),
            None => stage_from_params(params@) is None,
        },
{
    let v = match params.get("stage") {
        Some(x) => Some(x),
        None => params.get("filename"),
    };
    match v {
        Some(x) => match x.as_str() {
            Some(s) => Some(s.clone()),
            None => None,
        },
        None => None,
    }
}

fn chain_state_text(message_id: i32) -> (r: Option<&'static str>)
    ensures
        match r {
            Some(s) => chain_state(message_id) == Some(s@),
            None => chain_state(message_id) is None,
        },
{
    if message_id == msg::TASK_CHAIN_START {
        Some("running")
    } else if message_id == msg::TASK_CHAIN_COMPLETED {
        Some("completed")
    } else if message_id == msg::TASK_CHAIN_ERROR {
        Some("error")
    } else if message_id == msg::TASK_CHAIN_STOPPED {
        Some("stopped")
    } else {
        None
    }
}

fn is_battle_taskchain_exec(t: &str) -> (r: bool)
    ensures
        r == is_battle_taskchain(t@),
{
    str_eq(t, "Copilot") || str_eq(t, "SSSCopilot") || str_eq(t, "ParadoxCopilot") || str_eq(
        t,
        "SingleStep",
    )
}

fn is_connection_failure_exec(w: &str) -> (r: bool)
    ensures
        r == is_connection_failure(w@),
{
    str_eq(w, "ConnectFailed") || str_eq(w, "Disconnect") || str_eq(w, "ScreencapFailed")
        || str_eq(w, "UnsupportedResolution") || str_eq(w, "ResolutionError") || str_eq(
        w,
        "TouchModeNotAvailable",
    )
}

// ---------------------------------------------------------------------------
// What the session answers around the core's own calls.

/// The payload recorded for a callback: its JSON when that is an object; otherwise an
/// object holding, under "raw", the JSON value that was parsed or, when the text was not
/// JSON (`parsed` is `None`), the text itself.
pub fn callback_payload(parsed: Option<Json>, text: &str) -> (r: Json)
    ensures
        r@ == match parsed {
            Some(v) => match v@ {
                JsonV::Object(_) => v@,
                _ => JsonV::Object(seq![("raw"@, v@)]),
            },
            None => JsonV::Object(seq![("raw"@, JsonV::Str(text@))]),
        },
{
    match parsed {
        Some(v) => {
            if v.is_object() {
                v
            } else {
                let mut f: Vec<(String, Json)> = Vec::new();
                f.push(field("raw", v));
                proof {
                    assert(crate::json::fields_view(f@) =~= seq![("raw"@, f@[0].1@)]);
                }
                Json::object(f)
            }
        },
        None => {
            let mut f: Vec<(String, Json)> = Vec::new();
            f.push(field("raw", Json::new_str(text)));
            proof {
                assert(crate::json::fields_view(f@) =~= seq![("raw"@, JsonV::Str(text@))]);
            }
            Json::object(f)
        },
    }
}

/// Task params with their file name resolved against the job directory: without one,
/// or without a string `filename`, the params as given; otherwise the `filename`
/// replaced by its resolved path, or the error resolving it gave.
pub fn resolve_paths<F: Fn(&str) -> Option<String>>(
    platform: Platform,
    params: Json,
    job_dir: Option<&str>,
    canonicalize: &F,
) -> (r: Result<Json, Error>)
    requires
        forall|p: &str| canonicalize.requires((p,)),
    ensures
        job_dir is None || get_str(params@, "filename"@) is None ==> (r matches Ok(p) && p@
            == params@),
        job_dir is Some && get_str(params@, "filename"@) is Some ==> match r {
            Ok(p) => exists|s: String|
                #[trigger] job_path_resolved(
                    platform,
                    get_str(params@, "filename"@)->0,
                    job_dir->0,
                    *canonicalize,
                    Ok::<String, Error>(s),
                ) && p@ == json_insert(params@, "filename"@, JsonV::Str(s@)),
            Err(e) => job_path_resolved(
                    platform,
                get_str(params@, "filename"@)->0,
                job_dir->0,
                *canonicalize,
                Err::<String, Error>(e),
            ),
        },
{
    let dir = match job_dir {
        None => {
            return Ok(params);
        },
        Some(d) => d,
    };
    let raw = match params.get_str("filename") {
        None => {
            return Ok(params);
        },
        Some(s) => s.clone(),
    };
    match resolve_job_path(platform, raw.as_str(), Some(dir), canonicalize) {
        Ok(path) => {
            proof {
                assert(job_path_resolved(
                    platform,
                    get_str(params@, "filename"@)->0,
                    job_dir->0,
                    *canonicalize,
                    Ok::<String, Error>(path),
                ));
            }
            let mut out = params;
            out.insert("filename", Json::Str(path));
            Ok(out)
        },
        Err(e) => Err(e),
    }
}

/// The answer when no device is connected.
pub open spec fn not_connected_text() -> Seq<char> {
    "No device is connected. Call device_connect first."@
}

/// `Ok` when a device is connected, else the `NotConnected` error.
pub fn require_connection(connected: bool) -> (r: Result<(), Error>)
    ensures
        connected <==> r is Ok,
        r matches Err(e) ==> (e matches Error::NotConnected(m) && m@ == not_connected_text()),
{
    if connected {
        Ok(())
    } else {
        Err(Error::NotConnected(String::from_str("No device is connected. Call device_connect first.")))
    }
}

/// The details recorded for a connection the session made.
pub open spec fn connection_details(
    adb_path: Seq<char>,
    address: Seq<char>,
    config: Seq<char>,
    touch_mode: Seq<char>,
) -> JsonV {
    JsonV::Object(
        seq![
            ("adb"@, JsonV::Str(adb_path)),
            ("address"@, JsonV::Str(address)),
            ("config"@, JsonV::Str(config)),
            ("touch_mode"@, JsonV::Str(touch_mode)),
        ],
    )
}

/// The connection the session reports after the core connected: "Connected", the
/// core's uuid, and the arguments it connected with.
pub fn connected_info(
    adb_path: &str,
    address: &str,
    config: &str,
    touch_mode: &str,
    uuid: Option<String>,
) -> (r: ConnectionInfo)
    ensures
        r.what@ == "Connected"@,
        r.uuid == uuid,
        r.details@ == connection_details(adb_path@, address@, config@, touch_mode@),
{
    proof {
        lemma_connection_keys();
    }
    let mut details = Json::new_object();
    let ghost d0 = details@;
    details.insert_str("adb", adb_path);
    proof {
        lemma_insert_new_key(d0, "adb"@, JsonV::Str(adb_path@));
    }
    let ghost d1 = details@;
    details.insert_str("address", address);
    proof {
        lemma_insert_new_key(d1, "address"@, JsonV::Str(address@));
    }
    let ghost d2 = details@;
    details.insert_str("config", config);
    proof {
        lemma_insert_new_key(d2, "config"@, JsonV::Str(config@));
    }
    let ghost d3 = details@;
    details.insert_str("touch_mode", touch_mode);
    proof {
        lemma_insert_new_key(d3, "touch_mode"@, JsonV::Str(touch_mode@));
        if let JsonV::Object(f) = details@ {
            assert(f =~= seq![
                ("adb"@, JsonV::Str(adb_path@)),
                ("address"@, JsonV::Str(address@)),
                ("config"@, JsonV::Str(config@)),
                ("touch_mode"@, JsonV::Str(touch_mode@)),
            ]);
        }
    }
    ConnectionInfo { what: String::from_str("Connected"), uuid, details }
}

proof fn lemma_connection_keys()
    ensures
        "adb"@ != "address"@,
        "adb"@ != "config"@,
        "adb"@ != "touch_mode"@,
        "address"@ != "config"@,
        "address"@ != "touch_mode"@,
        "config"@ != "touch_mode"@,
{
    reveal_strlit("adb");
    reveal_strlit("address");
    reveal_strlit("config");
    reveal_strlit("touch_mode");
    assert("adb"@.len() == 3);
    assert("address"@[1] == 'd');
    assert("adb"@[1] == 'd');
    assert("adb"@[2] == 'b');
    assert("address"@[2] == 'd');
    assert("config"@[0] == 'c');
    assert("touch_mode"@[0] == 't');
    assert("adb"@[0] == 'a');
    assert("address"@[0] == 'a');
}

/// The message when the core could not connect: where, with what, the reason the
/// core last reported (or that it reported none), and the core's own error.
pub open spec fn connect_failed_text(
    address: Seq<char>,
    adb_path: Seq<char>,
    config: Seq<char>,
    reason: Option<Seq<char>>,
    cause: Seq<char>,
) -> Seq<char> {
    "Could not connect to "@ + address + " using adb at "@ + debug_text(adb_path) + " (profile "@
        + debug_text(config) + "): "@ + match reason {
        Some(r) => r,
        None => "no reason reported by MaaCore"@,
    } + ". Check that the emulator is running and that 'adb devices' lists this address; 'maa_events' has the connection callbacks in full. ("@
        + cause + ")"@
}

/// The `DeviceConnection` error for a failed connect; see `connect_failed_text`.
pub fn connect_failed(
    address: &str,
    adb_path: &str,
    config: &str,
    reason: Option<String>,
    cause: &str,
) -> (r: Error)
    ensures
        r matches Error::DeviceConnection(m) && m@ == connect_failed_text(
            address@,
            adb_path@,
            config@,
            match reason {
                Some(s) => Some(s@),
                None => None,
            },
            cause@,
        ),
{
    let mut m = String::from_str("Could not connect to ");
    push_str(&mut m, address);
    push_str(&mut m, " using adb at ");
    let a = debug_str(adb_path);
    m.append(a.as_str());
    push_str(&mut m, " (profile ");
    let c = debug_str(config);
    m.append(c.as_str());
    push_str(&mut m, "): ");
    match &reason {
        Some(r) => m.append(r.as_str()),
        None => push_str(&mut m, "no reason reported by MaaCore"),
    }
    push_str(
        &mut m,
        ". Check that the emulator is running and that 'adb devices' lists this address; 'maa_events' has the connection callbacks in full. (",
    );
    push_str(&mut m, cause);
    push_str(&mut m, ")");
    Error::DeviceConnection(m)
}

/// The message when the core refused a parameter update.
pub open spec fn params_refused_text(task_id: i32, task_type: Seq<char>, cause: Seq<char>) -> Seq<
    char,
> {
    "MaaCore refused the parameter update for task "@ + int_text(task_id as int) + " ("@ + task_type
        + "). Several fields cannot be changed once the task is running -- 'stage' on Fight and 'filename' on the copilot tasks among them. ("@
        + cause + ")"@
}

/// The `Refused` error for a parameter update the core declined.
pub fn params_refused(task_id: i32, task_type: &str, cause: &str) -> (r: Error)
    ensures
        r matches Error::Refused(m) && m@ == params_refused_text(task_id, task_type@, cause@),
{
    let mut m = String::from_str("MaaCore refused the parameter update for task ");
    write_i64(&mut m, task_id as i64);
    push_str(&mut m, " (");
    push_str(&mut m, task_type);
    push_str(
        &mut m,
        "). Several fields cannot be changed once the task is running -- 'stage' on Fight and 'filename' on the copilot tasks among them. (",
    );
    push_str(&mut m, cause);
    push_str(&mut m, ")");
    Error::Refused(m)
}

/// The message when the core declined to start.
pub open spec fn start_declined_text() -> Seq<char> {
    "AsstStart returned false. MaaCore is connected but declined to run -- most often because a run is already in progress; check 'status'."@
}

/// The `CoreLoad` error for a start the core declined.
pub fn start_declined() -> (r: Error)
    ensures
        r matches Error::CoreLoad(m) && m@ == start_declined_text(),
{
    Error::CoreLoad(
        String::from_str(
            "AsstStart returned false. MaaCore is connected but declined to run -- most often because a run is already in progress; check 'status'.",
        ),
    )
}

/// The message when a single step is asked for while the core runs a task.
pub open spec fn busy_single_step_text() -> Seq<char> {
    "MaaCore is already running a task, and AsstStart refuses to start another. SingleStep drives a battle yourself instead of alongside a Copilot task -- call maa_stop first."@
}

/// The params of a single-step task: a copilot step of `subtype`, with its details when
/// given; refused while the core is running.
pub fn single_step_params(running: bool, subtype: &str, details: Option<Json>) -> (r: Result<
    Json,
    Error,
>)
    ensures
        running <==> r is Err,
        match r {
            Ok(p) => p@ == match details {
                Some(d) => JsonV::Object(
                    seq![
                        ("type"@, JsonV::Str("copilot"@)),
                        ("subtype"@, JsonV::Str(subtype@)),
                        ("details"@, d@),
                    ],
                ),
                None => JsonV::Object(
                    seq![("type"@, JsonV::Str("copilot"@)), ("subtype"@, JsonV::Str(subtype@))],
                ),
            },
            Err(e) => e matches Error::Validation(m) && m@ == busy_single_step_text(),
        },
{
    if running {
        return Err(
            Error::Validation(
                String::from_str(
                    "MaaCore is already running a task, and AsstStart refuses to start another. SingleStep drives a battle yourself instead of alongside a Copilot task -- call maa_stop first.",
                ),
            ),
        );
    }
    proof {
        reveal_strlit("type");
        reveal_strlit("subtype");
        reveal_strlit("details");
        assert("type"@[0] == 't');
        assert("subtype"@[0] == 's');
        assert("details"@[0] == 'd');
    }
    let mut p = Json::new_object();
    let ghost p0 = p@;
    p.insert_str("type", "copilot");
    proof {
        lemma_insert_new_key(p0, "type"@, JsonV::Str("copilot"@));
    }
    let ghost p1 = p@;
    p.insert_str("subtype", subtype);
    proof {
        lemma_insert_new_key(p1, "subtype"@, JsonV::Str(subtype@));
        if let JsonV::Object(f) = p@ {
            assert(f =~= seq![("type"@, JsonV::Str("copilot"@)), ("subtype"@, JsonV::Str(subtype@))]);
        }
    }
    let ghost p2 = p@;
    match details {
        Some(d) => {
            let ghost dv = d@;
            p.insert("details", d);
            proof {
                lemma_insert_new_key(p2, "details"@, dv);
                if let JsonV::Object(f) = p@ {
                    assert(f =~= seq![
                        ("type"@, JsonV::Str("copilot"@)),
                        ("subtype"@, JsonV::Str(subtype@)),
                        ("details"@, dv),
                    ]);
                }
            }
        },
        None => {},
    }
    Ok(p)
}

/// The message when the core has no frame cached.
pub open spec fn no_frame_text() -> Seq<char> {
    "MaaCore has no frame to return. It caches the last screenshot taken while running a task, so there is nothing to show until a task has run at least once on this connection."@
}

/// The `NotConnected` error for a missing frame.
pub fn no_frame() -> (r: Error)
    ensures
        r matches Error::NotConnected(m) && m@ == no_frame_text(),
{
    Error::NotConnected(
        String::from_str(
            "MaaCore has no frame to return. It caches the last screenshot taken while running a task, so there is nothing to show until a task has run at least once on this connection.",
        ),
    )
}

/// The message when a BGR frame has the wrong size.
pub open spec fn bgr_size_text(len: nat, width: u32, height: u32) -> Seq<char> {
    "BGR frame is "@ + nat_text(len) + " bytes, expected "@ + nat_text(
        (width * height * 3) as nat,
    ) + " for "@ + nat_text(width as nat) + "x"@ + nat_text(height as nat)
}

/// A BGR frame of `width` by `height` pixels from `data`, which must hold exactly
/// three bytes per pixel.
pub fn bgr_frame(width: u32, height: u32, data: Vec<u8>) -> (r: Result<BgrFrame, Error>)
    ensures
        (data@.len() == width * height * 3) <==> r is Ok,
        match r {
            Ok(f) => f.width == width && f.height == height && f.data@ == data@,
            Err(e) => e matches Error::Image(m) && m@ == bgr_size_text(data@.len(), width, height),
        },
{
    proof {
        assert(width * height <= 0xffff_ffffu64 * 0xffff_ffffu64) by (nonlinear_arith)
            requires
                width <= 0xffff_ffffu64,
                height <= 0xffff_ffffu64,
        ;
    }
    let wh: u128 = (width as u128) * (height as u128);
    let expected: u128 = wh * 3;
    if (data.len() as u128) != expected {
        let mut m = String::from_str("BGR frame is ");
        write_u64(&mut m, data.len() as u64);
        push_str(&mut m, " bytes, expected ");
        write_u128(&mut m, expected);
        push_str(&mut m, " for ");
        write_u64(&mut m, width as u64);
        push_str(&mut m, "x");
        write_u64(&mut m, height as u64);
        return Err(Error::Image(m));
    }
    Ok(BgrFrame { width, height, data })
}

// ---------------------------------------------------------------------------
// Frame digests.

/// What std's `DefaultHasher` (as made by `DefaultHasher::new`) finishes with after
/// hashing these bytes as a slice.
pub uninterp spec fn frame_hash(bytes: Seq<u8>) -> u64;

/// A digest of a frame's bytes: `DefaultHasher::new`, `Hash::hash` of the slice, then
/// `finish`. The hasher is built with fixed keys, so equal bytes give equal digests;
/// its value is named `frame_hash` and not stated further.
#[verifier::external_body]
pub fn frame_digest(bytes: &[u8]) -> (r: u64)
    ensures
        r == frame_hash(bytes@),
{
    let mut h = std::collections::hash_map::DefaultHasher::new();
    std::hash::Hash::hash(bytes, &mut h);
    std::hash::Hasher::finish(&h)
}

// ---------------------------------------------------------------------------
// The status report.

/// The session's live state, as the status tool reports it.
pub struct Status {
    pub core_loaded: bool,
    pub core_version: Option<String>,
    pub connected: bool,
    pub running: bool,
    pub connection: Option<ConnectionInfo>,
    pub task_counts: Vec<(String, usize)>,
    pub tasks: Vec<Json>,
    pub latest_event_seq: u64,
    pub last_error: Option<String>,
    pub frame_dims: Option<(u32, u32)>,
}

/// A connection as JSON: what it is, the device's id and the details.
pub open spec fn connection_json(c: ConnectionInfo) -> JsonV {
    JsonV::Object(
        seq![
            ("what"@, JsonV::Str(c.what@)),
            ("uuid"@, crate::config::opt_text_json(c.uuid)),
            ("details"@, c.details@),
        ],
    )
}

/// The status report as JSON: its fields in order, the counts as an object from state
/// to count, the frame size as a pair.
pub open spec fn status_json(s: Status) -> JsonV {
    JsonV::Object(
        seq![
            ("core_loaded"@, JsonV::Bool(s.core_loaded)),
            ("core_version"@, crate::config::opt_text_json(s.core_version)),
            ("connected"@, JsonV::Bool(s.connected)),
            ("running"@, JsonV::Bool(s.running)),
            ("connection"@, match s.connection {
                Some(c) => connection_json(c),
                None => JsonV::Null,
            }),
            ("task_counts"@, JsonV::Object(
                Seq::new(
                    s.task_counts@.len(),
                    |i: int| (s.task_counts@[i].0@, JsonV::Int(s.task_counts@[i].1 as int)),
                ),
            )),
            ("tasks"@, JsonV::Array(json_items(s.tasks@))),
            ("latest_event_seq"@, JsonV::Int(s.latest_event_seq as int)),
            ("last_error"@, crate::config::opt_text_json(s.last_error)),
            ("frame_dims"@, match s.frame_dims {
                Some(p) => crate::config::pair_json(p),
                None => JsonV::Null,
            }),
        ],
    )
}

/// A connection as JSON; see `connection_json`.
pub fn connection_to_json(c: ConnectionInfo) -> (r: Json)
    ensures
        r@ == connection_json(c),
{
    let ghost cv = c;
    let mut f: Vec<(String, Json)> = Vec::new();
    f.push(field("what", Json::Str(c.what)));
    f.push(field("uuid", Json::opt_string(c.uuid)));
    f.push(field("details", c.details));
    proof {
        assert(crate::json::fields_view(f@) =~= seq![
            ("what"@, JsonV::Str(cv.what@)),
            ("uuid"@, crate::config::opt_text_json(cv.uuid)),
            ("details"@, cv.details@),
        ]);
    }
    Json::object(f)
}

impl Status {
    /// The report as JSON; see `status_json`.
    pub fn into_json(self) -> (r: Json)
        ensures
            r@ == status_json(self),
    {
        let ghost sv = self;
        let counts = crate::tools::counts_json(&self.task_counts);
        let connection = match self.connection {
            Some(c) => connection_to_json(c),
            None => Json::Null,
        };
        let dims = match self.frame_dims {
            Some(p) => {
                let mut v: Vec<Json> = Vec::new();
                v.push(Json::Int(p.0 as i64));
                v.push(Json::Int(p.1 as i64));
                proof {
                    assert(json_items(v@) =~= seq![JsonV::Int(p.0 as int), JsonV::Int(p.1 as int)]);
                }
                Json::array(v)
            },
            None => Json::Null,
        };
        let mut f: Vec<(String, Json)> = Vec::new();
        f.push(field("core_loaded", Json::Bool(self.core_loaded)));
        f.push(field("core_version", Json::opt_string(self.core_version)));
        f.push(field("connected", Json::Bool(self.connected)));
        f.push(field("running", Json::Bool(self.running)));
        f.push(field("connection", connection));
        f.push(field("task_counts", counts));
        f.push(field("tasks", Json::array(self.tasks)));
        f.push(field("latest_event_seq", Json::UInt(self.latest_event_seq)));
        f.push(field("last_error", Json::opt_string(self.last_error)));
        f.push(field("frame_dims", dims));
        proof {
            match status_json(sv) {
                JsonV::Object(g) => {
                    assert(crate::json::fields_view(f@) =~= g);
                },
                _ => {},
            }
        }
        Json::object(f)
    }
}

impl SessionState {
    /// The live state: the core's version and whether it is connected and running (as
    /// the caller read them from the core), with the session's connection, task counts,
    /// tasks, latest event, last error and frame size.
    pub fn status(&self, core_version: String, connected: bool, running: bool) -> (r: Status)
        requires
            self.wf(),
        ensures
            r.core_loaded,
            r.core_version matches Some(v) && v@ == core_version@,
            r.connected == connected,
            r.running == running,
            match r.connection {
                Some(c) => self.connection_view() matches Some(d) && c.what@ == d.what@ && c.uuid
                    == d.uuid && c.details@ == d.details@,
                None => self.connection_view() is None,
            },
            counts_match(r.task_counts@, self.task_list()),
            r.tasks@.len() == self.task_list().len(),
            forall|k: int|
                0 <= k < r.tasks@.len() ==> (#[trigger] r.tasks@[k])@ == task_describe_spec(self.task_list()[k]),
            r.latest_event_seq == self.event_log().latest(),
            match r.last_error {
                Some(e) => self.last_error_view() == Some(e@),
                None => self.last_error_view() is None,
            },
            r.frame_dims == self.frame_dims_view(),
    {
        let task_counts = self.task_counts();
        Status {
            core_loaded: true,
            core_version: Some(core_version),
            connected,
            running,
            connection: self.connection(),
            task_counts,
            tasks: self.tasks(),
            latest_event_seq: self.latest_event_seq(),
            last_error: self.last_error(),
            frame_dims: self.frame_dims(),
        }
    }
}

} // verus!
