use vstd::prelude::*;
use vstd::string::*;

use crate::json::{
    field, fields_view, json_as_str, json_get, json_items, json_text, plain, plain_text, repr_text,
    write_repr, Json, JsonV,
};
use crate::tools::str_list;
use crate::text::{
    join_strings, join_text, nat_text, push_char, push_str, str_eq, strings_view, write_u64,
};

verus! {

broadcast use vstd::string::group_string_axioms;

/// A reading of the monotonic clock.
#[verifier::external_type_specification]
#[verifier::external_body]
pub struct ExInstant(std::time::Instant);

/// `Instant::now`: a reading of the monotonic clock; nothing is stated of its value.
#[verifier::external_body]
pub(crate) fn instant_now() -> std::time::Instant {
    std::time::Instant::now()
}

/// `Instant::saturating_duration_since` in whole nanoseconds: how long after `earlier`
/// the reading `later` was taken (0 when it was not later); nothing more is stated.
#[verifier::external_body]
pub(crate) fn nanos_between(earlier: &std::time::Instant, later: &std::time::Instant) -> u64 {
    later.saturating_duration_since(*earlier).as_nanos() as u64
}

/// What the copilot callbacks of the current battle have said so far.
pub struct BattleState {
    pub taskchain: Option<String>,
    pub stage: Option<String>,
    pub formation_groups: Vec<String>,
    pub selected: Vec<(String, String)>,
    pub unavailable: Vec<(String, String)>,
    pub invalid_opers: Vec<String>,
    pub actions_run: u32,
    pub last_action: Option<Json>,
    pub last_action_at: Option<std::time::Instant>,
    pub started_at: Option<std::time::Instant>,
    pub parse_failed: bool,
    pub unsupported_level: Option<String>,
}

/// The views of a vector of string pairs.
pub open spec fn pairs_view(v: Seq<(String, String)>) -> Seq<(Seq<char>, Seq<char>)> {
    Seq::new(v.len(), |i: int| (v[i].0@, v[i].1@))
}

/// What `str_field` gives: the field's own text if it is a string, its JSON text if it is
/// anything else, and nothing when it is missing.
pub open spec fn str_field_text(details: JsonV, key: Seq<char>) -> Seq<char> {
    match json_get(details, key) {
        Some(v) => plain_text(v),
        None => Seq::empty(),
    }
}

/// The group names a `BattleFormation` callback lists: each entry's text, empty for a
/// non-string entry; none when there is no `formation` array.
pub open spec fn formation_groups_spec(details: JsonV) -> Seq<Seq<char>> {
    match json_get(details, "formation"@) {
        Some(JsonV::Array(items)) => Seq::new(
            items.len(),
            |i: int|
                match json_as_str(items[i]) {
                    Some(s) => s,
                    None => Seq::empty(),
                },
        ),
        _ => Seq::empty(),
    }
}

/// The field under `key`, `null` when missing.
pub open spec fn field_or_null_spec(details: JsonV, key: Seq<char>) -> JsonV {
    match json_get(details, key) {
        Some(v) => v,
        None => JsonV::Null,
    }
}

/// The record kept of a `CopilotAction`: its action, target, doc and elapsed time.
pub open spec fn last_action_spec(details: JsonV) -> JsonV {
    JsonV::Object(
        seq![
            ("action"@, field_or_null_spec(details, "action"@)),
            ("target"@, field_or_null_spec(details, "target"@)),
            ("doc"@, field_or_null_spec(details, "doc"@)),
            ("elapsed_time"@, field_or_null_spec(details, "elapsed_time"@)),
        ],
    )
}

fn str_field(details: &Json, key: &str) -> (r: String)
    ensures
        r@ == str_field_text(details@, key@),
{
    match details.get(key) {
        Some(v) => plain(v),
        None => String::new(),
    }
}

fn field_or_null(details: &Json, key: &str) -> (r: Json)
    ensures
        r@ == field_or_null_spec(details@, key@),
{
    match details.get(key) {
        Some(v) => v.copy(),
        None => Json::Null,
    }
}

fn contains_string(v: &Vec<String>, s: &String) -> (r: bool)
    ensures
        r == strings_view(v@).contains(s@),
{
    let mut i: usize = 0;
    while i < v.len()
        invariant
            i <= v.len(),
            forall|k: int| 0 <= k < i ==> v@[k]@ != s@,
        decreases v.len() - i,
    {
        if str_eq(v[i].as_str(), s.as_str()) {
            proof {
                assert(strings_view(v@)[i as int] == s@);
            }
            return true;
        }
        i = i + 1;
    }
    proof {
        if strings_view(v@).contains(s@) {
            let k = choose|k: int| 0 <= k < strings_view(v@).len() && strings_view(v@)[k] == s@;
            assert(v@[k]@ == s@);
        }
    }
    false
}

fn contains_pair(v: &Vec<(String, String)>, a: &String, b: &String) -> (r: bool)
    ensures
        r == pairs_view(v@).contains((a@, b@)),
{
    let mut i: usize = 0;
    while i < v.len()
        invariant
            i <= v.len(),
            forall|k: int| 0 <= k < i ==> (v@[k].0@, v@[k].1@) != (a@, b@),
        decreases v.len() - i,
    {
        if str_eq(v[i].0.as_str(), a.as_str()) && str_eq(v[i].1.as_str(), b.as_str()) {
            proof {
                assert(pairs_view(v@)[i as int] == (a@, b@));
            }
            return true;
        }
        i = i + 1;
    }
    proof {
        if pairs_view(v@).contains((a@, b@)) {
            let k = choose|k: int|
                0 <= k < pairs_view(v@).len() && pairs_view(v@)[k] == (a@, b@);
            assert((v@[k].0@, v@[k].1@) == (a@, b@));
        }
    }
    false
}

/// What `note_event` does to the battle state: `what` with its `details` at `now`.
pub open spec fn note_event_post(
    old: BattleState,
    new: BattleState,
    what: Seq<char>,
    details: JsonV,
    now: std::time::Instant,
) -> bool {
    &&& what == "BattleFormation"@ ==> strings_view(new.formation_groups@)
                    == formation_groups_spec(details)
    &&& what != "BattleFormation"@ ==> new.formation_groups@ == old.formation_groups@
    &&& new.selected@ == if what == "BattleFormationSelected"@ {
                    old.selected@.push(new.selected@.last())
                } else {
                    old.selected@
                }
    &&& what == "BattleFormationSelected"@ ==> new.selected@.last().0@
                    == str_field_text(details, "selected"@) && new.selected@.last().1@
                    == str_field_text(details, "group_name"@)
    &&& ({
                    let entry = (
                        str_field_text(details, "oper_name"@),
                        if json_get(details, "requirement_type"@) is Some {
                            str_field_text(details, "requirement_type"@)
                        } else {
                            "unknown"@
                        },
                    );
                    pairs_view(new.unavailable@) == if what
                        == "BattleFormationOperUnavailable"@ && !pairs_view(
                        old.unavailable@,
                    ).contains(entry) {
                        pairs_view(old.unavailable@).push(entry)
                    } else {
                        pairs_view(old.unavailable@)
                    }
                })
    &&& new.parse_failed == (old.parse_failed || what
                    == "BattleFormationParseFailed"@)
    &&& what == "UnsupportedLevel"@ ==> (new.unsupported_level matches Some(l) && l@
                    == str_field_text(details, "level"@))
    &&& what != "UnsupportedLevel"@ ==> new.unsupported_level == old.unsupported_level
    &&& ({
                    let name = str_field_text(details, "name"@);
                    strings_view(new.invalid_opers@) == if what
                        == "UserAdditionalOperInvalid"@ && name.len() > 0 && !strings_view(
                        old.invalid_opers@,
                    ).contains(name) {
                        strings_view(old.invalid_opers@).push(name)
                    } else {
                        strings_view(old.invalid_opers@)
                    }
                })
    &&& what == "CopilotAction"@ ==> (new.actions_run == old.actions_run + 1
                    && new.last_action_at == Some(now) && (new.last_action matches Some(
                    a) && a@ == last_action_spec(details)))
    &&& what != "CopilotAction"@ ==> new.actions_run == old.actions_run
                    && new.last_action == old.last_action && new.last_action_at
                    == old.last_action_at
    &&& new.taskchain == old.taskchain
    &&& new.stage == old.stage
    &&& new.started_at == old.started_at
}

/// A battle that has just started on `taskchain`: nothing observed yet.
pub open spec fn fresh_battle(b: BattleState, taskchain: Option<String>) -> bool {
    &&& b.taskchain == taskchain
    &&& b.started_at is Some
    &&& b.formation_groups@.len() == 0
    &&& b.selected@.len() == 0
    &&& b.unavailable@.len() == 0
    &&& b.invalid_opers@.len() == 0
    &&& b.actions_run == 0
    &&& b.last_action is None
    &&& b.last_action_at is None
    &&& !b.parse_failed
    &&& b.unsupported_level is None
}

impl BattleState {
    /// A state with no battle seen.
    pub fn empty() -> (r: BattleState)
        ensures
            r.taskchain is None,
            r.started_at is None,
            r.formation_groups@.len() == 0,
            r.selected@.len() == 0,
            r.unavailable@.len() == 0,
            r.invalid_opers@.len() == 0,
            r.actions_run == 0,
            r.last_action is None,
            r.last_action_at is None,
            !r.parse_failed,
            r.unsupported_level is None,
            r.stage is None,
    {
        BattleState {
            taskchain: None,
            stage: None,
            formation_groups: Vec::new(),
            selected: Vec::new(),
            unavailable: Vec::new(),
            invalid_opers: Vec::new(),
            actions_run: 0,
            last_action: None,
            last_action_at: None,
            started_at: None,
            parse_failed: false,
            unsupported_level: None,
        }
    }

    /// A fresh battle on `taskchain`, started now.
    pub fn new(taskchain: Option<String>) -> (r: BattleState)
        ensures
            fresh_battle(r, taskchain),
            r.stage is None,
    {
        let now = instant_now();
        Self::new_at(taskchain, now)
    }

    /// A fresh battle on `taskchain`, started at `now`.
    pub fn new_at(taskchain: Option<String>, now: std::time::Instant) -> (r: BattleState)
        ensures
            fresh_battle(r, taskchain),
            r.stage is None,
            r.started_at == Some(now),
    {
        let mut b = Self::empty();
        b.taskchain = taskchain;
        b.started_at = Some(now);
        b
    }

    /// Folds one copilot callback (`what`, with its `details`) observed at `now` into the state.
    pub fn note_event(&mut self, what: &str, details: &Json, now: std::time::Instant)
        requires
            what@ == "CopilotAction"@ ==> old(self).actions_run < u32::MAX,
        ensures
            note_event_post(*old(self), *final(self), what@, details@, now),
    {
        proof {
            reveal_strlit("BattleFormation");
            reveal_strlit("BattleFormationSelected");
            reveal_strlit("BattleFormationOperUnavailable");
            reveal_strlit("BattleFormationParseFailed");
            reveal_strlit("UnsupportedLevel");
            reveal_strlit("UserAdditionalOperInvalid");
            reveal_strlit("CopilotAction");
            assert("BattleFormation"@.len() == 15);
            assert("BattleFormationSelected"@.len() == 23);
            assert("BattleFormationOperUnavailable"@.len() == 30);
            assert("BattleFormationParseFailed"@.len() == 26);
            assert("UnsupportedLevel"@.len() == 16);
            assert("UserAdditionalOperInvalid"@.len() == 25);
            assert("CopilotAction"@.len() == 13);
        }
        if str_eq(what, "BattleFormation") {
            let mut groups: Vec<String> = Vec::new();
            match details.get("formation") {
                Some(f) => match f.as_array() {
                    Some(items) => {
                        let mut i: usize = 0;
                        while i < items.len()
                            invariant
                                i <= items.len(),
                                groups@.len() == i,
                                forall|k: int|
                                    0 <= k < i ==> (#[trigger] groups@[k])@ == match json_as_str(
                                        items@[k]@,
                                    ) {
                                        Some(s) => s,
                                        None => Seq::empty(),
                                    },
                            decreases items.len() - i,
                        {
                            let g = match items[i].as_str() {
                                Some(s) => s.clone(),
                                None => String::new(),
                            };
                            groups.push(g);
                            i = i + 1;
                        }
                        proof {
                            assert(strings_view(groups@) =~= formation_groups_spec(details@));
                        }
                    },
                    None => {
                        proof {
                            assert(strings_view(groups@) =~= formation_groups_spec(details@));
                        }
                    },
                },
                None => {
                    proof {
                        assert(strings_view(groups@) =~= formation_groups_spec(details@));
                    }
                },
            }
            self.formation_groups = groups;
        } else if str_eq(what, "BattleFormationSelected") {
            let a = str_field(details, "selected");
            let b = str_field(details, "group_name");
            self.selected.push((a, b));
            proof {
                assert(pairs_view(self.unavailable@) == pairs_view(old(self).unavailable@));
            }
        } else if str_eq(what, "BattleFormationOperUnavailable") {
            let oper = str_field(details, "oper_name");
            let req = if details.get("requirement_type").is_some() {
                str_field(details, "requirement_type")
            } else {
                String::from_str("unknown")
            };
            if !contains_pair(&self.unavailable, &oper, &req) {
                let ghost before = self.unavailable@;
                self.unavailable.push((oper, req));
                proof {
                    assert(pairs_view(self.unavailable@) =~= pairs_view(before).push(
                        (self.unavailable@.last().0@, self.unavailable@.last().1@),
                    ));
                }
            }
        } else if str_eq(what, "BattleFormationParseFailed") {
            self.parse_failed = true;
        } else if str_eq(what, "UnsupportedLevel") {
            self.unsupported_level = Some(str_field(details, "level"));
        } else if str_eq(what, "UserAdditionalOperInvalid") {
            let name = str_field(details, "name");
            let ghost nv = name@;
            if name.as_str().unicode_len() > 0 && !contains_string(&self.invalid_opers, &name) {
                let ghost before = self.invalid_opers@;
                self.invalid_opers.push(name);
                proof {
                    assert(strings_view(self.invalid_opers@) =~= strings_view(before).push(nv));
                }
            } else {
                proof {
                    if name@.len() == 0 {
                        assert(nv.len() == 0);
                    }
                }
            }
        } else if str_eq(what, "CopilotAction") {
            self.actions_run = self.actions_run + 1;
            let mut fields: Vec<(String, Json)> = Vec::new();
            let a = field_or_null(details, "action");
            let ghost av = a@;
            fields.push((String::from_str("action"), a));
            let t = field_or_null(details, "target");
            let ghost tv = t@;
            fields.push((String::from_str("target"), t));
            let d = field_or_null(details, "doc");
            let ghost dv = d@;
            fields.push((String::from_str("doc"), d));
            let e = field_or_null(details, "elapsed_time");
            let ghost ev = e@;
            fields.push((String::from_str("elapsed_time"), e));
            let ghost fv = fields@;
            let rec = Json::Object(fields);
            proof {
                if let JsonV::Object(f) = rec@ {
                    if let JsonV::Object(g) = last_action_spec(details@) {
                        assert(fv[0].0@ == "action"@ && fv[0].1@ == av);
                        assert(fv[1].0@ == "target"@ && fv[1].1@ == tv);
                        assert(fv[2].0@ == "doc"@ && fv[2].1@ == dv);
                        assert(fv[3].0@ == "elapsed_time"@ && fv[3].1@ == ev);
                        assert(f =~= g);
                    }
                }
            }
            self.last_action = Some(rec);
            self.last_action_at = Some(now);
        }
    }
}

// ---------------------------------------------------------------------------
// Diagnosis.

/// `ns` nanoseconds as whole seconds, rounded to nearest with ties to even.
pub open spec fn whole_secs(ns: nat) -> nat {
    let q = ns / 1_000_000_000;
    let r = ns % 1_000_000_000;
    if r > 500_000_000 {
        q + 1
    } else if r == 500_000_000 && q % 2 == 1 {
        q + 1
    } else {
        q
    }
}

pub open spec fn parse_failed_text() -> Seq<char> {
    "MaaCore rejected the job file: its formation has duplicate group names. Nothing was deployed because no squad could be built."@
}

pub open spec fn unsupported_text(level: Seq<char>) -> Seq<char> {
    "MaaCore has no tile data for stage '"@ + level
        + "', so it cannot map the job's deployment coordinates. The job is usually for a different stage or difficulty than the one that opened, or the stage is newer than the loaded resources."@
}

pub open spec fn quoted_names(names: Seq<Seq<char>>) -> Seq<Seq<char>> {
    Seq::new(names.len(), |i: int| "'"@ + names[i] + "'"@)
}

pub open spec fn invalid_text(names: Seq<Seq<char>>) -> Seq<char> {
    "Operator names MaaCore does not recognise: "@ + join_text(quoted_names(names), ", "@)
        + ". Check spelling against the client's language."@
}

pub open spec fn needs_list(pairs: Seq<(Seq<char>, Seq<char>)>) -> Seq<Seq<char>> {
    Seq::new(pairs.len(), |i: int| pairs[i].0 + " (needs "@ + pairs[i].1 + ")"@)
}

pub open spec fn unavailable_text(pairs: Seq<(Seq<char>, Seq<char>)>, placed: nat) -> Seq<char> {
    let listed = join_text(needs_list(pairs), ", "@);
    if placed == 0 {
        "None of the job's operators could be fielded: "@ + listed
            + ". The squad was empty, so the battle ran with nothing deployed."@
    } else {
        "Some operators could not be fielded: "@ + listed
            + ". The squad was only partly filled ("@ + nat_text(placed) + " placed)."@
    }
}

/// The problems a battle shows, in the order they are reported.
pub open spec fn problems_spec(b: BattleState) -> Seq<Seq<char>> {
    let p1 = if b.parse_failed {
        seq![parse_failed_text()]
    } else {
        Seq::empty()
    };
    let p2 = match b.unsupported_level {
        Some(l) => p1.push(unsupported_text(l@)),
        None => p1,
    };
    let p3 = if b.invalid_opers@.len() > 0 {
        p2.push(invalid_text(strings_view(b.invalid_opers@)))
    } else {
        p2
    };
    if b.unavailable@.len() > 0 {
        p3.push(unavailable_text(pairs_view(b.unavailable@), b.selected@.len()))
    } else {
        p3
    }
}

pub open spec fn stalled_before_text(in_battle_ns: Option<u64>) -> Seq<char> {
    "The battle has been running "@ + nat_text(
        whole_secs(
            match in_battle_ns {
                Some(m) => m as nat,
                None => 0,
            },
        ),
    )
        + "s and MaaCore has not executed a single copilot action. Formation may have succeeded but the job's first action is waiting on a condition that will not arrive."@
}

pub open spec fn last_field_repr(last: Option<Json>, key: Seq<char>) -> Seq<char> {
    let v = match last {
        Some(j) => j@,
        None => JsonV::Object(Seq::empty()),
    };
    match json_get(v, key) {
        Some(x) => repr_text(x),
        None => Seq::empty(),
    }
}

pub open spec fn stalled_mid_text(b: BattleState, since_ns: Option<u64>) -> Seq<char> {
    "No copilot action for "@ + nat_text(
        whole_secs(
            match since_ns {
                Some(m) => m as nat,
                None => 0,
            },
        ),
    ) + "s after "@ + nat_text(b.actions_run as nat) + " action(s). The last was "@
        + last_field_repr(b.last_action, "action"@) + " on "@ + last_field_repr(
        b.last_action,
        "target"@,
    )
        + ". Actions do legitimately wait on cost and kill conditions, so raise stall_seconds if this job is simply slow."@
}

/// The diagnosis of a battle: status, explanation and the list of problems.
/// Times are in nanoseconds; a battle counts as stalled when the elapsed time is
/// strictly longer than `stall_ns`.
pub open spec fn diagnose_spec(
    b: BattleState,
    running: bool,
    since_ns: Option<u64>,
    in_battle_ns: Option<u64>,
    stall_ns: u64,
) -> (Seq<char>, Seq<char>, Seq<Seq<char>>) {
    if b.started_at is None {
        ("no_battle"@, "No copilot battle has run on this connection."@, Seq::empty())
    } else {
        let problems = problems_spec(b);
        if problems.len() > 0 {
            ("problem"@, join_text(problems, " "@), problems)
        } else {
            let before = b.actions_run == 0 && match in_battle_ns {
                Some(m) => m > stall_ns,
                None => false,
            };
            let mid = match since_ns {
                Some(m) => m > stall_ns,
                None => false,
            };
            if running && before {
                ("stalled"@, stalled_before_text(in_battle_ns), seq![stalled_before_text(in_battle_ns)])
            } else if running && mid {
                ("stalled"@, stalled_mid_text(b, since_ns), seq![stalled_mid_text(b, since_ns)])
            } else if b.actions_run > 0 {
                (
                    "ok"@,
                    nat_text(b.actions_run as nat) + " copilot action(s) executed, "@ + nat_text(
                        b.selected@.len(),
                    ) + " operator(s) fielded."@,
                    Seq::empty(),
                )
            } else {
                (
                    "ok"@,
                    nat_text(b.selected@.len()) + " operator(s) fielded; no action executed yet."@,
                    Seq::empty(),
                )
            }
        }
    }
}

/// Once a started battle without problems has run an action, it is diagnosed as
/// stalled exactly when it is running and the time since the last action is strictly
/// longer than the threshold; how long the battle has lasted plays no part. A battle
/// that is not running is never stalled.
pub proof fn stalls_are_timed_from_the_last_action(
    b: BattleState,
    running: bool,
    since_ns: Option<u64>,
    in_battle_ns: Option<u64>,
    other_in_battle_ns: Option<u64>,
    stall_ns: u64,
)
    requires
        b.started_at is Some,
        problems_spec(b).len() == 0,
        b.actions_run > 0,
    ensures
        diagnose_spec(b, running, since_ns, in_battle_ns, stall_ns).0 == "stalled"@ <==> (running
            && (since_ns matches Some(m) && m > stall_ns)),
        diagnose_spec(b, running, since_ns, in_battle_ns, stall_ns) == diagnose_spec(
            b,
            running,
            since_ns,
            other_in_battle_ns,
            stall_ns,
        ),
{
    reveal_strlit("stalled");
    reveal_strlit("ok");
    assert("stalled"@.len() != "ok"@.len());
}

/// Before its first action, a started battle without problems is diagnosed as stalled
/// exactly when it is running and has lasted strictly longer than the threshold;
/// otherwise it is ok.
pub proof fn stalls_before_any_action_are_timed_from_the_start(
    b: BattleState,
    running: bool,
    in_battle_ns: Option<u64>,
    stall_ns: u64,
)
    requires
        b.started_at is Some,
        problems_spec(b).len() == 0,
        b.actions_run == 0,
    ensures
        diagnose_spec(b, running, None, in_battle_ns, stall_ns).0 == if running && (in_battle_ns matches Some(m) && m > stall_ns) {
            "stalled"@
        } else {
            "ok"@
        },
{
}

/// A battle is diagnosed "no_battle" exactly when none has started, and "problem"
/// exactly when one has started and shows problems, which the diagnosis then lists;
/// a stalled or ok diagnosis lists at most the stall itself.
pub proof fn problems_are_reported_as_problems(
    b: BattleState,
    running: bool,
    since_ns: Option<u64>,
    in_battle_ns: Option<u64>,
    stall_ns: u64,
)
    ensures
        ({
            let d = diagnose_spec(b, running, since_ns, in_battle_ns, stall_ns);
            &&& d.0 == "no_battle"@ <==> b.started_at is None
            &&& d.0 == "problem"@ <==> (b.started_at is Some && problems_spec(b).len() > 0)
            &&& d.0 == "problem"@ ==> d.2 == problems_spec(b)
            &&& d.0 == "ok"@ ==> d.2.len() == 0
        }),
{
    reveal_strlit("stalled");
    reveal_strlit("ok");
    reveal_strlit("problem");
    reveal_strlit("no_battle");
    assert("stalled"@.len() != "ok"@.len());
    assert("stalled"@.len() == "problem"@.len() && "stalled"@[0] != "problem"@[0]);
    assert("stalled"@.len() != "no_battle"@.len());
    assert("ok"@.len() != "problem"@.len() && "ok"@.len() != "no_battle"@.len());
    assert("problem"@.len() != "no_battle"@.len());
}

/// A battle that is not running is never diagnosed as stalled, however long it has
/// been since its start or its last action.
pub proof fn idle_battles_never_stall(
    b: BattleState,
    since_ns: Option<u64>,
    in_battle_ns: Option<u64>,
    stall_ns: u64,
)
    ensures
        diagnose_spec(b, false, since_ns, in_battle_ns, stall_ns).0 != "stalled"@,
{
    reveal_strlit("stalled");
    reveal_strlit("ok");
    reveal_strlit("problem");
    reveal_strlit("no_battle");
    assert("stalled"@.len() != "ok"@.len());
    assert("stalled"@.len() == "problem"@.len() && "stalled"@[0] != "problem"@[0]);
    assert("stalled"@.len() != "no_battle"@.len());
}

fn write_whole_secs(s: &mut String, ns: u64)
    ensures
        final(s)@ == old(s)@ + nat_text(whole_secs(ns as nat)),
{
    let q = ns / 1_000_000_000;
    let r = ns % 1_000_000_000;
    let w = if r > 500_000_000 {
        q + 1
    } else if r == 500_000_000 && q % 2 == 1 {
        q + 1
    } else {
        q
    };
    write_u64(s, w);
}

fn stalled_before(in_battle_ns: Option<u64>) -> (r: String)
    ensures
        r@ == stalled_before_text(in_battle_ns),
{
    let mut s = String::from_str("The battle has been running ");
    let ns = match in_battle_ns {
        Some(m) => m,
        None => 0,
    };
    write_whole_secs(&mut s, ns);
    push_str(
        &mut s,
        "s and MaaCore has not executed a single copilot action. Formation may have succeeded but the job's first action is waiting on a condition that will not arrive.",
    );
    s
}

fn write_last_field(s: &mut String, last: &Option<Json>, key: &str)
    ensures
        final(s)@ == old(s)@ + last_field_repr(*last, key@),
{
    match last {
        Some(j) => match j.get(key) {
            Some(x) => write_repr(s, x),
            None => {
                proof {
                    assert(old(s)@ + Seq::<char>::empty() =~= old(s)@);
                }
            },
        },
        None => {
            proof {
                assert(json_get(JsonV::Object(Seq::empty()), key@) is None);
                assert(old(s)@ + Seq::<char>::empty() =~= old(s)@);
            }
        },
    }
}

fn stalled_mid(b: &BattleState, since_ns: Option<u64>) -> (r: String)
    ensures
        r@ == stalled_mid_text(*b, since_ns),
{
    let mut s = String::from_str("No copilot action for ");
    let ns = match since_ns {
        Some(m) => m,
        None => 0,
    };
    write_whole_secs(&mut s, ns);
    push_str(&mut s, "s after ");
    write_u64(&mut s, b.actions_run as u64);
    push_str(&mut s, " action(s). The last was ");
    write_last_field(&mut s, &b.last_action, "action");
    push_str(&mut s, " on ");
    write_last_field(&mut s, &b.last_action, "target");
    push_str(
        &mut s,
        ". Actions do legitimately wait on cost and kill conditions, so raise stall_seconds if this job is simply slow.",
    );
    s
}

fn invalid_problem(names: &Vec<String>) -> (r: String)
    ensures
        r@ == invalid_text(strings_view(names@)),
{
    let mut quoted: Vec<String> = Vec::new();
    let mut i: usize = 0;
    while i < names.len()
        invariant
            i <= names.len(),
            quoted@.len() == i,
            forall|k: int| 0 <= k < i ==> (#[trigger] quoted@[k])@ == "'"@ + names@[k]@ + "'"@,
        decreases names.len() - i,
    {
        let mut q = String::from_str("'");
        q.append(names[i].as_str());
        push_str(&mut q, "'");
        quoted.push(q);
        i = i + 1;
    }
    proof {
        assert(strings_view(quoted@) =~= quoted_names(strings_view(names@)));
    }
    let listed = join_strings(&quoted, ", ");
    let mut s = String::from_str("Operator names MaaCore does not recognise: ");
    s.append(listed.as_str());
    push_str(&mut s, ". Check spelling against the client's language.");
    s
}

fn unavailable_problem(pairs: &Vec<(String, String)>, placed: usize) -> (r: String)
    ensures
        r@ == unavailable_text(pairs_view(pairs@), placed as nat),
{
    let mut parts: Vec<String> = Vec::new();
    let mut i: usize = 0;
    while i < pairs.len()
        invariant
            i <= pairs.len(),
            parts@.len() == i,
            forall|k: int|
                0 <= k < i ==> (#[trigger] parts@[k])@ == pairs@[k].0@ + " (needs "@
                    + pairs@[k].1@ + ")"@,
        decreases pairs.len() - i,
    {
        let mut p = pairs[i].0.clone();
        push_str(&mut p, " (needs ");
        p.append(pairs[i].1.as_str());
        push_str(&mut p, ")");
        parts.push(p);
        i = i + 1;
    }
    proof {
        assert(strings_view(parts@) =~= needs_list(pairs_view(pairs@)));
    }
    let listed = join_strings(&parts, ", ");
    if placed == 0 {
        let mut s = String::from_str("None of the job's operators could be fielded: ");
        s.append(listed.as_str());
        push_str(&mut s, ". The squad was empty, so the battle ran with nothing deployed.");
        s
    } else {
        let mut s = String::from_str("Some operators could not be fielded: ");
        s.append(listed.as_str());
        push_str(&mut s, ". The squad was only partly filled (");
        write_u64(&mut s, placed as u64);
        push_str(&mut s, " placed).");
        s
    }
}

/// Diagnoses a battle; see `diagnose_spec`.
pub fn diagnose(
    battle: &BattleState,
    running: bool,
    since_action_ns: Option<u64>,
    in_battle_ns: Option<u64>,
    stall_ns: u64,
) -> (r: (String, String, Vec<String>))
    ensures
        ({
            let d = diagnose_spec(*battle, running, since_action_ns, in_battle_ns, stall_ns);
            &&& r.0@ == d.0
            &&& r.1@ == d.1
            &&& strings_view(r.2@) == d.2
        }),
{
    if battle.started_at.is_none() {
        let problems: Vec<String> = Vec::new();
        proof {
            assert(strings_view(problems@) =~= Seq::<Seq<char>>::empty());
        }
        return (
            String::from_str("no_battle"),
            String::from_str("No copilot battle has run on this connection."),
            problems,
        );
    }
    let mut problems: Vec<String> = Vec::new();
    if battle.parse_failed {
        problems.push(
            String::from_str(
                "MaaCore rejected the job file: its formation has duplicate group names. Nothing was deployed because no squad could be built.",
            ),
        );
    }
    let ghost p1 = strings_view(problems@);
    proof {
        assert(p1 =~= if battle.parse_failed {
            seq![parse_failed_text()]
        } else {
            Seq::empty()
        });
    }
    match &battle.unsupported_level {
        Some(level) => {
            let mut s = String::from_str("MaaCore has no tile data for stage '");
            s.append(level.as_str());
            push_str(
                &mut s,
                "', so it cannot map the job's deployment coordinates. The job is usually for a different stage or difficulty than the one that opened, or the stage is newer than the loaded resources.",
            );
            problems.push(s);
        },
        None => {},
    }
    let ghost p2 = strings_view(problems@);
    proof {
        assert(p2 =~= match battle.unsupported_level {
            Some(l) => p1.push(unsupported_text(l@)),
            None => p1,
        });
    }
    if battle.invalid_opers.len() > 0 {
        problems.push(invalid_problem(&battle.invalid_opers));
    }
    let ghost p3 = strings_view(problems@);
    proof {
        assert(p3 =~= if battle.invalid_opers@.len() > 0 {
            p2.push(invalid_text(strings_view(battle.invalid_opers@)))
        } else {
            p2
        });
    }
    if battle.unavailable.len() > 0 {
        problems.push(unavailable_problem(&battle.unavailable, battle.selected.len()));
    }
    proof {
        assert(strings_view(problems@) =~= problems_spec(*battle));
    }
    if problems.len() > 0 {
        let joined = join_strings(&problems, " ");
        return (String::from_str("problem"), joined, problems);
    }
    let before = battle.actions_run == 0 && match in_battle_ns {
        Some(m) => m > stall_ns,
        None => false,
    };
    let mid = match since_action_ns {
        Some(m) => m > stall_ns,
        None => false,
    };
    if running && before {
        let detail = stalled_before(in_battle_ns);
        let mut v: Vec<String> = Vec::new();
        v.push(detail.clone());
        proof {
            assert(strings_view(v@) =~= seq![stalled_before_text(in_battle_ns)]);
        }
        return (String::from_str("stalled"), detail, v);
    }
    if running && mid {
        let detail = stalled_mid(battle, since_action_ns);
        let mut v: Vec<String> = Vec::new();
        v.push(detail.clone());
        proof {
            assert(strings_view(v@) =~= seq![stalled_mid_text(*battle, since_action_ns)]);
        }
        return (String::from_str("stalled"), detail, v);
    }
    let empty: Vec<String> = Vec::new();
    proof {
        assert(strings_view(empty@) =~= Seq::<Seq<char>>::empty());
    }
    if battle.actions_run > 0 {
        let mut s = String::new();
        write_u64(&mut s, battle.actions_run as u64);
        push_str(&mut s, " copilot action(s) executed, ");
        write_u64(&mut s, battle.selected.len() as u64);
        push_str(&mut s, " operator(s) fielded.");
        proof {
            assert(s@ =~= nat_text(battle.actions_run as nat) + " copilot action(s) executed, "@
                + nat_text(battle.selected@.len()) + " operator(s) fielded."@);
        }
        (String::from_str("ok"), s, empty)
    } else {
        let mut s = String::new();
        write_u64(&mut s, battle.selected.len() as u64);
        push_str(&mut s, " operator(s) fielded; no action executed yet.");
        proof {
            assert(s@ =~= nat_text(battle.selected@.len()) + " operator(s) fielded; no action executed yet."@);
        }
        (String::from_str("ok"), s, empty)
    }
}

proof fn lemma_status_words_differ()
    ensures
        "no_battle"@ != "problem"@,
        "no_battle"@ != "stalled"@,
        "no_battle"@ != "ok"@,
        "problem"@ != "stalled"@,
        "problem"@ != "ok"@,
        "stalled"@ != "ok"@,
{
    reveal_strlit("no_battle");
    reveal_strlit("problem");
    reveal_strlit("stalled");
    reveal_strlit("ok");
    assert("no_battle"@[0] == 'n');
    assert("problem"@[0] == 'p');
    assert("stalled"@[0] == 's');
    assert("ok"@[0] == 'o');
}

/// Operator pairs as objects: the operator under `oper`, the other name under `second`.
pub open spec fn pair_objects(pairs: Seq<(Seq<char>, Seq<char>)>, second: Seq<char>) -> Seq<JsonV> {
    Seq::new(
        pairs.len(),
        |i: int| JsonV::Object(seq![("oper"@, JsonV::Str(pairs[i].0)), (second, JsonV::Str(pairs[i].1))]),
    )
}

/// A list of texts as JSON strings.
pub open spec fn str_items(s: Seq<Seq<char>>) -> Seq<JsonV> {
    Seq::new(s.len(), |i: int| JsonV::Str(s[i]))
}

/// An optional text as JSON: the string, or null.
pub open spec fn opt_str_json(o: Option<String>) -> JsonV {
    match o {
        Some(t) => JsonV::Str(t@),
        None => JsonV::Null,
    }
}

/// The battle report: the diagnosis, then what the battle's callbacks said, then the
/// two durations in seconds, which the caller passes as JSON numbers (or null).
pub open spec fn report_spec(
    b: BattleState,
    running: bool,
    since_action_ns: Option<u64>,
    in_battle_ns: Option<u64>,
    stall_ns: u64,
    seconds_since_last_action: JsonV,
    seconds_in_battle: JsonV,
) -> JsonV {
    let d = diagnose_spec(b, running, since_action_ns, in_battle_ns, stall_ns);
    JsonV::Object(
        seq![
            ("status"@, JsonV::Str(d.0)),
            ("diagnosis"@, JsonV::Str(d.1)),
            ("problems"@, JsonV::Array(str_items(d.2))),
            ("running"@, JsonV::Bool(running)),
            ("taskchain"@, opt_str_json(b.taskchain)),
            ("stage"@, opt_str_json(b.stage)),
            ("formation_groups"@, JsonV::Array(str_items(strings_view(b.formation_groups@)))),
            ("selected"@, JsonV::Array(pair_objects(pairs_view(b.selected@), "group"@))),
            ("unavailable"@, JsonV::Array(pair_objects(pairs_view(b.unavailable@), "requirement"@))),
            ("invalid_opers"@, JsonV::Array(str_items(strings_view(b.invalid_opers@)))),
            ("actions_run"@, JsonV::Int(b.actions_run as int)),
            ("last_action"@, match b.last_action {
                Some(v) => v@,
                None => JsonV::Null,
            }),
            ("seconds_since_last_action"@, seconds_since_last_action),
            ("seconds_in_battle"@, seconds_in_battle),
        ],
    )
}

/// The pairs as objects; see `pair_objects`.
fn pairs_json(pairs: &Vec<(String, String)>, second: &str) -> (r: Json)
    ensures
        r@ == JsonV::Array(pair_objects(pairs_view(pairs@), second@)),
{
    let mut out: Vec<Json> = Vec::new();
    let mut i: usize = 0;
    while i < pairs.len()
        invariant
            i <= pairs@.len(),
            out@.len() == i,
            forall|k: int|
                0 <= k < i ==> (#[trigger] out@[k])@ == pair_objects(pairs_view(pairs@), second@)[k],
        decreases pairs.len() - i,
    {
        let mut f: Vec<(String, Json)> = Vec::new();
        f.push(field("oper", Json::Str(pairs[i].0.clone())));
        f.push(field(second, Json::Str(pairs[i].1.clone())));
        proof {
            assert(fields_view(f@) =~= seq![
                ("oper"@, JsonV::Str(pairs@[i as int].0@)),
                (second@, JsonV::Str(pairs@[i as int].1@)),
            ]);
        }
        out.push(Json::object(f));
        i = i + 1;
    }
    proof {
        assert(json_items(out@) =~= pair_objects(pairs_view(pairs@), second@));
    }
    Json::array(out)
}

/// The battle report as JSON; see `report_spec`.
pub fn report_json(
    battle: &BattleState,
    running: bool,
    since_action_ns: Option<u64>,
    in_battle_ns: Option<u64>,
    stall_ns: u64,
    seconds_since_last_action: Json,
    seconds_in_battle: Json,
) -> (r: Json)
    ensures
        r@ == report_spec(
            *battle,
            running,
            since_action_ns,
            in_battle_ns,
            stall_ns,
            seconds_since_last_action@,
            seconds_in_battle@,
        ),
{
    let (status, diagnosis, problems) = diagnose(battle, running, since_action_ns, in_battle_ns, stall_ns);
    let problems_json = str_list(&problems);
    let last = match &battle.last_action {
        Some(v) => v.copy(),
        None => Json::Null,
    };
    let mut f: Vec<(String, Json)> = Vec::new();
    f.push(field("status", Json::Str(status)));
    f.push(field("diagnosis", Json::Str(diagnosis)));
    f.push(field("problems", problems_json));
    f.push(field("running", Json::Bool(running)));
    f.push(field("taskchain", Json::opt_string(battle.taskchain.clone())));
    f.push(field("stage", Json::opt_string(battle.stage.clone())));
    f.push(field("formation_groups", str_list(&battle.formation_groups)));
    f.push(field("selected", pairs_json(&battle.selected, "group")));
    f.push(field("unavailable", pairs_json(&battle.unavailable, "requirement")));
    f.push(field("invalid_opers", str_list(&battle.invalid_opers)));
    f.push(field("actions_run", Json::Int(battle.actions_run as i64)));
    f.push(field("last_action", last));
    f.push(field("seconds_since_last_action", seconds_since_last_action));
    f.push(field("seconds_in_battle", seconds_in_battle));
    proof {
        let d = diagnose_spec(*battle, running, since_action_ns, in_battle_ns, stall_ns);
        assert(Seq::new(problems@.len(), |i: int| JsonV::Str(problems@[i]@)) =~= str_items(d.2));
        assert(Seq::new(battle.formation_groups@.len(), |i: int| JsonV::Str(battle.formation_groups@[i]@))
            =~= str_items(strings_view(battle.formation_groups@)));
        assert(Seq::new(battle.invalid_opers@.len(), |i: int| JsonV::Str(battle.invalid_opers@[i]@))
            =~= str_items(strings_view(battle.invalid_opers@)));
        if let JsonV::Object(want) = report_spec(
            *battle,
            running,
            since_action_ns,
            in_battle_ns,
            stall_ns,
            seconds_since_last_action@,
            seconds_in_battle@,
        ) {
            assert(fields_view(f@) =~= want);
        }
    }
    Json::object(f)
}

/// A battle is diagnosed as having a problem exactly when it has started and at least
/// one problem is listed; a battle that has not started is always `no_battle`.
pub proof fn diagnosis_status_matches_problems(
    b: BattleState,
    running: bool,
    since_ns: Option<u64>,
    in_battle_ns: Option<u64>,
    stall_ns: u64,
)
    ensures
        ({
            let d = diagnose_spec(b, running, since_ns, in_battle_ns, stall_ns);
            &&& (d.0 == "no_battle"@) == (b.started_at is None)
            &&& b.started_at is Some ==> ((d.0 == "problem"@) == (problems_spec(b).len() > 0))
            &&& d.0 == "problem"@ ==> d.2 == problems_spec(b) && d.2.len() > 0
        }),
{
    reveal_strlit("no_battle");
    reveal_strlit("problem");
    reveal_strlit("stalled");
    reveal_strlit("ok");
    lemma_status_words_differ();
}

/// A battle that is not running is never diagnosed as stalled.
pub proof fn idle_battles_do_not_stall(
    b: BattleState,
    since_ns: Option<u64>,
    in_battle_ns: Option<u64>,
    stall_ns: u64,
)
    ensures
        diagnose_spec(b, false, since_ns, in_battle_ns, stall_ns).0 != "stalled"@,
{
    reveal_strlit("no_battle");
    reveal_strlit("problem");
    reveal_strlit("stalled");
    reveal_strlit("ok");
    lemma_status_words_differ();
}

} // verus!
