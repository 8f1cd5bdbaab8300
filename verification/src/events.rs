use std::collections::VecDeque;

use vstd::prelude::*;
use vstd::string::*;

use crate::json::{get_non_null, get_str, json_get, json_insert, Json, JsonV};
use crate::messages::{
    is_battle_what, is_battle_what_text, is_error, is_error_id, is_significant,
    is_significant_spec, message_name, message_name_text,
};
use crate::text::{nat_text, push_char, write_u64};

verus! {

// ---------------------------------------------------------------------------
// Calendar arithmetic.

/// The proleptic Gregorian date (year, month, day) of a day number counted from 1970-01-01.
pub open spec fn civil_spec(z: int) -> (int, int, int) {
    let z = z + 719468;
    let era = z / 146097;
    let doe = z % 146097;
    let yoe = (doe - doe / 1460 + doe / 36524 - doe / 146096) / 365;
    let y = yoe + era * 400;
    let doy = doe - (365 * yoe + yoe / 4 - yoe / 100);
    let mp = (5 * doy + 2) / 153;
    let d = doy - (153 * mp + 2) / 5 + 1;
    let m = if mp < 10 {
        mp + 3
    } else {
        mp - 9
    };
    (
        if m <= 2 {
            y + 1
        } else {
            y
        },
        m,
        d,
    )
}

/// Converts a day number counted from 1970-01-01 into (year, month, day).
pub fn civil_from_days(z: i64) -> (r: (i64, i64, i64))
    requires
        -200_000_000_000_000 <= z <= 200_000_000_000_000,
    ensures
        (r.0 as int, r.1 as int, r.2 as int) == civil_spec(z as int),
        1 <= r.1 <= 12,
        1 <= r.2 <= 31,
{
    let z = z + 719468;
    let era: i64 = if z >= 0 {
        ((z as u64) / 146097) as i64
    } else {
        let n: u64 = (-z) as u64;
        -(((n + 146096) / 146097) as i64)
    };
    assert(era as int == (z as int) / 146097) by (nonlinear_arith)
        requires
            z >= 0 ==> era as int == (z as int) / 146097,
            z < 0 ==> era as int == -((-(z as int) + 146096) / 146097),
    {
        if z < 0 {
            let q = (-(z as int) + 146096) / 146097;
            let r = (-(z as int) + 146096) % 146097;
            assert(-(z as int) + 146096 == q * 146097 + r);
            assert(z as int == (-q) * 146097 + (146096 - r));
        }
    }
    let doe: u64 = (z - era * 146097) as u64;
    let yoe: u64 = (doe - doe / 1460 + doe / 36524 - doe / 146096) / 365;
    let y: i64 = (yoe as i64) + era * 400;
    let doy: u64 = doe - (365 * yoe + yoe / 4 - yoe / 100);
    let mp: u64 = (5 * doy + 2) / 153;
    let d: u64 = doy - (153 * mp + 2) / 5 + 1;
    let m: u64 = if mp < 10 {
        mp + 3
    } else {
        mp - 9
    };
    let year = if m <= 2 {
        y + 1
    } else {
        y
    };
    (year, m as i64, d as i64)
}

/// `n` in decimal, left-padded with zeros to at least `width` characters.
pub open spec fn padded_text(n: nat, width: nat) -> Seq<char> {
    let t = nat_text(n);
    if t.len() < width {
        Seq::new((width - t.len()) as nat, |i: int| '0') + t
    } else {
        t
    }
}

proof fn lemma_nat_text_len(n: nat)
    ensures
        nat_text(n).len() >= 1,
        n < 10 ==> nat_text(n).len() == 1,
        10 <= n < 100 ==> nat_text(n).len() == 2,
        100 <= n < 1000 ==> nat_text(n).len() == 3,
        1000 <= n < 10000 ==> nat_text(n).len() == 4,
    decreases n,
{
    if n >= 10 {
        lemma_nat_text_len(n / 10);
    }
}

fn write_padded(s: &mut String, n: u64, width: u64)
    requires
        width <= 4,
    ensures
        final(s)@ == old(s)@ + padded_text(n as nat, width as nat),
{
    let ghost start = s@;
    proof {
        lemma_nat_text_len(n as nat);
    }
    let len: u64 = if n < 10 {
        1
    } else if n < 100 {
        2
    } else if n < 1000 {
        3
    } else if n < 10000 {
        4
    } else {
        5
    };
    let mut k: u64 = 0;
    if len < width {
        while k < width - len
            invariant
                len < width <= 4,
                k <= width - len,
                s@ == start + Seq::new(k as nat, |i: int| '0'),
            decreases width - len - k,
        {
            push_char(s, '0');
            k = k + 1;
            proof {
                assert(s@ =~= start + Seq::new(k as nat, |i: int| '0'));
            }
        }
    }
    let ghost mid = s@;
    write_u64(s, n);
    proof {
        let t = nat_text(n as nat);
        assert(n >= 10000 ==> t.len() >= 4) by {
            if n >= 10000 {
                lemma_nat_text_len(n as nat);
                lemma_nat_text_len((n / 10) as nat);
                lemma_nat_text_len((n / 100) as nat);
                lemma_nat_text_len((n / 1000) as nat);
            }
        }
        if t.len() < width {
            assert(len == t.len());
            assert(s@ =~= start + padded_text(n as nat, width as nat));
        } else {
            if len < width {
                assert(len == t.len());
            }
            assert(s@ =~= start + padded_text(n as nat, width as nat));
        }
    }
}

/// `YYYY-MM-DDTHH:MM:SS` (UTC) for a time given in whole seconds since the Unix epoch.
pub open spec fn iso_text(secs: nat) -> Seq<char> {
    let days = secs / 86400;
    let tod = secs % 86400;
    let ymd = civil_spec(days as int);
    padded_text(ymd.0 as nat, 4) + seq!['-'] + padded_text(ymd.1 as nat, 2) + seq!['-']
        + padded_text(ymd.2 as nat, 2) + seq!['T'] + padded_text(tod / 3600, 2) + seq![':']
        + padded_text((tod % 3600) / 60, 2) + seq![':'] + padded_text(tod % 60, 2)
}

/// Formats a time, given in whole seconds since the Unix epoch, as `YYYY-MM-DDTHH:MM:SS` (UTC).
pub fn iso(secs: u64) -> (r: String)
    requires
        secs <= i64::MAX,
    ensures
        r@ == iso_text(secs as nat),
{
    let days: u64 = secs / 86400;
    let tod: u64 = secs % 86400;
    let ymd = civil_from_days(days as i64);
    assert(ymd.0 >= 0) by (nonlinear_arith)
        requires
            (ymd.0 as int, ymd.1 as int, ymd.2 as int) == civil_spec(days as int),
            days >= 0,
    {
    }
    let mut s = String::new();
    write_padded(&mut s, ymd.0 as u64, 4);
    push_char(&mut s, '-');
    write_padded(&mut s, ymd.1 as u64, 2);
    push_char(&mut s, '-');
    write_padded(&mut s, ymd.2 as u64, 2);
    push_char(&mut s, 'T');
    write_padded(&mut s, tod / 3600, 2);
    push_char(&mut s, ':');
    write_padded(&mut s, (tod % 3600) / 60, 2);
    push_char(&mut s, ':');
    write_padded(&mut s, tod % 60, 2);
    proof {
        assert(s@ =~= iso_text(secs as nat));
    }
    s
}

/// A reading of the system clock.
#[verifier::external_type_specification]
#[verifier::external_body]
pub struct ExSystemTime(std::time::SystemTime);

/// `SystemTime::now`: a reading of the system clock; nothing is stated of its value.
#[verifier::external_body]
pub(crate) fn system_now() -> std::time::SystemTime {
    std::time::SystemTime::now()
}

/// `SystemTime::duration_since(UNIX_EPOCH)` in whole seconds: `Ok` with how long after
/// the epoch `t` lies, `Err` with how long before it; nothing is stated of the values.
#[verifier::external_body]
pub(crate) fn epoch_offset(t: &std::time::SystemTime) -> Result<u64, u64> {
    match t.duration_since(std::time::UNIX_EPOCH) {
        Ok(d) => Ok(d.as_secs()),
        Err(e) => Err(e.duration().as_secs()),
    }
}

/// Whole seconds since the epoch for a time given by its offset from the epoch: a time
/// before the epoch counts as the epoch itself, and one past the signed 64-bit range
/// as the end of that range.
pub open spec fn epoch_secs_spec(offset: Result<u64, u64>) -> u64 {
    match offset {
        Ok(s) => if s <= i64::MAX as u64 {
            s
        } else {
            i64::MAX as u64
        },
        Err(_) => 0,
    }
}

/// See `epoch_secs_spec`.
pub fn epoch_secs(offset: Result<u64, u64>) -> (r: u64)
    ensures
        r == epoch_secs_spec(offset),
        r <= i64::MAX,
{
    match offset {
        Ok(s) => if s <= i64::MAX as u64 {
            s
        } else {
            i64::MAX as u64
        },
        Err(_) => 0,
    }
}

/// Formats a time given by its offset from the epoch (see `epoch_secs_spec`) as
/// `YYYY-MM-DDTHH:MM:SS` (UTC).
pub fn iso_at(offset: Result<u64, u64>) -> (r: String)
    ensures
        r@ == iso_text(epoch_secs_spec(offset) as nat),
{
    iso(epoch_secs(offset))
}

/// A time before the epoch prints as the epoch.
pub proof fn times_before_the_epoch_print_as_the_epoch(before: u64)
    ensures
        iso_text(epoch_secs_spec(Err(before)) as nat) == "1970-01-01T00:00:00"@,
{
    assert(civil_spec(0) == (1970int, 1int, 1int));
    assert(crate::text::digit_char(0) == '0' && crate::text::digit_char(1) == '1'
        && crate::text::digit_char(7) == '7' && crate::text::digit_char(9) == '9');
    assert(crate::text::nat_text(1) =~= seq!['1']);
    assert(crate::text::nat_text(19) =~= seq!['1', '9']);
    assert(crate::text::nat_text(197) =~= seq!['1', '9', '7']);
    assert(crate::text::nat_text(1970) =~= seq!['1', '9', '7', '0']);
    assert(crate::text::nat_text(1) =~= seq!['1']);
    assert(crate::text::nat_text(0) =~= seq!['0']);
    assert(padded_text(1970, 4) =~= seq!['1', '9', '7', '0']);
    assert(padded_text(1, 2) =~= seq!['0', '1']);
    assert(padded_text(0, 2) =~= seq!['0', '0']);
    reveal_strlit("1970-01-01T00:00:00");
    assert(iso_text(0) =~= "1970-01-01T00:00:00"@);
}

/// The current time in whole seconds since the Unix epoch (see `epoch_secs_spec`).
pub(crate) fn now_secs() -> (r: u64)
    ensures
        r <= i64::MAX,
{
    let t = system_now();
    epoch_secs(epoch_offset(&t))
}

// ---------------------------------------------------------------------------
// Events.

/// One callback from the core, as recorded.
pub struct Event {
    pub seq: u64,
    /// Seconds since the Unix epoch at which the event was recorded.
    pub at: u64,
    pub message_id: i32,
    pub message: String,
    pub payload: Json,
}

/// The fields of `base` with `key` bound when `v` is present.
pub open spec fn insert_opt(base: JsonV, key: Seq<char>, v: Option<JsonV>) -> JsonV {
    match v {
        Some(x) => json_insert(base, key, x),
        None => base,
    }
}

/// Whether the payload's `what` names a copilot battle callback.
pub open spec fn payload_is_battle(payload: JsonV) -> bool {
    match get_str(payload, "what"@) {
        Some(w) => is_battle_what_text(w),
        None => false,
    }
}

/// The summary object of an event: seq, time, message name and id, then whichever of
/// taskchain, task id, what and why the payload carries, the details of a battle
/// callback, and the whole payload when asked for.
pub open spec fn describe_spec(
    seq: u64,
    at: u64,
    message: Seq<char>,
    message_id: i32,
    payload: JsonV,
    include_payload: bool,
) -> JsonV {
    let fields = seq![
        ("seq"@, JsonV::Int(seq as int)),
        ("at"@, JsonV::Str(iso_text(at as nat))),
        ("message"@, JsonV::Str(message)),
        ("message_id"@, JsonV::Int(message_id as int)),
    ];
    let base = JsonV::Object(fields);
    let a = insert_opt(base, "taskchain"@, get_non_null(payload, "taskchain"@));
    let b = insert_opt(a, "task_id"@, get_non_null(payload, "taskid"@));
    let c = insert_opt(b, "what"@, get_non_null(payload, "what"@));
    let d = insert_opt(c, "why"@, get_non_null(payload, "why"@));
    let e = if payload_is_battle(payload) {
        insert_opt(d, "details"@, get_non_null(payload, "details"@))
    } else {
        d
    };
    if include_payload {
        json_insert(e, "payload"@, payload)
    } else {
        e
    }
}

proof fn lemma_insert_opt_get(base: JsonV, key: Seq<char>, v: Option<JsonV>, other: Seq<char>)
    requires
        base is Object,
    ensures
        insert_opt(base, key, v) is Object,
        json_get(insert_opt(base, key, v), other) == if other == key && v is Some {
            v
        } else {
            json_get(base, other)
        },
{
    if let Some(x) = v {
        crate::json::get_after_insert(base, key, x, other);
    }
}

proof fn lemma_get_of_four(f: Seq<(Seq<char>, JsonV)>, key: Seq<char>)
    requires
        f.len() == 4,
    ensures
        crate::json::fields_get(f, key) == if f[0].0 == key {
            Some(f[0].1)
        } else if f[1].0 == key {
            Some(f[1].1)
        } else if f[2].0 == key {
            Some(f[2].1)
        } else if f[3].0 == key {
            Some(f[3].1)
        } else {
            None
        },
{
    let f1 = f.subrange(1, 4);
    let f2 = f1.subrange(1, 3);
    let f3 = f2.subrange(1, 2);
    let f4 = f3.subrange(1, 1);
    assert(f1[0] == f[1] && f1[1] == f[2] && f1[2] == f[3]);
    assert(f2[0] == f[2] && f2[1] == f[3]);
    assert(f3[0] == f[3]);
    assert(f4.len() == 0);
    assert(crate::json::fields_get(f4, key) is None);
    assert(crate::json::fields_get(f3, key) == if f[3].0 == key {
        Some(f[3].1)
    } else {
        None
    });
    assert(crate::json::fields_get(f2, key) == if f[2].0 == key {
        Some(f[2].1)
    } else {
        crate::json::fields_get(f3, key)
    });
    assert(crate::json::fields_get(f1, key) == if f[1].0 == key {
        Some(f[1].1)
    } else {
        crate::json::fields_get(f2, key)
    });
}

/// What an event's summary holds: its seq, time, message and message id; the details
/// exactly when the event is a battle callback whose payload carries non-null details,
/// and then those details; and the whole payload exactly when it is asked for.
pub proof fn summaries_carry_details_for_battle_events_only(
    seq: u64,
    at: u64,
    message: Seq<char>,
    message_id: i32,
    payload: JsonV,
    include_payload: bool,
)
    ensures
        ({
            let d = describe_spec(seq, at, message, message_id, payload, include_payload);
            &&& json_get(d, "seq"@) == Some(JsonV::Int(seq as int))
            &&& json_get(d, "at"@) == Some(JsonV::Str(iso_text(at as nat)))
            &&& json_get(d, "message"@) == Some(JsonV::Str(message))
            &&& json_get(d, "message_id"@) == Some(JsonV::Int(message_id as int))
            &&& json_get(d, "details"@) == if payload_is_battle(payload) {
                get_non_null(payload, "details"@)
            } else {
                None
            }
            &&& json_get(d, "payload"@) == if include_payload {
                Some(payload)
            } else {
                None
            }
        }),
{
    reveal_strlit("seq");
    reveal_strlit("at");
    reveal_strlit("message");
    reveal_strlit("message_id");
    reveal_strlit("taskchain");
    reveal_strlit("task_id");
    reveal_strlit("taskid");
    reveal_strlit("what");
    reveal_strlit("why");
    reveal_strlit("details");
    reveal_strlit("payload");
    let fields = seq![
        ("seq"@, JsonV::Int(seq as int)),
        ("at"@, JsonV::Str(iso_text(at as nat))),
        ("message"@, JsonV::Str(message)),
        ("message_id"@, JsonV::Int(message_id as int)),
    ];
    let base = JsonV::Object(fields);
    let a = insert_opt(base, "taskchain"@, get_non_null(payload, "taskchain"@));
    let b = insert_opt(a, "task_id"@, get_non_null(payload, "taskid"@));
    let c = insert_opt(b, "what"@, get_non_null(payload, "what"@));
    let d = insert_opt(c, "why"@, get_non_null(payload, "why"@));
    let e = if payload_is_battle(payload) {
        insert_opt(d, "details"@, get_non_null(payload, "details"@))
    } else {
        d
    };
    assert("seq"@.len() == 3 && "seq"@[0] == 's');
    assert("at"@.len() == 2);
    assert("message"@.len() == 7 && "message"@[0] == 'm');
    assert("message_id"@.len() == 10);
    assert("taskchain"@.len() == 9);
    assert("task_id"@.len() == 7 && "task_id"@[0] == 't');
    assert("what"@.len() == 4);
    assert("why"@.len() == 3 && "why"@[0] == 'w');
    assert("details"@.len() == 7 && "details"@[0] == 'd');
    assert("payload"@.len() == 7 && "payload"@[0] == 'p');
    let keys = seq!["seq"@, "at"@, "message"@, "message_id"@, "details"@, "payload"@];
    assert forall|i: int| 0 <= i < keys.len() implies json_get(e, #[trigger] keys[i]) == if keys[i]
        == "details"@ && payload_is_battle(payload) {
        get_non_null(payload, "details"@)
    } else if keys[i] == "details"@ || keys[i] == "payload"@ {
        None
    } else {
        json_get(base, keys[i])
    } by {
        let k = keys[i];
        lemma_insert_opt_get(base, "taskchain"@, get_non_null(payload, "taskchain"@), k);
        lemma_insert_opt_get(a, "task_id"@, get_non_null(payload, "taskid"@), k);
        lemma_insert_opt_get(b, "what"@, get_non_null(payload, "what"@), k);
        lemma_insert_opt_get(c, "why"@, get_non_null(payload, "why"@), k);
        lemma_insert_opt_get(d, "details"@, get_non_null(payload, "details"@), k);
        if k == "details"@ || k == "payload"@ {
            lemma_get_of_four(fields, k);
        }
    }
    assert(json_get(base, "seq"@) == Some(JsonV::Int(seq as int))) by {
        lemma_get_of_four(fields, "seq"@);
    }
    assert(json_get(base, "at"@) == Some(JsonV::Str(iso_text(at as nat)))) by {
        lemma_get_of_four(fields, "at"@);
    }
    assert(json_get(base, "message"@) == Some(JsonV::Str(message))) by {
        lemma_get_of_four(fields, "message"@);
    }
    assert(json_get(base, "message_id"@) == Some(JsonV::Int(message_id as int))) by {
        lemma_get_of_four(fields, "message_id"@);
    }
    assert(json_get(e, keys[0]) == json_get(base, "seq"@));
    assert(json_get(e, keys[1]) == json_get(base, "at"@));
    assert(json_get(e, keys[2]) == json_get(base, "message"@));
    assert(json_get(e, keys[3]) == json_get(base, "message_id"@));
    assert(json_get(e, keys[4]) == json_get(e, "details"@));
    assert(json_get(e, keys[5]) == json_get(e, "payload"@));
    assert(e is Object) by {
        lemma_insert_opt_get(base, "taskchain"@, get_non_null(payload, "taskchain"@), "seq"@);
        lemma_insert_opt_get(a, "task_id"@, get_non_null(payload, "taskid"@), "seq"@);
        lemma_insert_opt_get(b, "what"@, get_non_null(payload, "what"@), "seq"@);
        lemma_insert_opt_get(c, "why"@, get_non_null(payload, "why"@), "seq"@);
        lemma_insert_opt_get(d, "details"@, get_non_null(payload, "details"@), "seq"@);
    }
    if include_payload {
        crate::json::get_after_insert(e, "payload"@, payload, "seq"@);
        crate::json::get_after_insert(e, "payload"@, payload, "at"@);
        crate::json::get_after_insert(e, "payload"@, payload, "message"@);
        crate::json::get_after_insert(e, "payload"@, payload, "message_id"@);
        crate::json::get_after_insert(e, "payload"@, payload, "details"@);
    }
}

impl Event {
    pub open spec fn describe_view(&self, include_payload: bool) -> JsonV {
        describe_spec(
            self.seq,
            self.at,
            self.message@,
            self.message_id,
            self.payload@,
            include_payload,
        )
    }

    /// Whether the event reports an error.
    pub fn is_error(&self) -> (r: bool)
        ensures
            r == is_error_id(self.message_id),
    {
        is_error(self.message_id)
    }

    /// The event's summary object; see `describe_spec`.
    pub fn describe(&self, include_payload: bool) -> (r: Json)
        requires
            self.at <= i64::MAX,
        ensures
            r@ == self.describe_view(include_payload),
    {
        let mut fields: Vec<(String, Json)> = Vec::new();
        fields.push((String::from_str("seq"), Json::UInt(self.seq)));
        let at_text = iso(self.at);
        let ghost at_view = at_text@;
        fields.push((String::from_str("at"), Json::Str(at_text)));
        let msg_text = self.message.clone();
        let ghost msg_view = msg_text@;
        fields.push((String::from_str("message"), Json::Str(msg_text)));
        fields.push((String::from_str("message_id"), Json::Int(self.message_id as i64)));
        let ghost fv = fields@;
        let mut out = Json::Object(fields);
        proof {
            let base = JsonV::Object(
                seq![
                    ("seq"@, JsonV::Int(self.seq as int)),
                    ("at"@, JsonV::Str(iso_text(self.at as nat))),
                    ("message"@, JsonV::Str(self.message@)),
                    ("message_id"@, JsonV::Int(self.message_id as int)),
                ],
            );
            if let JsonV::Object(f) = out@ {
                if let JsonV::Object(g) = base {
                    assert(fv.len() == 4);
                    assert(f.len() == 4);
                    assert(f[0] == (fv[0].0@, fv[0].1@));
                    assert(f[0] == g[0]);
                    assert(at_view == iso_text(self.at as nat));
                    assert(fv[1].1@ == JsonV::Str(at_view));
                    assert(msg_view == self.message@);
                    assert(fv[2].0@ == "message"@);
                    assert(fv[2].1@ == JsonV::Str(msg_view));
                    assert(fv[3].0@ == "message_id"@);
                    assert(fv[3].1@ == JsonV::Int(self.message_id as int));
                    assert(f[1] == g[1]);
                    assert(f[2] == g[2]);
                    assert(f[3] == g[3]);
                    assert(f =~= g);
                }
            }
            assert(out@ == base);
        }
        if let Some(v) = self.payload.get_non_null("taskchain") {
            out.insert("taskchain", v.copy());
        }
        if let Some(v) = self.payload.get_non_null("taskid") {
            out.insert("task_id", v.copy());
        }
        if let Some(v) = self.payload.get_non_null("what") {
            out.insert("what", v.copy());
        }
        if let Some(v) = self.payload.get_non_null("why") {
            out.insert("why", v.copy());
        }
        let is_battle = match self.payload.get_str("what") {
            Some(w) => is_battle_what(w.as_str()),
            None => false,
        };
        if is_battle {
            if let Some(v) = self.payload.get_non_null("details") {
                out.insert("details", v.copy());
            }
        }
        if include_payload {
            out.insert("payload", self.payload.copy());
        }
        out
    }
}

// ---------------------------------------------------------------------------
// The event log.

/// A ring buffer of the most recent events; every event gets the next sequence number.
pub struct EventLog {
    buf: VecDeque<Event>,
    cap: usize,
    seq: u64,
}

/// One page of events after a cursor.
pub struct EventsPage {
    pub events: Vec<Json>,
    pub count: usize,
    pub next_seq: u64,
    pub latest_seq: u64,
    pub has_more: bool,
    pub dropped: u64,
}

/// Whether an event passes the page filter.
pub open spec fn page_pred(e: Event, after_seq: u64, significant_only: bool) -> bool {
    e.seq > after_seq && (!significant_only || is_significant_spec(e.message_id, e.payload@))
}

/// The events of `s` that pass the page filter, in order.
pub open spec fn candidates(s: Seq<Event>, after_seq: u64, significant_only: bool) -> Seq<Event>
    decreases s.len(),
{
    if s.len() == 0 {
        Seq::empty()
    } else {
        let rest = candidates(s.subrange(0, s.len() - 1), after_seq, significant_only);
        if page_pred(s[s.len() - 1], after_seq, significant_only) {
            rest.push(s[s.len() - 1])
        } else {
            rest
        }
    }
}

proof fn lemma_candidates_seq(s: Seq<Event>, after_seq: u64, significant_only: bool, k: int)
    requires
        0 <= k < candidates(s, after_seq, significant_only).len(),
    ensures
        candidates(s, after_seq, significant_only)[k].seq > after_seq,
        exists|j: int| 0 <= j < s.len() && s[j] == candidates(s, after_seq, significant_only)[k],
    decreases s.len(),
{
    let c = candidates(s, after_seq, significant_only);
    let pre = s.subrange(0, s.len() - 1);
    let rest = candidates(pre, after_seq, significant_only);
    if k < rest.len() {
        lemma_candidates_seq(pre, after_seq, significant_only, k);
        let j = choose|j: int| 0 <= j < pre.len() && pre[j] == rest[k];
        assert(s[j] == c[k]);
    } else {
        assert(s[s.len() - 1] == c[k]);
    }
}

impl EventLog {
    /// The events held, oldest first.
    pub closed spec fn events(&self) -> Seq<Event> {
        self.buf@
    }

    /// How many events the log keeps.
    pub closed spec fn capacity(&self) -> nat {
        self.cap as nat
    }

    /// The sequence number of the latest event ever pushed (0 when none was).
    pub closed spec fn latest(&self) -> u64 {
        self.seq
    }

    /// The log's invariant: at most `max(cap, 1)` events, numbered consecutively up to
    /// the latest, each named after its message id and stamped at a valid time.
    pub closed spec fn wf(&self) -> bool {
        &&& self.buf@.len() <= if self.cap == 0 {
            1
        } else {
            self.cap as int
        }
        &&& self.buf@.len() <= self.seq
        &&& forall|i: int|
            0 <= i < self.buf@.len() ==> (#[trigger] self.buf@[i]).seq == self.seq
                - self.buf@.len() + 1 + i
        &&& forall|i: int|
            0 <= i < self.buf@.len() ==> (#[trigger] self.buf@[i]).message@ == message_name_text(
                self.buf@[i].message_id,
            ) && self.buf@[i].at <= i64::MAX
    }

    /// An empty log that keeps the last `cap` events.
    pub fn new(cap: usize) -> (r: EventLog)
        ensures
            r.wf(),
            r.events() == Seq::<Event>::empty(),
            r.capacity() == cap,
            r.latest() == 0,
    {
        EventLog { buf: VecDeque::new(), cap, seq: 0 }
    }

    /// Records an event stamped with the current time.
    pub fn push(&mut self, message_id: i32, payload: Json) -> (r: &Event)
        requires
            old(self).wf(),
            old(self).latest() < u64::MAX,
        ensures
            final(self).wf(),
            final(self).latest() == old(self).latest() + 1,
            final(self).capacity() == old(self).capacity(),
            final(self).events().len() > 0,
            final(self).events() == (if old(self).events().len() >= old(self).capacity() && old(
                self,
            ).events().len() > 0 {
                old(self).events().subrange(1, old(self).events().len() as int)
            } else {
                old(self).events()
            }).push(final(self).events().last()),
            final(self).events().last().seq == final(self).latest(),
            final(self).events().last().message_id == message_id,
            final(self).events().last().payload@ == payload@,
            *r == final(self).events().last(),
    {
        let at = now_secs();
        self.push_at(message_id, payload, at)
    }

    /// Records an event stamped `at` seconds since the Unix epoch.
    pub fn push_at(&mut self, message_id: i32, payload: Json, at: u64) -> (r: &Event)
        requires
            old(self).wf(),
            old(self).latest() < u64::MAX,
            at <= i64::MAX,
        ensures
            final(self).wf(),
            final(self).latest() == old(self).latest() + 1,
            final(self).capacity() == old(self).capacity(),
            final(self).events().len() > 0,
            final(self).events() == (if old(self).events().len() >= old(self).capacity() && old(
                self,
            ).events().len() > 0 {
                old(self).events().subrange(1, old(self).events().len() as int)
            } else {
                old(self).events()
            }).push(final(self).events().last()),
            final(self).events().last().seq == final(self).latest(),
            final(self).events().last().message_id == message_id,
            final(self).events().last().payload@ == payload@,
            final(self).events().last().at == at,
            *r == final(self).events().last(),
    {
        self.seq = self.seq + 1;
        if self.buf.len() >= self.cap {
            let _ = self.buf.pop_front();
        }
        let ghost mid = self.buf@;
        let message = message_name(message_id);
        self.buf.push_back(Event { seq: self.seq, at, message_id, message, payload });
        proof {
            assert forall|i: int| 0 <= i < self.buf@.len() implies (#[trigger] self.buf@[i]).seq
                == self.seq - self.buf@.len() + 1 + i by {
                if i < self.buf@.len() - 1 {
                    assert(self.buf@[i] == mid[i]);
                }
            }
        }
        let n = self.buf.len();
        &self.buf[n - 1]
    }

    /// The events held, oldest first.
    pub fn iter(&self) -> (r: &VecDeque<Event>)
        ensures
            r@ == self.events(),
    {
        &self.buf
    }

    /// The sequence number of the latest event ever pushed.
    pub fn latest_seq(&self) -> (r: u64)
        ensures
            r == self.latest(),
    {
        self.seq
    }

    /// What a page of the events after `after_seq` holds: at most `limit` of the events
    /// that pass the filter, oldest first, each described (with its payload when asked),
    /// with the cursor to continue from, whether more remain and how many events after
    /// the cursor the log no longer holds.
    pub open spec fn paged(
        &self,
        after_seq: u64,
        limit: usize,
        significant_only: bool,
        include_payload: bool,
        r: EventsPage,
    ) -> bool {
        let cands = candidates(self.events(), after_seq, significant_only);
        let shown = if cands.len() <= limit {
            cands
        } else {
            cands.subrange(0, limit as int)
        };
        &&& r.count == shown.len()
        &&& r.events@.len() == shown.len()
        &&& forall|k: int|
            0 <= k < shown.len() ==> (#[trigger] r.events@[k])@ == shown[k].describe_view(
                include_payload,
            )
        &&& r.next_seq == if shown.len() > 0 {
            shown.last().seq
        } else {
            after_seq
        }
        &&& r.latest_seq == self.latest()
        &&& r.has_more == (cands.len() > shown.len())
        &&& r.dropped == if after_seq == 0 {
            0
        } else {
            let oldest: int = if self.events().len() > 0 {
                self.events()[0].seq as int
            } else {
                0
            };
            if oldest > after_seq + 1 {
                (oldest - (after_seq + 1)) as u64
            } else {
                0
            }
        }
    }

    /// A page of the events after `after_seq`: at most `limit` of them, oldest first,
    /// only significant ones when asked, each described (with its payload when asked).
    pub fn page(
        &self,
        after_seq: u64,
        limit: usize,
        significant_only: bool,
        include_payload: bool,
    ) -> (r: EventsPage)
        requires
            self.wf(),
            after_seq < u64::MAX,
        ensures
            self.paged(after_seq, limit, significant_only, include_payload, r),
    {
        let ghost all = self.buf@;
        let mut events: Vec<Json> = Vec::new();
        let mut total: usize = 0;
        let mut last_seq: u64 = after_seq;
        let mut i: usize = 0;
        let n = self.buf.len();
        while i < n
            invariant
                self.wf(),
                all == self.buf@,
                n == all.len(),
                i <= n,
                total == candidates(all.subrange(0, i as int), after_seq, significant_only).len(),
                total <= i,
                events@.len() == if total <= limit {
                    total as int
                } else {
                    limit as int
                },
                forall|k: int|
                    0 <= k < events@.len() ==> (#[trigger] events@[k])@ == candidates(
                        all.subrange(0, i as int),
                        after_seq,
                        significant_only,
                    )[k].describe_view(include_payload),
                last_seq == if events@.len() > 0 {
                    candidates(all.subrange(0, i as int), after_seq, significant_only)[events@.len()
                        - 1].seq
                } else {
                    after_seq
                },
            decreases n - i,
        {
            let ghost before = candidates(all.subrange(0, i as int), after_seq, significant_only);
            let e = &self.buf[i];
            let pass = e.seq > after_seq && (!significant_only || is_significant(
                e.message_id,
                &e.payload,
            ));
            proof {
                let pre = all.subrange(0, i + 1);
                assert(pre.subrange(0, pre.len() - 1) =~= all.subrange(0, i as int));
                assert(pre[pre.len() - 1] == all[i as int]);
            }
            if pass {
                if total < limit {
                    let d = e.describe(include_payload);
                    events.push(d);
                    last_seq = e.seq;
                }
                total = total + 1;
            }
            i = i + 1;
        }
        proof {
            assert(all.subrange(0, n as int) =~= all);
        }
        let ghost cands = candidates(all, after_seq, significant_only);
        let count = events.len();
        let oldest: u64 = if n > 0 {
            self.buf[0].seq
        } else {
            0
        };
        let dropped: u64 = if after_seq == 0 {
            0
        } else if oldest > after_seq + 1 {
            oldest - (after_seq + 1)
        } else {
            0
        };
        proof {
            let shown = if cands.len() <= limit {
                cands
            } else {
                cands.subrange(0, limit as int)
            };
            assert(count == shown.len());
            if count > 0 {
                assert(shown.last() == cands[count - 1]);
            }
        }
        EventsPage {
            events,
            count,
            next_seq: last_seq,
            latest_seq: self.seq,
            has_more: total > count,
            dropped,
        }
    }
}

/// Whether an event after the cursor counts for a wait: an error, or, when
/// `errors_only` is false, any significant event.
pub open spec fn event_hits(e: Event, after_seq: u64, errors_only: bool) -> bool {
    e.seq > after_seq && if errors_only {
        is_error_id(e.message_id)
    } else {
        is_significant_spec(e.message_id, e.payload@)
    }
}

impl EventLog {
    /// Whether some event held after `after_seq` counts; see `event_hits`.
    pub fn any_after(&self, after_seq: u64, errors_only: bool) -> (r: bool)
        ensures
            r == exists|i: int|
                0 <= i < self.events().len() && #[trigger] event_hits(
                    self.events()[i],
                    after_seq,
                    errors_only,
                ),
    {
        let n = self.buf.len();
        let mut i: usize = 0;
        while i < n
            invariant
                n == self.buf@.len(),
                i <= n,
                forall|k: int| 0 <= k < i ==> !#[trigger] event_hits(self.buf@[k], after_seq, errors_only),
            decreases n - i,
        {
            let e = &self.buf[i];
            let hit = e.seq > after_seq && if errors_only {
                is_error(e.message_id)
            } else {
                is_significant(e.message_id, &e.payload)
            };
            if hit {
                assert(self.events()[i as int] == self.buf@[i as int]);
                assert(event_hits(self.events()[i as int], after_seq, errors_only));
                return true;
            }
            i = i + 1;
        }
        false
    }
}

/// Every event on a page comes after the cursor.
pub proof fn page_events_follow_the_cursor(
    events: Seq<Event>,
    after_seq: u64,
    significant_only: bool,
    k: int,
)
    requires
        0 <= k < candidates(events, after_seq, significant_only).len(),
    ensures
        candidates(events, after_seq, significant_only)[k].seq > after_seq,
{
    lemma_candidates_seq(events, after_seq, significant_only, k);
}

/// The event log is a ring buffer: it holds at most its capacity (one event when the
/// capacity is zero), and those are the newest, numbered consecutively up to the
/// latest sequence number.
pub proof fn the_log_keeps_the_newest_events(log: EventLog)
    requires
        log.wf(),
    ensures
        log.events().len() <= if log.capacity() == 0 {
            1
        } else {
            log.capacity()
        },
        log.events().len() <= log.latest(),
        forall|i: int|
            0 <= i < log.events().len() ==> (#[trigger] log.events()[i]).seq == log.latest()
                - log.events().len() + 1 + i,
{
}

} // verus!
