use vstd::prelude::*;
use vstd::string::*;

use indexmap::IndexMap;

use crate::error::Error;
use crate::json::{
    fields_get, json_get, json_items, json_text, repr_text, to_text, write_json, write_repr, Json,
    JsonV,
};
use crate::number::{num_lt, num_of, number_lt};
use crate::text::{
    debug_str, debug_text, join_strings, join_text, nat_text, push_str, str_eq, strings_view,
    trim, trimmed, write_u64,
};

verus! {

broadcast use vstd::string::group_string_axioms;

// ---------------------------------------------------------------------------
// Value types as the schemas name them.

/// The name a value's type goes by in messages.
pub open spec fn value_type_text(v: JsonV) -> Seq<char> {
    match v {
        JsonV::Null => "null"@,
        JsonV::Bool(_) => "bool"@,
        JsonV::Float(_, _) => "float"@,
        JsonV::Int(_) => "int"@,
        JsonV::Str(_) => "str"@,
        JsonV::Array(_) => "list"@,
        JsonV::Object(_) => "dict"@,
    }
}

/// The name a value's type goes by in messages; see `value_type_text`.
pub fn value_type_name(v: &Json) -> (r: &'static str)
    ensures
        r@ == value_type_text(v@),
{
    match v {
        Json::Null => "null",
        Json::Bool(_) => "bool",
        Json::Float(_, _) => "float",
        Json::Int(_) => "int",
        Json::UInt(_) => "int",
        Json::Str(_) => "str",
        Json::Array(_) => "list",
        Json::Object(_) => "dict",
    }
}

/// Whether a value has the JSON-schema type `t`; an unknown type name accepts anything.
pub open spec fn matches_type_spec(v: JsonV, t: Seq<char>) -> bool {
    if t == "object"@ {
        v is Object
    } else if t == "array"@ {
        v is Array
    } else if t == "string"@ {
        v is Str
    } else if t == "integer"@ {
        v is Int
    } else if t == "number"@ {
        v is Int || v is Float
    } else if t == "boolean"@ {
        v is Bool
    } else if t == "null"@ {
        v is Null
    } else {
        true
    }
}

/// Whether a value has the JSON-schema type `t`; see `matches_type_spec`.
pub fn matches_type(v: &Json, t: &str) -> (r: bool)
    ensures
        r == matches_type_spec(v@, t@),
{
    if str_eq(t, "object") {
        v.is_object()
    } else if str_eq(t, "array") {
        matches!(v, Json::Array(_))
    } else if str_eq(t, "string") {
        matches!(v, Json::Str(_))
    } else if str_eq(t, "integer") {
        matches!(v, Json::Int(_)) || matches!(v, Json::UInt(_))
    } else if str_eq(t, "number") {
        matches!(v, Json::Int(_)) || matches!(v, Json::UInt(_)) || matches!(v, Json::Float(_, _))
    } else if str_eq(t, "boolean") {
        matches!(v, Json::Bool(_))
    } else if str_eq(t, "null") {
        v.is_null()
    } else {
        true
    }
}

/// Whether a double's bits are those of zero (either sign).
pub open spec fn zero_bits(x: u64) -> bool {
    x == 0 || x == 0x8000_0000_0000_0000u64
}

/// Whether two JSON values are equal as JSON values: numbers by value within their
/// kind (an integer never equals a float; floats compare as doubles, so 0.0 equals
/// -0.0), strings by text, arrays item by item, and objects as maps (as many keys,
/// and each key of `a` found in `b` with an equal value).
pub open spec fn same_json(a: JsonV, b: JsonV) -> bool
    decreases a,
{
    match a {
        JsonV::Null => b is Null,
        JsonV::Bool(x) => b matches JsonV::Bool(y) && x == y,
        JsonV::Int(x) => b matches JsonV::Int(y) && x == y,
        JsonV::Float(_, x) => b matches JsonV::Float(_, y) && (x == y || (zero_bits(x) && zero_bits(y))),
        JsonV::Str(s) => b matches JsonV::Str(t) && s == t,
        JsonV::Array(xs) => match b {
            JsonV::Array(ys) => xs.len() == ys.len() && forall|i: int|
                0 <= i < xs.len() ==> same_json(#[trigger] xs[i], ys[i]),
            _ => false,
        },
        JsonV::Object(f) => match b {
            JsonV::Object(g) => f.len() == g.len() && forall|i: int|
                0 <= i < f.len() ==> match fields_get(g, (#[trigger] f[i]).0) {
                    Some(v) => same_json(f[i].1, v),
                    None => false,
                },
            _ => false,
        },
    }
}

/// Whether two values are equal as JSON values; see `same_json`.
#[verifier::loop_isolation(false)]
pub fn json_eq(a: &Json, b: &Json) -> (r: bool)
    ensures
        r == same_json(a@, b@),
    decreases a,
{
    match (a, b) {
        (Json::Null, Json::Null) => true,
        (Json::Bool(x), Json::Bool(y)) => *x == *y,
        (Json::Int(x), Json::Int(y)) => *x == *y,
        (Json::UInt(x), Json::UInt(y)) => *x == *y,
        (Json::Int(x), Json::UInt(y)) => *x >= 0 && (*x as u64) == *y,
        (Json::UInt(x), Json::Int(y)) => *y >= 0 && (*y as u64) == *x,
        (Json::Float(_, x), Json::Float(_, y)) => *x == *y || ((*x == 0 || *x == 0x8000_0000_0000_0000u64)
            && (*y == 0 || *y == 0x8000_0000_0000_0000u64)),
        (Json::Str(s), Json::Str(t)) => str_eq(s.as_str(), t.as_str()),
        (Json::Array(xs), Json::Array(ys)) => {
            let ghost p = match a@ {
                JsonV::Array(p) => p,
                _ => Seq::empty(),
            };
            let ghost q = match b@ {
                JsonV::Array(q) => q,
                _ => Seq::empty(),
            };
            proof {
                assert(p =~= json_items(xs@));
                assert(q =~= json_items(ys@));
            }
            if xs.len() != ys.len() {
                return false;
            }
            let mut i: usize = 0;
            while i < xs.len()
                invariant
                    i <= xs@.len(),
                    xs@.len() == ys@.len(),
                    forall|k: int| 0 <= k < i ==> same_json(#[trigger] p[k], q[k]),
                decreases xs.len() - i,
            {
                assert(decreases_to!(*a => xs@[i as int]));
                if !json_eq(&xs[i], &ys[i]) {
                    proof {
                        assert(p[i as int] == xs@[i as int]@);
                        assert(q[i as int] == ys@[i as int]@);
                    }
                    return false;
                }
                proof {
                    assert(p[i as int] == xs@[i as int]@);
                    assert(q[i as int] == ys@[i as int]@);
                }
                i = i + 1;
            }
            true
        },
        (Json::Object(xs), Json::Object(ys)) => {
            let ghost f = match a@ {
                JsonV::Object(f) => f,
                _ => Seq::empty(),
            };
            let ghost g = match b@ {
                JsonV::Object(g) => g,
                _ => Seq::empty(),
            };
            proof {
                assert(f.len() == xs@.len());
                assert(g.len() == ys@.len());
            }
            if xs.len() != ys.len() {
                return false;
            }
            let mut i: usize = 0;
            while i < xs.len()
                invariant
                    i <= xs@.len(),
                    f.len() == xs@.len(),
                    forall|k: int| 0 <= k < i ==> match fields_get(g, (#[trigger] f[k]).0) {
                        Some(v) => same_json(f[k].1, v),
                        None => false,
                    },
                decreases xs.len() - i,
            {
                proof {
                    assert(f[i as int].0 == xs@[i as int].0@);
                    assert(f[i as int].1 == xs@[i as int].1@);
                }
                assert(decreases_to!(*a => xs@[i as int].1));
                match b.get(xs[i].0.as_str()) {
                    None => {
                        return false;
                    },
                    Some(v) => {
                        if !json_eq(&xs[i].1, v) {
                            return false;
                        }
                    },
                }
                i = i + 1;
            }
            true
        },
        _ => false,
    }
}

// ---------------------------------------------------------------------------
// Near misses.

/// The Levenshtein distance between two strings, counted in characters.
pub open spec fn lev(a: Seq<char>, b: Seq<char>) -> nat
    decreases a.len() + b.len(),
{
    if a.len() == 0 {
        b.len()
    } else if b.len() == 0 {
        a.len()
    } else {
        let sub = lev(a.drop_last(), b.drop_last()) + if a.last() == b.last() {
            0nat
        } else {
            1nat
        };
        let del = lev(a.drop_last(), b) + 1;
        let ins = lev(a, b.drop_last()) + 1;
        if sub <= del && sub <= ins {
            sub
        } else if del <= ins {
            del
        } else {
            ins
        }
    }
}

/// `strsim::levenshtein`: the fewest single-character insertions, deletions and
/// substitutions that turn one string into the other (see `lev`).
#[verifier::external_body]
fn levenshtein(a: &str, b: &str) -> (r: usize)
    ensures
        r == lev(a@, b@),
{
    strsim::levenshtein(a, b)
}

/// The similarity of two strings as a fraction `(num, den)`: one minus their distance
/// over the longer length, and 1 for two empty strings.
pub open spec fn similarity(a: Seq<char>, b: Seq<char>) -> (int, int) {
    let m: int = if a.len() >= b.len() {
        a.len() as int
    } else {
        b.len() as int
    };
    if m == 0 {
        (1, 1)
    } else {
        (m - lev(a, b), m)
    }
}

/// Whether a similarity reaches the 0.6 that a suggestion needs.
pub open spec fn close_enough(s: (int, int)) -> bool {
    5 * s.0 >= 3 * s.1
}

/// Whether similarity `s` is at least `t`.
pub open spec fn at_least(s: (int, int), t: (int, int)) -> bool {
    s.0 * t.1 >= t.0 * s.1
}

/// The candidate to suggest for `target` among the first `n`: the last of those close
/// enough whose similarity is the highest.
pub open spec fn best_match(cands: Seq<Seq<char>>, target: Seq<char>, n: int) -> Option<int>
    decreases n,
{
    if n <= 0 {
        None
    } else {
        let prev = best_match(cands, target, n - 1);
        let s = similarity(cands[n - 1], target);
        if !close_enough(s) {
            prev
        } else {
            match prev {
                None => Some(n - 1),
                Some(p) => if at_least(s, similarity(cands[p], target)) {
                    Some(n - 1)
                } else {
                    prev
                },
            }
        }
    }
}

proof fn lemma_best_match_bounds(cands: Seq<Seq<char>>, target: Seq<char>, n: int)
    ensures
        best_match(cands, target, n) matches Some(k) ==> 0 <= k < n,
    decreases n,
{
    if n > 0 {
        lemma_best_match_bounds(cands, target, n - 1);
    }
}

struct Score {
    num: u64,
    den: u64,
}

fn score_of(a: &str, b: &str) -> (r: Score)
    ensures
        (r.num as int, r.den as int) == similarity(a@, b@),
        r.den >= 1,
        r.num <= r.den,
{
    let la = a.unicode_len();
    let lb = b.unicode_len();
    let m = if la >= lb {
        la
    } else {
        lb
    };
    if m == 0 {
        return Score { num: 1, den: 1 };
    }
    let d = levenshtein(a, b);
    proof {
        lemma_lev_bound(a@, b@);
    }
    Score { num: (m - d) as u64, den: m as u64 }
}

proof fn lemma_lev_bound(a: Seq<char>, b: Seq<char>)
    ensures
        lev(a, b) <= (if a.len() >= b.len() {
            a.len()
        } else {
            b.len()
        }),
    decreases a.len() + b.len(),
{
    if a.len() > 0 && b.len() > 0 {
        lemma_lev_bound(a.drop_last(), b.drop_last());
    }
}

fn close_enough_exec(s: &Score) -> (r: bool)
    requires
        s.num <= s.den,
    ensures
        r == close_enough((s.num as int, s.den as int)),
{
    5 * (s.num as u128) >= 3 * (s.den as u128)
}

fn at_least_exec(s: &Score, t: &Score) -> (r: bool)
    ensures
        r == at_least((s.num as int, s.den as int), (t.num as int, t.den as int)),
{
    proof {
        assert(s.num * t.den <= 0xffff_ffff_ffff_ffffu64 * 0xffff_ffff_ffff_ffffu64) by (nonlinear_arith)
            requires
                s.num <= 0xffff_ffff_ffff_ffffu64,
                t.den <= 0xffff_ffff_ffff_ffffu64,
        ;
        assert(t.num * s.den <= 0xffff_ffff_ffff_ffffu64 * 0xffff_ffff_ffff_ffffu64) by (nonlinear_arith)
            requires
                t.num <= 0xffff_ffff_ffff_ffffu64,
                s.den <= 0xffff_ffff_ffff_ffffu64,
        ;
    }
    (s.num as u128) * (t.den as u128) >= (t.num as u128) * (s.den as u128)
}

/// The candidate to suggest for `target`; see `best_match`.
pub fn best_suggestion(cands: &Vec<String>, target: &str) -> (r: Option<usize>)
    ensures
        match r {
            Some(i) => best_match(strings_view(cands@), target@, cands@.len() as int) == Some(
                i as int,
            ),
            None => best_match(strings_view(cands@), target@, cands@.len() as int) is None,
        },
{
    let ghost cv = strings_view(cands@);
    let mut best: Option<usize> = None;
    let mut best_score = Score { num: 0, den: 1 };
    let mut i: usize = 0;
    while i < cands.len()
        invariant
            cv == strings_view(cands@),
            i <= cands@.len(),
            match best {
                Some(p) => best_match(cv, target@, i as int) == Some(p as int) && p < i && (
                best_score.num as int,
                best_score.den as int,
                ) == similarity(cv[p as int], target@),
                None => best_match(cv, target@, i as int) is None,
            },
        decreases cands.len() - i,
    {
        let s = score_of(cands[i].as_str(), target);
        proof {
            assert(cv[i as int] == cands@[i as int]@);
        }
        if close_enough_exec(&s) {
            match best {
                None => {
                    best = Some(i);
                    best_score = s;
                },
                Some(_) => {
                    if at_least_exec(&s, &best_score) {
                        best = Some(i);
                        best_score = s;
                    }
                },
            }
        }
        i = i + 1;
    }
    best
}

// ---------------------------------------------------------------------------
// Checking one value against its schema.

/// A field's name as messages quote it.
pub open spec fn quoted_field(field: Seq<char>) -> Seq<char> {
    "'"@ + field + "'"@
}

/// Whether an entry of a schema's type list accepts the value.
pub open spec fn accepts(t: JsonV, value: JsonV) -> bool {
    match t {
        JsonV::Str(n) => matches_type_spec(value, n),
        _ => false,
    }
}

/// The complaint about a value of the wrong type, if any.
pub open spec fn type_problem(field: Seq<char>, value: JsonV, schema: JsonV) -> Option<Seq<char>> {
    match json_get(schema, "type"@) {
        Some(JsonV::Array(types)) => if exists|i: int|
            0 <= i < types.len() && accepts(#[trigger] types[i], value) {
            None
        } else {
            Some(
                quoted_field(field) + " must be one of types "@ + json_text(JsonV::Array(types))
                    + ", got "@ + value_type_text(value),
            )
        },
        Some(JsonV::Str(t)) => if matches_type_spec(value, t) {
            None
        } else {
            Some(quoted_field(field) + " must be a "@ + t + ", got "@ + value_type_text(value))
        },
        _ => None,
    }
}

/// How values read in messages.
pub open spec fn reprs(items: Seq<JsonV>) -> Seq<Seq<char>> {
    Seq::new(items.len(), |i: int| repr_text(items[i]))
}

/// The JSON texts of values.
pub open spec fn texts(items: Seq<JsonV>) -> Seq<Seq<char>> {
    Seq::new(items.len(), |i: int| json_text(items[i]))
}

/// The complaint about a value outside the schema's `enum`, with the closest allowed
/// value suggested when one is close enough.
pub open spec fn enum_problem(field: Seq<char>, value: JsonV, schema: JsonV) -> Option<Seq<char>> {
    match json_get(schema, "enum"@) {
        Some(JsonV::Array(allowed)) => if exists|k: int| 0 <= k < allowed.len() && same_json(#[trigger] allowed[k], value) {
            None
        } else {
            let hint = match best_match(texts(allowed), json_text(value), allowed.len() as int) {
                Some(k) => " Did you mean "@ + repr_text(allowed[k]) + "?"@,
                None => Seq::empty(),
            };
            Some(
                quoted_field(field) + " must be one of ["@ + join_text(reprs(allowed), ", "@)
                    + "], got "@ + repr_text(value) + "."@ + hint,
            )
        },
        _ => None,
    }
}

/// The complaints about a number below the schema's `minimum` or above its `maximum`.
pub open spec fn bound_problems(field: Seq<char>, value: JsonV, schema: JsonV) -> Seq<Seq<char>> {
    match num_of(value) {
        Some(nv) => {
            let lo = match json_get(schema, "minimum"@) {
                Some(m) => match num_of(m) {
                    Some(nm) => if num_lt(nv, nm) {
                        seq![
                            quoted_field(field) + " must be >= "@ + json_text(m) + ", got "@
                                + repr_text(value),
                        ]
                    } else {
                        Seq::empty()
                    },
                    None => Seq::empty(),
                },
                None => Seq::empty(),
            };
            let hi = match json_get(schema, "maximum"@) {
                Some(m) => match num_of(m) {
                    Some(nm) => if num_lt(nm, nv) {
                        seq![
                            quoted_field(field) + " must be <= "@ + json_text(m) + ", got "@
                                + repr_text(value),
                        ]
                    } else {
                        Seq::empty()
                    },
                    None => Seq::empty(),
                },
                None => Seq::empty(),
            };
            lo + hi
        },
        None => Seq::empty(),
    }
}

/// The complaint about a list shorter than the schema's `minItems`.
pub open spec fn min_items_problem(field: Seq<char>, items: Seq<JsonV>, schema: JsonV) -> Seq<
    Seq<char>,
> {
    match json_get(schema, "minItems"@) {
        Some(JsonV::Int(k)) => if 0 <= k <= u64::MAX && items.len() < k {
            seq![
                quoted_field(field) + " needs at least "@ + nat_text(k as nat) + " item(s), got "@
                    + nat_text(items.len()),
            ]
        } else {
            Seq::empty()
        },
        _ => Seq::empty(),
    }
}

/// The schema every item of a list must meet: the `items` object, unless it offers
/// alternatives (`anyOf`).
pub open spec fn item_schema(schema: JsonV) -> Option<JsonV> {
    match json_get(schema, "items"@) {
        Some(s) => if s is Object && json_get(s, "anyOf"@) is None {
            Some(s)
        } else {
            None
        },
        None => None,
    }
}

/// The name of a list item in messages: `field[k]`.
pub open spec fn item_field(field: Seq<char>, k: nat) -> Seq<char> {
    field + "["@ + nat_text(k) + "]"@
}

/// Every complaint about a value: a wrong type or a value outside the enum stops the
/// check there; otherwise the bounds, a list's length, and each item in turn.
pub open spec fn value_problems(field: Seq<char>, value: JsonV, schema: JsonV) -> Seq<Seq<char>>
    decreases value, 0nat,
{
    match type_problem(field, value, schema) {
        Some(m) => seq![m],
        None => match enum_problem(field, value, schema) {
            Some(m) => seq![m],
            None => bound_problems(field, value, schema) + match value {
                JsonV::Array(items) => min_items_problem(field, items, schema) + match item_schema(
                    schema,
                ) {
                    Some(s) => items_problems(field, items, s, items.len()),
                    None => Seq::empty(),
                },
                _ => Seq::empty(),
            },
        },
    }
}

/// The complaints about the first `n` items of a list.
pub open spec fn items_problems(field: Seq<char>, items: Seq<JsonV>, s: JsonV, n: nat) -> Seq<
    Seq<char>,
>
    decreases items, n,
{
    if n == 0 || n > items.len() {
        Seq::empty()
    } else {
        items_problems(field, items, s, (n - 1) as nat) + value_problems(
            item_field(field, (n - 1) as nat),
            items[n - 1],
            s,
        )
    }
}

fn quote_field(field: &str) -> (r: String)
    ensures
        r@ == quoted_field(field@),
{
    let mut m = String::from_str("'");
    push_str(&mut m, field);
    push_str(&mut m, "'");
    m
}

fn push_problem(errors: &mut Vec<String>, m: String)
    ensures
        strings_view(final(errors)@) == strings_view(old(errors)@).push(m@),
{
    errors.push(m);
    proof {
        assert(strings_view(errors@) =~= strings_view(old(errors)@).push(m@));
    }
}

fn type_check(field: &str, value: &Json, schema: &Json) -> (r: Option<String>)
    ensures
        match r {
            Some(m) => type_problem(field@, value@, schema@) == Some(m@),
            None => type_problem(field@, value@, schema@) is None,
        },
{
    match schema.get("type") {
        Some(t) => match t.as_array() {
            Some(types) => {
                let mut ok = false;
                let mut i: usize = 0;
                while i < types.len()
                    invariant
                        i <= types@.len(),
                        ok == exists|k: int| 0 <= k < i && accepts(#[trigger] types@[k]@, value@),
                    decreases types.len() - i,
                {
                    if let Some(n) = types[i].as_str() {
                        if matches_type(value, n.as_str()) {
                            ok = true;
                        }
                    }
                    proof {
                        if !ok {
                            assert forall|k: int| 0 <= k < i + 1 implies !accepts(
                                #[trigger] types@[k]@,
                                value@,
                            ) by {}
                        } else {
                            assert(exists|k: int| 0 <= k < i + 1 && accepts(#[trigger] types@[k]@, value@));
                        }
                    }
                    i = i + 1;
                }
                proof {
                    if let Some(JsonV::Array(tv)) = json_get(schema@, "type"@) {
                        assert(tv == json_items(types@));
                        if ok {
                            let k = choose|k: int| 0 <= k < types@.len() && accepts(#[trigger] types@[k]@, value@);
                            assert(tv[k] == types@[k]@);
                        } else {
                            assert forall|k: int| 0 <= k < tv.len() implies !accepts(#[trigger] tv[k], value@) by {
                                assert(tv[k] == types@[k]@);
                            }
                        }
                    }
                }
                if !ok {
                    let mut m = quote_field(field);
                    push_str(&mut m, " must be one of types ");
                    write_json(&mut m, t);
                    push_str(&mut m, ", got ");
                    push_str(&mut m, value_type_name(value));
                    return Some(m);
                }
            },
            None => match t.as_str() {
                Some(n) => {
                    if !matches_type(value, n.as_str()) {
                        let mut m = quote_field(field);
                        push_str(&mut m, " must be a ");
                        m.append(n.as_str());
                        push_str(&mut m, ", got ");
                        push_str(&mut m, value_type_name(value));
                        return Some(m);
                    }
                },
                None => {},
            },
        },
        None => {},
    }
    None
}

fn enum_check(field: &str, value: &Json, schema: &Json) -> (r: Option<String>)
    ensures
        match r {
            Some(m) => enum_problem(field@, value@, schema@) == Some(m@),
            None => enum_problem(field@, value@, schema@) is None,
        },
{
    match schema.get("enum") {
        Some(e) => match e.as_array() {
            Some(allowed) => {
                let mut found = false;
                let mut i: usize = 0;
                while i < allowed.len()
                    invariant
                        i <= allowed@.len(),
                        found == exists|k: int| 0 <= k < i && same_json((#[trigger] allowed@[k])@, value@),
                    decreases allowed.len() - i,
                {
                    if json_eq(&allowed[i], value) {
                        found = true;
                    }
                    i = i + 1;
                }
                proof {
                    let av = json_items(allowed@);
                    if found {
                        let k = choose|k: int| 0 <= k < allowed@.len() && same_json((#[trigger] allowed@[k])@, value@);
                        assert(av[k] == allowed@[k]@);
                        assert(same_json(av[k], value@));
                    } else {
                        assert forall|k: int| 0 <= k < av.len() implies !same_json(#[trigger] av[k], value@) by {
                            assert(av[k] == allowed@[k]@);
                        }
                    }
                }
                if !found {
                    let ghost av = json_items(allowed@);
                    let mut reprs_v: Vec<String> = Vec::new();
                    let mut texts_v: Vec<String> = Vec::new();
                    let mut k: usize = 0;
                    while k < allowed.len()
                        invariant
                            av == json_items(allowed@),
                            k <= allowed@.len(),
                            reprs_v@.len() == k,
                            texts_v@.len() == k,
                            forall|j: int| 0 <= j < k ==> (#[trigger] reprs_v@[j])@ == repr_text(av[j]),
                            forall|j: int| 0 <= j < k ==> (#[trigger] texts_v@[j])@ == json_text(av[j]),
                        decreases allowed.len() - k,
                    {
                        let mut r = String::new();
                        write_repr(&mut r, &allowed[k]);
                        reprs_v.push(r);
                        texts_v.push(to_text(&allowed[k]));
                        k = k + 1;
                    }
                    proof {
                        assert(strings_view(reprs_v@) =~= reprs(av));
                        assert(strings_view(texts_v@) =~= texts(av));
                    }
                    let vt = to_text(value);
                    let best = best_suggestion(&texts_v, vt.as_str());
                    proof {
                        lemma_best_match_bounds(texts(av), json_text(value@), av.len() as int);
                        assert(best_match(texts(av), json_text(value@), av.len() as int) == match best {
                            Some(b) => Some(b as int),
                            None => None::<int>,
                        });
                        if let Some(b) = best {
                            assert(av[b as int] == allowed@[b as int]@);
                        }
                    }
                    let mut m = quote_field(field);
                    push_str(&mut m, " must be one of [");
                    let joined = join_strings(&reprs_v, ", ");
                    m.append(joined.as_str());
                    push_str(&mut m, "], got ");
                    write_repr(&mut m, value);
                    push_str(&mut m, ".");
                    match best {
                        Some(b) => {
                            push_str(&mut m, " Did you mean ");
                            write_repr(&mut m, &allowed[b]);
                            push_str(&mut m, "?");
                        },
                        None => {},
                    }
                    proof {
                        if let Some(JsonV::Array(al)) = json_get(schema@, "enum"@) {
                            assert(al == av);
                        }
                        if best is None {
                            assert(m@ =~= m@ + Seq::<char>::empty());
                        }
                        assert(!(exists|k: int| 0 <= k < av.len() && same_json(#[trigger] av[k], value@)));
                        assert(json_get(schema@, "enum"@) == Some(JsonV::Array(av)));
                        assert(enum_problem(field@, value@, schema@) == Some(m@));
                    }
                    return Some(m);
                }
            },
            None => {},
        },
        None => {},
    }
    None
}

fn bound_check(field: &str, value: &Json, schema: &Json, errors: &mut Vec<String>)
    ensures
        strings_view(final(errors)@) == strings_view(old(errors)@) + bound_problems(
            field@,
            value@,
            schema@,
        ),
{
    let ghost start = strings_view(errors@);
    let is_number = match value {
        Json::Int(_) => true,
        Json::UInt(_) => true,
        Json::Float(_, _) => true,
        _ => false,
    };
    if is_number {
        match schema.get("minimum") {
            Some(lo) => {
                if number_lt(value, lo) == Some(true) {
                    let mut m = quote_field(field);
                    push_str(&mut m, " must be >= ");
                    write_json(&mut m, lo);
                    push_str(&mut m, ", got ");
                    write_repr(&mut m, value);
                    push_problem(errors, m);
                }
            },
            None => {},
        }
        match schema.get("maximum") {
            Some(hi) => {
                if number_lt(hi, value) == Some(true) {
                    let mut m = quote_field(field);
                    push_str(&mut m, " must be <= ");
                    write_json(&mut m, hi);
                    push_str(&mut m, ", got ");
                    write_repr(&mut m, value);
                    push_problem(errors, m);
                }
            },
            None => {},
        }
    }
    proof {
        assert(strings_view(errors@) =~= start + bound_problems(field@, value@, schema@));
    }
}

/// Checks a value against its schema, adding each complaint to `errors`; see
/// `value_problems`.
#[verifier::loop_isolation(false)]
pub fn check_value(field: &str, value: &Json, schema: &Json, errors: &mut Vec<String>)
    ensures
        strings_view(final(errors)@) == strings_view(old(errors)@) + value_problems(
            field@,
            value@,
            schema@,
        ),
    decreases value,
{
    let ghost start = strings_view(errors@);
    match type_check(field, value, schema) {
        Some(m) => {
            push_problem(errors, m);
            return;
        },
        None => {},
    }
    match enum_check(field, value, schema) {
        Some(m) => {
            push_problem(errors, m);
            return;
        },
        None => {},
    }
    bound_check(field, value, schema, errors);
    let ghost after_bounds = strings_view(errors@);
    match value {
        Json::Array(items) => {
            let ghost iv = json_items(items@);
            proof {
                assert(value@ matches JsonV::Array(x) && x =~= iv);
            }
            match schema.get("minItems") {
                Some(mi) => {
                    let limit: Option<u64> = match mi {
                        Json::Int(k) => if *k >= 0 {
                            Some(*k as u64)
                        } else {
                            None
                        },
                        Json::UInt(k) => Some(*k),
                        _ => None,
                    };
                    match limit {
                        Some(k) => {
                            if (items.len() as u64) < k {
                                let mut m = quote_field(field);
                                push_str(&mut m, " needs at least ");
                                write_u64(&mut m, k);
                                push_str(&mut m, " item(s), got ");
                                write_u64(&mut m, items.len() as u64);
                                push_problem(errors, m);
                            }
                        },
                        None => {},
                    }
                },
                None => {},
            }
            assert(strings_view(errors@) =~= after_bounds + min_items_problem(field@, iv, schema@));
            let ghost after_min = strings_view(errors@);
            let sub = match schema.get("items") {
                Some(s) => if s.is_object() && s.get("anyOf").is_none() {
                    Some(s)
                } else {
                    None
                },
                None => None,
            };
            match sub {
                Some(s) => {
                    let mut k: usize = 0;
                    while k < items.len()
                        invariant
                            iv == json_items(items@),
                            value@ == JsonV::Array(iv),
                            k <= items@.len(),
                            strings_view(errors@) == after_min + items_problems(
                                field@,
                                iv,
                                s@,
                                k as nat,
                            ),
                        decreases items.len() - k,
                    {
                        let mut f = String::from_str(field);
                        push_str(&mut f, "[");
                        write_u64(&mut f, k as u64);
                        push_str(&mut f, "]");
                        assert(decreases_to!(*value => items@[k as int]));
                        let ghost before = strings_view(errors@);
                        check_value(f.as_str(), &items[k], s, errors);
                        proof {
                            assert(iv[k as int] == items@[k as int]@);
                            assert(items_problems(field@, iv, s@, (k + 1) as nat)
                                == items_problems(field@, iv, s@, k as nat) + value_problems(
                                item_field(field@, k as nat),
                                iv[k as int],
                                s@,
                            ));
                        }
                        k = k + 1;
                    }
                },
                None => {},
            }
        },
        _ => {},
    }
}

// ---------------------------------------------------------------------------
// The catalog.

/// A task type the core accepts: its summary, notes, parameter schema and example.
pub struct TaskSpec {
    pub task_type: String,
    pub summary: String,
    pub notes: String,
    pub schema: Json,
    pub example: Json,
}

/// One line of the catalog listing.
pub struct TaskSummary {
    pub task_type: String,
    pub summary: String,
    pub required: String,
}

/// `indexmap::IndexMap`: a hash map that keeps its entries in insertion order.
#[verifier::external_type_specification]
#[verifier::external_body]
#[verifier::reject_recursive_types(K)]
#[verifier::reject_recursive_types(V)]
#[verifier::reject_recursive_types(S)]
pub struct ExIndexMap<K, V, S>(IndexMap<K, V, S>);

/// What a task map holds: its entries in order, each key by its text with its spec.
pub uninterp spec fn task_entries(m: IndexMap<String, TaskSpec>) -> Seq<(Seq<char>, TaskSpec)>;

/// No key occurs twice among the entries.
pub open spec fn keys_distinct(e: Seq<(Seq<char>, TaskSpec)>) -> bool {
    forall|i: int, j: int| 0 <= i < j < e.len() ==> (#[trigger] e[i]).0 != (#[trigger] e[j]).0
}

/// Where `key` stands among the entries, if it does.
pub open spec fn key_position(e: Seq<(Seq<char>, TaskSpec)>, key: Seq<char>) -> Option<int> {
    if exists|i: int| 0 <= i < e.len() && e[i].0 == key {
        Some(choose|i: int| 0 <= i < e.len() && e[i].0 == key)
    } else {
        None
    }
}

/// `IndexMap::new`: a map with no entries.
#[verifier::external_body]
fn entries_new() -> (r: IndexMap<String, TaskSpec>)
    ensures
        task_entries(r) == Seq::<(Seq<char>, TaskSpec)>::empty(),
{
    IndexMap::new()
}

/// `IndexMap::insert`: a key already present keeps its place and takes the new value
/// (the old one is returned); a new key goes last. Keys stay distinct.
#[verifier::external_body]
fn entries_insert(m: &mut IndexMap<String, TaskSpec>, key: String, value: TaskSpec) -> (r: Option<
    TaskSpec,
>)
    ensures
        keys_distinct(task_entries(*final(m))),
        match key_position(task_entries(*old(m)), key@) {
            Some(i) => task_entries(*final(m)) == task_entries(*old(m)).update(
                i,
                (task_entries(*old(m))[i].0, value),
            ) && r == Some(task_entries(*old(m))[i].1),
            None => task_entries(*final(m)) == task_entries(*old(m)).push((key@, value)) && r is None,
        },
{
    m.insert(key, value)
}

/// `IndexMap::len`: how many entries there are.
#[verifier::external_body]
fn entries_len(m: &IndexMap<String, TaskSpec>) -> (r: usize)
    ensures
        r == task_entries(*m).len(),
{
    m.len()
}

/// `IndexMap` indexed by position (`Index<usize>`): the value of the entry there.
#[verifier::external_body]
fn entries_value_at(m: &IndexMap<String, TaskSpec>, i: usize) -> (r: &TaskSpec)
    requires
        i < task_entries(*m).len(),
    ensures
        *r == task_entries(*m)[i as int].1,
{
    &m[i]
}

/// `IndexMap::get` by a string key: the value of the entry with that key, if any.
#[verifier::external_body]
fn entries_get<'a>(m: &'a IndexMap<String, TaskSpec>, key: &str) -> (r: Option<&'a TaskSpec>)
    ensures
        match key_position(task_entries(*m), key@) {
            Some(i) => r matches Some(v) && *v == task_entries(*m)[i].1,
            None => r is None,
        },
{
    m.get(key)
}

/// The task types, in the order they were first given; each name occurs once.
pub struct Catalog {
    specs: IndexMap<String, TaskSpec>,
}

/// The first position whose task type is `name`, if any.
pub open spec fn position(specs: Seq<TaskSpec>, name: Seq<char>) -> Option<int> {
    if exists|i: int| 0 <= i < specs.len() && specs[i].task_type@ == name {
        Some(choose|i: int| 0 <= i < specs.len() && specs[i].task_type@ == name)
    } else {
        None
    }
}

/// The catalog made from a list of specs: a later spec with a name seen before takes
/// that name's place; a new name goes at the end.
pub open spec fn indexed(specs: Seq<TaskSpec>) -> Seq<TaskSpec>
    decreases specs.len(),
{
    if specs.len() == 0 {
        Seq::empty()
    } else {
        let prev = indexed(specs.drop_last());
        let x = specs.last();
        match position(prev, x.task_type@) {
            Some(i) => prev.update(i, x),
            None => prev.push(x),
        }
    }
}

/// No task type occurs twice.
pub open spec fn names_distinct(specs: Seq<TaskSpec>) -> bool {
    forall|i: int, j: int|
        0 <= i < j < specs.len() ==> (#[trigger] specs[i]).task_type@ != (#[trigger] specs[j]).task_type@
}

impl Catalog {
    /// The task types in catalog order.
    pub closed spec fn specs(&self) -> Seq<TaskSpec> {
        Seq::new(task_entries(self.specs).len(), |i: int| task_entries(self.specs)[i].1)
    }

    pub closed spec fn wf(&self) -> bool {
        let e = task_entries(self.specs);
        &&& keys_distinct(e)
        &&& forall|i: int| 0 <= i < e.len() ==> (#[trigger] e[i]).0 == e[i].1.task_type@
    }

    /// How many task types there are.
    fn count(&self) -> (r: usize)
        ensures
            r == self.specs().len(),
    {
        entries_len(&self.specs)
    }

    /// The task type at a position.
    fn spec_at(&self, i: usize) -> (r: &TaskSpec)
        requires
            i < self.specs().len(),
        ensures
            *r == self.specs()[i as int],
    {
        entries_value_at(&self.specs, i)
    }

    /// A catalog lists no task type twice.
    pub proof fn task_types_are_distinct(&self)
        requires
            self.wf(),
        ensures
            names_distinct(self.specs()),
    {
        let e = task_entries(self.specs);
        assert forall|i: int, j: int| 0 <= i < j < self.specs().len() implies (
        #[trigger] self.specs()[i]).task_type@ != (#[trigger] self.specs()[j]).task_type@ by {
            assert(e[i].0 != e[j].0);
        }
    }

    /// The catalog of these specs; see `indexed`.
    pub fn new(specs: Vec<TaskSpec>) -> (r: Catalog)
        ensures
            r.wf(),
            r.specs() == indexed(specs@),
    {
        let ghost input = specs@;
        let mut out = entries_new();
        let mut rest = specs;
        let mut reversed: Vec<TaskSpec> = Vec::new();
        while rest.len() > 0
            invariant
                reversed@ + rest@.reverse() == input.reverse(),
            decreases rest.len(),
        {
            let x = rest.pop().unwrap();
            proof {
                assert(rest@.push(x).reverse() =~= seq![x] + rest@.reverse());
            }
            reversed.push(x);
            proof {
                assert(reversed@ + rest@.reverse() =~= input.reverse());
            }
        }
        proof {
            assert(reversed@ =~= input.reverse());
            assert(Seq::new(0, |i: int| task_entries(out)[i].1) =~= indexed(input.take(0)));
        }
        let n = reversed.len();
        let mut k: usize = 0;
        while k < n
            invariant
                n == input.len(),
                reversed@.len() == n - k,
                forall|j: int| 0 <= j < reversed@.len() ==> reversed@[j] == input[n - 1 - j],
                keys_distinct(task_entries(out)),
                forall|i: int|
                    0 <= i < task_entries(out).len() ==> (#[trigger] task_entries(out)[i]).0
                        == task_entries(out)[i].1.task_type@,
                Seq::new(task_entries(out).len(), |i: int| task_entries(out)[i].1) == indexed(
                    input.take(k as int),
                ),
            decreases n - k,
        {
            let x = reversed.pop().unwrap();
            proof {
                assert(x == input[k as int]);
                assert(input.take(k + 1).drop_last() =~= input.take(k as int));
                assert(input.take(k + 1).last() == x);
            }
            let ghost e0 = task_entries(out);
            let ghost prev = Seq::new(e0.len(), |i: int| e0[i].1);
            let key = x.task_type.clone();
            let ghost xv = x;
            let _ = entries_insert(&mut out, key, x);
            proof {
                let e1 = task_entries(out);
                let name = xv.task_type@;
                assert(forall|i: int| 0 <= i < prev.len() ==> (prev[i].task_type@ == name <==> #[trigger] e0[i].0 == name));
                match key_position(e0, name) {
                    Some(p) => {
                        let q = choose|q: int| 0 <= q < prev.len() && prev[q].task_type@ == name;
                        assert(e0[q].0 == name);
                        if q != p {
                            if q < p {
                                assert(e0[q].0 != e0[p].0);
                            } else {
                                assert(e0[p].0 != e0[q].0);
                            }
                        }
                        assert(position(prev, name) == Some(p));
                        assert(Seq::new(e1.len(), |i: int| e1[i].1) =~= prev.update(p, xv));
                    },
                    None => {
                        assert(position(prev, name) is None) by {
                            if exists|q: int| 0 <= q < prev.len() && prev[q].task_type@ == name {
                                let q = choose|q: int| 0 <= q < prev.len() && prev[q].task_type@ == name;
                                assert(e0[q].0 == name);
                            }
                        }
                        assert(Seq::new(e1.len(), |i: int| e1[i].1) =~= prev.push(xv));
                    },
                }
            }
            k = k + 1;
        }
        proof {
            assert(input.take(n as int) =~= input);
        }
        Catalog { specs: out }
    }
}

/// The string items of a list, in order.
pub open spec fn str_items(items: Seq<JsonV>) -> Seq<Seq<char>>
    decreases items.len(),
{
    if items.len() == 0 {
        Seq::empty()
    } else {
        let rest = str_items(items.drop_last());
        match items.last() {
            JsonV::Str(s) => rest.push(s),
            _ => rest,
        }
    }
}

/// A schema's required parameters as listed: their names joined by ", ", or "none".
pub open spec fn required_text(schema: JsonV) -> Seq<char> {
    match json_get(schema, "required"@) {
        Some(JsonV::Array(items)) => {
            let j = join_text(str_items(items), ", "@);
            if j.len() > 0 {
                j
            } else {
                "none"@
            }
        },
        _ => "none"@,
    }
}

fn string_items(items: &Vec<Json>) -> (r: Vec<String>)
    ensures
        strings_view(r@) == str_items(json_items(items@)),
{
    let mut out: Vec<String> = Vec::new();
    let mut i: usize = 0;
    while i < items.len()
        invariant
            i <= items@.len(),
            strings_view(out@) == str_items(json_items(items@).take(i as int)),
        decreases items.len() - i,
    {
        proof {
            let t = json_items(items@).take(i + 1);
            assert(t.drop_last() =~= json_items(items@).take(i as int));
            assert(t.last() == items@[i as int]@);
        }
        match items[i].as_str() {
            Some(s) => {
                out.push(s.clone());
                proof {
                    assert(strings_view(out@) =~= strings_view(out@.drop_last()).push(s@));
                }
            },
            None => {},
        }
        i = i + 1;
    }
    proof {
        assert(json_items(items@).take(items@.len() as int) =~= json_items(items@));
    }
    out
}

/// The listing line of a task type.
pub fn summarize_task(spec: &TaskSpec) -> (r: TaskSummary)
    ensures
        r.task_type@ == spec.task_type@,
        r.summary@ == spec.summary@,
        r.required@ == required_text(spec.schema@),
{
    let required = match spec.schema.get("required") {
        Some(v) => match v.as_array() {
            Some(items) => {
                let names = string_items(items);
                let j = join_strings(&names, ", ");
                if j.as_str().unicode_len() > 0 {
                    j
                } else {
                    String::from_str("none")
                }
            },
            None => String::from_str("none"),
        },
        None => String::from_str("none"),
    };
    TaskSummary { task_type: spec.task_type.clone(), summary: spec.summary.clone(), required }
}

/// The listing of every task type, in catalog order.
pub fn list(cat: &Catalog) -> (r: Vec<TaskSummary>)
    ensures
        r@.len() == cat.specs().len(),
        forall|i: int|
            0 <= i < r@.len() ==> (#[trigger] r@[i]).task_type@ == cat.specs()[i].task_type@
                && r@[i].summary@ == cat.specs()[i].summary@ && r@[i].required@ == required_text(
                cat.specs()[i].schema@,
            ),
{
    let mut out: Vec<TaskSummary> = Vec::new();
    let mut i: usize = 0;
    while i < cat.count()
        invariant
            i <= cat.specs().len(),
            out@.len() == i,
            forall|k: int|
                0 <= k < i ==> (#[trigger] out@[k]).task_type@ == cat.specs()[k].task_type@
                    && out@[k].summary@ == cat.specs()[k].summary@ && out@[k].required@
                    == required_text(cat.specs()[k].schema@),
        decreases cat.specs().len() - i,
    {
        out.push(summarize_task(cat.spec_at(i)));
        i = i + 1;
    }
    out
}

/// The task type names, in catalog order.
pub open spec fn spec_names(specs: Seq<TaskSpec>) -> Seq<Seq<char>> {
    Seq::new(specs.len(), |i: int| specs[i].task_type@)
}

/// The task type names, in catalog order.
pub fn names(cat: &Catalog) -> (r: Vec<String>)
    ensures
        strings_view(r@) == spec_names(cat.specs()),
{
    let mut out: Vec<String> = Vec::new();
    let mut i: usize = 0;
    while i < cat.count()
        invariant
            i <= cat.specs().len(),
            out@.len() == i,
            forall|k: int| 0 <= k < i ==> (#[trigger] out@[k])@ == cat.specs()[k].task_type@,
        decreases cat.specs().len() - i,
    {
        out.push(cat.spec_at(i).task_type.clone());
        i = i + 1;
    }
    proof {
        assert(strings_view(out@) =~= spec_names(cat.specs()));
    }
    out
}

/// The spec of the task type with exactly this name.
pub fn get<'a>(cat: &'a Catalog, name: &str) -> (r: Option<&'a TaskSpec>)
    requires
        cat.wf(),
    ensures
        match r {
            Some(s) => exists|i: int|
                0 <= i < cat.specs().len() && cat.specs()[i] == *s && s.task_type@ == name@,
            None => forall|i: int| 0 <= i < cat.specs().len() ==> cat.specs()[i].task_type@ != name@,
        },
{
    let r = entries_get(&cat.specs, name);
    proof {
        let e = task_entries(cat.specs);
        match key_position(e, name@) {
            Some(i) => {
                assert(cat.specs()[i] == e[i].1);
            },
            None => {
                assert forall|i: int| 0 <= i < cat.specs().len() implies cat.specs()[i].task_type@
                    != name@ by {
                    assert(e[i].0 == e[i].1.task_type@);
                }
            },
        }
    }
    r
}

// ---------------------------------------------------------------------------
// Resolving names and validating parameters.

/// `str::to_lowercase` of a string.
pub uninterp spec fn lowercase_text(s: Seq<char>) -> Seq<char>;

/// `str::to_lowercase`: the full Unicode lowercase mapping of the string, named
/// `lowercase_text` and not stated further.
#[verifier::external_body]
fn to_lowercase(s: &str) -> (r: String)
    ensures
        r@ == lowercase_text(s@),
{
    s.to_lowercase()
}

/// The first task type whose lowercase name is `lowered`.
pub open spec fn first_ci_match(specs: Seq<TaskSpec>, lowered: Seq<char>) -> Option<int> {
    if exists|i: int| 0 <= i < specs.len() && lowercase_text(specs[i].task_type@) == lowered {
        Some(
            choose|i: int|
                0 <= i < specs.len() && lowercase_text(specs[i].task_type@) == lowered && forall|
                    j: int,
                | 0 <= j < i ==> lowercase_text(specs[j].task_type@) != lowered,
        )
    } else {
        None
    }
}

/// The message for a task type the catalog does not know.
pub open spec fn unknown_type_text(task_type: Seq<char>, suggestions: Seq<Seq<char>>, specs: Seq<TaskSpec>) -> Seq<char> {
    "Unknown task type "@ + debug_text(task_type) + "."@ + (if suggestions.len() == 0 {
        Seq::empty()
    } else {
        " Did you mean "@ + join_text(suggestions, " or "@) + "?"@
    }) + " Known types: "@ + join_text(spec_names(specs), ", "@) + "."@
}

proof fn lemma_first_ci_match(specs: Seq<TaskSpec>, lowered: Seq<char>, i: int)
    requires
        0 <= i < specs.len(),
        lowercase_text(specs[i].task_type@) == lowered,
        forall|j: int| 0 <= j < i ==> lowercase_text(specs[j].task_type@) != lowered,
    ensures
        first_ci_match(specs, lowered) == Some(i),
{
    let k = choose|k: int|
        0 <= k < specs.len() && lowercase_text(specs[k].task_type@) == lowered && forall|j: int|
            0 <= j < k ==> lowercase_text(specs[j].task_type@) != lowered;
    assert(exists|k: int|
        0 <= k < specs.len() && lowercase_text(specs[k].task_type@) == lowered && forall|j: int|
            0 <= j < k ==> lowercase_text(specs[j].task_type@) != lowered) by {
        assert(0 <= i < specs.len());
    }
    if k < i {
        assert(lowercase_text(specs[k].task_type@) != lowered);
    }
    if i < k {
        assert(lowercase_text(specs[i].task_type@) != lowered);
    }
}

/// The index of the catalog entry a request means; see `resolve`.
/// The catalog name a request means: the first name equal to it, ignoring case and
/// surrounding white space. Otherwise the error names the near misses `suggest` offers
/// (it scores names by similarity) and every known type.
fn resolve_index<F: Fn(&str) -> Vec<String>>(cat: &Catalog, task_type: &str, suggest: &F) -> (r: Result<usize, Error>)
    requires
        forall|t: &str| suggest.requires((t,)),
    ensures
        r is Ok <==> first_ci_match(cat.specs(), lowercase_text(trimmed(task_type@))) is Some,
        r matches Ok(j) ==> first_ci_match(cat.specs(), lowercase_text(trimmed(task_type@)))
            == Some(j as int) && j < cat.specs().len(),
        r is Err ==> exists|sug: Vec<String>|
            suggest.ensures((task_type,), sug) && (r matches Err(Error::UnknownTaskType(m)) && m@
                == unknown_type_text(task_type@, strings_view(sug@), cat.specs())),
{
    let t = trim(task_type);
    let lowered = to_lowercase(t.as_str());
    let mut i: usize = 0;
    while i < cat.count()
        invariant
            i <= cat.specs().len(),
            lowered@ == lowercase_text(trimmed(task_type@)),
            forall|j: int| 0 <= j < i ==> lowercase_text(cat.specs()[j].task_type@) != lowered@,
        decreases cat.specs().len() - i,
    {
        let l = to_lowercase(cat.spec_at(i).task_type.as_str());
        if str_eq(l.as_str(), lowered.as_str()) {
            proof {
                lemma_first_ci_match(cat.specs(), lowered@, i as int);
            }
            return Ok(i);
        }
        i = i + 1;
    }
    let sug = suggest(task_type);
    let mut m = String::from_str("Unknown task type ");
    let q = debug_str(task_type);
    m.append(q.as_str());
    push_str(&mut m, ".");
    if sug.len() > 0 {
        push_str(&mut m, " Did you mean ");
        let j = join_strings(&sug, " or ");
        m.append(j.as_str());
        push_str(&mut m, "?");
    }
    push_str(&mut m, " Known types: ");
    let all = names(cat);
    let k = join_strings(&all, ", ");
    m.append(k.as_str());
    push_str(&mut m, ".");
    proof {
        if sug@.len() == 0 {
            assert(strings_view(sug@).len() == 0);
        }
        assert(m@ =~= unknown_type_text(task_type@, strings_view(sug@), cat.specs()));
    }
    Err(Error::UnknownTaskType(m))
}

/// The catalog name a request means: the first name equal to it, ignoring case and
/// surrounding white space. Otherwise the error names the near misses `suggest` offers
/// (it scores names by similarity) and every known type.
pub fn resolve<F: Fn(&str) -> Vec<String>>(cat: &Catalog, task_type: &str, suggest: &F) -> (r: Result<String, Error>)
    requires
        forall|t: &str| suggest.requires((t,)),
    ensures
        match first_ci_match(cat.specs(), lowercase_text(trimmed(task_type@))) {
            Some(i) => r matches Ok(n) && n@ == cat.specs()[i].task_type@,
            None => exists|sug: Vec<String>|
                suggest.ensures((task_type,), sug) && (r matches Err(Error::UnknownTaskType(m)) && m@
                    == unknown_type_text(task_type@, strings_view(sug@), cat.specs())),
        },
{
    match resolve_index(cat, task_type, suggest) {
        Ok(i) => Ok(cat.spec_at(i).task_type.clone()),
        Err(e) => Err(e),
    }
}

/// The spec of the task type a request means (see `resolve`), or the error `resolve`
/// gives.
pub fn resolve_spec<'a, F: Fn(&str) -> Vec<String>>(cat: &'a Catalog, task_type: &str, suggest: &F) -> (r: Result<&'a TaskSpec, Error>)
    requires
        forall|t: &str| suggest.requires((t,)),
    ensures
        match first_ci_match(cat.specs(), lowercase_text(trimmed(task_type@))) {
            Some(i) => r matches Ok(s) && *s == cat.specs()[i],
            None => exists|sug: Vec<String>|
                suggest.ensures((task_type,), sug) && (r matches Err(Error::UnknownTaskType(m)) && m@
                    == unknown_type_text(task_type@, strings_view(sug@), cat.specs())),
        },
{
    match resolve_index(cat, task_type, suggest) {
        Ok(i) => Ok(cat.spec_at(i)),
        Err(e) => Err(e),
    }
}

/// The object fields of a schema's `properties`, or none.
pub open spec fn props_of(schema: JsonV) -> Seq<(Seq<char>, JsonV)> {
    match json_get(schema, "properties"@) {
        Some(JsonV::Object(f)) => f,
        _ => Seq::empty(),
    }
}

/// The names of object fields.
pub open spec fn field_keys(f: Seq<(Seq<char>, JsonV)>) -> Seq<Seq<char>> {
    Seq::new(f.len(), |i: int| f[i].0)
}

/// The complaints about the first `n` required names that the params lack.
pub open spec fn missing_problems(canonical: Seq<char>, names: Seq<Seq<char>>, params: Seq<(Seq<char>, JsonV)>, n: int) -> Seq<Seq<char>>
    decreases n,
{
    if n <= 0 || n > names.len() {
        Seq::empty()
    } else {
        missing_problems(canonical, names, params, n - 1) + if fields_get(params, names[n - 1]) is None {
            seq![quoted_field(names[n - 1]) + " is required for "@ + canonical]
        } else {
            Seq::empty()
        }
    }
}

/// The complaints about required parameters that are missing.
pub open spec fn required_problems(canonical: Seq<char>, schema: JsonV, params: Seq<(Seq<char>, JsonV)>) -> Seq<Seq<char>> {
    match json_get(schema, "required"@) {
        Some(JsonV::Array(items)) => missing_problems(
            canonical,
            str_items(items),
            params,
            str_items(items).len() as int,
        ),
        _ => Seq::empty(),
    }
}

/// The message for a parameter the schema does not have.
pub open spec fn unknown_param_text(canonical: Seq<char>, field: Seq<char>, props: Seq<(Seq<char>, JsonV)>) -> Seq<char> {
    let keys = field_keys(props);
    quoted_field(field) + " is not a parameter of "@ + canonical + "."@ + match best_match(
        keys,
        field,
        keys.len() as int,
    ) {
        Some(k) => " Did you mean '"@ + keys[k] + "'?"@,
        None => Seq::empty(),
    } + " Valid parameters: "@ + join_text(keys, ", "@) + "."@
}

/// The complaints about the first `n` parameters given.
pub open spec fn param_problems(canonical: Seq<char>, props: Seq<(Seq<char>, JsonV)>, params: Seq<(Seq<char>, JsonV)>, n: int) -> Seq<Seq<char>>
    decreases n,
{
    if n <= 0 || n > params.len() {
        Seq::empty()
    } else {
        let (field, value) = params[n - 1];
        param_problems(canonical, props, params, n - 1) + match fields_get(props, field) {
            None => seq![unknown_param_text(canonical, field, props)],
            Some(fs) => value_problems(field, value, fs),
        }
    }
}

/// The message listing every problem with a task's parameters.
pub open spec fn validation_text(canonical: Seq<char>, problems: Seq<Seq<char>>) -> Seq<char> {
    nat_text(problems.len()) + " problem(s) with "@ + canonical + " parameters:\n- "@ + join_text(
        problems,
        "\n- "@,
    )
}

/// What validating parameters for the spec at index `i` answers.
pub open spec fn validated(spec: TaskSpec, params: JsonV) -> Result<Seq<char>, Seq<char>> {
    let canonical = spec.task_type@;
    match params {
        JsonV::Object(pf) => {
            let problems = required_problems(canonical, spec.schema@, pf) + param_problems(
                canonical,
                props_of(spec.schema@),
                pf,
                pf.len() as int,
            );
            if problems.len() == 0 {
                Ok(canonical)
            } else {
                Err(validation_text(canonical, problems))
            }
        },
        _ => Err(
            "Parameters for "@ + canonical + " must be a JSON object, got "@ + value_type_text(params)
                + "."@,
        ),
    }
}

proof fn lemma_no_missing(
    canonical: Seq<char>,
    names: Seq<Seq<char>>,
    params: Seq<(Seq<char>, JsonV)>,
    n: int,
)
    requires
        0 <= n <= names.len(),
        missing_problems(canonical, names, params, n).len() == 0,
    ensures
        forall|i: int| 0 <= i < n ==> fields_get(params, #[trigger] names[i]) is Some,
    decreases n,
{
    if n > 0 {
        lemma_no_missing(canonical, names, params, n - 1);
    }
}

proof fn lemma_no_unknown(
    canonical: Seq<char>,
    props: Seq<(Seq<char>, JsonV)>,
    params: Seq<(Seq<char>, JsonV)>,
    n: int,
)
    requires
        0 <= n <= params.len(),
        param_problems(canonical, props, params, n).len() == 0,
    ensures
        forall|i: int| 0 <= i < n ==> fields_get(props, (#[trigger] params[i]).0) is Some,
    decreases n,
{
    if n > 0 {
        lemma_no_unknown(canonical, props, params, n - 1);
    }
}

proof fn lemma_no_value_problems(
    canonical: Seq<char>,
    props: Seq<(Seq<char>, JsonV)>,
    params: Seq<(Seq<char>, JsonV)>,
    n: int,
)
    requires
        0 <= n <= params.len(),
        param_problems(canonical, props, params, n).len() == 0,
    ensures
        forall|i: int|
            0 <= i < n ==> match fields_get(props, (#[trigger] params[i]).0) {
                Some(fs) => value_problems(params[i].0, params[i].1, fs).len() == 0,
                None => false,
            },
    decreases n,
{
    if n > 0 {
        lemma_no_value_problems(canonical, props, params, n - 1);
    }
}

proof fn lemma_type_words()
    ensures
        "integer"@ != "object"@,
        "integer"@ != "array"@,
        "integer"@ != "string"@,
        "number"@ != "object"@,
        "number"@ != "array"@,
        "number"@ != "string"@,
        "number"@ != "integer"@,
        "boolean"@ != "object"@,
        "boolean"@ != "array"@,
        "boolean"@ != "string"@,
        "boolean"@ != "integer"@,
        "boolean"@ != "number"@,
        "null"@ != "object"@,
        "null"@ != "array"@,
        "null"@ != "string"@,
        "null"@ != "integer"@,
        "null"@ != "number"@,
        "null"@ != "boolean"@,
        "string"@ != "object"@,
        "string"@ != "array"@,
        "array"@ != "object"@,
{
    reveal_strlit("object");
    reveal_strlit("array");
    reveal_strlit("string");
    reveal_strlit("integer");
    reveal_strlit("number");
    reveal_strlit("boolean");
    reveal_strlit("null");
    assert("object"@[0] == 'o' && "array"@[0] == 'a' && "string"@[0] == 's');
    assert("integer"@[0] == 'i' && "number"@[0] == 'n' && "boolean"@[0] == 'b');
    assert("null"@.len() == 4 && "array"@.len() == 5 && "object"@.len() == 6);
    assert("string"@.len() == 6 && "number"@.len() == 6 && "integer"@.len() == 7);
    assert("boolean"@.len() == 7);
}

/// A schema naming one type accepts exactly the values of that type: an "integer" is a
/// JSON integer, a "number" an integer or a float, and "string", "boolean", "object",
/// "array" and "null" the values of that kind; any other type name accepts anything.
pub proof fn a_named_type_accepts_exactly_its_values(field: Seq<char>, v: JsonV, fs: JsonV)
    ensures
        match json_get(fs, "type"@) {
            Some(JsonV::Str(t)) => (type_problem(field, v, fs) is None) <==> if t == "integer"@ {
                v is Int
            } else if t == "number"@ {
                v is Int || v is Float
            } else if t == "string"@ {
                v is Str
            } else if t == "boolean"@ {
                v is Bool
            } else if t == "object"@ {
                v is Object
            } else if t == "array"@ {
                v is Array
            } else if t == "null"@ {
                v is Null
            } else {
                true
            },
            _ => true,
        },
{
    lemma_type_words();
}

/// Parameters that validate have the types their fields' schemas name: an "integer"
/// field holds a JSON integer (never a float), a "number" field an integer or a float,
/// and a "string", "boolean", "object", "array" or "null" field a value of that kind.
pub proof fn accepted_params_have_their_types(spec: TaskSpec, params: JsonV)
    requires
        validated(spec, params) is Ok,
    ensures
        params matches JsonV::Object(pf) && forall|i: int|
            0 <= i < pf.len() ==> match fields_get(props_of(spec.schema@), (#[trigger] pf[i]).0) {
                Some(fs) => match json_get(fs, "type"@) {
                    Some(JsonV::Str(t)) => {
                        let v = pf[i].1;
                        &&& t == "integer"@ ==> v is Int
                        &&& t == "number"@ ==> (v is Int || v is Float)
                        &&& t == "string"@ ==> v is Str
                        &&& t == "boolean"@ ==> v is Bool
                        &&& t == "object"@ ==> v is Object
                        &&& t == "array"@ ==> v is Array
                        &&& t == "null"@ ==> v is Null
                    },
                    _ => true,
                },
                None => false,
            },
{
    lemma_type_words();
    if let JsonV::Object(pf) = params {
        let canonical = spec.task_type@;
        let props = props_of(spec.schema@);
        let req = required_problems(canonical, spec.schema@, pf);
        let par = param_problems(canonical, props, pf, pf.len() as int);
        assert(req.len() == 0 && par.len() == 0);
        lemma_no_value_problems(canonical, props, pf, pf.len() as int);
        assert forall|i: int| 0 <= i < pf.len() implies match fields_get(props, (#[trigger] pf[i]).0) {
            Some(fs) => match json_get(fs, "type"@) {
                Some(JsonV::Str(t)) => {
                    let v = pf[i].1;
                    &&& t == "integer"@ ==> v is Int
                    &&& t == "number"@ ==> (v is Int || v is Float)
                    &&& t == "string"@ ==> v is Str
                    &&& t == "boolean"@ ==> v is Bool
                    &&& t == "object"@ ==> v is Object
                    &&& t == "array"@ ==> v is Array
                    &&& t == "null"@ ==> v is Null
                },
                _ => true,
            },
            None => false,
        } by {
            if let Some(fs) = fields_get(props, pf[i].0) {
                assert(value_problems(pf[i].0, pf[i].1, fs).len() == 0);
                assert(type_problem(pf[i].0, pf[i].1, fs) is None);
            }
        }
    }
}

/// What a value that meets its schema satisfies beyond its type: it is one of the
/// schema's `enum` values when there is one, it lies within the schema's numeric
/// `minimum` and `maximum`, and a list has at least `minItems` items.
pub open spec fn within_schema_limits(v: JsonV, fs: JsonV) -> bool {
    &&& json_get(fs, "enum"@) matches Some(JsonV::Array(allowed)) ==> exists|k: int|
        0 <= k < allowed.len() && same_json(#[trigger] allowed[k], v)
    &&& match (num_of(v), json_get(fs, "minimum"@)) {
        (Some(nv), Some(m)) => match num_of(m) {
            Some(nm) => !num_lt(nv, nm),
            None => true,
        },
        _ => true,
    }
    &&& match (num_of(v), json_get(fs, "maximum"@)) {
        (Some(nv), Some(m)) => match num_of(m) {
            Some(nm) => !num_lt(nm, nv),
            None => true,
        },
        _ => true,
    }
    &&& match (v, json_get(fs, "minItems"@)) {
        (JsonV::Array(items), Some(JsonV::Int(k))) => 0 <= k <= u64::MAX ==> items.len() >= k,
        _ => true,
    }
}

proof fn lemma_value_within_limits(field: Seq<char>, v: JsonV, fs: JsonV)
    requires
        value_problems(field, v, fs).len() == 0,
    ensures
        within_schema_limits(v, fs),
{
    assert(type_problem(field, v, fs) is None);
    assert(enum_problem(field, v, fs) is None);
    let rest = match v {
        JsonV::Array(items) => min_items_problem(field, items, fs) + match item_schema(fs) {
            Some(s) => items_problems(field, items, s, items.len()),
            None => Seq::empty(),
        },
        _ => Seq::empty(),
    };
    assert(value_problems(field, v, fs) == bound_problems(field, v, fs) + rest);
    assert(bound_problems(field, v, fs).len() == 0);
    if let JsonV::Array(items) = v {
        assert(min_items_problem(field, items, fs).len() == 0);
        if let Some(JsonV::Int(k)) = json_get(fs, "minItems"@) {
            if 0 <= k <= u64::MAX {
                assert(items.len() >= k);
            }
        }
    }
    if let Some(JsonV::Array(allowed)) = json_get(fs, "enum"@) {
        assert(exists|k: int| 0 <= k < allowed.len() && same_json(#[trigger] allowed[k], v));
    }
    if let Some(nv) = num_of(v) {
        if let Some(m) = json_get(fs, "minimum"@) {
            if let Some(nm) = num_of(m) {
                assert(!num_lt(nv, nm));
            }
        }
        if let Some(m) = json_get(fs, "maximum"@) {
            if let Some(nm) = num_of(m) {
                assert(!num_lt(nm, nv));
            }
        }
    }
}

/// Parameters that validate stay within their fields' schemas: each is one of the
/// schema's `enum` values when it gives some, a number lies within the `minimum` and
/// `maximum`, and a list has at least `minItems` items.
pub proof fn accepted_params_stay_within_their_limits(spec: TaskSpec, params: JsonV)
    requires
        validated(spec, params) is Ok,
    ensures
        params matches JsonV::Object(pf) && forall|i: int|
            0 <= i < pf.len() ==> match fields_get(props_of(spec.schema@), (#[trigger] pf[i]).0) {
                Some(fs) => within_schema_limits(pf[i].1, fs),
                None => false,
            },
{
    if let JsonV::Object(pf) = params {
        let canonical = spec.task_type@;
        let props = props_of(spec.schema@);
        let req = required_problems(canonical, spec.schema@, pf);
        let par = param_problems(canonical, props, pf, pf.len() as int);
        assert(req.len() == 0 && par.len() == 0);
        lemma_no_value_problems(canonical, props, pf, pf.len() as int);
        assert forall|i: int| 0 <= i < pf.len() implies match fields_get(props, (#[trigger] pf[i]).0) {
            Some(fs) => within_schema_limits(pf[i].1, fs),
            None => false,
        } by {
            if let Some(fs) = fields_get(props, pf[i].0) {
                lemma_value_within_limits(pf[i].0, pf[i].1, fs);
            }
        }
    }
}

/// Parameters that validate are an object holding every field the schema requires, and
/// nothing the schema does not name.
pub proof fn accepted_params_fit_the_schema(spec: TaskSpec, params: JsonV)
    requires
        validated(spec, params) is Ok,
    ensures
        params matches JsonV::Object(pf) && (forall|i: int|
            0 <= i < pf.len() ==> fields_get(props_of(spec.schema@), (#[trigger] pf[i]).0) is Some)
            && match json_get(spec.schema@, "required"@) {
            Some(JsonV::Array(items)) => forall|k: int|
                0 <= k < str_items(items).len() ==> fields_get(pf, #[trigger] str_items(items)[k])
                    is Some,
            _ => true,
        },
{
    if let JsonV::Object(pf) = params {
        let canonical = spec.task_type@;
        let req = required_problems(canonical, spec.schema@, pf);
        let par = param_problems(canonical, props_of(spec.schema@), pf, pf.len() as int);
        assert(req.len() == 0 && par.len() == 0);
        lemma_no_unknown(canonical, props_of(spec.schema@), pf, pf.len() as int);
        if let Some(JsonV::Array(items)) = json_get(spec.schema@, "required"@) {
            lemma_no_missing(canonical, str_items(items), pf, str_items(items).len() as int);
        }
    }
}

fn lookup(fields: &Vec<(String, Json)>, key: &str) -> (r: Option<usize>)
    ensures
        match r {
            Some(i) => i < fields@.len() && fields_get(crate::json::fields_view(fields@), key@) == Some(
                fields@[i as int].1@,
            ),
            None => fields_get(crate::json::fields_view(fields@), key@) is None,
        },
{
    let ghost fv = crate::json::fields_view(fields@);
    proof {
        assert(fv.subrange(0, fv.len() as int) =~= fv);
    }
    let mut i: usize = 0;
    while i < fields.len()
        invariant
            fv == crate::json::fields_view(fields@),
            i <= fields@.len(),
            fields_get(fv, key@) == fields_get(fv.subrange(i as int, fv.len() as int), key@),
        decreases fields.len() - i,
    {
        let ghost rest = fv.subrange(i as int, fv.len() as int);
        assert(rest[0] == fv[i as int]);
        if str_eq(fields[i].0.as_str(), key) {
            return Some(i);
        }
        assert(rest.subrange(1, rest.len() as int) =~= fv.subrange(i + 1, fv.len() as int));
        i = i + 1;
    }
    None
}

fn required_check(canonical: &str, schema: &Json, params: &Vec<(String, Json)>, errors: &mut Vec<String>)
    ensures
        strings_view(final(errors)@) == strings_view(old(errors)@) + required_problems(
            canonical@,
            schema@,
            crate::json::fields_view(params@),
        ),
{
    let ghost start = strings_view(errors@);
    let ghost pv = crate::json::fields_view(params@);
    match schema.get("required") {
        Some(r) => match r.as_array() {
            Some(items) => {
                let names = string_items(items);
                let ghost nv = strings_view(names@);
                let mut k: usize = 0;
                while k < names.len()
                    invariant
                        nv == strings_view(names@),
                        pv == crate::json::fields_view(params@),
                        k <= names@.len(),
                        strings_view(errors@) == start + missing_problems(canonical@, nv, pv, k as int),
                    decreases names.len() - k,
                {
                    let present = lookup(params, names[k].as_str());
                    proof {
                        assert(nv[k as int] == names@[k as int]@);
                        assert(nv.len() == names@.len());
                        assert(missing_problems(canonical@, nv, pv, k + 1) == missing_problems(
                            canonical@,
                            nv,
                            pv,
                            k as int,
                        ) + if fields_get(pv, nv[k as int]) is None {
                            seq![quoted_field(nv[k as int]) + " is required for "@ + canonical@]
                        } else {
                            Seq::empty()
                        });
                    }
                    if present.is_none() {
                        let mut m = quote_field(names[k].as_str());
                        push_str(&mut m, " is required for ");
                        push_str(&mut m, canonical);
                        push_problem(errors, m);
                    }
                    proof {
                        if present.is_some() {
                            assert(strings_view(errors@) =~= start + missing_problems(canonical@, nv, pv, k + 1));
                        } else {
                            assert(strings_view(errors@) =~= start + missing_problems(canonical@, nv, pv, k + 1));
                        }
                    }
                    k = k + 1;
                }
                proof {
                    if let Some(JsonV::Array(iv)) = json_get(schema@, "required"@) {
                        assert(iv == json_items(items@));
                    }
                }
            },
            None => {
                proof {
                    assert(strings_view(errors@) =~= start + required_problems(canonical@, schema@, pv));
                }
            },
        },
        None => {
            proof {
                assert(strings_view(errors@) =~= start + required_problems(canonical@, schema@, pv));
            }
        },
    }
}

fn keys_of(fields: &Vec<(String, Json)>) -> (r: Vec<String>)
    ensures
        strings_view(r@) == field_keys(crate::json::fields_view(fields@)),
{
    let mut out: Vec<String> = Vec::new();
    let mut i: usize = 0;
    while i < fields.len()
        invariant
            i <= fields@.len(),
            out@.len() == i,
            forall|k: int| 0 <= k < i ==> (#[trigger] out@[k])@ == fields@[k].0@,
        decreases fields.len() - i,
    {
        out.push(fields[i].0.clone());
        i = i + 1;
    }
    proof {
        assert(strings_view(out@) =~= field_keys(crate::json::fields_view(fields@)));
    }
    out
}

fn unknown_param_message(canonical: &str, field: &str, props: &Vec<(String, Json)>) -> (r: String)
    ensures
        r@ == unknown_param_text(canonical@, field@, crate::json::fields_view(props@)),
{
    let keys = keys_of(props);
    let best = best_suggestion(&keys, field);
    let ghost kv = field_keys(crate::json::fields_view(props@));
    proof {
        lemma_best_match_bounds(kv, field@, kv.len() as int);
    }
    let mut m = quote_field(field);
    push_str(&mut m, " is not a parameter of ");
    push_str(&mut m, canonical);
    push_str(&mut m, ".");
    match best {
        Some(b) => {
            push_str(&mut m, " Did you mean '");
            m.append(keys[b].as_str());
            push_str(&mut m, "'?");
            proof {
                assert(kv[b as int] == keys@[b as int]@);
            }
        },
        None => {},
    }
    push_str(&mut m, " Valid parameters: ");
    let j = join_strings(&keys, ", ");
    m.append(j.as_str());
    push_str(&mut m, ".");
    proof {
        assert(m@ =~= unknown_param_text(canonical@, field@, crate::json::fields_view(props@)));
    }
    m
}

fn params_check(canonical: &str, props: &Vec<(String, Json)>, params: &Vec<(String, Json)>, errors: &mut Vec<String>)
    ensures
        strings_view(final(errors)@) == strings_view(old(errors)@) + param_problems(
            canonical@,
            crate::json::fields_view(props@),
            crate::json::fields_view(params@),
            params@.len() as int,
        ),
{
    let ghost start = strings_view(errors@);
    let ghost kv = crate::json::fields_view(props@);
    let ghost pv = crate::json::fields_view(params@);
    let mut k: usize = 0;
    while k < params.len()
        invariant
            kv == crate::json::fields_view(props@),
            pv == crate::json::fields_view(params@),
            k <= params@.len(),
            strings_view(errors@) == start + param_problems(canonical@, kv, pv, k as int),
        decreases params.len() - k,
    {
        let field = params[k].0.as_str();
        let value = &params[k].1;
        proof {
            assert(pv[k as int] == (params@[k as int].0@, params@[k as int].1@));
        }
        let ghost before = strings_view(errors@);
        match lookup(props, field) {
            None => {
                let m = unknown_param_message(canonical, field, props);
                push_problem(errors, m);
            },
            Some(i) => {
                check_value(field, value, &props[i].1, errors);
            },
        }
        proof {
            assert(strings_view(errors@) =~= start + param_problems(canonical@, kv, pv, k + 1));
        }
        k = k + 1;
    }
}

/// Validates a task's parameters against its catalog schema: the task type is
/// resolved as `resolve` does; the parameters must be an object; every required
/// parameter must be given, and every given one must be in the schema and meet it.
/// Every problem is reported at once. On success the canonical name and the
/// parameters come back unchanged.
pub fn validate<F: Fn(&str) -> Vec<String>>(cat: &Catalog, task_type: &str, params: Json, suggest: &F) -> (r: Result<(String, Json), Error>)
    requires
        cat.wf(),
        forall|t: &str| suggest.requires((t,)),
    ensures
        match first_ci_match(cat.specs(), lowercase_text(trimmed(task_type@))) {
            Some(i) => match validated(cat.specs()[i], params@) {
                Ok(c) => r matches Ok((n, p)) && n@ == c && p@ == params@,
                Err(m) => r matches Err(Error::Validation(e)) && e@ == m,
            },
            None => exists|sug: Vec<String>|
                suggest.ensures((task_type,), sug) && (r matches Err(Error::UnknownTaskType(m)) && m@
                    == unknown_type_text(task_type@, strings_view(sug@), cat.specs())),
        },
{
    let i = match resolve_index(cat, task_type, suggest) {
        Ok(i) => i,
        Err(e) => {
            return Err(e);
        },
    };
    let spec = cat.spec_at(i);
    let canonical = spec.task_type.clone();
    validate_against(spec, canonical, params)
}

/// Validates parameters against a spec whose name is `canonical`; see `validated`.
fn validate_against(spec: &TaskSpec, canonical: String, params: Json) -> (r: Result<(String, Json), Error>)
    requires
        canonical@ == spec.task_type@,
    ensures
        match validated(*spec, params@) {
            Ok(c) => r matches Ok((n, p)) && n@ == c && p@ == params@,
            Err(m) => r matches Err(Error::Validation(e)) && e@ == m,
        },
{
    let pf = match &params {
        Json::Object(pf) => pf,
        _ => {
            let mut m = String::from_str("Parameters for ");
            m.append(canonical.as_str());
            push_str(&mut m, " must be a JSON object, got ");
            push_str(&mut m, value_type_name(&params));
            push_str(&mut m, ".");
            return Err(Error::Validation(m));
        },
    };
    proof {
        assert(params@ matches JsonV::Object(x) && x =~= crate::json::fields_view(pf@));
    }
    let empty: Vec<(String, Json)> = Vec::new();
    let props: &Vec<(String, Json)> = match spec.schema.get("properties") {
        Some(p) => match p {
            Json::Object(f) => {
                proof {
                    assert(p@ matches JsonV::Object(x) && x =~= crate::json::fields_view(f@));
                }
                f
            },
            _ => &empty,
        },
        None => &empty,
    };
    proof {
        assert(crate::json::fields_view(props@) =~= props_of(spec.schema@));
    }
    let mut errors: Vec<String> = Vec::new();
    required_check(canonical.as_str(), &spec.schema, pf, &mut errors);
    params_check(canonical.as_str(), props, pf, &mut errors);
    proof {
        assert(strings_view(Seq::<String>::empty()) =~= Seq::<Seq<char>>::empty());
    }
    if errors.len() > 0 {
        let mut m = String::new();
        write_u64(&mut m, errors.len() as u64);
        push_str(&mut m, " problem(s) with ");
        m.append(canonical.as_str());
        push_str(&mut m, " parameters:\n- ");
        let j = join_strings(&errors, "\n- ");
        m.append(j.as_str());
        proof {
            assert(m@ =~= validation_text(canonical@, strings_view(errors@)));
        }
        return Err(Error::Validation(m));
    }
    Ok((canonical, params))
}

} // verus!
