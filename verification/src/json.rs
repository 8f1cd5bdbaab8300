use vstd::prelude::*;
use vstd::string::*;

use crate::text::{int_text, nat_text, push_char, push_str, write_i64, write_u64};

verus! {

/// A JSON value as the library holds it. Numbers that fit an `i64` are `Int`,
/// larger unsigned ones `UInt`; any other number is `Float`, held by its shortest decimal
/// text and the bit pattern of its `f64`.
/// Object fields keep their order.
#[derive(Debug)]
pub enum Json {
    Null,
    Bool(bool),
    Int(i64),
    UInt(u64),
    Float(String, u64),
    Str(String),
    Array(Vec<Json>),
    Object(Vec<(String, Json)>),
}

/// The mathematical value of a `Json`.
pub enum JsonV {
    Null,
    Bool(bool),
    Int(int),
    Float(Seq<char>, u64),
    Str(Seq<char>),
    Array(Seq<JsonV>),
    Object(Seq<(Seq<char>, JsonV)>),
}

impl Json {
    pub open spec fn view_of(self) -> JsonV
        decreases self,
    {
        match self {
            Json::Null => JsonV::Null,
            Json::Bool(b) => JsonV::Bool(b),
            Json::Int(i) => JsonV::Int(i as int),
            Json::UInt(u) => JsonV::Int(u as int),
            Json::Float(t, b) => JsonV::Float(t@, b),
            Json::Str(s) => JsonV::Str(s@),
            Json::Array(v) => JsonV::Array(
                Seq::new(
                    v@.len(),
                    |i: int|
                        if 0 <= i < v@.len() {
                            v@[i].view_of()
                        } else {
                            JsonV::Null
                        },
                ),
            ),
            Json::Object(f) => JsonV::Object(
                Seq::new(
                    f@.len(),
                    |i: int|
                        if 0 <= i < f@.len() {
                            (f@[i].0@, f@[i].1.view_of())
                        } else {
                            (Seq::empty(), JsonV::Null)
                        },
                ),
            ),
        }
    }
}

impl View for Json {
    type V = JsonV;

    open spec fn view(&self) -> JsonV {
        self.view_of()
    }
}

/// The values of a sequence of `Json`s.
pub open spec fn json_items(v: Seq<Json>) -> Seq<JsonV> {
    Seq::new(v.len(), |i: int| v[i]@)
}

/// The first value stored under `key` in a list of object fields.
pub open spec fn fields_get(fields: Seq<(Seq<char>, JsonV)>, key: Seq<char>) -> Option<JsonV>
    decreases fields.len(),
{
    if fields.len() == 0 {
        None
    } else if fields[0].0 == key {
        Some(fields[0].1)
    } else {
        fields_get(fields.subrange(1, fields.len() as int), key)
    }
}

/// The index of the first field named `key`, or -1 when there is none.
pub open spec fn key_index(fields: Seq<(Seq<char>, JsonV)>, key: Seq<char>) -> int
    decreases fields.len(),
{
    if fields.len() == 0 {
        -1
    } else if fields[0].0 == key {
        0
    } else {
        let r = key_index(fields.subrange(1, fields.len() as int), key);
        if r < 0 {
            -1
        } else {
            r + 1
        }
    }
}

/// `key_index` finds what `fields_get` gives.
pub proof fn lemma_key_index(fields: Seq<(Seq<char>, JsonV)>, key: Seq<char>)
    ensures
        -1 <= key_index(fields, key) < fields.len(),
        key_index(fields, key) >= 0 ==> fields[key_index(fields, key)].0 == key && fields_get(
            fields,
            key,
        ) == Some(fields[key_index(fields, key)].1),
        key_index(fields, key) < 0 ==> fields_get(fields, key) is None,
    decreases fields.len(),
{
    if fields.len() > 0 && fields[0].0 != key {
        lemma_key_index(fields.subrange(1, fields.len() as int), key);
    }
}

/// What `v.get(key)` gives: the field of an object, nothing for any other value.
pub open spec fn json_get(v: JsonV, key: Seq<char>) -> Option<JsonV> {
    match v {
        JsonV::Object(f) => fields_get(f, key),
        _ => None,
    }
}

/// The text of a JSON string value, if `v` is one.
pub open spec fn json_as_str(v: JsonV) -> Option<Seq<char>> {
    match v {
        JsonV::Str(s) => Some(s),
        _ => None,
    }
}

/// The integer held by `v` when it is an integer that fits an `i64`.
pub open spec fn json_as_i64(v: JsonV) -> Option<int> {
    match v {
        JsonV::Int(i) => if i64::MIN <= i <= i64::MAX {
            Some(i)
        } else {
            None
        },
        _ => None,
    }
}

/// The string stored under `key`, if there is one and it is a string.
pub open spec fn get_str(v: JsonV, key: Seq<char>) -> Option<Seq<char>> {
    match json_get(v, key) {
        Some(x) => json_as_str(x),
        None => None,
    }
}

/// The `i64` stored under `key`, if there is one and it is such an integer.
pub open spec fn get_i64(v: JsonV, key: Seq<char>) -> Option<int> {
    match json_get(v, key) {
        Some(x) => json_as_i64(x),
        None => None,
    }
}

/// The field under `key`, if present and not `null`.
pub open spec fn get_non_null(v: JsonV, key: Seq<char>) -> Option<JsonV> {
    match json_get(v, key) {
        Some(JsonV::Null) => None,
        other => other,
    }
}

// ---------------------------------------------------------------------------
// Compact JSON text.

pub open spec fn hex_char(d: nat) -> char {
    if d < 10 {
        (48 + d) as char
    } else {
        (87 + d) as char
    }
}

/// How one character of a string is written inside the quotes.
pub open spec fn escape_char(c: char) -> Seq<char> {
    if c == '"' {
        seq!['\\', '"']
    } else if c == '\\' {
        seq!['\\', '\\']
    } else if c == '\n' {
        seq!['\\', 'n']
    } else if c == '\r' {
        seq!['\\', 'r']
    } else if c == '\t' {
        seq!['\\', 't']
    } else if (c as u32) == 8 {
        seq!['\\', 'b']
    } else if (c as u32) == 12 {
        seq!['\\', 'f']
    } else if (c as u32) < 32 {
        seq!['\\', 'u', '0', '0', hex_char((c as u32 / 16) as nat), hex_char((c as u32 % 16) as nat)]
    } else {
        seq![c]
    }
}

pub open spec fn escaped(s: Seq<char>) -> Seq<char>
    decreases s.len(),
{
    if s.len() == 0 {
        Seq::empty()
    } else {
        escaped(s.subrange(0, s.len() - 1)) + escape_char(s[s.len() - 1])
    }
}

/// A string value as JSON text: quoted and escaped.
pub open spec fn quoted(s: Seq<char>) -> Seq<char> {
    seq!['"'] + escaped(s) + seq!['"']
}

pub open spec fn items_text(items: Seq<JsonV>) -> Seq<char>
    decreases items,
{
    if items.len() == 0 {
        Seq::empty()
    } else if items.len() == 1 {
        json_text(items[0])
    } else {
        items_text(items.subrange(0, items.len() - 1)) + seq![','] + json_text(
            items[items.len() - 1],
        )
    }
}

pub open spec fn field_text(f: (Seq<char>, JsonV)) -> Seq<char>
    decreases f,
{
    quoted(f.0) + seq![':'] + json_text(f.1)
}

pub open spec fn fields_text(fields: Seq<(Seq<char>, JsonV)>) -> Seq<char>
    decreases fields,
{
    if fields.len() == 0 {
        Seq::empty()
    } else if fields.len() == 1 {
        field_text(fields[0])
    } else {
        fields_text(fields.subrange(0, fields.len() - 1)) + seq![','] + field_text(
            fields[fields.len() - 1],
        )
    }
}

/// Compact JSON text of a value: no spaces, fields in their stored order.
pub open spec fn json_text(v: JsonV) -> Seq<char>
    decreases v,
{
    match v {
        JsonV::Null => seq!['n', 'u', 'l', 'l'],
        JsonV::Bool(b) => if b {
            seq!['t', 'r', 'u', 'e']
        } else {
            seq!['f', 'a', 'l', 's', 'e']
        },
        JsonV::Int(i) => int_text(i),
        JsonV::Float(t, _) => t,
        JsonV::Str(s) => quoted(s),
        JsonV::Array(items) => seq!['['] + items_text(items) + seq![']'],
        JsonV::Object(fields) => seq!['{'] + fields_text(fields) + seq!['}'],
    }
}

/// How a value reads in a message: strings in single quotes, anything else as JSON text.
pub open spec fn repr_text(v: JsonV) -> Seq<char> {
    match v {
        JsonV::Str(s) => seq!['\''] + s + seq!['\''],
        other => json_text(other),
    }
}

/// A string as it is embedded in a message: its own text for a string, JSON text otherwise.
pub open spec fn plain_text(v: JsonV) -> Seq<char> {
    match v {
        JsonV::Str(s) => s,
        other => json_text(other),
    }
}

fn hex_digit(d: u32) -> (c: char)
    requires
        d < 16,
    ensures
        c == hex_char(d as nat),
{
    if d < 10 {
        let b: u8 = 48u8 + (d as u8);
        b as char
    } else {
        let b: u8 = 87u8 + (d as u8);
        b as char
    }
}

/// Appends the escaped form of one character.
pub fn write_escaped_char(out: &mut String, c: char)
    ensures
        final(out)@ == old(out)@ + escape_char(c),
{
    let ghost start = out@;
    let code: u32 = c as u32;
    if c == '"' {
        push_char(out, '\\');
        push_char(out, '"');
    } else if c == '\\' {
        push_char(out, '\\');
        push_char(out, '\\');
    } else if c == '\n' {
        push_char(out, '\\');
        push_char(out, 'n');
    } else if c == '\r' {
        push_char(out, '\\');
        push_char(out, 'r');
    } else if c == '\t' {
        push_char(out, '\\');
        push_char(out, 't');
    } else if code == 8 {
        push_char(out, '\\');
        push_char(out, 'b');
    } else if code == 12 {
        push_char(out, '\\');
        push_char(out, 'f');
    } else if code < 32 {
        push_char(out, '\\');
        push_char(out, 'u');
        push_char(out, '0');
        push_char(out, '0');
        let hi = hex_digit(code / 16);
        push_char(out, hi);
        let lo = hex_digit(code % 16);
        push_char(out, lo);
    } else {
        push_char(out, c);
    }
    proof {
        assert(out@ =~= start + escape_char(c));
    }
}

/// Appends a string value as quoted, escaped JSON text.
pub fn write_quoted(out: &mut String, s: &str)
    ensures
        final(out)@ == old(out)@ + quoted(s@),
{
    let ghost start = out@;
    let n = s.unicode_len();
    push_char(out, '"');
    let mut i: usize = 0;
    while i < n
        invariant
            n == s@.len(),
            i <= n,
            out@ == start + seq!['"'] + escaped(s@.subrange(0, i as int)),
        decreases n - i,
    {
        let c = s.get_char(i);
        write_escaped_char(out, c);
        i = i + 1;
        proof {
            let pre = s@.subrange(0, i as int);
            assert(pre.subrange(0, pre.len() - 1) =~= s@.subrange(0, i - 1));
            assert(pre[pre.len() - 1] == c);
        }
    }
    push_char(out, '"');
    proof {
        assert(s@.subrange(0, n as int) =~= s@);
        assert(out@ =~= start + quoted(s@));
    }
}

impl Json {
    pub fn new_str(s: &str) -> (r: Json)
        ensures
            r@ == JsonV::Str(s@),
    {
        Json::Str(String::from_str(s))
    }

    pub fn new_object() -> (r: Json)
        ensures
            r@ == JsonV::Object(Seq::empty()),
    {
        let r = Json::Object(Vec::new());
        proof {
            assert(r@ matches JsonV::Object(f) && f.len() == 0);
            if let JsonV::Object(f) = r@ {
                assert(f =~= Seq::<(Seq<char>, JsonV)>::empty());
            }
        }
        r
    }

    pub fn is_null(&self) -> (r: bool)
        ensures
            r == (self@ is Null),
    {
        match self {
            Json::Null => true,
            _ => false,
        }
    }

    pub fn is_object(&self) -> (r: bool)
        ensures
            r == (self@ is Object),
    {
        match self {
            Json::Object(_) => true,
            _ => false,
        }
    }

    pub fn as_str(&self) -> (r: Option<&String>)
        ensures
            match r {
                Some(s) => json_as_str(self@) == Some(s@),
                None => json_as_str(self@) is None,
            },
    {
        match self {
            Json::Str(s) => Some(s),
            _ => None,
        }
    }

    pub fn as_i64(&self) -> (r: Option<i64>)
        ensures
            match r {
                Some(i) => json_as_i64(self@) == Some(i as int),
                None => json_as_i64(self@) is None,
            },
    {
        match self {
            Json::Int(i) => Some(*i),
            Json::UInt(u) => if *u <= 9223372036854775807u64 {
                Some(*u as i64)
            } else {
                None
            },
            _ => None,
        }
    }

    pub fn as_array(&self) -> (r: Option<&Vec<Json>>)
        ensures
            match r {
                Some(v) => self@ == JsonV::Array(json_items(v@)),
                None => !(self@ is Array),
            },
    {
        match self {
            Json::Array(v) => {
                proof {
                    assert(self@ matches JsonV::Array(items) && items =~= json_items(v@));
                }
                Some(v)
            },
            _ => None,
        }
    }

    /// The value stored under `key` when `self` is an object.
    pub fn get(&self, key: &str) -> (r: Option<&Json>)
        ensures
            match r {
                Some(x) => json_get(self@, key@) == Some(x@),
                None => json_get(self@, key@) is None,
            },
    {
        match self {
            Json::Object(fields) => {
                let ghost fv = match self@ {
                    JsonV::Object(f) => f,
                    _ => Seq::empty(),
                };
                proof {
                    assert(fv.len() == fields@.len());
                    assert(fv.subrange(0, fv.len() as int) =~= fv);
                }
                let mut i: usize = 0;
                while i < fields.len()
                    invariant
                        self@ == JsonV::Object(fv),
                        fv.len() == fields@.len(),
                        forall|k: int|
                            0 <= k < fields@.len() ==> #[trigger] fv[k] == (
                                fields@[k].0@,
                                fields@[k].1@,
                            ),
                        i <= fields.len(),
                        fields_get(fv, key@) == fields_get(
                            fv.subrange(i as int, fv.len() as int),
                            key@,
                        ),
                    decreases fields.len() - i,
                {
                    let ghost rest = fv.subrange(i as int, fv.len() as int);
                    assert(rest[0] == fv[i as int]);
                    if crate::text::str_eq(fields[i].0.as_str(), key) {
                        return Some(&fields[i].1);
                    }
                    assert(rest.subrange(1, rest.len() as int) =~= fv.subrange(
                        i + 1,
                        fv.len() as int,
                    ));
                    i = i + 1;
                }
                None
            },
            _ => None,
        }
    }

    /// The string stored under `key`, if present and a string.
    pub fn get_str(&self, key: &str) -> (r: Option<&String>)
        ensures
            match r {
                Some(s) => get_str(self@, key@) == Some(s@),
                None => get_str(self@, key@) is None,
            },
    {
        match self.get(key) {
            Some(v) => v.as_str(),
            None => None,
        }
    }

    /// The integer stored under `key`, if present and an `i64`.
    pub fn get_i64(&self, key: &str) -> (r: Option<i64>)
        ensures
            match r {
                Some(i) => get_i64(self@, key@) == Some(i as int),
                None => get_i64(self@, key@) is None,
            },
    {
        match self.get(key) {
            Some(v) => v.as_i64(),
            None => None,
        }
    }

    /// The field under `key`, if present and not `null`.
    pub fn get_non_null(&self, key: &str) -> (r: Option<&Json>)
        ensures
            match r {
                Some(x) => get_non_null(self@, key@) == Some(x@),
                None => get_non_null(self@, key@) is None,
            },
    {
        match self.get(key) {
            Some(v) => if v.is_null() {
                None
            } else {
                Some(v)
            },
            None => None,
        }
    }

    /// An exact copy.
    #[verifier::loop_isolation(false)]
    pub fn copy(&self) -> (r: Json)
        ensures
            r@ == self@,
        decreases self,
    {
        match self {
            Json::Null => Json::Null,
            Json::Bool(b) => Json::Bool(*b),
            Json::Int(i) => Json::Int(*i),
            Json::UInt(u) => Json::UInt(*u),
            Json::Float(t, b) => Json::Float(t.clone(), *b),
            Json::Str(s) => Json::Str(s.clone()),
            Json::Array(v) => {
                let mut out: Vec<Json> = Vec::new();
                let mut i: usize = 0;
                while i < v.len()
                    invariant
                        i <= v.len(),
                        out@.len() == i,
                        forall|k: int| 0 <= k < i ==> (#[trigger] out@[k])@ == v@[k]@,
                    decreases v.len() - i,
                {
                    assert(decreases_to!(*v => v[i as int]));
                    let c = v[i].copy();
                    out.push(c);
                    i = i + 1;
                }
                let r = Json::Array(out);
                proof {
                    if let JsonV::Array(a) = r@ {
                        if let JsonV::Array(b) = self@ {
                            assert(a =~= b);
                        }
                    }
                }
                r
            },
            Json::Object(f) => {
                let mut out: Vec<(String, Json)> = Vec::new();
                let mut i: usize = 0;
                while i < f.len()
                    invariant
                        i <= f.len(),
                        out@.len() == i,
                        forall|k: int|
                            0 <= k < i ==> (#[trigger] out@[k]).0@ == f@[k].0@ && out@[k].1@
                                == f@[k].1@,
                    decreases f.len() - i,
                {
                    assert(decreases_to!(*f => f[i as int]));
                    let c = f[i].1.copy();
                    let k = f[i].0.clone();
                    out.push((k, c));
                    i = i + 1;
                }
                let r = Json::Object(out);
                proof {
                    if let JsonV::Object(a) = r@ {
                        if let JsonV::Object(b) = self@ {
                            assert(a =~= b);
                        }
                    }
                }
                r
            },
        }
    }
}

/// The views of a list of object fields.
pub open spec fn fields_view(f: Seq<(String, Json)>) -> Seq<(Seq<char>, JsonV)> {
    Seq::new(f.len(), |i: int| (f[i].0@, f[i].1@))
}

impl Json {
    /// An object with these fields, in this order.
    pub fn object(fields: Vec<(String, Json)>) -> (r: Json)
        ensures
            r@ == JsonV::Object(fields_view(fields@)),
    {
        let ghost fv = fields@;
        let r = Json::Object(fields);
        proof {
            if let JsonV::Object(a) = r@ {
                assert(a =~= fields_view(fv));
            }
        }
        r
    }

    /// An array of these items, in this order.
    pub fn array(items: Vec<Json>) -> (r: Json)
        ensures
            r@ == JsonV::Array(json_items(items@)),
    {
        let ghost iv = items@;
        let r = Json::Array(items);
        proof {
            if let JsonV::Array(a) = r@ {
                assert(a =~= json_items(iv));
            }
        }
        r
    }

    /// A string value.
    pub fn string(s: String) -> (r: Json)
        ensures
            r@ == JsonV::Str(s@),
    {
        Json::Str(s)
    }

    /// A string value, or null.
    pub fn opt_string(s: Option<String>) -> (r: Json)
        ensures
            r@ == match s {
                Some(t) => JsonV::Str(t@),
                None => JsonV::Null,
            },
    {
        match s {
            Some(t) => Json::Str(t),
            None => Json::Null,
        }
    }
}

/// A field of an object.
pub fn field(key: &str, value: Json) -> (r: (String, Json))
    ensures
        r.0@ == key@,
        r.1@ == value@,
{
    (String::from_str(key), value)
}

/// `fields` with `key` bound to `value`: the first binding replaced, or a new one at the end.
pub open spec fn fields_insert(
    fields: Seq<(Seq<char>, JsonV)>,
    key: Seq<char>,
    value: JsonV,
) -> Seq<(Seq<char>, JsonV)>
    decreases fields.len(),
{
    if fields.len() == 0 {
        seq![(key, value)]
    } else if fields[0].0 == key {
        fields.update(0, (key, value))
    } else {
        seq![fields[0]] + fields_insert(fields.subrange(1, fields.len() as int), key, value)
    }
}

/// What inserting `key: value` into `v` gives: for an object, the binding set;
/// any other value is left alone.
pub open spec fn json_insert(v: JsonV, key: Seq<char>, value: JsonV) -> JsonV {
    match v {
        JsonV::Object(f) => JsonV::Object(fields_insert(f, key, value)),
        other => other,
    }
}

/// Inserting a key that an object does not hold appends the binding.
pub proof fn lemma_insert_new_key(v: JsonV, key: Seq<char>, value: JsonV)
    requires
        v matches JsonV::Object(f) && forall|k: int| 0 <= k < f.len() ==> (#[trigger] f[k]).0 != key,
    ensures
        v matches JsonV::Object(f) && json_insert(v, key, value) == JsonV::Object(
            f.push((key, value)),
        ),
{
    if let JsonV::Object(f) = v {
        lemma_fields_insert_split(f, f.len() as int, key, value);
    }
}

proof fn lemma_fields_insert_split(
    fields: Seq<(Seq<char>, JsonV)>,
    i: int,
    key: Seq<char>,
    value: JsonV,
)
    requires
        0 <= i <= fields.len(),
        forall|k: int| 0 <= k < i ==> fields[k].0 != key,
    ensures
        i < fields.len() && fields[i].0 == key ==> fields_insert(fields, key, value)
            == fields.update(i, (key, value)),
        i == fields.len() ==> fields_insert(fields, key, value) == fields.push((key, value)),
    decreases i,
{
    if i > 0 {
        let rest = fields.subrange(1, fields.len() as int);
        lemma_fields_insert_split(rest, i - 1, key, value);
        if i < fields.len() && fields[i].0 == key {
            assert(seq![fields[0]] + rest.update(i - 1, (key, value)) =~= fields.update(
                i,
                (key, value),
            ));
        }
        if i == fields.len() {
            assert(seq![fields[0]] + rest.push((key, value)) =~= fields.push((key, value)));
        }
    } else {
        if fields.len() == 0 {
            assert(seq![(key, value)] =~= fields.push((key, value)));
        }
    }
}

proof fn lemma_fields_insert_get(
    fields: Seq<(Seq<char>, JsonV)>,
    key: Seq<char>,
    value: JsonV,
    other: Seq<char>,
)
    ensures
        fields_get(fields_insert(fields, key, value), key) == Some(value),
        other != key ==> fields_get(fields_insert(fields, key, value), other) == fields_get(
            fields,
            other,
        ),
    decreases fields.len(),
{
    let ins = fields_insert(fields, key, value);
    if fields.len() == 0 {
        assert(ins.subrange(1, ins.len() as int).len() == 0);
        assert(fields_get(ins.subrange(1, ins.len() as int), other) is None);
    } else if fields[0].0 == key {
        let tail = fields.subrange(1, fields.len() as int);
        assert(ins.subrange(1, ins.len() as int) =~= tail);
        if other != key {
            assert(fields_get(ins, other) == fields_get(tail, other));
            assert(fields_get(fields, other) == fields_get(tail, other));
        }
    } else {
        let rest = fields.subrange(1, fields.len() as int);
        lemma_fields_insert_get(rest, key, value, other);
        assert(ins[0] == fields[0]);
        assert(ins.subrange(1, ins.len() as int) =~= fields_insert(rest, key, value));
        if other != key && fields[0].0 != other {
            assert(fields_get(ins, other) == fields_get(fields_insert(rest, key, value), other));
            assert(fields_get(fields, other) == fields_get(rest, other));
        }
    }
}

/// What a write to an object binds, a read of the same key gives back; a read of any
/// other key gives what it gave before the write.
pub proof fn get_after_insert(v: JsonV, key: Seq<char>, value: JsonV, other: Seq<char>)
    requires
        v is Object,
    ensures
        json_get(json_insert(v, key, value), key) == Some(value),
        other != key ==> json_get(json_insert(v, key, value), other) == json_get(v, other),
{
    if let JsonV::Object(f) = v {
        lemma_fields_insert_get(f, key, value, other);
    }
}

impl Json {
    /// Binds `key` to `value` when `self` is an object; any other value is left alone.
    pub fn insert(&mut self, key: &str, value: Json)
        ensures
            final(self)@ == json_insert(old(self)@, key@, value@),
    {
        match self {
            Json::Object(fields) => {
                let ghost fv = match old(self)@ {
                    JsonV::Object(f) => f,
                    _ => Seq::empty(),
                };
                let ghost old_fields = fields@;
                proof {
                    assert(fv.len() == fields@.len());
                    assert forall|k: int| 0 <= k < fields@.len() implies #[trigger] fv[k] == (
                        fields@[k].0@,
                        fields@[k].1@,
                    ) by {}
                }
                let mut i: usize = 0;
                while i < fields.len()
                    invariant
                        fields@ == old_fields,
                        fv.len() == fields@.len(),
                        forall|k: int|
                            0 <= k < fields@.len() ==> #[trigger] fv[k] == (
                                fields@[k].0@,
                                fields@[k].1@,
                            ),
                        i <= fields.len(),
                        forall|k: int| 0 <= k < i ==> fv[k].0 != key@,
                    ensures
                        i <= fields.len(),
                        forall|k: int| 0 <= k < i ==> fv[k].0 != key@,
                        i < fields.len() ==> fv[i as int].0 == key@,
                    decreases fields.len() - i,
                {
                    if crate::text::str_eq(fields[i].0.as_str(), key) {
                        break;
                    }
                    i = i + 1;
                }
                proof {
                    lemma_fields_insert_split(fv, i as int, key@, value@);
                }
                let ghost vv = value@;
                if i < fields.len() {
                    let k = fields[i].0.clone();
                    fields.set(i, (k, value));
                    proof {
                        assert(fields@.len() == old_fields.len());
                    }
                } else {
                    fields.push((String::from_str(key), value));
                }
                proof {
                    if let JsonV::Object(nf) = self@ {
                        assert(nf =~= fields_insert(fv, key@, vv));
                    }
                }
            },
            _ => {},
        }
    }

    /// Binds `key` to a string value.
    pub fn insert_str(&mut self, key: &str, value: &str)
        ensures
            final(self)@ == json_insert(old(self)@, key@, JsonV::Str(value@)),
    {
        self.insert(key, Json::new_str(value));
    }
}

/// Appends the compact JSON text of `v`.
#[verifier::loop_isolation(false)]
pub fn write_json(out: &mut String, v: &Json)
    ensures
        final(out)@ == old(out)@ + json_text(v@),
    decreases v,
{
    let ghost start = out@;
    match v {
        Json::Null => push_str(out, "null"),
        Json::Bool(b) => {
            if *b {
                push_str(out, "true")
            } else {
                push_str(out, "false")
            }
        },
        Json::Int(i) => write_i64(out, *i),
        Json::UInt(u) => write_u64(out, *u),
        Json::Float(t, _) => out.append(t.as_str()),
        Json::Str(s) => write_quoted(out, s.as_str()),
        Json::Array(items) => {
            let ghost iv = match v@ {
                JsonV::Array(a) => a,
                _ => Seq::empty(),
            };
            push_char(out, '[');
            let mut i: usize = 0;
            while i < items.len()
                invariant
                    iv.len() == items@.len(),
                    forall|k: int| 0 <= k < items@.len() ==> #[trigger] iv[k] == items@[k]@,
                    i <= items.len(),
                    out@ == start + seq!['['] + items_text(iv.subrange(0, i as int)),
                decreases items.len() - i,
            {
                let ghost pre = out@;
                if i > 0 {
                    push_char(out, ',');
                }
                assert(decreases_to!(*items => items[i as int]));
                write_json(out, &items[i]);
                i = i + 1;
                proof {
                    let cur = iv.subrange(0, i as int);
                    assert(cur.subrange(0, cur.len() - 1) =~= iv.subrange(0, i - 1));
                    assert(cur[cur.len() - 1] == iv[i - 1]);
                    if i == 1 {
                        assert(out@ =~= start + seq!['['] + items_text(cur));
                    } else {
                        assert(out@ =~= start + seq!['['] + items_text(cur));
                    }
                }
            }
            push_char(out, ']');
            proof {
                assert(iv.subrange(0, items.len() as int) =~= iv);
                assert(out@ =~= start + json_text(v@));
            }
        },
        Json::Object(fields) => {
            let ghost fv = match v@ {
                JsonV::Object(f) => f,
                _ => Seq::empty(),
            };
            push_char(out, '{');
            let mut i: usize = 0;
            while i < fields.len()
                invariant
                    fv.len() == fields@.len(),
                    forall|k: int|
                        0 <= k < fields@.len() ==> #[trigger] fv[k] == (
                            fields@[k].0@,
                            fields@[k].1@,
                        ),
                    i <= fields.len(),
                    out@ == start + seq!['{'] + fields_text(fv.subrange(0, i as int)),
                decreases fields.len() - i,
            {
                if i > 0 {
                    push_char(out, ',');
                }
                let ghost before = out@;
                write_quoted(out, fields[i].0.as_str());
                push_char(out, ':');
                assert(decreases_to!(*fields => fields[i as int]));
                write_json(out, &fields[i].1);
                i = i + 1;
                proof {
                    let cur = fv.subrange(0, i as int);
                    assert(cur.subrange(0, cur.len() - 1) =~= fv.subrange(0, i - 1));
                    assert(cur[cur.len() - 1] == fv[i - 1]);
                    assert(out@ =~= before + field_text(fv[i - 1]));
                    assert(out@ =~= start + seq!['{'] + fields_text(cur));
                }
            }
            push_char(out, '}');
            proof {
                assert(fv.subrange(0, fields.len() as int) =~= fv);
                assert(out@ =~= start + json_text(v@));
            }
        },
    }
    proof {
        if v@ is Null || v@ is Bool {
            reveal_strlit("null");
            reveal_strlit("true");
            reveal_strlit("false");
            assert(out@ =~= start + json_text(v@));
        }
    }
}

/// Compact JSON text of `v`.
pub fn to_text(v: &Json) -> (r: String)
    ensures
        r@ == json_text(v@),
{
    let mut s = String::new();
    write_json(&mut s, v);
    proof {
        assert(s@ =~= json_text(v@));
    }
    s
}

/// Appends `v` as a message shows it: strings in single quotes, other values as JSON text.
pub fn write_repr(out: &mut String, v: &Json)
    ensures
        final(out)@ == old(out)@ + repr_text(v@),
{
    let ghost start = out@;
    match v {
        Json::Str(s) => {
            push_char(out, '\'');
            out.append(s.as_str());
            push_char(out, '\'');
            proof {
                assert(out@ =~= start + repr_text(v@));
            }
        },
        _ => write_json(out, v),
    }
}

/// The text of `v` as a message shows it: a string's own text, other values as JSON text.
pub fn plain(v: &Json) -> (r: String)
    ensures
        r@ == plain_text(v@),
{
    match v {
        Json::Str(s) => s.clone(),
        _ => to_text(v),
    }
}

} // verus!
