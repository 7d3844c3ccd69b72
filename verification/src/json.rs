//! JSON values, their text form and the few operations that the rest of the
//! crate needs. Reading and writing JSON text is left to `serde_json`.

use vstd::prelude::*;
use vstd::utf8::encode_utf8;

use crate::text::{
    all_digits, decimal, decimal_string, decimal_value, digits_value, has_prefix, opt_view,
    parse_unsigned, str_eq,
};

verus! {

/// A JSON number, held as its JSON text.
#[derive(Debug, PartialEq, Eq)]
pub struct JsonNumber {
    text: String,
}

impl View for JsonNumber {
    type V = Seq<char>;

    closed spec fn view(&self) -> Seq<char> {
        self.text@
    }
}

/// A JSON value. The members of an object keep their order, and no two of an
/// object that came out of a parser have the same name.
#[derive(Debug, PartialEq, Eq)]
pub enum Json {
    Null,
    Bool(bool),
    Number(JsonNumber),
    Text(String),
    Array(Vec<Json>),
    Object(Vec<(String, Json)>),
}

/// What a JSON value is, mathematically.
pub enum JsonView {
    Null,
    Bool(bool),
    Number(Seq<char>),
    Text(Seq<char>),
    Array(Seq<JsonView>),
    Object(Seq<(Seq<char>, JsonView)>),
}

impl View for Json {
    type V = JsonView;

    open spec fn view(&self) -> JsonView {
        self.model()
    }
}

impl Json {
    /// What the value is, mathematically.
    pub open spec fn model(self) -> JsonView
        decreases self,
    {
        match self {
            Json::Null => JsonView::Null,
            Json::Bool(b) => JsonView::Bool(b),
            Json::Number(n) => JsonView::Number(n@),
            Json::Text(s) => JsonView::Text(s@),
            Json::Array(v) => JsonView::Array(
                Seq::new(
                    v@.len(),
                    |i: int|
                        if 0 <= i < v@.len() {
                            v@[i].model()
                        } else {
                            JsonView::Null
                        },
                ),
            ),
            Json::Object(v) => JsonView::Object(
                Seq::new(
                    v@.len(),
                    |i: int|
                        if 0 <= i < v@.len() {
                            (v@[i].0@, v@[i].1.model())
                        } else {
                            (Seq::empty(), JsonView::Null)
                        },
                ),
            ),
        }
    }
}

/// What the items of an array are.
pub open spec fn items_view(v: Seq<Json>) -> Seq<JsonView> {
    v.map_values(|j: Json| j@)
}

/// What the members of an object are.
pub open spec fn members_view(v: Seq<(String, Json)>) -> Seq<(Seq<char>, JsonView)> {
    v.map_values(|m: (String, Json)| (m.0@, m.1@))
}

/// An array is its items, in order.
pub broadcast proof fn array_view(v: Vec<Json>)
    ensures
        #[trigger] Json::Array(v)@ == JsonView::Array(items_view(v@)),
{
    assert(Json::Array(v)@->Array_0 =~= items_view(v@));
}

/// An object is its members, in order.
pub broadcast proof fn object_view(v: Vec<(String, Json)>)
    ensures
        #[trigger] Json::Object(v)@ == JsonView::Object(members_view(v@)),
{
    reveal_with_fuel(Json::model, 2);
    let j = Json::Object(v);
    let a = j@->Object_0;
    assert(a.len() == v@.len());
    let b = members_view(v@);
    assert forall|i: int| 0 <= i < v@.len() implies a[i] == b[i] by {
        assert(a[i] == (v@[i].0@, v@[i].1@));
    }
    assert(a =~= b);
}

/// The value of the first member named `key`.
pub open spec fn lookup(ms: Seq<(Seq<char>, JsonView)>, key: Seq<char>) -> Option<JsonView>
    decreases ms.len(),
{
    if ms.len() == 0 {
        None
    } else if ms[0].0 == key {
        Some(ms[0].1)
    } else {
        lookup(ms.drop_first(), key)
    }
}

/// `ms` with the value of `key` set: in place when there is such a member, at
/// the end when there is none.
pub open spec fn with_member(
    ms: Seq<(Seq<char>, JsonView)>,
    key: Seq<char>,
    value: JsonView,
) -> Seq<(Seq<char>, JsonView)>
    decreases ms.len(),
{
    if ms.len() == 0 {
        seq![(key, value)]
    } else if ms[0].0 == key {
        seq![(key, value)] + ms.drop_first()
    } else {
        seq![ms[0]] + with_member(ms.drop_first(), key, value)
    }
}

/// `ms` without the members named `key`.
pub open spec fn without_member(ms: Seq<(Seq<char>, JsonView)>, key: Seq<char>) -> Seq<
    (Seq<char>, JsonView),
>
    decreases ms.len(),
{
    if ms.len() == 0 {
        ms
    } else if ms.last().0 == key {
        without_member(ms.drop_last(), key)
    } else {
        without_member(ms.drop_last(), key).push(ms.last())
    }
}

/// A name is looked up where it stands first.
pub proof fn lookup_at(ms: Seq<(Seq<char>, JsonView)>, key: Seq<char>, i: int)
    requires
        0 <= i < ms.len(),
        ms[i].0 == key,
        forall|k: int| 0 <= k < i ==> (#[trigger] ms[k]).0 != key,
    ensures
        lookup(ms, key) == Some(ms[i].1),
    decreases i,
{
    if i > 0 {
        let rest = ms.drop_first();
        assert forall|k: int| 0 <= k < i - 1 implies (#[trigger] rest[k]).0 != key by {
            assert(rest[k] == ms[k + 1]);
        }
        lookup_at(rest, key, i - 1);
    }
}

/// What stands under `key` afterwards is what was put there; the other names
/// are untouched.
pub proof fn lookup_with_member(
    ms: Seq<(Seq<char>, JsonView)>,
    key: Seq<char>,
    value: JsonView,
    other: Seq<char>,
)
    ensures
        lookup(with_member(ms, key, value), other) == if other == key {
            Some(value)
        } else {
            lookup(ms, other)
        },
    decreases ms.len(),
{
    let after = with_member(ms, key, value);
    if ms.len() == 0 {
        assert(after.drop_first() =~= ms);
    } else if ms[0].0 == key {
        assert(after.drop_first() =~= ms.drop_first());
    } else {
        lookup_with_member(ms.drop_first(), key, value, other);
        assert(after.drop_first() =~= with_member(ms.drop_first(), key, value));
    }
}

impl JsonView {
    /// The member named `key`, when this is an object that has one.
    pub open spec fn get(self, key: Seq<char>) -> Option<JsonView> {
        match self {
            JsonView::Object(ms) => lookup(ms, key),
            _ => None,
        }
    }

    /// The text, when this is a string.
    pub open spec fn as_text(self) -> Option<Seq<char>> {
        match self {
            JsonView::Text(s) => Some(s),
            _ => None,
        }
    }

    /// The number, when this is one that is a plain unsigned 64-bit integer.
    pub open spec fn as_u64(self) -> Option<nat> {
        match self {
            JsonView::Number(t) => if all_digits(t) && digits_value(t) <= u64::MAX {
                Some(digits_value(t))
            } else {
                None
            },
            _ => None,
        }
    }
}

impl JsonNumber {
    /// The number `n`.
    pub fn from_u64(n: u64) -> (r: JsonNumber)
        ensures
            r@ == decimal(n as nat),
    {
        JsonNumber { text: decimal_string(n) }
    }

    /// The JSON text of the number.
    pub fn as_str(&self) -> (r: &str)
        ensures
            r@ == self@,
    {
        self.text.as_str()
    }
}

impl Clone for JsonNumber {
    fn clone(&self) -> (r: JsonNumber)
        ensures
            r@ == self@,
    {
        JsonNumber { text: self.text.clone() }
    }
}

impl Clone for Json {
    fn clone(&self) -> (r: Json)
        ensures
            r@ == self@,
        decreases self,
    {
        broadcast use {array_view, object_view};

        match self {
            Json::Null => Json::Null,
            Json::Bool(b) => Json::Bool(*b),
            Json::Number(n) => Json::Number(n.clone()),
            Json::Text(s) => Json::Text(s.clone()),
            Json::Array(v) => {
                let mut out: Vec<Json> = Vec::new();
                let mut i: usize = 0;
                while i < v.len()
                    invariant
                        self matches Json::Array(w) && *v == w,
                        i <= v@.len(),
                        items_view(out@) =~= items_view(v@).take(i as int),
                    decreases v@.len() - i,
                {
                    out.push(v[i].clone());
                    assert(items_view(v@).take(i as int + 1) =~= items_view(v@).take(i as int).push(
                        v@[i as int]@,
                    ));
                    i += 1;
                }
                assert(items_view(out@) =~= items_view(v@));
                Json::Array(out)
            },
            Json::Object(v) => {
                let mut out: Vec<(String, Json)> = Vec::new();
                let mut i: usize = 0;
                while i < v.len()
                    invariant
                        self matches Json::Object(w) && *v == w,
                        i <= v@.len(),
                        members_view(out@) =~= members_view(v@).take(i as int),
                    decreases v@.len() - i,
                {
                    out.push((v[i].0.clone(), v[i].1.clone()));
                    assert(members_view(v@).take(i as int + 1) =~= members_view(v@).take(
                        i as int,
                    ).push((v@[i as int].0@, v@[i as int].1@)));
                    i += 1;
                }
                assert(members_view(out@) =~= members_view(v@));
                Json::Object(out)
            },
        }
    }
}

/// The value of the first member of `ms` named `key`.
pub fn find_member<'a>(ms: &'a Vec<(String, Json)>, key: &str) -> (r: Option<&'a Json>)
    ensures
        match r {
            Some(j) => lookup(members_view(ms@), key@) == Some(j@),
            None => lookup(members_view(ms@), key@) is None,
        },
{
    let mut i: usize = 0;
    assert(members_view(ms@).skip(0) =~= members_view(ms@));
    while i < ms.len()
        invariant
            i <= ms@.len(),
            lookup(members_view(ms@), key@) == lookup(members_view(ms@).skip(i as int), key@),
        decreases ms@.len() - i,
    {
        if str_eq(ms[i].0.as_str(), key) {
            return Some(&ms[i].1);
        }
        assert(members_view(ms@).skip(i as int).drop_first() =~= members_view(ms@).skip(
            i as int + 1,
        ));
        i += 1;
    }
    None
}

/// Sets the member `key` of `ms` to `value`, in place when there is one and at
/// the end when there is none.
pub fn set_member(ms: Vec<(String, Json)>, key: &str, value: Json) -> (r: Vec<(String, Json)>)
    ensures
        members_view(r@) == with_member(members_view(ms@), key@, value@),
{
    let ghost before = members_view(ms@);
    let n: usize = ms.len();
    let mut out: Vec<(String, Json)> = Vec::new();
    let mut i: usize = 0;
    let mut found: bool = false;
    assert(before.skip(0) =~= before);
    while i < ms.len()
        invariant_except_break
            !found,
        invariant
            i <= ms@.len(),
            before == members_view(ms@),
            out@.len() == i,
            members_view(out@) =~= before.take(i as int),
            with_member(before, key@, value@) =~= before.take(i as int) + with_member(
                before.skip(i as int),
                key@,
                value@,
            ),
        ensures
            found ==> i < ms@.len() && before[i as int].0 == key@,
            !found ==> i == ms@.len(),
        decreases ms@.len() - i,
    {
        if str_eq(ms[i].0.as_str(), key) {
            found = true;
            break;
        }
        proof {
            let s = before.skip(i as int);
            assert(s.drop_first() =~= before.skip(i as int + 1));
            assert(before.take(i as int + 1) =~= before.take(i as int).push(before[i as int]));
        }
        out.push((ms[i].0.clone(), ms[i].1.clone()));
        i += 1;
    }
    let ghost at = i as int;
    out.push((key.to_owned(), value));
    if found {
        assert(before.skip(at).drop_first() =~= before.skip(at + 1));
        i += 1;
    }
    while i < ms.len()
        invariant
            before == members_view(ms@),
            found ==> at + 1 <= i,
            i <= ms@.len(),
            0 <= at <= ms@.len(),
            !found ==> i == ms@.len() && at == ms@.len(),
            members_view(out@) =~= before.take(at) + seq![(key@, value@)] + if found {
                before.subrange(at + 1, i as int)
            } else {
                Seq::empty()
            },
        decreases ms@.len() - i,
    {
        let ghost sofar = members_view(out@);
        out.push((ms[i].0.clone(), ms[i].1.clone()));
        proof {
            let next = (ms@[i as int].0@, ms@[i as int].1@);
            assert(before[i as int] == next);
            assert(members_view(out@) =~= sofar.push(next));
            assert(before.subrange(at + 1, i as int + 1) =~= before.subrange(at + 1, i as int).push(
                next,
            ));
        }
        i += 1;
    }
    proof {
        if found {
            assert(before.subrange(at + 1, i as int) =~= before.skip(at + 1));
        } else {
            assert(before.skip(at) =~= Seq::<(Seq<char>, JsonView)>::empty());
        }
    }
    out
}

/// The members of `ms` that are not named `key`, in order.
pub fn drop_member(ms: &Vec<(String, Json)>, key: &str) -> (r: Vec<(String, Json)>)
    ensures
        members_view(r@) == without_member(members_view(ms@), key@),
{
    let ghost before = members_view(ms@);
    let mut out: Vec<(String, Json)> = Vec::new();
    let mut i: usize = 0;
    assert(before.take(0) =~= Seq::<(Seq<char>, JsonView)>::empty());
    while i < ms.len()
        invariant
            before == members_view(ms@),
            i <= ms@.len(),
            members_view(out@) =~= without_member(before.take(i as int), key@),
        decreases ms@.len() - i,
    {
        assert(before.take(i as int + 1).drop_last() =~= before.take(i as int));
        assert(before.take(i as int + 1).last() == before[i as int]);
        if !str_eq(ms[i].0.as_str(), key) {
            out.push((ms[i].0.clone(), ms[i].1.clone()));
        }
        i += 1;
    }
    assert(before.take(before.len() as int) =~= before);
    out
}

/// A copy of every member, in order.
pub fn clone_members(ms: &Vec<(String, Json)>) -> (r: Vec<(String, Json)>)
    ensures
        members_view(r@) == members_view(ms@),
{
    let mut out: Vec<(String, Json)> = Vec::new();
    let mut i: usize = 0;
    while i < ms.len()
        invariant
            i <= ms@.len(),
            members_view(out@) =~= members_view(ms@).take(i as int),
        decreases ms@.len() - i,
    {
        out.push((ms[i].0.clone(), ms[i].1.clone()));
        assert(members_view(ms@).take(i as int + 1) =~= members_view(ms@).take(i as int).push(
            (ms@[i as int].0@, ms@[i as int].1@),
        ));
        i += 1;
    }
    assert(members_view(out@) =~= members_view(ms@));
    out
}

impl Json {
    /// The member named `key`, when this is an object that has one.
    pub fn get(&self, key: &str) -> (r: Option<&Json>)
        ensures
            match r {
                Some(j) => self@.get(key@) == Some(j@),
                None => self@.get(key@) is None,
            },
    {
        broadcast use object_view;

        match self {
            Json::Object(ms) => {
                assert(Json::Object(*ms)@ == self@);
                find_member(ms, key)
            },
            _ => None,
        }
    }

    /// The text, when this is a string.
    pub fn as_str(&self) -> (r: Option<&str>)
        ensures
            match r {
                Some(s) => self@.as_text() == Some(s@),
                None => self@.as_text() is None,
            },
    {
        match self {
            Json::Text(s) => Some(s.as_str()),
            _ => None,
        }
    }

    /// The number, when this is one that is a plain unsigned 64-bit integer.
    pub fn as_u64(&self) -> (r: Option<u64>)
        ensures
            match r {
                Some(n) => self@.as_u64() == Some(n as nat),
                None => self@.as_u64() is None,
            },
    {
        match self {
            Json::Number(t) => {
                let s: &str = t.as_str();
                let cs: Vec<char> = crate::text::chars_of(s);
                if cs.len() > 0 && cs[0] == '+' {
                    assert(!crate::text::is_digit(s@[0]));
                    return None;
                }
                parse_unsigned(s, u64::MAX)
            },
            _ => None,
        }
    }

    /// A string value.
    pub fn text(s: &str) -> (r: Json)
        ensures
            r@ == JsonView::Text(s@),
    {
        Json::Text(s.to_owned())
    }

    /// A number value.
    pub fn number(n: u64) -> (r: Json)
        ensures
            r@ == JsonView::Number(decimal(n as nat)),
    {
        Json::Number(JsonNumber::from_u64(n))
    }
}

/// What `serde_json` reads from a sequence of bytes: the value, or the text of
/// its error.
pub uninterp spec fn json_of_bytes(bytes: Seq<u8>) -> Result<JsonView, Seq<char>>;

/// What `serde_json` reads from a text.
pub open spec fn json_of_text(s: Seq<char>) -> Result<JsonView, Seq<char>> {
    json_of_bytes(encode_utf8(s))
}

/// The outcome of reading the value `j`.
pub open spec fn parsed(j: JsonView) -> Result<JsonView, Seq<char>> {
    Ok(j)
}

/// What the outcome of reading is.
pub open spec fn json_result(r: Result<Json, String>) -> Result<JsonView, Seq<char>> {
    match r {
        Ok(j) => Ok(j@),
        Err(e) => Err(e@),
    }
}

/// The compact JSON text that `serde_json` writes for a value.
pub uninterp spec fn compact_json(j: JsonView) -> Seq<char>;

/// The indented JSON text, as bytes, that `serde_json` writes for a value.
pub uninterp spec fn pretty_json(j: JsonView) -> Seq<u8>;

/// What the member names begin with that `serde_json` keeps for itself: an
/// object whose first member has such a name can be read as something else.
pub const RESERVED_PREFIX: &'static str = "$serde_json::private::";

/// Whether a value comes back unchanged when its JSON text is read again: its
/// numbers are unsigned 64-bit integers, no object names a member twice or
/// under a reserved name, and arrays and objects are nested at most `depth`
/// deep.
pub open spec fn round_trips(j: JsonView, depth: nat) -> bool
    decreases j,
{
    match j {
        JsonView::Null => true,
        JsonView::Bool(_) => true,
        JsonView::Text(_) => true,
        JsonView::Number(t) => exists|n: nat| n <= u64::MAX && t == #[trigger] decimal(n),
        JsonView::Array(s) => depth > 0 && forall|i: int|
            0 <= i < s.len() ==> round_trips(#[trigger] s[i], (depth - 1) as nat),
        JsonView::Object(ms) => {
            &&& depth > 0
            &&& forall|i: int|
                0 <= i < ms.len() ==> round_trips((#[trigger] ms[i]).1, (depth - 1) as nat)
            &&& forall|i: int, k: int|
                0 <= i < k < ms.len() ==> (#[trigger] ms[i]).0 != (#[trigger] ms[k]).0
            &&& forall|i: int|
                0 <= i < ms.len() ==> !has_prefix((#[trigger] ms[i]).0, RESERVED_PREFIX@)
        },
    }
}

/// A name that does not begin with `$` is not reserved.
pub proof fn unreserved_name(name: Seq<char>)
    requires
        name.len() > 0,
        name[0] != '$',
    ensures
        !has_prefix(name, RESERVED_PREFIX@),
{
    reveal_strlit("$serde_json::private::");
    if has_prefix(name, RESERVED_PREFIX@) {
        assert(name.take(RESERVED_PREFIX@.len() as int)[0] == name[0]);
    }
}

/// A JSON value of `serde_json`.
#[verifier::external_type_specification]
#[verifier::external_body]
pub struct ExValue(serde_json::Value);

/// Converts a `serde_json::Value`, one for one. A number becomes its JSON text.
#[verifier::external_body]
pub(crate) fn json_of_value(value: serde_json::Value) -> Json {
    match value {
        serde_json::Value::Null => Json::Null,
        serde_json::Value::Bool(b) => Json::Bool(b),
        serde_json::Value::Number(n) => Json::Number(JsonNumber { text: n.to_string() }),
        serde_json::Value::String(s) => Json::Text(s),
        serde_json::Value::Array(v) => Json::Array(v.into_iter().map(json_of_value).collect()),
        serde_json::Value::Object(m) => Json::Object(
            m.into_iter().map(|(k, v)| (k, json_of_value(v))).collect(),
        ),
    }
}

/// Converts to a `serde_json::Value`, one for one. A number is read back from
/// its JSON text.
#[verifier::external_body]
fn value_of_json(json: &Json) -> serde_json::Value {
    match json {
        Json::Null => serde_json::Value::Null,
        Json::Bool(b) => serde_json::Value::Bool(*b),
        Json::Number(n) => n.text.parse().map_or(serde_json::Value::Null, serde_json::Value::Number),
        Json::Text(s) => serde_json::Value::String(s.clone()),
        Json::Array(v) => serde_json::Value::Array(v.iter().map(value_of_json).collect()),
        Json::Object(m) => serde_json::Value::Object(
            m.iter().map(|(k, v)| (k.clone(), value_of_json(v))).collect(),
        ),
    }
}

/// Calls `serde_json::from_slice`: the value that the bytes denote, or the text
/// of the error, both functions of the bytes alone.
#[verifier::external_body]
fn read_json(bytes: &[u8]) -> (r: Result<Json, String>)
    ensures
        json_result(r) == json_of_bytes(bytes@),
{
    serde_json::from_slice(bytes).map(json_of_value).map_err(|e| e.to_string())
}

/// Calls the `Display` impl of `serde_json::Value`: compact JSON text, a
/// function of the value alone.
#[verifier::external_body]
fn write_compact(json: &Json) -> (r: String)
    ensures
        r@ == compact_json(json@),
{
    value_of_json(json).to_string()
}

/// Calls `serde_json::to_vec_pretty`, which does not fail on a
/// `serde_json::Value`: indented JSON text, a function of the value alone.
/// Reading that text back gives the value again, for the values that
/// `round_trips` describes: the parser gives up on deeper nesting, and takes an
/// object that begins with a reserved name for something else.
#[verifier::external_body]
fn write_pretty(json: &Json) -> (r: Vec<u8>)
    ensures
        r@ == pretty_json(json@),
        round_trips(json@, 100) ==> json_of_bytes(r@) == parsed(json@),
{
    serde_json::to_vec_pretty(&value_of_json(json)).unwrap_or_default()
}

impl Json {
    /// Reads a JSON value from bytes; the error is the parser's message. Of a
    /// member that is named twice the last value counts, and what a value
    /// cannot hold, such as a number out of range, is an error wherever it
    /// stands.
    pub fn parse_bytes(bytes: &[u8]) -> (r: Result<Json, String>)
        ensures
            json_result(r) == json_of_bytes(bytes@),
    {
        read_json(bytes)
    }

    /// Reads a JSON value from text; the error is the parser's message. Of a
    /// member that is named twice the last value counts, and what a value
    /// cannot hold, such as a number out of range, is an error wherever it
    /// stands.
    pub fn parse(text: &str) -> (r: Result<Json, String>)
        ensures
            json_result(r) == json_of_text(text@),
    {
        read_json(text.as_bytes())
    }

    /// The compact JSON text of the value.
    pub fn to_text(&self) -> (r: String)
        ensures
            r@ == compact_json(self@),
    {
        write_compact(self)
    }

    /// The indented JSON text of the value, as bytes.
    pub fn to_pretty_bytes(&self) -> (r: Vec<u8>)
        ensures
            r@ == pretty_json(self@),
            round_trips(self@, 100) ==> json_of_bytes(r@) == parsed(self@),
    {
        write_pretty(self)
    }
}

/// Whether a value can stand for a record of `max` fields: an object, or an
/// array of the fields by position of which only those past `min` may be left
/// off.
pub open spec fn is_record(j: JsonView, min: nat, max: nat) -> bool {
    match j {
        JsonView::Object(_) => true,
        JsonView::Array(items) => min <= items.len() <= max,
        _ => false,
    }
}

/// The field of a record that is called `name` and stands at `index`.
pub open spec fn field(j: JsonView, name: Seq<char>, index: nat) -> Option<JsonView> {
    match j {
        JsonView::Object(ms) => lookup(ms, name),
        JsonView::Array(items) => if index < items.len() {
            Some(items[index as int])
        } else {
            None
        },
        _ => None,
    }
}

/// A text field that may be absent or null; `None` when it is something else.
pub open spec fn optional_text(f: Option<JsonView>) -> Option<Option<Seq<char>>> {
    match f {
        None => Some(None),
        Some(JsonView::Null) => Some(None),
        Some(JsonView::Text(s)) => Some(Some(s)),
        Some(_) => None,
    }
}

/// A text field that must be there; `None` when it is not a text.
pub open spec fn required_text(f: Option<JsonView>) -> Option<Seq<char>> {
    match f {
        Some(JsonView::Text(s)) => Some(s),
        _ => None,
    }
}

/// What a decoded optional text is.
pub open spec fn opt_opt_view(r: Option<Option<String>>) -> Option<Option<Seq<char>>> {
    match r {
        Some(o) => Some(opt_view(o)),
        None => None,
    }
}

/// What an optional reference to a value is.
pub open spec fn opt_json(f: Option<&Json>) -> Option<JsonView> {
    match f {
        Some(j) => Some(j@),
        None => None,
    }
}

impl Json {
    /// Whether the value can stand for a record of `max` fields.
    pub fn can_be_record(&self, min: usize, max: usize) -> (r: bool)
        ensures
            r == is_record(self@, min as nat, max as nat),
    {
        broadcast use array_view;

        match self {
            Json::Object(_) => true,
            Json::Array(items) => {
                assert(Json::Array(*items)@ == self@);
                min <= items.len() && items.len() <= max
            },
            _ => false,
        }
    }

    /// The field of a record that is called `name` and stands at `index`.
    pub fn record_field(&self, name: &str, index: usize) -> (r: Option<&Json>)
        ensures
            opt_json(r) == field(self@, name@, index as nat),
    {
        broadcast use {array_view, object_view};

        match self {
            Json::Object(ms) => {
                assert(Json::Object(*ms)@ == self@);
                find_member(ms, name)
            },
            Json::Array(items) => {
                assert(Json::Array(*items)@ == self@);
                if index < items.len() {
                    Some(&items[index])
                } else {
                    None
                }
            },
            _ => None,
        }
    }
}

/// The number of a JSON value that holds the number `n`.
pub proof fn number_as_u64(n: u64)
    ensures
        JsonView::Number(decimal(n as nat)).as_u64() == Some(n as nat),
{
    decimal_value(n as nat);
}

/// Reads a text field that may be absent or null.
pub fn read_optional_text(f: Option<&Json>) -> (r: Option<Option<String>>)
    ensures
        opt_opt_view(r) == optional_text(opt_json(f)),
{
    match f {
        None => Some(None),
        Some(Json::Null) => Some(None),
        Some(Json::Text(s)) => Some(Some(s.clone())),
        Some(_) => None,
    }
}

/// Reads a text field that must be there.
pub fn read_required_text(f: Option<&Json>) -> (r: Option<String>)
    ensures
        opt_view(r) == required_text(opt_json(f)),
{
    match f {
        Some(Json::Text(s)) => Some(s.clone()),
        _ => None,
    }
}

/// A name that was taken out is not found any more; the other names are untouched.
pub proof fn lookup_without_member(
    ms: Seq<(Seq<char>, JsonView)>,
    key: Seq<char>,
    other: Seq<char>,
)
    ensures
        lookup(without_member(ms, key), key) is None,
        other != key ==> lookup(without_member(ms, key), other) == lookup(ms, other),
    decreases ms.len(),
{
    if ms.len() > 0 {
        let front = ms.drop_last();
        lookup_without_member(front, key, other);
        assert(ms =~= front.push(ms.last()));
        lookup_behind(front, ms.last(), other);
        lookup_behind(without_member(front, key), ms.last(), other);
        lookup_behind(without_member(front, key), ms.last(), key);
    }
}

proof fn lookup_behind(ms: Seq<(Seq<char>, JsonView)>, m: (Seq<char>, JsonView), key: Seq<char>)
    ensures
        lookup(ms.push(m), key) == match lookup(ms, key) {
            Some(v) => Some(v),
            None => if m.0 == key {
                Some(m.1)
            } else {
                None
            },
        },
    decreases ms.len(),
{
    let all = ms.push(m);
    if ms.len() == 0 {
        assert(all.drop_first() =~= ms);
    } else {
        assert(all.drop_first() =~= ms.drop_first().push(m));
        lookup_behind(ms.drop_first(), m, key);
    }
}

/// Values are read by their kinds: a text that must be there, one that may be missing
/// or null, and whole numbers without a sign.
pub proof fn kinds_are_told_apart(j: JsonView, t: Seq<char>)
    ensures
        required_text(Some(j)) is Some <==> j is Text,
        j == JsonView::Text(t) ==> required_text(Some(j)) == Some(t) && optional_text(Some(j))
            == Some(Some(t)),
        required_text(None) is None,
        optional_text(None) == Some(None::<Seq<char>>),
        optional_text(Some(JsonView::Null)) == Some(None::<Seq<char>>),
        optional_text(Some(j)) is None <==> !(j is Text || j is Null),
        j !is Number ==> j.as_u64() is None,
        j !is Object ==> j.get(t) is None,
{
}

} // verus!
