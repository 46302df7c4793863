//! A JSON value tree as `serde_json` parses it, and the decoding of its
//! scalars (numbers, strings, defaults for `null` and missing members).

use vstd::prelude::*;
use vstd::string::StrSliceExecFns;

verus! {

/// A parsed JSON value. Numbers keep the text that `serde_json` renders for
/// them; object members keep the order in which the parser hands them out.
#[derive(Debug)]
pub enum JsonValue {
    Null,
    Bool(bool),
    Number(String),
    Str(String),
    Array(Vec<JsonValue>),
    Object(Vec<(String, JsonValue)>),
}

#[verifier::external_type_specification]
#[verifier::external_body]
pub struct ExSerdeJsonValue(serde_json::Value);

/// Converts a `serde_json::Value` into a [`JsonValue`], one variant for one.
#[verifier::external_body]
fn json_from_serde(value: serde_json::Value) -> JsonValue {
    match value {
        serde_json::Value::Null => JsonValue::Null,
        serde_json::Value::Bool(b) => JsonValue::Bool(b),
        serde_json::Value::Number(n) => JsonValue::Number(n.to_string()),
        serde_json::Value::String(s) => JsonValue::Str(s),
        serde_json::Value::Array(items) => JsonValue::Array(items.into_iter().map(json_from_serde).collect()),
        serde_json::Value::Object(map) => JsonValue::Object(map.into_iter().map(|(k, v)| (k, json_from_serde(v))).collect()),
    }
}

/// What `serde_json::from_str::<serde_json::Value>` yields for a text: the
/// value tree of a well-formed JSON document, or `None` where the text is not
/// one (trailing characters included).
pub uninterp spec fn spec_parse_json(text: Seq<char>) -> Option<JsonValue>;

/// Calls `serde_json::from_str` to parse `text` into a `serde_json::Value`
/// and converts the result; a parse error becomes `None`.
#[verifier::external_body]
pub fn parse_json(text: &str) -> (r: Option<JsonValue>)
    ensures
        r == spec_parse_json(text@),
{
    serde_json::from_str::<serde_json::Value>(text).ok().map(json_from_serde)
}

/// The value of the first member named `key`.
pub open spec fn member_spec(entries: Seq<(String, JsonValue)>, key: Seq<char>) -> Option<JsonValue>
    decreases entries.len(),
{
    if entries.len() == 0 {
        None
    } else if entries[0].0@ == key {
        Some(entries[0].1)
    } else {
        member_spec(entries.drop_first(), key)
    }
}

/// Looks up the first member named `key` of an object's members.
pub fn member<'a>(entries: &'a Vec<(String, JsonValue)>, key: &str) -> (r: Option<&'a JsonValue>)
    ensures
        match r {
            Some(v) => member_spec(entries@, key@) == Some(*v),
            None => member_spec(entries@, key@).is_none(),
        },
{
    let mut i: usize = 0;
    assert(entries@.skip(0) =~= entries@);
    while i < entries.len()
        invariant
            i <= entries.len(),
            member_spec(entries@, key@) == member_spec(entries@.skip(i as int), key@),
        decreases entries.len() - i,
    {
        assert(entries@.skip(i as int).drop_first() =~= entries@.skip(i + 1));
        if crate::text::text_eq(entries[i].0.as_str(), key) {
            return Some(&entries[i].1);
        }
        i = i + 1;
    }
    assert(entries@.skip(i as int).len() == 0);
    None
}

/// Whether a character is an ASCII decimal digit.
pub open spec fn is_digit(c: char) -> bool {
    '0' <= c && c <= '9'
}

/// The value of a digit character.
pub open spec fn digit_value(c: char) -> nat {
    (c as u32 - '0' as u32) as nat
}

/// The number that a sequence of decimal digits denotes.
pub open spec fn digits_value(s: Seq<char>) -> nat
    decreases s.len(),
{
    if s.len() == 0 {
        0
    } else {
        digits_value(s.drop_last()) * 10 + digit_value(s.last())
    }
}

/// A non-empty sequence of decimal digits.
pub open spec fn is_digits(s: Seq<char>) -> bool {
    s.len() > 0 && forall|i: int| 0 <= i < s.len() ==> is_digit(#[trigger] s[i])
}

/// The unsigned number that a number text denotes, if it is made of
/// decimal digits only and the number is at most `bound`.
pub open spec fn unsigned_value_spec(s: Seq<char>, bound: nat) -> Option<nat> {
    if is_digits(s) && digits_value(s) <= bound {
        Some(digits_value(s))
    } else {
        None
    }
}

proof fn lemma_digits_value_grows(s: Seq<char>, i: int)
    requires
        0 <= i <= s.len(),
        forall|k: int| 0 <= k < s.len() ==> is_digit(#[trigger] s[k]),
    ensures
        digits_value(s.take(i)) <= digits_value(s),
    decreases s.len() - i,
{
    if i < s.len() {
        lemma_digits_value_grows(s, i + 1);
        assert(s.take(i + 1).drop_last() =~= s.take(i));
    } else {
        assert(s.take(i) =~= s);
    }
}

/// Reads a number text made of decimal digits whose value is at most
/// `bound`; any other text gives `None`.
pub fn parse_unsigned(text: &str, bound: u64) -> (r: Option<u64>)
    ensures
        match unsigned_value_spec(text@, bound as nat) {
            Some(v) => r == Some(v as u64),
            None => r.is_none(),
        },
{
    let n = text.unicode_len();
    if n == 0 {
        return None;
    }
    let mut value: u64 = 0;
    let mut i: usize = 0;
    while i < n
        invariant
            n == text@.len(),
            i <= n,
            forall|k: int| 0 <= k < i ==> is_digit(#[trigger] text@[k]),
            value as nat == digits_value(text@.take(i as int)),
            value <= bound,
        decreases n - i,
    {
        let c = text.get_char(i);
        if !('0' <= c && c <= '9') {
            assert(!is_digits(text@));
            return None;
        }
        let d = (c as u32 - '0' as u32) as u64;
        assert(text@.take(i + 1).drop_last() =~= text@.take(i as int));
        if d > bound || value > (bound - d) / 10 {
            proof {
                assert(forall|k: int| 0 <= k < i + 1 ==> is_digit(#[trigger] text@.take(i + 1)[k]));
                if is_digits(text@) {
                    lemma_digits_value_grows(text@, i + 1);
                }
                assert(digits_value(text@.take(i + 1)) == value * 10 + d);
                assert(value * 10 + d > bound) by (nonlinear_arith)
                    requires d > bound || value > (bound - d) / 10, value >= 0, d >= 0, d <= 9;
            }
            return None;
        }
        value = value * 10 + d;
        i = i + 1;
    }
    assert(text@.take(n as int) =~= text@);
    Some(value)
}

} // verus!

verus! {

/// The member value behind an optional reference.
pub open spec fn deref_member(v: Option<&JsonValue>) -> Option<JsonValue> {
    match v {
        Some(x) => Some(*x),
        None => None,
    }
}

/// A string member whose `null` or absent value reads as the empty string.
pub open spec fn string_or_default_spec(v: Option<JsonValue>) -> Option<Seq<char>> {
    match v {
        None => Some(Seq::<char>::empty()),
        Some(JsonValue::Null) => Some(Seq::<char>::empty()),
        Some(JsonValue::Str(s)) => Some(s@),
        Some(_) => None,
    }
}

/// A string member that must be present and hold a string.
pub open spec fn required_string_spec(v: Option<JsonValue>) -> Option<Seq<char>> {
    match v {
        Some(JsonValue::Str(s)) => Some(s@),
        _ => None,
    }
}

/// An unsigned number member that must be present and fit under `bound`.
pub open spec fn required_unsigned_spec(v: Option<JsonValue>, bound: nat) -> Option<nat> {
    match v {
        Some(JsonValue::Number(t)) => unsigned_value_spec(t@, bound),
        _ => None,
    }
}

/// A signed number member: an optional minus sign, then decimal digits, with
/// a value inside `i32`.
pub open spec fn required_i32_spec(v: Option<JsonValue>) -> Option<int> {
    match v {
        Some(JsonValue::Number(t)) => {
            if t@.len() > 0 && t@[0] == '-' {
                match unsigned_value_spec(t@.drop_first(), 0x8000_0000) {
                    Some(m) => Some(-m),
                    None => None,
                }
            } else {
                match unsigned_value_spec(t@, 0x7fff_ffff) {
                    Some(m) => Some(m as int),
                    None => None,
                }
            }
        },
        _ => None,
    }
}

/// Reads a string member, with `null` and absence read as the empty string.
pub fn string_or_default(v: Option<&JsonValue>) -> (r: Option<String>)
    ensures
        r.deep_view() == string_or_default_spec(deref_member(v)),
{
    match v {
        None => Some(String::new()),
        Some(JsonValue::Null) => Some(String::new()),
        Some(JsonValue::Str(s)) => Some(s.clone()),
        Some(_) => None,
    }
}

/// Reads a string member that must hold a string.
pub fn required_string(v: Option<&JsonValue>) -> (r: Option<String>)
    ensures
        r.deep_view() == required_string_spec(deref_member(v)),
{
    match v {
        Some(JsonValue::Str(s)) => Some(s.clone()),
        _ => None,
    }
}

/// Reads an unsigned number member no larger than `bound`.
pub fn required_unsigned(v: Option<&JsonValue>, bound: u64) -> (r: Option<u64>)
    ensures
        match required_unsigned_spec(deref_member(v), bound as nat) {
            Some(n) => r == Some(n as u64),
            None => r.is_none(),
        },
{
    match v {
        Some(JsonValue::Number(t)) => parse_unsigned(t.as_str(), bound),
        _ => None,
    }
}

/// Reads a number member that fits in `i32`.
pub fn required_i32(v: Option<&JsonValue>) -> (r: Option<i32>)
    ensures
        match required_i32_spec(deref_member(v)) {
            Some(n) => r == Some(n as i32),
            None => r.is_none(),
        },
{
    match v {
        Some(JsonValue::Number(t)) => {
            let n = t.as_str().unicode_len();
            if n > 0 && t.as_str().get_char(0) == '-' {
                let rest = t.as_str().substring_char(1, n);
                assert(rest@ =~= t@.drop_first());
                match parse_unsigned(rest, 0x8000_0000) {
                    Some(m) => Some((0 - (m as i64)) as i32),
                    None => None,
                }
            } else {
                match parse_unsigned(t.as_str(), 0x7fff_ffff) {
                    Some(m) => Some(m as i32),
                    None => None,
                }
            }
        },
        _ => None,
    }
}

} // verus!

verus! {

/// A type that can be read from a JSON value.
pub trait FromJson: DeepView + Sized {
    /// The value read from `v`, or `None` where `v` does not describe one.
    spec fn from_json_spec(v: JsonValue) -> Option<Self::V>;

    fn from_json(v: &JsonValue) -> (r: Option<Self>)
        ensures
            r.deep_view() == Self::from_json_spec(*v);
}

/// Reads every item with `f`; `None` as soon as one item cannot be read.
pub open spec fn decode_all<T>(items: Seq<JsonValue>, f: spec_fn(JsonValue) -> Option<T>) -> Option<Seq<T>>
    decreases items.len(),
{
    if items.len() == 0 {
        Some(Seq::empty())
    } else {
        match (decode_all(items.drop_last(), f), f(items.last())) {
            (Some(init), Some(x)) => Some(init.push(x)),
            _ => None,
        }
    }
}

/// [`FromJson::from_json_spec`] as a function value.
pub open spec fn reader<T: FromJson>() -> spec_fn(JsonValue) -> Option<T::V> {
    |x: JsonValue| T::from_json_spec(x)
}

/// A JSON array whose items all read as `T`.
pub open spec fn decode_list_spec<T: FromJson>(v: JsonValue) -> Option<Seq<T::V>> {
    match v {
        JsonValue::Array(items) => decode_all(items@, reader::<T>()),
        _ => None,
    }
}

/// Reads a JSON array of `T`.
pub fn decode_list<T: FromJson>(v: &JsonValue) -> (r: Option<Vec<T>>)
    ensures
        r.deep_view() == decode_list_spec::<T>(*v),
{
    match v {
        JsonValue::Array(items) => {
            let ghost f = reader::<T>();
            let mut out: Vec<T> = Vec::new();
            let mut i: usize = 0;
            while i < items.len()
                invariant
                    i <= items.len(),
                    f == reader::<T>(),
                    decode_list_spec::<T>(*v) == decode_all(items@, f),
                    decode_all(items@.take(i as int), f) == Some(out.deep_view()),
                decreases items.len() - i,
            {
                assert(items@.take(i + 1).drop_last() =~= items@.take(i as int));
                match T::from_json(&items[i]) {
                    Some(x) => {
                        out.push(x);
                        assert(out.deep_view() =~= out.deep_view().drop_last().push(x.deep_view()));
                    },
                    None => {
                        proof { lemma_decode_all_fails(items@, f, i as int); }
                        return None;
                    },
                }
                i = i + 1;
            }
            assert(items@.take(i as int) =~= items@);
            Some(out)
        },
        _ => None,
    }
}

proof fn lemma_decode_all_fails<T>(items: Seq<JsonValue>, f: spec_fn(JsonValue) -> Option<T>, i: int)
    requires
        0 <= i < items.len(),
        f(items[i]).is_none(),
    ensures
        decode_all(items, f).is_none(),
    decreases items.len(),
{
    if i < items.len() - 1 {
        lemma_decode_all_fails(items.drop_last(), f, i);
    }
}

} // verus!
