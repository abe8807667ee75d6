//! A JSON value as the glTF loader reads it, its parse from text, and the
//! lookups the loader uses.
use vstd::prelude::*;

verus! {

/// A parsed JSON value. A number carries its value where it is a
/// non-negative integer that fits in `u64`, and `None` otherwise: that is
/// all of a number the loader ever reads.
#[derive(Debug, PartialEq)]
pub enum JsonValue {
    Null,
    Bool(bool),
    Number(Option<u64>),
    Str(String),
    Array(Vec<JsonValue>),
    Object(Vec<(String, JsonValue)>),
}

/// Value of the first entry whose key is `key`, or `Null` where none is.
pub open spec fn entry_value(entries: Seq<(String, JsonValue)>, key: Seq<char>) -> JsonValue
    decreases entries.len(),
{
    if entries.len() == 0 {
        JsonValue::Null
    } else if entries[0].0@ == key {
        entries[0].1
    } else {
        entry_value(entries.drop_first(), key)
    }
}

/// `v[key]`: the member `key` of an object, `Null` for a missing member or a
/// value that is not an object.
pub open spec fn member(v: JsonValue, key: Seq<char>) -> JsonValue {
    match v {
        JsonValue::Object(entries) => entry_value(entries@, key),
        _ => JsonValue::Null,
    }
}

/// `v[i]`: element `i` of an array, `Null` out of bounds or for a value that
/// is not an array.
pub open spec fn element(v: JsonValue, i: int) -> JsonValue {
    match v {
        JsonValue::Array(items) => if 0 <= i < items@.len() {
            items@[i]
        } else {
            JsonValue::Null
        },
        _ => JsonValue::Null,
    }
}

/// The value as an unsigned integer, where it is one.
pub open spec fn as_u64_of(v: JsonValue) -> Option<u64> {
    match v {
        JsonValue::Number(n) => n,
        _ => None,
    }
}

/// The elements of an array.
pub open spec fn as_array_of(v: JsonValue) -> Option<Seq<JsonValue>> {
    match v {
        JsonValue::Array(items) => Some(items@),
        _ => None,
    }
}

#[verifier::external_type_specification]
#[verifier::external_body]
pub struct ExSerdeJsonValue(serde_json::Value);

/// The value `serde_json` parses from `text`, in this crate's model; `None`
/// where `text` is not JSON.
pub uninterp spec fn parsed_json(text: Seq<char>) -> Option<JsonValue>;

/// Parses JSON text with `serde_json::from_str` into a `serde_json::Value`
/// and gives it in this crate's model. Claimed of it: the result is
/// `parsed_json` of the text, a function of the text alone.
#[verifier::external_body]
pub fn parse_json(text: &str) -> (r: Option<JsonValue>)
    ensures
        r == parsed_json(text@),
{
    serde_json::from_str::<serde_json::Value>(text).ok().map(json_from_serde)
}

/// The conversion half of `parse_json`, apart because it recurses into
/// arrays and objects: one arm per `serde_json::Value` variant, moving the
/// fields over (`serde_json::Number::as_u64` for a number). Nothing is
/// claimed of it; `parse_json` carries the claim.
#[verifier::external_body]
fn json_from_serde(v: serde_json::Value) -> JsonValue {
    match v {
        serde_json::Value::Null => JsonValue::Null,
        serde_json::Value::Bool(b) => JsonValue::Bool(b),
        serde_json::Value::Number(n) => JsonValue::Number(n.as_u64()),
        serde_json::Value::String(s) => JsonValue::Str(s),
        serde_json::Value::Array(a) => JsonValue::Array(a.into_iter().map(json_from_serde).collect()),
        serde_json::Value::Object(m) => JsonValue::Object(m.into_iter().map(|(k, x)| (k, json_from_serde(x))).collect()),
    }
}

/// What a lookup that answers by reference denotes: `None` stands for `Null`.
pub open spec fn found(r: Option<&JsonValue>) -> JsonValue {
    match r {
        Some(v) => *v,
        None => JsonValue::Null,
    }
}

/// `v[key]` is the value of the first member named `key`, and `Null` where
/// no member has that name or `v` is not an object.
pub proof fn lemma_member_is_first_match(entries: Vec<(String, JsonValue)>, key: Seq<char>)
    ensures
        forall|k: int| 0 <= k < entries@.len() && entries@[k].0@ == key && (forall|m: int| 0 <= m < k
            ==> (#[trigger] entries@[m]).0@ != key) ==> #[trigger] member(JsonValue::Object(entries), key)
            == entries@[k].1,
        (forall|m: int| 0 <= m < entries@.len() ==> (#[trigger] entries@[m]).0@ != key) ==> member(
            JsonValue::Object(entries),
            key,
        ) == JsonValue::Null,
{
    lemma_entry_value_first(entries@, key);
}

/// `entry_value` picks the first entry named `key`.
proof fn lemma_entry_value_first(entries: Seq<(String, JsonValue)>, key: Seq<char>)
    ensures
        forall|k: int| 0 <= k < entries.len() && entries[k].0@ == key && (forall|m: int| 0 <= m < k
            ==> (#[trigger] entries[m]).0@ != key) ==> #[trigger] entry_value(entries, key) == entries[k].1,
        (forall|m: int| 0 <= m < entries.len() ==> (#[trigger] entries[m]).0@ != key) ==> entry_value(
            entries,
            key,
        ) == JsonValue::Null,
    decreases entries.len(),
{
    if entries.len() > 0 {
        let rest = entries.drop_first();
        lemma_entry_value_first(rest, key);
        assert forall|k: int| 0 <= k < entries.len() && entries[k].0@ == key && (forall|m: int| 0 <= m < k
            ==> (#[trigger] entries[m]).0@ != key) implies #[trigger] entry_value(entries, key) == entries[k].1 by {
            if k > 0 {
                assert(entries[0].0@ != key);
                assert forall|m: int| 0 <= m < k - 1 implies (#[trigger] rest[m]).0@ != key by {
                    assert(rest[m] == entries[m + 1]);
                }
                assert(rest[k - 1] == entries[k]);
            }
        }
        if forall|m: int| 0 <= m < entries.len() ==> (#[trigger] entries[m]).0@ != key {
            assert forall|m: int| 0 <= m < rest.len() implies (#[trigger] rest[m]).0@ != key by {
                assert(rest[m] == entries[m + 1]);
            }
            assert(entries[0].0@ != key);
        }
    }
}

impl JsonValue {
    /// Looks up the member `key`: the answer denotes `self[key]`, `None`
    /// standing for `Null`.
    pub fn get(&self, key: &String) -> (r: Option<&JsonValue>)
        ensures
            found(r) == member(*self, key@),
    {
        match self {
            JsonValue::Object(entries) => {
                let mut i: usize = 0;
                assert(entries@.skip(0) =~= entries@);
                while i < entries.len()
                    invariant
                        i <= entries@.len(),
                        member(*self, key@) == entry_value(entries@, key@),
                        entry_value(entries@, key@) == entry_value(entries@.skip(i as int), key@),
                    decreases entries@.len() - i,
                {
                    assert(entries@.skip(i as int).drop_first() =~= entries@.skip(i + 1));
                    assert(entries@.skip(i as int)[0] == entries@[i as int]);
                    if entries[i].0 == *key {
                        return Some(&entries[i].1);
                    }
                    i = i + 1;
                }
                None
            },
            _ => None,
        }
    }

    /// Looks up element `i`: the answer denotes `self[i]`, `None` standing
    /// for `Null`.
    pub fn at(&self, i: usize) -> (r: Option<&JsonValue>)
        ensures
            found(r) == element(*self, i as int),
    {
        match self {
            JsonValue::Array(items) => if i < items.len() {
                Some(&items[i])
            } else {
                None
            },
            _ => None,
        }
    }

    /// The value as an unsigned integer, where it is one.
    pub fn as_u64(&self) -> (r: Option<u64>)
        ensures
            r == as_u64_of(*self),
    {
        match self {
            JsonValue::Number(n) => *n,
            _ => None,
        }
    }

    /// The elements, where the value is an array.
    pub fn as_array(&self) -> (r: Option<&Vec<JsonValue>>)
        ensures
            match r {
                Some(items) => as_array_of(*self) == Some(items@),
                None => as_array_of(*self) is None,
            },
    {
        match self {
            JsonValue::Array(items) => Some(items),
            _ => None,
        }
    }
}

/// `v[key]` where `v` is itself the answer of a lookup.
pub fn member_of<'a>(v: Option<&'a JsonValue>, key: &String) -> (r: Option<&'a JsonValue>)
    ensures
        found(r) == member(found(v), key@),
{
    match v {
        Some(x) => x.get(key),
        None => None,
    }
}

/// `v[i]` where `v` is itself the answer of a lookup.
pub fn element_of<'a>(v: Option<&'a JsonValue>, i: usize) -> (r: Option<&'a JsonValue>)
    ensures
        found(r) == element(found(v), i as int),
{
    match v {
        Some(x) => x.at(i),
        None => None,
    }
}

/// `v.as_u64()` where `v` is itself the answer of a lookup.
pub fn u64_of(v: Option<&JsonValue>) -> (r: Option<u64>)
    ensures
        r == as_u64_of(found(v)),
{
    match v {
        Some(x) => x.as_u64(),
        None => None,
    }
}

} // verus!
