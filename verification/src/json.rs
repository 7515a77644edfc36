//! Reading values out of a JSON document given as bytes, by JSON pointer.
use vstd::prelude::*;

verus! {

/// Whether `bytes` parse as JSON and hold a value at `pointer`.
pub uninterp spec fn json_has(bytes: Seq<u8>, pointer: Seq<char>) -> bool;

/// Whether the value of `bytes` at `pointer` is a JSON object.
pub uninterp spec fn json_object_at(bytes: Seq<u8>, pointer: Seq<char>) -> bool;

/// The string at `pointer` in `bytes`, if there is one.
pub uninterp spec fn json_str_at(bytes: Seq<u8>, pointer: Seq<char>) -> Option<Seq<char>>;

/// The unsigned integer at `pointer` in `bytes`, if there is one.
pub uninterp spec fn json_u64_at(bytes: Seq<u8>, pointer: Seq<char>) -> Option<u64>;

/// The boolean at `pointer` in `bytes`, if there is one.
pub uninterp spec fn json_bool_at(bytes: Seq<u8>, pointer: Seq<char>) -> Option<bool>;

/// The length of the array at `pointer` in `bytes`, if there is one.
pub uninterp spec fn json_array_len_at(bytes: Seq<u8>, pointer: Seq<char>) -> Option<usize>;

/// The object of string values at `pointer` in `bytes`, as its entries in
/// ascending key order, if the value there is such an object.
pub uninterp spec fn json_string_map_at(bytes: Seq<u8>, pointer: Seq<char>) -> Option<Seq<(Seq<char>, Seq<char>)>>;

/// Parses `bytes` with `serde_json::from_slice` into a `Value` and looks up
/// `pointer` with `Value::pointer`. Claimed: the answer is `json_has`, a
/// function of the bytes and the pointer alone.
#[verifier::external_body]
pub(crate) fn json_has_value(bytes: &[u8], pointer: &str) -> (r: bool)
    ensures
        r == json_has(bytes@, pointer@),
{
    match serde_json::from_slice::<serde_json::Value>(bytes) {
        Ok(value) => value.pointer(pointer).is_some(),
        Err(_) => false,
    }
}

/// Parses `bytes` with `serde_json::from_slice` and tells, with
/// `Value::is_object`, whether the value at `pointer` is an object. Claimed:
/// the answer is `json_object_at`, a function of its arguments alone.
#[verifier::external_body]
pub(crate) fn json_is_object(bytes: &[u8], pointer: &str) -> (r: bool)
    ensures
        r == json_object_at(bytes@, pointer@),
{
    match serde_json::from_slice::<serde_json::Value>(bytes) {
        Ok(value) => value.pointer(pointer).is_some_and(serde_json::Value::is_object),
        Err(_) => false,
    }
}

/// Parses `bytes` with `serde_json::from_slice` and reads the value at
/// `pointer` with `Value::as_str`. Claimed: the result is `json_str_at`, a
/// function of its arguments alone.
#[verifier::external_body]
pub(crate) fn json_string_at(bytes: &[u8], pointer: &str) -> (r: Option<String>)
    ensures
        match r {
            Some(s) => json_str_at(bytes@, pointer@) == Some(s@),
            None => json_str_at(bytes@, pointer@) is None,
        },
{
    match serde_json::from_slice::<serde_json::Value>(bytes) {
        Ok(value) => value.pointer(pointer).and_then(serde_json::Value::as_str).map(str::to_owned),
        Err(_) => None,
    }
}

/// Parses `bytes` with `serde_json::from_slice` and reads the value at
/// `pointer` with `Value::as_u64`. Claimed: the result is `json_u64_at`, a
/// function of its arguments alone.
#[verifier::external_body]
pub(crate) fn json_unsigned_at(bytes: &[u8], pointer: &str) -> (r: Option<u64>)
    ensures
        r == json_u64_at(bytes@, pointer@),
{
    match serde_json::from_slice::<serde_json::Value>(bytes) {
        Ok(value) => value.pointer(pointer).and_then(serde_json::Value::as_u64),
        Err(_) => None,
    }
}

/// Parses `bytes` with `serde_json::from_slice` and reads the value at
/// `pointer` with `Value::as_bool`. Claimed: the result is `json_bool_at`, a
/// function of its arguments alone.
#[verifier::external_body]
pub(crate) fn json_boolean_at(bytes: &[u8], pointer: &str) -> (r: Option<bool>)
    ensures
        r == json_bool_at(bytes@, pointer@),
{
    match serde_json::from_slice::<serde_json::Value>(bytes) {
        Ok(value) => value.pointer(pointer).and_then(serde_json::Value::as_bool),
        Err(_) => None,
    }
}

/// Parses `bytes` with `serde_json::from_slice` and takes the length of the
/// array at `pointer` from `Value::as_array`. Claimed: the result is
/// `json_array_len_at`, a function of its arguments alone.
#[verifier::external_body]
pub(crate) fn json_array_length_at(bytes: &[u8], pointer: &str) -> (r: Option<usize>)
    ensures
        r == json_array_len_at(bytes@, pointer@),
{
    match serde_json::from_slice::<serde_json::Value>(bytes) {
        Ok(value) => value.pointer(pointer).and_then(serde_json::Value::as_array).map(Vec::len),
        Err(_) => None,
    }
}

/// Parses `bytes` with `serde_json::from_slice`, and deserializes the value at
/// `pointer` with `serde_json::from_value` into a `BTreeMap<String, String>`,
/// listed in key order. Claimed: the entries are `json_string_map_at`, a
/// function of its arguments alone.
#[verifier::external_body]
pub(crate) fn json_string_map(bytes: &[u8], pointer: &str) -> (r: Option<Vec<(String, String)>>)
    ensures
        match r {
            Some(v) => json_string_map_at(bytes@, pointer@) == Some(v@.map_values(|e: (String, String)| (e.0@, e.1@))),
            None => json_string_map_at(bytes@, pointer@) is None,
        },
{
    let value = match serde_json::from_slice::<serde_json::Value>(bytes) {
        Ok(value) => value.pointer(pointer).cloned(),
        Err(_) => None,
    };
    match value.map(serde_json::from_value::<std::collections::BTreeMap<String, String>>) {
        Some(Ok(map)) => Some(map.into_iter().collect()),
        _ => None,
    }
}

/// The pointer `base` followed by `key`.
pub fn pointer_to(base: &str, key: &str) -> (r: String)
    ensures
        r@ == base@ + key@,
{
    let mut r = String::from_str(base);
    r.append(key);
    r
}

} // verus!
