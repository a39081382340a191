//! The two readings of JSON bodies that the protocol needs, made by `serde_json`.
use vstd::prelude::*;

use crate::bytes::opt_view;

verus! {

/// The UTF-8 bytes of the string stored under `key` in the JSON object `body`;
/// `None` when `body` is not a JSON object, `key` is not UTF-8, or that member is
/// absent or not a string.
pub uninterp spec fn json_string_member(body: Seq<u8>, key: Seq<u8>) -> Option<Seq<u8>>;

/// The strings of the array stored under `key` in the JSON object `body`, each as
/// UTF-8 bytes and in order; `None` when `body` is not a JSON object, `key` is not
/// UTF-8, or that member is absent, not an array, or holds anything but strings.
pub uninterp spec fn json_string_array_member(body: Seq<u8>, key: Seq<u8>) -> Option<
    Seq<Seq<u8>>,
>;

pub open spec fn items_view(v: Seq<Vec<u8>>) -> Seq<Seq<u8>> {
    v.map_values(|x: Vec<u8>| x@)
}

/// Relies on `serde_json::from_slice` into a `Value`, `Value::get` and `Value::as_str`
/// to read one string member of a JSON object.
#[verifier::external_body]
pub(crate) fn string_member(body: &[u8], key: &[u8]) -> (r: Option<Vec<u8>>)
    ensures
        opt_view(r) == json_string_member(body@, key@),
{
    let v: serde_json::Value = serde_json::from_slice(body).ok()?;
    let k = std::str::from_utf8(key).ok()?;
    v.get(k)?.as_str().map(|s| s.as_bytes().to_vec())
}

/// Relies on `serde_json::from_slice` into a `Value`, `Value::get`, `Value::as_array`
/// and `Value::as_str` to read one member of a JSON object that is an array of strings.
#[verifier::external_body]
pub(crate) fn string_array_member(body: &[u8], key: &[u8]) -> (r: Option<Vec<Vec<u8>>>)
    ensures
        match r {
            Some(items) => json_string_array_member(body@, key@) == Some(items_view(items@)),
            None => json_string_array_member(body@, key@) is None,
        },
{
    let v: serde_json::Value = serde_json::from_slice(body).ok()?;
    let k = std::str::from_utf8(key).ok()?;
    let items = v.get(k)?.as_array()?;
    items.iter().map(|x| x.as_str().map(|s| s.as_bytes().to_vec())).collect()
}

} // verus!
