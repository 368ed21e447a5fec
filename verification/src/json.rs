//! Reading string fields out of a JSON document, by JSON pointer.

use vstd::prelude::*;

verus! {

/// The message (`Display` of the error) with which `serde_json::from_slice`
/// refuses `bytes` as a JSON value, or `None` when it accepts them.
pub uninterp spec fn json_parse_error(bytes: Seq<u8>) -> Option<Seq<char>>;

/// The string that `serde_json::Value::pointer(pointer)` followed by
/// `Value::as_str` finds in the document `bytes`; `None` when nothing is
/// there or the value found is not a string.
pub uninterp spec fn json_string_at(bytes: Seq<u8>, pointer: Seq<char>) -> Option<Seq<char>>;

/// Parses `bytes` with `serde_json::from_slice` into a `serde_json::Value`
/// and looks up `pointer` with `Value::pointer` and `Value::as_str`.
/// The contract names both results: the parse error, and the string found.
#[verifier::external_body]
pub(crate) fn json_str_at(bytes: &[u8], pointer: &str) -> (res: Result<Option<String>, String>)
    ensures
        res is Err <==> json_parse_error(bytes@) is Some,
        res matches Err(e) ==> json_parse_error(bytes@) == Some(e@),
        res matches Ok(Some(s)) ==> json_string_at(bytes@, pointer@) == Some(s@),
        res matches Ok(None) ==> json_string_at(bytes@, pointer@) is None,
{
    match serde_json::from_slice::<serde_json::Value>(bytes) {
        Ok(v) => Ok(v.pointer(pointer).and_then(|x| x.as_str()).map(|x| x.to_string())),
        Err(e) => Err(e.to_string()),
    }
}

/// The length of the array that `serde_json::Value::pointer(pointer)`
/// followed by `Value::as_array` finds in the document `bytes`; `None` when
/// nothing is there or the value found is not an array.
pub uninterp spec fn json_array_len(bytes: Seq<u8>, pointer: Seq<char>) -> Option<usize>;

/// Parses `bytes` with `serde_json::from_slice` into a `serde_json::Value`
/// and looks up `pointer` with `Value::pointer` and `Value::as_array`.
/// The contract names both results: the parse error, and the length of the
/// array found.
#[verifier::external_body]
pub(crate) fn json_array_len_at(bytes: &[u8], pointer: &str) -> (res: Result<Option<usize>, String>)
    ensures
        res is Err <==> json_parse_error(bytes@) is Some,
        res matches Err(e) ==> json_parse_error(bytes@) == Some(e@),
        res matches Ok(n) ==> json_array_len(bytes@, pointer@) == n,
{
    match serde_json::from_slice::<serde_json::Value>(bytes) {
        Ok(v) => Ok(v.pointer(pointer).and_then(|x| x.as_array()).map(|a| a.len())),
        Err(e) => Err(e.to_string()),
    }
}

} // verus!
