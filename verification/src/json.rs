//! JSON documents carried as text.
//!
//! Payloads, snapshots and match attributes are held as JSON text. Two documents are the
//! same when `serde_json` reads them as equal values (so `0.0` and `-0.0` are the same
//! number); the `null` document is the text `null`.
use vstd::prelude::*;

verus! {

/// The name of what reading `text` with `serde_json` gives: the compact text of the
/// value it holds, or the text of the parse error.
pub uninterp spec fn json_reading(text: Seq<char>) -> Result<Seq<char>, Seq<char>>;

/// Whether a JSON document is the `null` value.
pub open spec fn json_null(text: Seq<char>) -> bool {
    text == "null"@
}

/// Reads `text` as JSON with `serde_json::from_str` and writes the value back as compact
/// text; on failure, the error's text.
#[verifier::external_body]
pub(crate) fn read_json(text: &str) -> (r: Result<String, String>)
    ensures
        match r {
            Ok(v) => json_reading(text@) == Ok::<Seq<char>, Seq<char>>(v@),
            Err(e) => json_reading(text@) == Err::<Seq<char>, Seq<char>>(e@),
        },
{
    match serde_json::from_str::<serde_json::Value>(text) {
        Ok(value) => Ok(value.to_string()),
        Err(error) => Err(error.to_string()),
    }
}

/// The name of what `serde_json` answers when both texts are read as values and compared
/// with `==`: `false` when either text does not read as JSON.
pub uninterp spec fn json_values_equal(a: Seq<char>, b: Seq<char>) -> bool;

/// Reads both texts with `serde_json::from_str::<Value>` and compares the two values with
/// `Value`'s `==`; a text that does not read as JSON makes the answer `false`.
#[verifier::external_body]
pub(crate) fn json_equal(a: &str, b: &str) -> (r: bool)
    ensures
        r == json_values_equal(a@, b@),
{
    match (serde_json::from_str::<serde_json::Value>(a), serde_json::from_str::<serde_json::Value>(b)) {
        (Ok(x), Ok(y)) => x == y,
        _ => false,
    }
}

/// Whether two JSON documents are the same: equal texts, or texts that read as equal
/// values.
pub open spec fn same_json(a: Seq<char>, b: Seq<char>) -> bool {
    a == b || json_values_equal(a, b)
}

/// Whether two JSON documents are the same: equal texts, or texts that read as equal
/// values.
pub fn same_json_text(a: &str, b: &str) -> (r: bool)
    ensures
        r == same_json(a@, b@),
{
    crate::text::text_eq(a, b) || json_equal(a, b)
}

/// Whether a JSON document is the `null` value.
pub fn is_json_null(text: &str) -> (r: bool)
    ensures
        r == json_null(text@),
{
    crate::text::text_eq(text, "null")
}

} // verus!
