//! The JSON boundary: the `serde_json::Value` type declared for the
//! verifier, with names for its canonical text and for what parsing returns.

use vstd::prelude::*;

verus! {

#[verifier::external_type_specification]
#[verifier::external_body]
pub struct ExValue(serde_json::Value);

/// The compact canonical JSON text of a value, as serde_json prints it; with
/// the default sorted object maps this is a function of the value alone.
pub uninterp spec fn json_text_of(v: serde_json::Value) -> Seq<u8>;

/// The container-nesting depth of a value: how deeply its arrays and objects
/// nest, a scalar having depth zero.
pub uninterp spec fn json_depth(v: serde_json::Value) -> int;

/// The deepest container nesting that serde_json's parser accepts: its
/// recursion budget of 128 is spent before descending into each container,
/// so the 128th nested container is rejected.
pub const MAX_JSON_DEPTH: usize = 127;

/// What serde_json parsing yields on the given bytes: `None` where they are
/// not a single well-formed JSON document.
pub uninterp spec fn json_parsed(s: Seq<u8>) -> Option<serde_json::Value>;

/// Relies on serde_json's `Display` for `Value`: printing is infallible and
/// a function of the value alone (object maps are sorted), and with the
/// `float_roundtrip` feature parsing is correctly rounded, so the printed
/// text of a `Value` parses back to the same value, floats included. The
/// parse-back clause holds only within the parser's recursion limit: a value
/// nested deeper than 128 containers prints fine but no longer parses.
#[verifier::external_body]
pub(crate) fn json_to_bytes(v: &serde_json::Value) -> (r: Vec<u8>)
    ensures
        r@ == json_text_of(*v),
        json_depth(*v) <= MAX_JSON_DEPTH as int ==> json_parsed(r@) == Some(*v),
{
    v.to_string().into_bytes()
}

/// Relies on `serde_json::from_slice`: whether bytes parse, and to what
/// value, is a function of the bytes alone.
#[verifier::external_body]
pub(crate) fn json_from_bytes(b: &[u8]) -> (r: Option<serde_json::Value>)
    ensures
        match json_parsed(b@) {
            Some(v) => r matches Some(w) && w == v,
            None => r is None,
        },
{
    serde_json::from_slice::<serde_json::Value>(b).ok()
}

} // verus!
