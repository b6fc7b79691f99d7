//! JSON text, as `serde_json` writes it.

use vstd::prelude::*;

verus! {

/// The JSON string literal that `serde_json::to_string` writes for the text `s`: the
/// text between double quotes, escaped as JSON asks.
pub uninterp spec fn json_string(s: Seq<char>) -> Seq<char>;

/// `serde_json::to_string` on a `str`: the text as a JSON string literal. The literal is
/// written to memory, which does not fail.
#[verifier::external_body]
pub(crate) fn json_quote(s: &str) -> (r: String)
    ensures
        r@ == json_string(s@),
{
    serde_json::to_string(s).unwrap_or_default()
}

} // verus!
