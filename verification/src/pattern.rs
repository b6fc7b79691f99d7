//! Regular expressions, as the `regex` crate compiles and runs them.
//!
//! A pattern is kept as its text. Whether it compiles and what it matches is decided by the
//! `regex` crate alone; both are functions of the texts involved, known here by name only.

use regex::Regex;
use regex::RegexBuilder;
use vstd::prelude::*;

verus! {

/// Whether `Regex::new` accepts `pattern`.
pub uninterp spec fn regex_compiles(pattern: Seq<char>) -> bool;

/// Whether `pattern` compiles and the expression it compiles to, run with `Regex::is_match`,
/// finds a match somewhere in `text`.
pub uninterp spec fn regex_is_match(pattern: Seq<char>, text: Seq<char>) -> bool;

/// Whether `RegexBuilder` accepts `operand` as a signature: multi-line, dot matches new
/// lines, case-insensitive.
pub uninterp spec fn signature_compiles(operand: Seq<char>) -> bool;

/// `Regex::new`: tells whether the pattern is valid and within the default size limit.
#[verifier::external_body]
pub(crate) fn compiles(pattern: &str) -> (ok: bool)
    ensures
        ok == regex_compiles(pattern@),
{
    Regex::new(pattern).is_ok()
}

/// `Regex::is_match`, on the expression that `Regex::new` compiles from `pattern`: true if
/// and only if there is a match anywhere in `text`. A pattern that does not compile matches
/// nothing.
#[verifier::external_body]
pub(crate) fn is_match(pattern: &str, text: &str) -> (b: bool)
    ensures
        b == regex_is_match(pattern@, text@),
{
    match Regex::new(pattern) {
        Ok(re) => re.is_match(text),
        Err(_) => false,
    }
}

/// `RegexBuilder::build` with the three flags of a signature set: tells whether the operand
/// is valid and within the default size limit.
#[verifier::external_body]
pub(crate) fn compiles_as_signature(operand: &str) -> (ok: bool)
    ensures
        ok == signature_compiles(operand@),
{
    RegexBuilder::new(operand)
        .multi_line(true)
        .dot_matches_new_line(true)
        .case_insensitive(true)
        .build()
        .is_ok()
}

} // verus!
