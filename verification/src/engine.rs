//! The regular-expression engine. Nothing here is proved: each item states
//! what this crate takes the `regex` crate to do.

use crate::is_builtin_pattern;
use regex::Regex;
use vstd::prelude::*;

verus! {

/// A compiled regular expression of the `regex` crate, opaque to proofs.
#[verifier::external_type_specification]
#[verifier::external_body]
pub struct ExRegex(regex::Regex);

/// The expression that `Regex::new` builds from a pattern it accepts.
pub uninterp spec fn compiled(pattern: Seq<char>) -> Regex;

/// What the first capture group of the leftmost match of an expression in a
/// text holds: nothing where the expression matches nowhere, or where that
/// group took no part in the match.
pub uninterp spec fn first_group(re: Regex, text: Seq<char>) -> Option<Seq<char>>;

/// The text in which each match of an expression, found left to right and
/// without overlap, has given way to the replacement.
pub uninterp spec fn replaced_all(re: Regex, text: Seq<char>, rep: Seq<char>) -> Seq<char>;

/// `Regex::clone`: the copy is the same expression.
pub assume_specification[ <Regex as Clone>::clone ](re: &Regex) -> (out: Regex)
    ensures
        out == *re,
;

/// `Regex::new` on one of the patterns that this crate ships. Each of them
/// is valid syntax and small, so the call returns `Ok`; the contract names
/// the expression it returns.
#[verifier::external_body]
pub(crate) fn compile(pattern: &str) -> (re: Regex)
    requires
        is_builtin_pattern(pattern@),
    ensures
        re == compiled(pattern@),
{
    Regex::new(pattern).unwrap()
}

/// `Regex::captures`, then `Captures::get(1)` and `Match::as_str`: the text
/// of the first capture group of the leftmost match. The contract names the
/// result.
#[verifier::external_body]
pub(crate) fn capture_first_group(re: &Regex, text: &str) -> (out: Option<String>)
    ensures
        crate::dns_structs::opt_text(out) == first_group(*re, text@),
{
    re.captures(text).and_then(|c| c.get(1)).map(|m| m.as_str().to_owned())
}

/// `Regex::replace_all` with a replacement text. The contract names the
/// result.
#[verifier::external_body]
pub(crate) fn replace_all(re: &Regex, text: &str, rep: &str) -> (out: String)
    ensures
        out@ == replaced_all(*re, text@, rep@),
{
    re.replace_all(text, rep).into_owned()
}

} // verus!
