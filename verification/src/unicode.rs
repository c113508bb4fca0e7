//! Unicode normalization and case mapping of single characters.

use unicode_normalization::char::is_combining_mark;
use unicode_normalization::UnicodeNormalization;
use vstd::prelude::*;

verus! {

/// The canonical decomposition (NFD) of `s`, as `unicode-normalization` computes it.
pub uninterp spec fn nfd(s: Seq<char>) -> Seq<char>;

/// Whether `c` has the Unicode `Mark` general category, per `unicode-normalization`.
pub uninterp spec fn combining_mark(c: char) -> bool;

/// What `char::to_lowercase` yields for `c`.
pub uninterp spec fn char_lowercase(c: char) -> Seq<char>;

/// Calls `UnicodeNormalization::nfd` (`unicode-normalization`) and collects the
/// decomposed characters; the result is named by `nfd`.
#[verifier::external_body]
pub(crate) fn nfd_chars(s: &str) -> (r: Vec<char>)
    ensures
        r@ == nfd(s@),
{
    s.nfd().collect()
}

/// Calls `unicode_normalization::char::is_combining_mark`; the result is named
/// by `combining_mark`.
#[verifier::external_body]
pub(crate) fn is_combining(c: char) -> (r: bool)
    ensures
        r == combining_mark(c),
{
    is_combining_mark(c)
}

/// Calls `char::to_lowercase` and collects what it yields; the result is named
/// by `char_lowercase`.
#[verifier::external_body]
pub(crate) fn char_to_lowercase(c: char) -> (r: Vec<char>)
    ensures
        r@ == char_lowercase(c),
{
    c.to_lowercase().collect()
}

} // verus!
