//! Identity strings: what counts as white space, and trimming.

use vstd::prelude::*;

verus! {

/// Whether `c` carries the Unicode `White_Space` property.
pub open spec fn is_white_space(c: char) -> bool {
    let code = c as u32;
    ||| 0x09 <= code <= 0x0D
    ||| code == 0x20
    ||| code == 0x85
    ||| code == 0xA0
    ||| code == 0x1680
    ||| 0x2000 <= code <= 0x200A
    ||| code == 0x2028
    ||| code == 0x2029
    ||| code == 0x202F
    ||| code == 0x205F
    ||| code == 0x3000
}

/// `s` without its leading white space.
pub open spec fn trim_start(s: Seq<char>) -> Seq<char>
    decreases s.len(),
{
    if s.len() > 0 && is_white_space(s.first()) {
        trim_start(s.drop_first())
    } else {
        s
    }
}

/// `s` without its trailing white space.
pub open spec fn trim_end(s: Seq<char>) -> Seq<char>
    decreases s.len(),
{
    if s.len() > 0 && is_white_space(s.last()) {
        trim_end(s.drop_last())
    } else {
        s
    }
}

/// `s` without white space at either end.
pub open spec fn trimmed(s: Seq<char>) -> Seq<char> {
    trim_end(trim_start(s))
}

/// Whether `s` neither begins nor ends with white space.
pub open spec fn is_clean(s: Seq<char>) -> bool {
    s.len() == 0 || (!is_white_space(s.first()) && !is_white_space(s.last()))
}

/// Trimming leaves alone what neither begins nor ends with white space.
pub proof fn trim_leaves_clean_text(s: Seq<char>)
    requires
        is_clean(s),
    ensures
        trimmed(s) == s,
{
}

/// What trimming returns neither begins nor ends with white space, so that
/// trimming it again changes nothing.
pub proof fn trimmed_is_clean(s: Seq<char>)
    ensures
        is_clean(trimmed(s)),
        trimmed(trimmed(s)) == trimmed(s),
{
    lemma_trim_start_is_clean(s);
    lemma_trim_end_is_clean(trim_start(s));
}

/// Without its leading white space, `s` is empty or begins with another
/// character.
proof fn lemma_trim_start_is_clean(s: Seq<char>)
    ensures
        trim_start(s).len() == 0 || !is_white_space(trim_start(s).first()),
    decreases s.len(),
{
    if s.len() > 0 && is_white_space(s.first()) {
        lemma_trim_start_is_clean(s.drop_first());
    }
}

/// Without its trailing white space, `s` is empty or ends with another
/// character, and begins as it did.
proof fn lemma_trim_end_is_clean(s: Seq<char>)
    ensures
        trim_end(s).len() == 0 || !is_white_space(trim_end(s).last()),
        trim_end(s).len() > 0 ==> trim_end(s).first() == s.first(),
    decreases s.len(),
{
    if s.len() > 0 && is_white_space(s.last()) {
        lemma_trim_end_is_clean(s.drop_last());
    }
}

/// Calls `str::trim`.
///
/// Trusted: the slice returned holds the characters of `s` between its
/// leading and its trailing run of `White_Space` characters.
#[verifier::external_body]
pub(crate) fn trim(s: &str) -> (inner: &str)
    ensures
        inner@ == trimmed(s@),
{
    s.trim()
}

/// Equality of string slices, `<str as PartialEq>::eq`.
///
/// Trusted: two slices compare equal exactly when they hold the same
/// characters.
pub assume_specification[ <str as PartialEq>::eq ](a: &str, b: &str) -> (same: bool)
    ensures
        same == (a@ == b@),
;

} // verus!
