//! Unicode character classes and case mapping, as std provides them.

use vstd::prelude::*;
use crate::text::{is_white_space, is_whitespace};

verus! {

/// Whether std counts `c` as alphanumeric (Unicode `Alphabetic` or `Numeric`).
pub uninterp spec fn unicode_alphanumeric(c: char) -> bool;

/// The Unicode lowercase mapping of a whole text (`str::to_lowercase`).
pub uninterp spec fn unicode_lowercase(s: Seq<char>) -> Seq<char>;

/// The Unicode uppercase mapping of a whole text (`str::to_uppercase`).
pub uninterp spec fn unicode_uppercase(s: Seq<char>) -> Seq<char>;

/// `char::is_alphanumeric`. The Unicode tables behind it are not restated
/// here: the claim is only that the answer is a function of `c`.
#[verifier::external_body]
pub(crate) fn is_alphanumeric(c: char) -> (r: bool)
    ensures
        r == unicode_alphanumeric(c),
{
    c.is_alphanumeric()
}

/// `str::to_lowercase`. The claim is only that the result is a function of
/// the text; the Unicode case tables (and the final-sigma rule) are not
/// restated.
#[verifier::external_body]
pub(crate) fn to_lowercase(s: &str) -> (r: String)
    ensures
        r@ == unicode_lowercase(s@),
{
    s.to_lowercase()
}

/// `str::to_uppercase`. The claim is only that the result is a function of
/// the text; the Unicode case tables are not restated.
#[verifier::external_body]
pub(crate) fn to_uppercase(s: &str) -> (r: String)
    ensures
        r@ == unicode_uppercase(s@),
{
    s.to_uppercase()
}


/// The alphanumeric characters of `s`, in order.
pub open spec fn keep_alphanumeric(s: Seq<char>) -> Seq<char>
    decreases s.len(),
{
    if s.len() == 0 {
        Seq::<char>::empty()
    } else if unicode_alphanumeric(s.last()) {
        keep_alphanumeric(s.drop_last()).push(s.last())
    } else {
        keep_alphanumeric(s.drop_last())
    }
}

/// The alphanumeric and white-space characters of `s`, in order.
pub open spec fn keep_words_chars(s: Seq<char>) -> Seq<char>
    decreases s.len(),
{
    if s.len() == 0 {
        Seq::<char>::empty()
    } else if unicode_alphanumeric(s.last()) || is_white_space(s.last()) {
        keep_words_chars(s.drop_last()).push(s.last())
    } else {
        keep_words_chars(s.drop_last())
    }
}

/// The alphanumeric characters of `s`.
pub fn keep_alphanumeric_chars(s: &Vec<char>) -> (r: Vec<char>)
    ensures
        r@ == keep_alphanumeric(s@),
{
    let mut r: Vec<char> = Vec::new();
    let mut i: usize = 0;
    while i < s.len()
        invariant
            i <= s.len(),
            r@ == keep_alphanumeric(s@.take(i as int)),
        decreases s.len() - i,
    {
        assert(s@.take((i + 1) as int).drop_last() =~= s@.take(i as int));
        if is_alphanumeric(s[i]) {
            r.push(s[i]);
        }
        i = i + 1;
    }
    assert(s@.take(s.len() as int) =~= s@);
    r
}

/// The alphanumeric and white-space characters of `s`.
pub fn keep_words_chars_exec(s: &Vec<char>) -> (r: Vec<char>)
    ensures
        r@ == keep_words_chars(s@),
{
    let mut r: Vec<char> = Vec::new();
    let mut i: usize = 0;
    while i < s.len()
        invariant
            i <= s.len(),
            r@ == keep_words_chars(s@.take(i as int)),
        decreases s.len() - i,
    {
        assert(s@.take((i + 1) as int).drop_last() =~= s@.take(i as int));
        if is_alphanumeric(s[i]) || is_whitespace(s[i]) {
            r.push(s[i]);
        }
        i = i + 1;
    }
    assert(s@.take(s.len() as int) =~= s@);
    r
}

} // verus!
