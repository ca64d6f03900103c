//! Unicode character properties and case mappings, taken from the standard
//! library, and display widths, taken from `unicode-width`.
use vstd::prelude::*;

verus! {

/// `char::is_alphabetic`: whether `c` has the Unicode `Alphabetic` property.
pub uninterp spec fn alphabetic(c: char) -> bool;

/// `char::is_alphanumeric`: whether `c` is alphabetic or numeric.
pub uninterp spec fn alphanumeric(c: char) -> bool;

/// `char::to_uppercase`: the characters of the uppercase mapping of `c`.
pub uninterp spec fn char_upper(c: char) -> Seq<char>;

/// `str::to_uppercase`: the uppercase mapping of a whole string.
pub uninterp spec fn text_upper(s: Seq<char>) -> Seq<char>;

/// `str::to_lowercase`: the lowercase mapping of a whole string.
pub uninterp spec fn text_lower(s: Seq<char>) -> Seq<char>;

/// `UnicodeWidthStr::width`: the number of terminal columns of a string.
pub uninterp spec fn display_columns(s: Seq<char>) -> usize;

/// Calls `char::is_alphabetic`; the result is the named `alphabetic` of `c`.
#[verifier::external_body]
pub(crate) fn is_alphabetic(c: char) -> (r: bool)
    ensures
        r == alphabetic(c),
{
    c.is_alphabetic()
}

/// Calls `char::is_alphanumeric`; the result is the named `alphanumeric` of `c`.
#[verifier::external_body]
pub(crate) fn is_alphanumeric(c: char) -> (r: bool)
    ensures
        r == alphanumeric(c),
{
    c.is_alphanumeric()
}

/// Calls `char::to_uppercase` and collects its characters; the result is
/// the named `char_upper` of `c`.
#[verifier::external_body]
pub(crate) fn uppercase_char(c: char) -> (r: String)
    ensures
        r@ == char_upper(c),
{
    c.to_uppercase().collect()
}

/// Calls `str::to_uppercase`; the result is the named `text_upper` of `s`.
#[verifier::external_body]
pub(crate) fn uppercase(s: &str) -> (r: String)
    ensures
        r@ == text_upper(s@),
{
    s.to_uppercase()
}

/// Calls `str::to_lowercase`; the result is the named `text_lower` of `s`.
#[verifier::external_body]
pub(crate) fn lowercase(s: &str) -> (r: String)
    ensures
        r@ == text_lower(s@),
{
    s.to_lowercase()
}

/// Calls `unicode_width::UnicodeWidthStr::width`; the result is the named
/// `display_columns` of `s`.
#[verifier::external_body]
pub(crate) fn str_width(s: &str) -> (r: usize)
    ensures
        r == display_columns(s@),
{
    unicode_width::UnicodeWidthStr::width(s)
}

} // verus!
