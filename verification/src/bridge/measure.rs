//! Display width of text, as `unicode-width` computes it.

use unicode_width::UnicodeWidthStr;
use vstd::prelude::*;

verus! {

/// The number of terminal columns that `text` occupies.
///
/// This is the value of `UnicodeWidthStr::width` on the string whose
/// characters are `text`. The rules behind it (wide glyphs, zero-width marks,
/// ligatures) fill pages, so the proofs treat it as an unknown function of
/// the text.
pub uninterp spec fn display_width(text: Seq<char>) -> nat;

/// Calls `unicode_width::UnicodeWidthStr::width` on `text`.
///
/// Trusted: the result is [`display_width`] of the text. The outside function
/// reads nothing but its argument and static tables, so equal texts give equal
/// widths.
#[verifier::external_body]
pub(crate) fn measure(text: &str) -> (width: usize)
    ensures
        width as nat == display_width(text@),
{
    UnicodeWidthStr::width(text)
}

} // verus!
