//! Terminal colours, as `colored` writes them.

use colored::Colorize;
use vstd::prelude::*;

verus! {

/// The escape character that opens every colour sequence.
pub const ESCAPE: char = '\x1b';

/// The sequence that ends a coloured stretch: `ESC [ 0 m`.
pub open spec fn reset() -> Seq<char> {
    seq![ESCAPE, '[', '0', 'm']
}

/// Bold bright cyan, the style of a header cell: `ESC [ 1 ; 9 6 m`.
pub open spec fn header_style() -> Seq<char> {
    seq![ESCAPE, '[', '1', ';', '9', '6', 'm']
}

/// White, the style of the rows at even positions: `ESC [ 3 7 m`.
pub open spec fn primary_style() -> Seq<char> {
    seq![ESCAPE, '[', '3', '7', 'm']
}

/// Bright white, the style of the rows at odd positions: `ESC [ 9 7 m`.
pub open spec fn alternate_style() -> Seq<char> {
    seq![ESCAPE, '[', '9', '7', 'm']
}

/// Whether `out` is `text` as `colored` may hand it back under `style`.
///
/// `colored` decides at each call, from the environment, the terminal and its
/// override switch, whether to colour at all. So there are two outcomes: the
/// text unchanged, or the text between the style sequence and [`reset`]. For
/// text that itself holds an escape character the middle part is left open
/// (`colored` re-applies the style after resets inside it).
pub open spec fn is_painted(text: Seq<char>, style: Seq<char>, out: Seq<char>) -> bool {
    ||| out == text
    ||| {
        &&& out.len() >= style.len() + reset().len()
        &&& out.take(style.len() as int) == style
        &&& out.skip(out.len() - reset().len()) == reset()
        &&& !text.contains(ESCAPE) ==> out == style + text + reset()
    }
}

/// Calls `Colorize::bright_cyan`, then `Colorize::bold`, and renders the
/// result with `to_string`.
///
/// Trusted: the result is the text, plain or between [`header_style`] and
/// [`reset`], as [`is_painted`] says.
#[verifier::external_body]
pub(crate) fn paint_header(text: &str) -> (out: String)
    ensures
        is_painted(text@, header_style(), out@),
{
    text.bright_cyan().bold().to_string()
}

/// Calls `Colorize::white` and renders the result with `to_string`.
///
/// Trusted: the result is the text, plain or between [`primary_style`] and
/// [`reset`], as [`is_painted`] says.
#[verifier::external_body]
pub(crate) fn paint_primary(text: &str) -> (out: String)
    ensures
        is_painted(text@, primary_style(), out@),
{
    text.white().to_string()
}

/// Calls `Colorize::bright_white` and renders the result with `to_string`.
///
/// Trusted: the result is the text, plain or between [`alternate_style`] and
/// [`reset`], as [`is_painted`] says.
#[verifier::external_body]
pub(crate) fn paint_alternate(text: &str) -> (out: String)
    ensures
        is_painted(text@, alternate_style(), out@),
{
    text.bright_white().to_string()
}

} // verus!
