//! Building text: repetition, padding and joining, each with the sequence of
//! characters it produces.

use crate::bridge::measure::{display_width, measure};
use vstd::prelude::*;

verus! {

/// `count` copies of `glyph`.
pub open spec fn repeated(glyph: char, count: nat) -> Seq<char> {
    Seq::new(count, |i: int| glyph)
}

/// How many columns are missing from `have` to reach `width`: none where
/// `have` is that much already.
pub open spec fn missing(have: nat, width: nat) -> nat {
    if have < width {
        (width - have) as nat
    } else {
        0
    }
}

/// `text`, followed by one space for each terminal column that its display
/// width falls short of `width`. Text that is that wide already is left as
/// it is; nothing is ever cut off.
pub open spec fn padded(text: Seq<char>, width: nat) -> Seq<char> {
    text + repeated(' ', missing(display_width(text), width))
}

/// The parts in order, with `separator` between each two neighbours.
pub open spec fn joined(parts: Seq<Seq<char>>, separator: Seq<char>) -> Seq<char>
    decreases parts.len(),
{
    if parts.len() == 0 {
        Seq::empty()
    } else if parts.len() == 1 {
        parts[0]
    } else {
        joined(parts.drop_last(), separator) + separator + parts.last()
    }
}

/// The character sequences of a list of strings.
pub open spec fn texts(parts: Seq<String>) -> Seq<Seq<char>> {
    parts.map_values(|part: String| part@)
}

/// Appends `count` copies of `glyph` to `out`.
pub fn push_repeated(out: &mut String, glyph: char, count: usize)
    ensures
        final(out)@ == old(out)@ + repeated(glyph, count as nat),
{
    let mut done: usize = 0;
    while done < count
        invariant
            done <= count,
            out@ == old(out)@ + repeated(glyph, done as nat),
        decreases count - done,
    {
        out.push(glyph);
        done += 1;
    }
}

/// Follows `text`, which takes `have` terminal columns, with the spaces
/// that are missing to `width`.
pub fn fill(text: &str, have: usize, width: usize) -> (out: String)
    ensures
        out@ == text@ + repeated(' ', missing(have as nat, width as nat)),
{
    let mut out = String::from_str(text);
    if have < width {
        push_repeated(&mut out, ' ', width - have);
    } else {
        assert(out@ =~= text@ + repeated(' ', 0));
    }
    out
}

/// Pads `text` with spaces on the right to `width` terminal columns.
pub fn pad(text: &str, width: usize) -> (out: String)
    ensures
        out@ == padded(text@, width as nat),
{
    let have = measure(text);
    fill(text, have, width)
}

/// Joins `parts` with `separator` between them.
pub fn join(parts: &Vec<String>, separator: &str) -> (out: String)
    ensures
        out@ == joined(texts(parts@), separator@),
{
    let mut out = String::new();
    let mut i: usize = 0;
    while i < parts.len()
        invariant
            i <= parts.len(),
            out@ == joined(texts(parts@).take(i as int), separator@),
        decreases parts.len() - i,
    {
        if i > 0 {
            out.append(separator);
        }
        out.append(parts[i].as_str());
        proof {
            let all = texts(parts@);
            let before = all.take(i as int);
            let after = all.take(i + 1);
            assert(after.drop_last() =~= before);
        }
        i += 1;
    }
    assert(texts(parts@).take(parts.len() as int) =~= texts(parts@));
    out
}

} // verus!
