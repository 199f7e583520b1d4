//! Converting a whole line, character by character.

use vstd::prelude::*;
use crate::alphabet::{cyrillic, deconvert_char, lemma_cyrillic_idempotent, mapped};

verus! {

/// The conversion of `line`: each character replaced by what it stands for.
pub open spec fn deconverted(line: Seq<char>) -> Seq<char> {
    line.map_values(|c: char| cyrillic(c))
}

/// The characters of `line` from index `start` on, and nothing where the
/// line has fewer than `start` characters.
pub open spec fn from_index(line: Seq<char>, start: nat) -> Seq<char> {
    if start <= line.len() {
        line.skip(start as int)
    } else {
        Seq::empty()
    }
}

/// Appends to `out` the conversion of `line` without its first `skip`
/// characters.
pub(crate) fn deconvert_onto(out: &mut String, line: &str, skip: usize)
    ensures
        final(out)@ == old(out)@ + deconverted(from_index(line@, skip as nat)),
{
    let ghost before = out@;
    let mut passed: usize = 0;
    for c in it: line.chars()
        invariant
            it.seq() == line@,
            passed <= skip,
            passed <= it.index(),
            passed < skip ==> passed == it.index(),
            out@ == before + deconverted(line@.subrange(passed as int, it.index())),
    {
        if passed < skip {
            passed += 1;
        } else {
            out.push(deconvert_char(c));
        }
    }
}

/// Converts `line`: every character that the alphabet's table lists is
/// replaced by its Cyrillic letter, every other character is kept. The
/// result has as many characters as `line`.
pub fn deconvert(line: &str) -> (out: String)
    ensures
        out@ == deconverted(line@),
        out@.len() == line@.len(),
        forall|i: int|
            0 <= i < line@.len() ==> out@[i] == match mapped(#[trigger] line@[i]) {
                Some(letter) => letter,
                None => line@[i],
            },
{
    let mut out = String::new();
    deconvert_onto(&mut out, line, 0);
    out
}

/// Converting twice gives what converting once gives: the letters that the
/// first pass wrote are not source characters of the table.
pub proof fn lemma_deconverted_idempotent(line: Seq<char>)
    ensures
        deconverted(deconverted(line)) == deconverted(line),
{
    assert forall|i: int| 0 <= i < line.len() implies cyrillic(cyrillic(line[i])) == cyrillic(
        line[i],
    ) by {
        lemma_cyrillic_idempotent(line[i]);
    }
}

} // verus!
