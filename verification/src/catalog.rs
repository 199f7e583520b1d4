//! Which lines of a message catalog are converted.
//!
//! A line that begins with the keyword `msgstr` opens a block and is itself
//! converted from its eighth character on. The lines after it belong to the
//! block and are converted whole, until a line of fewer than three
//! characters closes the block. Every other line is kept as it is.

use vstd::prelude::*;
use vstd::std_specs::iter::IteratorSpec;
use crate::alphabet::{cyrillic, lemma_cyrillic_keeps_line_feeds};
use crate::lines::{
    is_single_line, joined, lemma_joined_ends_in_line_feed, lemma_lines_are_single,
    lemma_lines_of_joined, lines_of, split_lines,
};
use crate::transliterate::{deconvert, deconvert_onto, deconverted, from_index};

verus! {

/// Whether `line` begins with the keyword that opens a block.
pub open spec fn opens_block(line: Seq<char>) -> bool {
    "msgstr"@.is_prefix_of(line)
}

/// Whether the reader is inside a block once it has read `line`, given
/// whether it was inside one before.
pub open spec fn block_after(in_block: bool, line: Seq<char>) -> bool {
    opens_block(line) || (in_block && line.len() >= 3)
}

/// What is written for `line`, given whether the reader was inside a block
/// before it.
///
/// Of a line that opens a block the first seven characters, the keyword and
/// the one character after it, are replaced by the keyword and a space; only
/// the rest is converted. The character after the keyword is not looked at:
/// whatever it is, a space is written in its place, and where the line ends
/// with the keyword the space is written all the same. A line that closes a
/// block is written unchanged.
pub open spec fn converted_line(in_block: bool, line: Seq<char>) -> Seq<char> {
    if opens_block(line) {
        "msgstr "@ + deconverted(from_index(line, 7))
    } else if block_after(in_block, line) {
        deconverted(line)
    } else {
        line
    }
}

/// Whether the reader is inside a block once it has read all of `lines`,
/// starting outside any block.
pub open spec fn in_block_after(lines: Seq<Seq<char>>) -> bool
    decreases lines.len(),
{
    if lines.len() == 0 {
        false
    } else {
        block_after(in_block_after(lines.drop_last()), lines.last())
    }
}

/// What is written for `lines`: one line for each, in the same order.
pub open spec fn converted_lines(lines: Seq<Seq<char>>) -> Seq<Seq<char>> {
    Seq::new(
        lines.len(),
        |i: int| converted_line(in_block_after(lines.take(i)), lines[i]),
    )
}

/// What is written for `text`: its converted lines, each ended by a line
/// feed.
pub open spec fn converted_text(text: Seq<char>) -> Seq<char> {
    joined(converted_lines(lines_of(text)))
}

/// Whether `line` begins with `prefix`.
pub fn has_prefix(line: &str, prefix: &str) -> (found: bool)
    ensures
        found == prefix@.is_prefix_of(line@),
{
    let mut rest = line.chars();
    for expected in it: prefix.chars()
        invariant
            it.seq() == prefix@,
            rest.obeys_prophetic_iter_laws(),
            it.index() <= line@.len(),
            rest.remaining() == line@.skip(it.index()),
            line@.take(it.index()) == prefix@.take(it.index()),
    {
        match rest.next() {
            Some(c) => {
                if c != expected {
                    return false;
                }
            },
            None => {
                return false;
            },
        }
    }
    true
}

/// Reads one line of a catalog. Given whether the reader is inside a block,
/// returns whether it is inside one after `line`, and what is to be written
/// for `line`, without a line ending.
///
/// A line that opens a block leaves the reader inside one and is written
/// with the keyword and a space at its start. A line of fewer than three
/// characters leaves the reader outside any block and is written as it is,
/// also where it closes a block.
pub fn convert_line(in_block: bool, line: &str) -> (step: (bool, String))
    ensures
        step.0 == block_after(in_block, line@),
        step.1@ == converted_line(in_block, line@),
        opens_block(line@) ==> step.0 && "msgstr "@.is_prefix_of(step.1@),
        line@.len() < 3 ==> !step.0 && step.1@ == line@,
{
    proof {
        if opens_block(line@) {
            lemma_keyword_line(in_block, line@);
        }
        if line@.len() < 3 {
            lemma_short_line(in_block, line@);
        }
    }
    if has_prefix(line, "msgstr") {
        let mut written = "msgstr ".to_owned();
        deconvert_onto(&mut written, line, 7);
        (true, written)
    } else if in_block && line.unicode_len() >= 3 {
        (true, deconvert(line))
    } else {
        (false, line.to_owned())
    }
}

/// Converts a whole catalog: splits `text` into lines, reads them in order
/// starting outside any block, and writes each of them out with a line feed
/// after it. The result has as many lines as `text`, and is empty only where
/// `text` is.
pub fn convert_text(text: &str) -> (out: String)
    ensures
        out@ == converted_text(text@),
        lines_of(out@).len() == lines_of(text@).len(),
        out@.len() == 0 <==> text@.len() == 0,
{
    let lines = split_lines(text);
    let ghost read = lines_of(text@);
    let ghost written = converted_lines(read);
    let mut out = String::new();
    let mut in_block = false;
    for i in 0..lines.len()
        invariant
            read == lines_of(text@),
            written == converted_lines(read),
            lines.deep_view() == read,
            in_block == in_block_after(read.take(i as int)),
            out@ == joined(written.take(i as int)),
    {
        let step = convert_line(in_block, lines[i].as_str());
        proof {
            assert(read.take(i + 1).drop_last() == read.take(i as int));
            assert(written.take(i + 1).drop_last() == written.take(i as int));
        }
        out.append(step.1.as_str());
        out.push('\n');
        in_block = step.0;
    }
    proof {
        assert(written.take(lines.len() as int) == written);
        lemma_line_count(text@);
        lemma_joined_ends_in_line_feed(written);
    }
    out
}

/// A line that opens a block leaves the reader inside a block, whether or
/// not it was inside one before. What is written for it begins with the
/// keyword and a space, and goes on with the conversion of what the line
/// holds after its seventh character.
pub proof fn lemma_keyword_line(in_block: bool, line: Seq<char>)
    requires
        opens_block(line),
    ensures
        block_after(in_block, line),
        "msgstr "@.is_prefix_of(converted_line(in_block, line)),
        converted_line(in_block, line).skip(7) == deconverted(from_index(line, 7)),
{
    reveal_strlit("msgstr ");
}

/// A line of fewer than three characters leaves the reader outside any
/// block and is written as it is, also where the reader was inside a block
/// before it.
pub proof fn lemma_short_line(in_block: bool, line: Seq<char>)
    requires
        line.len() < 3,
    ensures
        !opens_block(line),
        !block_after(in_block, line),
        converted_line(in_block, line) == line,
{
    reveal_strlit("msgstr");
}

/// What is written for a line without a line feed holds no line feed.
pub proof fn lemma_converted_line_is_single(in_block: bool, line: Seq<char>)
    requires
        is_single_line(line),
    ensures
        is_single_line(converted_line(in_block, line)),
{
    reveal_strlit("msgstr ");
    assert forall|c: char| c != '\n' implies #[trigger] cyrillic(c) != '\n' by {
        lemma_cyrillic_keeps_line_feeds(c);
    }
}

/// Conversion keeps the number of lines: reading back what was written for
/// `text` gives as many lines as `text` has.
pub proof fn lemma_line_count(text: Seq<char>)
    ensures
        converted_lines(lines_of(text)).len() == lines_of(text).len(),
        lines_of(converted_text(text)).len() == lines_of(text).len(),
{
    let read = lines_of(text);
    let written = converted_lines(read);
    lemma_lines_are_single(text);
    assert forall|k: int| 0 <= k < written.len() implies is_single_line(#[trigger] written[k]) by {
        lemma_converted_line_is_single(in_block_after(read.take(k)), read[k]);
    }
    lemma_lines_of_joined(written);
}

} // verus!
