//! Lines of a text: where they end, what they hold, and how they are put
//! together again.
//!
//! A line ends at a line feed, or at a carriage return directly followed by a
//! line feed; neither belongs to the line. A carriage return anywhere else is
//! an ordinary character. The last line may do without its line ending, and a
//! text that ends in a line ending has no empty line after it.

use vstd::prelude::*;

verus! {

/// The index of the first line feed in `text`, or the length of `text` where
/// it has none.
pub open spec fn line_end(text: Seq<char>) -> int
    decreases text.len(),
{
    if text.len() == 0 || text[0] == '\n' {
        0
    } else {
        1 + line_end(text.skip(1))
    }
}

/// `line` without the carriage return at its end, if it has one there.
pub open spec fn without_cr(line: Seq<char>) -> Seq<char> {
    if line.len() > 0 && line.last() == '\r' {
        line.drop_last()
    } else {
        line
    }
}

/// The lines of `text`, in order, each without its line ending.
pub open spec fn lines_of(text: Seq<char>) -> Seq<Seq<char>>
    decreases text.len(),
{
    if text.len() == 0 {
        Seq::empty()
    } else {
        let end = line_end(text);
        if 0 <= end < text.len() {
            seq![without_cr(text.take(end))] + lines_of(text.skip(end + 1))
        } else {
            seq![text]
        }
    }
}

/// Whether `line` holds no line feed.
pub open spec fn is_single_line(line: Seq<char>) -> bool {
    forall|i: int| 0 <= i < line.len() ==> line[i] != '\n'
}

/// `lines` written out one after the other, a line feed after each.
pub open spec fn joined(lines: Seq<Seq<char>>) -> Seq<char>
    decreases lines.len(),
{
    if lines.len() == 0 {
        Seq::empty()
    } else {
        joined(lines.drop_last()) + lines.last() + seq!['\n']
    }
}

/// Splits `text` into its lines.
pub fn split_lines(text: &str) -> (lines: Vec<String>)
    ensures
        lines.deep_view() == lines_of(text@),
{
    let mut lines: Vec<String> = Vec::new();
    let mut line = String::new();
    // A carriage return that was read and is not yet in `line`: whether it
    // belongs there depends on the character after it.
    let mut held_cr = false;
    // Whether anything was read since the last line ended.
    let mut begun = false;
    // Where the line that is being read begins in `text`.
    let ghost mut start: int = 0;
    assert(text@.skip(0) == text@);
    for c in it: text.chars()
        invariant
            it.seq() == text@,
            0 <= start <= it.index(),
            begun == (start < it.index()),
            forall|i: int| start <= i < it.index() ==> text@[i] != '\n',
            lines_of(text@) == lines.deep_view() + lines_of(text@.skip(start)),
            text@.subrange(start, it.index()) == if held_cr {
                line@.push('\r')
            } else {
                line@
            },
            !held_cr && line@.len() > 0 ==> line@.last() != '\r',
    {
        if c == '\n' {
            proof {
                let at = it.index();
                let rest = text@.skip(start);
                assert(rest.take(at - start) == text@.subrange(start, at));
                assert(rest.skip(at - start + 1) == text@.skip(at + 1));
                assert(without_cr(text@.subrange(start, at)) == line@);
                lemma_lines_of_step(rest, at - start);
                start = at + 1;
            }
            lines.push(line);
            line = String::new();
            held_cr = false;
            begun = false;
        } else {
            if held_cr {
                line.push('\r');
            }
            if c == '\r' {
                held_cr = true;
            } else {
                line.push(c);
                held_cr = false;
            }
            begun = true;
        }
    }
    if begun {
        if held_cr {
            line.push('\r');
        }
        proof {
            let rest = text@.skip(start);
            lemma_line_end_unique(rest, rest.len() as int);
        }
        lines.push(line);
    }
    lines
}

/// `line_end` is the one index up to which `text` has no line feed and at
/// which it has one or ends.
pub proof fn lemma_line_end_unique(text: Seq<char>, end: int)
    requires
        0 <= end <= text.len(),
        forall|i: int| 0 <= i < end ==> text[i] != '\n',
        end < text.len() ==> text[end] == '\n',
    ensures
        line_end(text) == end,
    decreases text.len(),
{
    if end > 0 {
        lemma_line_end_unique(text.skip(1), end - 1);
    }
}

/// `line_end` lies within `text`, no line feed comes before it, and where it
/// is not the end of `text` a line feed stands at it.
pub proof fn lemma_line_end_is_first(text: Seq<char>)
    ensures
        0 <= line_end(text) <= text.len(),
        forall|i: int| 0 <= i < line_end(text) ==> text[i] != '\n',
        line_end(text) < text.len() ==> text[line_end(text)] == '\n',
    decreases text.len(),
{
    if text.len() > 0 && text[0] != '\n' {
        let rest = text.skip(1);
        lemma_line_end_is_first(rest);
        assert forall|i: int| 0 <= i < line_end(text) implies text[i] != '\n' by {
            if i > 0 {
                assert(text[i] == rest[i - 1]);
            }
        }
    }
}

/// Where the first line feed of `text` stands at `end`, the lines of `text`
/// are the line before it and the lines of what comes after it.
pub proof fn lemma_lines_of_step(text: Seq<char>, end: int)
    requires
        0 <= end < text.len(),
        forall|i: int| 0 <= i < end ==> text[i] != '\n',
        text[end] == '\n',
    ensures
        lines_of(text) == seq![without_cr(text.take(end))] + lines_of(text.skip(end + 1)),
{
    lemma_line_end_unique(text, end);
}

/// No line of a text holds a line feed.
pub proof fn lemma_lines_are_single(text: Seq<char>)
    ensures
        forall|k: int|
            0 <= k < lines_of(text).len() ==> is_single_line(#[trigger] lines_of(text)[k]),
    decreases text.len(),
{
    if text.len() > 0 {
        lemma_line_end_is_first(text);
        let end = line_end(text);
        if end < text.len() {
            let first = without_cr(text.take(end));
            let others = lines_of(text.skip(end + 1));
            lemma_lines_are_single(text.skip(end + 1));
            assert(is_single_line(first));
            assert forall|k: int| 0 <= k < lines_of(text).len() implies is_single_line(
                #[trigger] lines_of(text)[k],
            ) by {
                if k > 0 {
                    assert(lines_of(text)[k] == others[k - 1]);
                }
            }
        }
    }
}

/// Where `head` is empty or ends in a line feed, the lines of `head + tail`
/// are the lines of `head` followed by the lines of `tail`.
pub proof fn lemma_lines_of_concat(head: Seq<char>, tail: Seq<char>)
    requires
        head.len() > 0 ==> head.last() == '\n',
    ensures
        lines_of(head + tail) == lines_of(head) + lines_of(tail),
    decreases head.len(),
{
    if head.len() > 0 {
        let whole = head + tail;
        let end = line_end(head);
        lemma_line_end_is_first(head);
        lemma_line_end_unique(whole, end);
        assert(whole.take(end) == head.take(end));
        assert(whole.skip(end + 1) == head.skip(end + 1) + tail);
        lemma_lines_of_concat(head.skip(end + 1), tail);
    }
}

/// What `joined` writes is empty or ends in a line feed, and it is empty only
/// where there are no lines.
pub proof fn lemma_joined_ends_in_line_feed(lines: Seq<Seq<char>>)
    ensures
        joined(lines).len() > 0 ==> joined(lines).last() == '\n',
        lines.len() == 0 <==> joined(lines).len() == 0,
{
}

/// Reading back what `joined` wrote gives the same lines, in the same
/// number and order, each without a carriage return at its end; this holds
/// where no line holds a line feed.
pub proof fn lemma_lines_of_joined(lines: Seq<Seq<char>>)
    requires
        forall|k: int| 0 <= k < lines.len() ==> is_single_line(#[trigger] lines[k]),
    ensures
        lines_of(joined(lines)) == lines.map_values(|line: Seq<char>| without_cr(line)),
        lines_of(joined(lines)).len() == lines.len(),
    decreases lines.len(),
{
    if lines.len() > 0 {
        let front = lines.drop_last();
        let last = lines.last();
        let written = last + seq!['\n'];
        lemma_lines_of_joined(front);
        lemma_joined_ends_in_line_feed(front);
        assert(joined(lines) == joined(front) + written);
        lemma_lines_of_concat(joined(front), written);
        assert(lines_of(written) == seq![without_cr(last)]) by {
            let end = last.len() as int;
            lemma_line_end_unique(written, end);
            assert(written.take(end) == last);
            assert(lines_of(written.skip(end + 1)).len() == 0);
        }
    }
}

} // verus!
