//! The fixed alphabet: which Latin-keyboard characters stand for which
//! Cyrillic letters.
//!
//! The table has 66 entries, one for each lower-case and upper-case letter of
//! the Ukrainian alphabet. Its sources are the ASCII letters and fourteen
//! ASCII punctuation signs; its targets all lie in the Cyrillic block
//! (U+0400 to U+04FF). Every other character stands for itself.

use vstd::prelude::*;

verus! {

/// The table itself: the Cyrillic letter that `c` stands for, or `None` where
/// `c` is not one of the 66 source characters. The letters are given by their
/// code points, in the order of the alphabet, lower case first.
pub open spec fn mapped(c: char) -> Option<char> {
    match c {
        'a' => Some('\u{0430}'),
        'b' => Some('\u{0431}'),
        'c' => Some('\u{0432}'),
        'd' => Some('\u{0433}'),
        '~' => Some('\u{0491}'),
        'e' => Some('\u{0434}'),
        'f' => Some('\u{0435}'),
        '%' => Some('\u{0454}'),
        'g' => Some('\u{0436}'),
        'h' => Some('\u{0437}'),
        'i' => Some('\u{0438}'),
        '&' => Some('\u{0456}'),
        '@' => Some('\u{0457}'),
        'j' => Some('\u{0439}'),
        'k' => Some('\u{043A}'),
        'l' => Some('\u{043B}'),
        'm' => Some('\u{043C}'),
        'n' => Some('\u{043D}'),
        'o' => Some('\u{043E}'),
        'p' => Some('\u{043F}'),
        'q' => Some('\u{0440}'),
        'r' => Some('\u{0441}'),
        's' => Some('\u{0442}'),
        't' => Some('\u{0443}'),
        'u' => Some('\u{0444}'),
        'v' => Some('\u{0445}'),
        'w' => Some('\u{0446}'),
        'x' => Some('\u{0447}'),
        'y' => Some('\u{0448}'),
        'z' => Some('\u{0449}'),
        '{' => Some('\u{044C}'),
        '|' => Some('\u{044E}'),
        '}' => Some('\u{044F}'),
        'A' => Some('\u{0410}'),
        'B' => Some('\u{0411}'),
        'C' => Some('\u{0412}'),
        'D' => Some('\u{0413}'),
        ']' => Some('\u{0490}'),
        'E' => Some('\u{0414}'),
        'F' => Some('\u{0415}'),
        '^' => Some('\u{0404}'),
        'G' => Some('\u{0416}'),
        'H' => Some('\u{0417}'),
        'I' => Some('\u{0418}'),
        '+' => Some('\u{0406}'),
        ';' => Some('\u{0407}'),
        'J' => Some('\u{0419}'),
        'K' => Some('\u{041A}'),
        'L' => Some('\u{041B}'),
        'M' => Some('\u{041C}'),
        'N' => Some('\u{041D}'),
        'O' => Some('\u{041E}'),
        'P' => Some('\u{041F}'),
        'Q' => Some('\u{0420}'),
        'R' => Some('\u{0421}'),
        'S' => Some('\u{0422}'),
        'T' => Some('\u{0423}'),
        'U' => Some('\u{0424}'),
        'V' => Some('\u{0425}'),
        'W' => Some('\u{0426}'),
        'X' => Some('\u{0427}'),
        'Y' => Some('\u{0428}'),
        'Z' => Some('\u{0429}'),
        '=' => Some('\u{042C}'),
        '[' => Some('\u{042E}'),
        '/' => Some('\u{042F}'),
        _ => None,
    }
}

/// What `c` becomes: its table entry, or `c` itself where it has none.
pub open spec fn cyrillic(c: char) -> char {
    match mapped(c) {
        Some(letter) => letter,
        None => c,
    }
}

/// Whether `c` lies in the Cyrillic block of Unicode.
pub open spec fn in_cyrillic_block(c: char) -> bool {
    0x400 <= c as u32 <= 0x4FF
}

/// Looks `c` up in the table. Here the letters are written out; that each is
/// the letter of the code point that `mapped` gives is proved.
pub fn lookup(c: char) -> (letter: Option<char>)
    ensures
        letter == mapped(c),
{
    match c {
        'a' => Some('а'),
        'b' => Some('б'),
        'c' => Some('в'),
        'd' => Some('г'),
        '~' => Some('ґ'),
        'e' => Some('д'),
        'f' => Some('е'),
        '%' => Some('є'),
        'g' => Some('ж'),
        'h' => Some('з'),
        'i' => Some('и'),
        '&' => Some('і'),
        '@' => Some('ї'),
        'j' => Some('й'),
        'k' => Some('к'),
        'l' => Some('л'),
        'm' => Some('м'),
        'n' => Some('н'),
        'o' => Some('о'),
        'p' => Some('п'),
        'q' => Some('р'),
        'r' => Some('с'),
        's' => Some('т'),
        't' => Some('у'),
        'u' => Some('ф'),
        'v' => Some('х'),
        'w' => Some('ц'),
        'x' => Some('ч'),
        'y' => Some('ш'),
        'z' => Some('щ'),
        '{' => Some('ь'),
        '|' => Some('ю'),
        '}' => Some('я'),
        'A' => Some('А'),
        'B' => Some('Б'),
        'C' => Some('В'),
        'D' => Some('Г'),
        ']' => Some('Ґ'),
        'E' => Some('Д'),
        'F' => Some('Е'),
        '^' => Some('Є'),
        'G' => Some('Ж'),
        'H' => Some('З'),
        'I' => Some('И'),
        '+' => Some('І'),
        ';' => Some('Ї'),
        'J' => Some('Й'),
        'K' => Some('К'),
        'L' => Some('Л'),
        'M' => Some('М'),
        'N' => Some('Н'),
        'O' => Some('О'),
        'P' => Some('П'),
        'Q' => Some('Р'),
        'R' => Some('С'),
        'S' => Some('Т'),
        'T' => Some('У'),
        'U' => Some('Ф'),
        'V' => Some('Х'),
        'W' => Some('Ц'),
        'X' => Some('Ч'),
        'Y' => Some('Ш'),
        'Z' => Some('Щ'),
        '=' => Some('Ь'),
        '[' => Some('Ю'),
        '/' => Some('Я'),
        _ => None,
    }
}

/// Replaces `c` by the letter it stands for; a character without a table
/// entry is returned unchanged.
pub fn deconvert_char(c: char) -> (letter: char)
    ensures
        letter == cyrillic(c),
        mapped(c) is None ==> letter == c,
{
    match lookup(c) {
        Some(letter) => letter,
        None => c,
    }
}

/// Every source character of the table is ASCII, and every target is a
/// letter of the Cyrillic block.
pub proof fn lemma_table_range(c: char)
    requires
        mapped(c) is Some,
    ensures
        c as u32 <= 0x7F,
        in_cyrillic_block(mapped(c)->Some_0),
{
}

/// No target of the table is itself a source: a letter that came out of the
/// table has no entry of its own.
pub proof fn lemma_target_has_no_entry(c: char)
    requires
        mapped(c) is Some,
    ensures
        mapped(mapped(c)->Some_0) is None,
{
    lemma_table_range(c);
}

/// The table is one-to-one: two different source characters never stand for
/// the same letter.
pub proof fn lemma_table_injective(a: char, b: char)
    requires
        mapped(a) is Some,
        mapped(a) == mapped(b),
    ensures
        a == b,
{
}

/// Converting a character a second time changes nothing.
pub proof fn lemma_cyrillic_idempotent(c: char)
    ensures
        cyrillic(cyrillic(c)) == cyrillic(c),
{
    if mapped(c) is Some {
        lemma_target_has_no_entry(c);
    }
}

/// Conversion neither makes nor removes a line feed.
pub proof fn lemma_cyrillic_keeps_line_feeds(c: char)
    ensures
        cyrillic(c) == '\n' <==> c == '\n',
{
    if mapped(c) is Some {
        lemma_table_range(c);
    }
}

} // verus!
