use deconverter::{convert_line, convert_text, has_prefix};

#[test]
fn a_keyword_line_opens_a_block() {
    let (in_block, written) = convert_line(false, "msgstr \"Rq&bnij mfx\"");
    assert!(in_block);
    assert!(written.starts_with("msgstr "));
    assert_eq!(written, "msgstr \"Срібний меч\"");
}

#[test]
fn a_keyword_line_inside_a_block_opens_the_next() {
    let (in_block, written) = convert_line(true, "msgstr \"Mfx\"");
    assert!(in_block);
    assert_eq!(written, "msgstr \"Меч\"");
}

#[test]
fn the_keyword_itself_is_not_converted() {
    let (_, written) = convert_line(false, "msgstr \"msgstr\"");
    assert_eq!(written, "msgstr \"мтжтус\"");
}

#[test]
fn the_first_seven_characters_are_replaced() {
    // Whatever follows the keyword, one character is dropped and a space written.
    assert_eq!(convert_line(false, "msgstrXabc"), (true, String::from("msgstr абв")));
    assert_eq!(convert_line(false, "msgstr\tabc"), (true, String::from("msgstr абв")));
    assert_eq!(convert_line(false, "msgstr[0] \"a\""), (true, String::from("msgstr 0Ґ \"а\"")));
    assert_eq!(convert_line(false, "msgstrяabc"), (true, String::from("msgstr абв")));
}

#[test]
fn a_keyword_line_may_be_short() {
    assert_eq!(convert_line(false, "msgstr"), (true, String::from("msgstr ")));
    assert_eq!(convert_line(false, "msgstr "), (true, String::from("msgstr ")));
    assert_eq!(convert_line(true, "msgstr"), (true, String::from("msgstr ")));
    assert_eq!(convert_line(false, "msgstr a"), (true, String::from("msgstr а")));
}

#[test]
fn the_keyword_must_stand_at_the_start() {
    assert_eq!(convert_line(false, " msgstr \"a\""), (false, String::from(" msgstr \"a\"")));
    assert_eq!(convert_line(false, "msgst"), (false, String::from("msgst")));
    assert_eq!(convert_line(false, "msgid \"a\""), (false, String::from("msgid \"a\"")));
    assert_eq!(convert_line(false, "Msgstr \"a\""), (false, String::from("Msgstr \"a\"")));
    assert_eq!(convert_line(false, "#msgstr"), (false, String::from("#msgstr")));
}

#[test]
fn a_line_outside_a_block_is_kept() {
    assert_eq!(convert_line(false, "msgid \"Silver sword\""), (false, String::from("msgid \"Silver sword\"")));
    assert_eq!(convert_line(false, "# comment"), (false, String::from("# comment")));
    assert_eq!(convert_line(false, ""), (false, String::new()));
    assert_eq!(convert_line(false, "ab"), (false, String::from("ab")));
}

#[test]
fn a_line_inside_a_block_is_converted_whole() {
    assert_eq!(convert_line(true, "\"Rq&bnij mfx\""), (true, String::from("\"Срібний меч\"")));
    assert_eq!(convert_line(true, "msgid \"a\""), (true, String::from("мтжиг \"а\"")));
}

#[test]
fn a_short_line_closes_the_block_and_is_kept() {
    assert_eq!(convert_line(true, ""), (false, String::new()));
    assert_eq!(convert_line(true, "a"), (false, String::from("a")));
    assert_eq!(convert_line(true, "ab"), (false, String::from("ab")));
    assert_eq!(convert_line(true, "\"\""), (false, String::from("\"\"")));
}

#[test]
fn three_characters_do_not_close_the_block() {
    assert_eq!(convert_line(true, "abc"), (true, String::from("абв")));
    assert_eq!(convert_line(true, "\"a\""), (true, String::from("\"а\"")));
}

#[test]
fn the_length_of_a_line_is_counted_in_characters() {
    // Two letters of two bytes each are two characters.
    assert_eq!(convert_line(true, "яя"), (false, String::from("яя")));
    assert_eq!(convert_line(true, "яяя"), (true, String::from("яяя")));
    assert_eq!(convert_line(true, "я1a"), (true, String::from("я1а")));
}

#[test]
fn a_short_line_outside_a_block_changes_nothing() {
    assert_eq!(convert_line(false, "a"), (false, String::from("a")));
}

#[test]
fn prefixes() {
    assert!(has_prefix("msgstr \"a\"", "msgstr"));
    assert!(has_prefix("msgstr", "msgstr"));
    assert!(has_prefix("anything", ""));
    assert!(has_prefix("", ""));
    assert!(!has_prefix("msgst", "msgstr"));
    assert!(!has_prefix("", "msgstr"));
    assert!(!has_prefix("msgid", "msgstr"));
    assert!(!has_prefix(" msgstr", "msgstr"));
    assert!(has_prefix("меч і щит", "меч"));
    assert!(!has_prefix("меч", "мечі"));
}

#[test]
fn an_empty_catalog_gives_an_empty_result() {
    assert_eq!(convert_text(""), "");
}

#[test]
fn a_whole_catalog() {
    let text = "\
# Weapons
msgid \"Silver sword\"
msgstr \"Rq&bnij mfx\"

msgid \"A long text\"
msgstr \"\"
\"Pfqyij qzeok \"
\"eqtuij qzeok\"

msgid \"abc\"
";
    let wanted = "\
# Weapons
msgid \"Silver sword\"
msgstr \"Срібний меч\"

msgid \"A long text\"
msgstr \"\"
\"Перший рщдок \"
\"друфий рщдок\"

msgid \"abc\"
";
    assert_eq!(convert_text(text), wanted);
}

#[test]
fn a_block_lasts_until_a_short_line() {
    let text = "msgstr \"a\"\nmsgid \"b\"\n\nmsgid \"b\"\n";
    assert_eq!(convert_text(text), "msgstr \"а\"\nмтжиг \"б\"\n\nmsgid \"b\"\n");
}

#[test]
fn the_short_line_that_closes_a_block_is_kept() {
    assert_eq!(convert_text("msgstr \"\"\n\"a\"\nab\nabc\n"), "msgstr \"\"\n\"а\"\nab\nabc\n");
}

#[test]
fn the_first_line_is_outside_any_block() {
    assert_eq!(convert_text("abc def\n"), "abc def\n");
}

#[test]
fn every_line_is_written_with_a_line_feed() {
    assert_eq!(convert_text("abc"), "abc\n");
    assert_eq!(convert_text("abc\ndef"), "abc\ndef\n");
    assert_eq!(convert_text("\n"), "\n");
    assert_eq!(convert_text("\n\n"), "\n\n");
    assert_eq!(convert_text("msgstr \"a\""), "msgstr \"а\"\n");
}

#[test]
fn other_line_endings_become_line_feeds() {
    assert_eq!(convert_text("msgid \"a\"\r\nmsgstr \"a\"\r\n\"bc\"\r\n"), "msgid \"a\"\nmsgstr \"а\"\n\"бв\"\n");
}

#[test]
fn a_carriage_return_counts_as_a_character() {
    // "a\r" has two characters and closes the block; "ab\r" has three.
    assert_eq!(convert_text("msgstr \"\"\nab\r"), "msgstr \"\"\nаб\r\n");
    assert_eq!(convert_text("msgstr \"\"\na\r"), "msgstr \"\"\na\r\n");
}

#[test]
fn the_number_of_lines_is_kept() {
    let texts = [
        "",
        "a",
        "a\n",
        "\n\n\n",
        "msgstr \"a\"\n\"b\"\n\nc",
        "msgid \"\"\r\nmsgstr \"\"\r\n\"abc\\n\"\r\n\r\n",
        "msgstr\nmsgstr\nmsgstr",
        "a\rb\nc\r\n\r",
    ];
    for text in texts {
        let out = convert_text(text);
        assert_eq!(out.lines().count(), text.lines().count(), "{:?}", text);
        assert_eq!(out.matches('\n').count(), text.lines().count(), "{:?}", text);
    }
}

#[test]
fn the_result_is_what_the_steps_give() {
    let text = "msgid \"a\"\nmsgstr \"\"\n\"abc\"\nx\n\"abc\"\nmsgstr \"Mfx\"\nabc\n";
    let mut in_block = false;
    let mut wanted = String::new();
    for line in text.lines() {
        let (next, written) = convert_line(in_block, line);
        in_block = next;
        wanted.push_str(&written);
        wanted.push('\n');
    }
    assert_eq!(convert_text(text), wanted);
    assert_eq!(wanted, "msgid \"a\"\nmsgstr \"\"\n\"абв\"\nx\n\"abc\"\nmsgstr \"Меч\"\nабв\n");
}
