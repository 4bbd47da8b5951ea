use gpu_report::text::{
    char_is_space, chars_of, decimal_string, fit_string, join_from, join_strings, pad_left_string,
    pad_right_string, signed_decimal_string, split_whitespace, string_of,
};

fn owned(words: &[&str]) -> Vec<String> {
    words.iter().map(|w| w.to_string()).collect()
}

#[test]
fn separators_are_the_white_space_characters() {
    let mut code: u32 = 0;
    while code <= 0x10ffff {
        if let Some(c) = char::from_u32(code) {
            assert_eq!(char_is_space(c), c.is_whitespace(), "U+{:04X}", code);
        }
        code += 1;
    }
}

#[test]
fn split_gives_the_words_in_order() {
    assert_eq!(split_whitespace("a bc  def"), owned(&["a", "bc", "def"]));
    assert_eq!(split_whitespace("  lead and trail \n"), owned(&["lead", "and", "trail"]));
    assert_eq!(split_whitespace("one"), owned(&["one"]));
    assert_eq!(split_whitespace("tab\tand\u{a0}nbsp"), owned(&["tab", "and", "nbsp"]));
}

#[test]
fn split_of_blank_text_is_empty() {
    assert!(split_whitespace("").is_empty());
    assert!(split_whitespace(" \t\r\n ").is_empty());
}

#[test]
fn split_agrees_with_the_standard_library() {
    let samples = [
        "",
        " ",
        "x",
        " x",
        "x ",
        "a  b",
        "\u{2003}wide\u{2003}gap\u{3000}",
        "4242 alice 12.5 0.3 01:02:03 python train.py --epochs 3",
        "gr\u{fc}\u{df}e aus  k\u{f6}ln",
    ];
    for sample in samples {
        let expected: Vec<String> = sample.split_whitespace().map(|w| w.to_string()).collect();
        assert_eq!(split_whitespace(sample), expected, "{:?}", sample);
    }
}

#[test]
fn join_puts_the_separator_between_neighbours() {
    assert_eq!(join_strings(&owned(&["a", "b", "c"]), ", "), "a, b, c");
    assert_eq!(join_strings(&owned(&["only"]), ", "), "only");
    assert_eq!(join_strings(&owned(&[]), ", "), "");
    assert_eq!(join_strings(&owned(&["", ""]), "-"), "-");
}

#[test]
fn join_from_skips_the_first_parts() {
    let parts = owned(&["a", "b", "c", "d"]);
    assert_eq!(join_from(&parts, 0, " "), "a b c d");
    assert_eq!(join_from(&parts, 2, " "), "c d");
    assert_eq!(join_from(&parts, 3, " "), "d");
    assert_eq!(join_from(&parts, 4, " "), "");
}

#[test]
fn decimal_numerals() {
    assert_eq!(decimal_string(0), "0");
    assert_eq!(decimal_string(7), "7");
    assert_eq!(decimal_string(10), "10");
    assert_eq!(decimal_string(4242), "4242");
    assert_eq!(decimal_string(u64::MAX), "18446744073709551615");
    for n in [1u64, 9, 99, 100, 101, 65535, 4294967295, 1234567890123] {
        assert_eq!(decimal_string(n), n.to_string());
    }
}

#[test]
fn signed_decimal_numerals() {
    assert_eq!(signed_decimal_string(0), "0");
    assert_eq!(signed_decimal_string(-1), "-1");
    assert_eq!(signed_decimal_string(86), "86");
    assert_eq!(signed_decimal_string(i64::MIN), "-9223372036854775808");
    assert_eq!(signed_decimal_string(i64::MAX), "9223372036854775807");
}

#[test]
fn pad_left_moves_to_the_right_edge() {
    assert_eq!(pad_left_string("7", 3), "  7");
    assert_eq!(pad_left_string("100", 3), "100");
    assert_eq!(pad_left_string("1000", 3), "1000");
    assert_eq!(pad_left_string("", 2), "  ");
    assert_eq!(pad_left_string("x", 0), "x");
}

#[test]
fn pad_right_fills_but_never_cuts() {
    assert_eq!(pad_right_string("42", 7), "42     ");
    assert_eq!(pad_right_string("1234567", 7), "1234567");
    assert_eq!(pad_right_string("12345678", 7), "12345678");
}

#[test]
fn fit_fills_short_text_with_blanks() {
    assert_eq!(fit_string("RTX 3090", 15), "RTX 3090       ");
    assert_eq!(fit_string("", 4), "    ");
    assert_eq!(fit_string("exact", 5), "exact");
}

#[test]
fn fit_cuts_long_text_to_end_in_the_ellipsis() {
    assert_eq!(fit_string("4242, 17, 99001", 10), "4242, 1...");
    assert_eq!(fit_string("abcdefgh", 7), "abcd...");
    assert_eq!(fit_string("abcde", 4), "a...");
}

#[test]
fn fit_in_a_column_too_narrow_for_the_ellipsis() {
    assert_eq!(fit_string("abcdef", 3), "...");
    assert_eq!(fit_string("abcdef", 2), "..");
    assert_eq!(fit_string("abcdef", 1), ".");
    assert_eq!(fit_string("abcdef", 0), "");
    assert_eq!(fit_string("ab", 3), "ab ");
}

#[test]
fn fit_counts_characters_not_bytes() {
    assert_eq!(fit_string("\u{e4}\u{f6}\u{fc}", 5), "\u{e4}\u{f6}\u{fc}  ");
    assert_eq!(fit_string("\u{e4}\u{f6}\u{fc}\u{df}\u{e9}\u{e8}", 5), "\u{e4}\u{f6}...");
}

#[test]
fn a_cell_of_fit_is_as_wide_as_asked() {
    for width in 0..12usize {
        for text in ["", "a", "abc", "abcd", "a longer piece of text"] {
            assert_eq!(fit_string(text, width).chars().count(), width);
        }
    }
}

#[test]
fn characters_and_back() {
    let chars = chars_of("h\u{e9}llo");
    assert_eq!(chars, vec!['h', '\u{e9}', 'l', 'l', 'o']);
    assert_eq!(string_of(&chars, 0, 5), "h\u{e9}llo");
    assert_eq!(string_of(&chars, 1, 3), "\u{e9}l");
    assert_eq!(string_of(&chars, 2, 2), "");
}
