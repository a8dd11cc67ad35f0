use satysfi_formatter::text::{
    append, append_str, blank, chars_of, has_char, has_prefix, has_suffix, reflow_of,
    same_text, string_of, subvec, trailing_space_breaks, trim_end_of, trim_of, trim_start_of,
};
use satysfi_formatter::unicode::{exceeds, is_whitespace, width_of};

fn chars(s: &str) -> Vec<char> {
    s.chars().collect()
}

#[test]
fn white_space_is_what_unicode_says() {
    for code in 0u32..=0x11_0000 {
        if let Some(c) = char::from_u32(code) {
            assert_eq!(is_whitespace(c), c.is_whitespace(), "U+{:04X}", code);
        }
    }
}

#[test]
fn width_is_the_length_of_the_encoding() {
    for code in 0u32..=0x11_0000 {
        if let Some(c) = char::from_u32(code) {
            assert_eq!(width_of(c), c.len_utf8(), "U+{:04X}", code);
        }
    }
    assert_eq!(width_of('a'), 1);
    assert_eq!(width_of('é'), 2);
    assert_eq!(width_of('あ'), 3);
    assert_eq!(width_of('😀'), 4);
}

#[test]
fn exceeds_compares_the_encoded_length() {
    assert!(!exceeds(&chars(""), 0));
    assert!(exceeds(&chars("a"), 0));
    assert!(!exceeds(&chars("abc"), 3));
    assert!(exceeds(&chars("abc"), 2));
    assert!(!exceeds(&chars("aあ😀"), 8));
    assert!(exceeds(&chars("aあ😀"), 7));
    assert!(!exceeds(&chars("abc"), usize::MAX));
    assert!(!exceeds(&chars("あ"), usize::MAX - 1));
}

#[test]
fn strings_convert_both_ways() {
    assert_eq!(chars_of("aあ😀"), vec!['a', 'あ', '😀']);
    assert_eq!(chars_of(""), Vec::<char>::new());
    assert_eq!(string_of(&vec!['a', 'あ', '😀']), "aあ😀");
    assert_eq!(string_of(&vec![]), "");
}

#[test]
fn pieces_and_joins() {
    assert_eq!(subvec(&chars("hello"), 1, 3), chars("el"));
    assert_eq!(subvec(&chars("hello"), 2, 2), chars(""));
    assert_eq!(subvec(&chars("hello"), 0, 5), chars("hello"));
    let mut acc = chars("ab");
    append(&mut acc, &chars("cd"));
    append_str(&mut acc, "éf");
    assert_eq!(acc, chars("abcdéf"));
}

#[test]
fn trimming_matches_the_standard_library() {
    for s in [
        "",
        " ",
        "a",
        "  a b  ",
        "\n\t a\r\n",
        "\u{3000}あ\u{3000}い\u{3000}",
        "\u{a0}x\u{2003}",
        "\u{200b}x\u{200b}",
        " \u{85}\u{1680}\u{2028}\u{2029}\u{202f}\u{205f} ",
    ] {
        assert_eq!(string_of(&trim_start_of(&chars(s))), s.trim_start());
        assert_eq!(string_of(&trim_end_of(&chars(s))), s.trim_end());
        assert_eq!(string_of(&trim_of(&chars(s))), s.trim());
        assert_eq!(blank(&chars(s)), s.trim().is_empty());
    }
}

#[test]
fn prefix_suffix_and_equality() {
    let s = chars("'<abc>;");
    assert!(has_prefix(&s, "'<"));
    assert!(has_prefix(&s, ""));
    assert!(has_prefix(&s, "'<abc>;"));
    assert!(!has_prefix(&s, "<"));
    assert!(!has_prefix(&s, "'<abc>;;"));
    assert!(has_suffix(&s, ";"));
    assert!(has_suffix(&s, ">;"));
    assert!(has_suffix(&s, ""));
    assert!(!has_suffix(&s, ">"));
    assert!(!has_suffix(&s, "x'<abc>;"));
    assert!(same_text(&chars("document"), "document"));
    assert!(!same_text(&chars("documents"), "document"));
    assert!(!same_text(&chars("documenu"), "document"));
    assert!(!same_text(&chars(""), "document"));
    assert!(same_text(&chars(""), ""));
    assert!(has_char(&s, '>'));
    assert!(!has_char(&s, '\n'));
    assert!(!has_char(&chars(""), 'a'));
}

#[test]
fn trailing_white_space_with_a_line_feed() {
    assert!(trailing_space_breaks(&chars("a\n")));
    assert!(trailing_space_breaks(&chars("a \n  ")));
    assert!(trailing_space_breaks(&chars("\n")));
    assert!(!trailing_space_breaks(&chars("a\nb ")));
    assert!(!trailing_space_breaks(&chars("a  ")));
    assert!(!trailing_space_breaks(&chars("a\nb")));
    assert!(!trailing_space_breaks(&chars("")));
}

#[test]
fn reflow_joins_the_lines_that_hold_text() {
    let sep = chars("\n  ");
    assert_eq!(reflow_of(&chars("a"), &sep), chars("a"));
    assert_eq!(reflow_of(&chars("  a  "), &sep), chars("a"));
    assert_eq!(reflow_of(&chars(""), &sep), chars(""));
    assert_eq!(reflow_of(&chars("\n \n"), &sep), chars(""));
    assert_eq!(reflow_of(&chars(" a \n\n  b c\n"), &sep), chars("a\n  b c"));
    assert_eq!(reflow_of(&chars("\na\nb\nc"), &sep), chars("a\n  b\n  c"));
    assert_eq!(reflow_of(&chars("a\r\nb"), &sep), chars("a\n  b"));
    assert_eq!(reflow_of(&chars("a\nb"), &chars("")), chars("ab"));
}
