//! Words, lines and wrapping.

use kumuteva::json::Json;
use kumuteva::text::{
    chars_of, contains, debug_option_of, decimal_of, find, lowercase_of, parse_leading_u16,
    rest_after_last, text_at_most,
};
use kumuteva::words::{first_word_of, is_whitespace, lines_of, parts_of, trim, words_of};
use kumuteva::wrap::wrap_text_lines;

fn text(chars: &Vec<char>) -> String {
    chars.iter().collect()
}

#[test]
fn the_first_occurrence_is_found() {
    let abc = chars_of("abcabc");
    assert_eq!(find(&abc, &chars_of("bc"), 0), Some(1));
    assert_eq!(find(&abc, &chars_of("bc"), 2), Some(4));
    assert_eq!(find(&abc, &chars_of("x"), 0), None);
    assert_eq!(find(&abc, &chars_of(""), 6), Some(6));
    assert!(contains("abc", ""));
    assert!(!contains("", "a"));
    assert_eq!(
        rest_after_last(&abc, &chars_of("a")).map(|r| text(&r)).as_deref(),
        Some("bc")
    );
}

#[test]
fn numbers_are_read_and_written() {
    for n in [0u64, 7, 10, 99, 100, 12345, u64::MAX] {
        assert_eq!(decimal_of(n), format!("{n}"));
    }
    assert_eq!(parse_leading_u16(&chars_of("403 })")), Some(403));
    assert_eq!(parse_leading_u16(&chars_of("x")), None);
    assert_eq!(parse_leading_u16(&chars_of("70000")), None);
}

#[test]
fn debug_output_quotes_and_escapes() {
    for sample in ["plain", "with \"quotes\"", "tab\there", "line\nbreak", "ü", ""] {
        assert_eq!(debug_option_of(Some(sample)), format!("{:?}", Some(sample)));
    }
    assert_eq!(debug_option_of(None), "None");
}

#[test]
fn lower_case_and_order() {
    assert_eq!(lowercase_of("Control Plane Ü"), "control plane Ü");
    assert!(text_at_most("a", "b"));
    assert!(text_at_most("a", "a"));
    assert!(text_at_most("a", "ab"));
    assert!(!text_at_most("b", "ab"));
}

#[test]
fn words_and_lines_split_as_the_standard_library_does() {
    for sample in [
        "",
        " ",
        "one",
        "  two  words ",
        "a\tb\u{a0}c\u{2003}d",
        "line\nbreak\r\nand more\n\n",
        "\r\n",
        "end\r",
    ] {
        let ours = words_of(sample);
        let theirs: Vec<&str> = sample.split_whitespace().collect();
        assert_eq!(ours, theirs, "{sample:?}");
        let ours: Vec<String> = lines_of(&chars_of(sample)).iter().map(text).collect();
        let theirs: Vec<&str> = sample.lines().collect();
        assert_eq!(ours, theirs, "{sample:?}");
        assert_eq!(text(&trim(&chars_of(sample))), sample.trim(), "{sample:?}");
        assert_eq!(
            first_word_of(&chars_of(sample)),
            sample.split_whitespace().next().unwrap_or(""),
        );
        let ours: Vec<String> = parts_of(&chars_of(sample), &chars_of(" "))
            .iter()
            .map(text)
            .collect();
        let theirs: Vec<&str> = sample.split(" ").collect();
        assert_eq!(ours, theirs, "{sample:?}");
    }
    for c in (0..0x3100u32).filter_map(char::from_u32) {
        assert_eq!(is_whitespace(c), c.is_whitespace(), "{c:?}");
    }
}

#[test]
fn wrapped_text_keeps_its_words_and_its_width() {
    let lines = wrap_text_lines("one two three four - five six", 12, "> ", "  ");
    assert!(lines.len() > 2, "{lines:?}");
    assert_eq!(lines[0].0, "> ");
    assert!(lines[1..].iter().all(|(prefix, _)| prefix == "  "));
    let words: Vec<&str> = lines
        .iter()
        .flat_map(|(_, content)| content.split_whitespace())
        .filter(|word| *word != "•")
        .collect();
    assert_eq!(words, vec!["one", "two", "three", "four", "five", "six"]);
    for (prefix, content) in &lines {
        assert!(prefix.len() + content.len() <= 12 || !content.contains(' '));
    }
}

#[test]
fn a_document_is_built_and_read() {
    let json = Json::object()
        .with("a", Json::Number(1))
        .with("b", Json::array().item(Json::Bool(true)).item(Json::Null))
        .with("a", Json::Number(2));
    assert_eq!(json.get("a"), Some(&Json::Number(2)));
    assert_eq!(json.get("c"), None);
    assert_eq!(json.without("a").get("a"), None);
    assert_eq!(json.duplicate(), json);
    assert_eq!(Json::Null.get("a"), None);
}
