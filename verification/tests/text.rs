use slycer::format::{join_with, pad_left, push_decimal};
use slycer::text::{
    chars_of, find_char, find_text, is_whitespace, same_text, span_is, span_string, trim_within,
    Span,
};
use slycer::tokens::token_spans;

fn tokens(line: &str) -> Vec<String> {
    let chars = chars_of(line);
    token_spans(&chars, chars.len()).iter().map(|span| span_string(line, *span)).collect()
}

#[test]
fn white_space_is_what_the_standard_library_says() {
    for code in 0u32..=0x11_0000 {
        if let Some(c) = char::from_u32(code) {
            assert_eq!(is_whitespace(c), c.is_whitespace(), "{code:x}");
        }
    }
}

#[test]
fn chars_are_taken_in_order() {
    assert_eq!(chars_of("a\u{e9}\u{1f600}z"), vec!['a', '\u{e9}', '\u{1f600}', 'z']);
    assert_eq!(chars_of(""), Vec::<char>::new());
}

#[test]
fn tokens_are_the_runs_between_white_space() {
    for line in ["", " ", "a", " a", "a ", "a b", "  a   bc  d ", "\ta\u{a0}b\n", "x\u{2003}\u{2003}y"] {
        let expected: Vec<String> = line.split_whitespace().map(str::to_string).collect();
        assert_eq!(tokens(line), expected, "{line:?}");
    }
}

#[test]
fn tokens_of_a_prefix_only() {
    let chars = chars_of("ab cd");
    let spans = token_spans(&chars, 4);
    assert_eq!(spans.len(), 2);
    assert_eq!((spans[1].start, spans[1].end), (3, 4));
}

#[test]
fn spans_are_compared_with_words() {
    let chars = chars_of("at ETA");
    assert!(span_is(&chars, Span { start: 0, end: 2 }, "at"));
    assert!(span_is(&chars, Span { start: 3, end: 6 }, "ETA"));
    assert!(!span_is(&chars, Span { start: 3, end: 6 }, "ETa"));
    assert!(!span_is(&chars, Span { start: 0, end: 3 }, "at"));
    assert!(span_is(&chars, Span { start: 1, end: 1 }, ""));
}

#[test]
fn first_places_are_found() {
    let chars = chars_of("a - b (c) - [d]");
    assert_eq!(find_char(&chars, '('), 6);
    assert_eq!(find_char(&chars, '['), 12);
    assert_eq!(find_char(&chars, '%'), chars.len());
    assert_eq!(find_text(&chars, " - "), 1);
    assert_eq!(find_text(&chars, "[d]"), 12);
    assert_eq!(find_text(&chars, "xyz"), chars.len());
    assert_eq!(find_text(&chars, ""), 0);
    assert_eq!(find_text(&chars_of(""), ""), 0);
    assert_eq!(find_text(&chars_of("ab"), "abc"), 2);
}

#[test]
fn numbers_are_written_in_decimal() {
    for n in [0u128, 7, 10, 99, 100, 1234567890, u64::MAX as u128, u128::MAX] {
        let mut out = String::from("n=");
        push_decimal(&mut out, n);
        assert_eq!(out, format!("n={n}"));
    }
}

#[test]
fn padding_fills_up_on_the_left() {
    assert_eq!(pad_left("7", 3, "0"), "007");
    assert_eq!(pad_left("1234", 3, "0"), "1234");
    assert_eq!(pad_left("", 2, " "), "  ");
    assert_eq!(pad_left("ab", 0, " "), "ab");
    assert_eq!(pad_left("\u{e9}", 3, "."), "..\u{e9}");
    assert_eq!(pad_left("7", 3, "ab"), "abab7");
    assert_eq!(pad_left("7", 3, ""), "7");
}

#[test]
fn parts_are_joined_with_a_separator() {
    let parts: Vec<String> = ["a", "", "c"].iter().map(|s| s.to_string()).collect();
    assert_eq!(join_with(&parts, "_"), "a__c");
    assert_eq!(join_with(&parts[..1].to_vec(), ", "), "a");
    assert_eq!(join_with(&Vec::new(), ", "), "");
}

#[test]
fn texts_are_compared_whole() {
    assert!(same_text("linux", "linux"));
    assert!(!same_text("linux", "linu"));
    assert!(!same_text("linux", "Linux"));
    assert!(same_text("", ""));
}

#[test]
fn trimming_leaves_the_inside_alone() {
    for text in ["", "   ", "a", "  a b  ", "\t\n x\u{a0}", "\u{3000}y z\r\n"] {
        let chars = chars_of(text);
        let span = trim_within(&chars, 0, chars.len());
        assert_eq!(span_string(text, span), text.trim(), "{text:?}");
    }
    let chars = chars_of("ab  cd  ef");
    let span = trim_within(&chars, 2, 8);
    assert_eq!((span.start, span.end), (4, 6));
}
