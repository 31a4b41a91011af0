use slycer::batch::{batch_entries, batch_urls, is_valid_url, sort_urls, BatchError};

fn strings(list: &[&str]) -> Vec<String> {
    list.iter().map(|s| s.to_string()).collect()
}

#[test]
fn entries_are_the_trimmed_lines() {
    assert_eq!(
        batch_entries("https://a\n  https://b  \nhttp://c\n"),
        strings(&["https://a", "https://b", "http://c"])
    );
}

#[test]
fn empty_lines_and_comments_are_left_out() {
    let content = "# list\n\nhttps://a\n   \n  # not this\nhttps://b#frag\n\n";
    assert_eq!(batch_entries(content), strings(&["https://a", "https://b#frag"]));
}

#[test]
fn line_ends_of_any_kind_are_taken() {
    assert_eq!(batch_entries("a\r\nb\r\n\r\nc"), strings(&["a", "b", "c"]));
    assert_eq!(batch_entries("a\rb"), strings(&["a\rb"]));
    assert_eq!(batch_entries("one"), strings(&["one"]));
    assert_eq!(batch_entries("\u{a0}one\u{3000}\n"), strings(&["one"]));
}

#[test]
fn entries_match_the_lines_of_the_standard_library() {
    for content in ["", "\n", "a", "a\n", "\na", "a\n\nb\n", " # x\n y \n#\nz", "a\r\n#b\r\nc\r", "\r\n\r\n"] {
        let expected: Vec<String> = content
            .lines()
            .map(str::trim)
            .filter(|l| !l.is_empty() && !l.starts_with('#'))
            .map(ToOwned::to_owned)
            .collect();
        assert_eq!(batch_entries(content), expected, "{content:?}");
    }
}

#[test]
fn batch_without_entries_is_an_error() {
    assert_eq!(batch_urls(""), Err(BatchError::NoUrls));
    assert_eq!(batch_urls("\n\n# only a comment\n   \n"), Err(BatchError::NoUrls));
    assert_eq!(batch_urls("x\n"), Ok(strings(&["x"])));
}

#[test]
fn valid_urls_open_with_https() {
    assert!(is_valid_url("https://example.com/watch?v=1"));
    assert!(is_valid_url("https://"));
    assert!(!is_valid_url("http://example.com"));
    assert!(!is_valid_url("HTTPS://example.com"));
    assert!(!is_valid_url(" https://example.com"));
    assert!(!is_valid_url("https:/"));
    assert!(!is_valid_url(""));
}

#[test]
fn urls_are_sorted_in_order() {
    let list = sort_urls(strings(&["https://a", "ftp://b", "https://c", "d"]));
    assert_eq!(list.valid, strings(&["https://a", "https://c"]));
    assert_eq!(list.skipped, strings(&["ftp://b", "d"]));
    let list = sort_urls(Vec::new());
    assert!(list.valid.is_empty() && list.skipped.is_empty());
}
