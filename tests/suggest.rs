use grit_find::suggest::{parse_query_from_content, strip_code_fence};
use grit_find::text::{chars_of, trim_bounds, truncate_preview};

#[test]
fn parses_plain_json() {
    let content = r#"{"query":"foo bar"}"#;
    let q = parse_query_from_content(content).expect("should parse plain json");
    assert_eq!(q, "foo bar");
}

#[test]
fn parses_code_fenced_json() {
    let content = "```json\n{\"query\":\"ripgrep\"}\n```";
    let q = parse_query_from_content(content).expect("should parse fenced json");
    assert_eq!(q, "ripgrep");
}

#[test]
fn fenced_and_plain_replies_agree() {
    let plain = r#"{"query":"terminal file manager","why":"short"}"#;
    let fenced = format!("```json\n{}\n```", plain);
    let a = parse_query_from_content(plain).unwrap();
    let b = parse_query_from_content(&fenced).unwrap();
    assert_eq!(a, "terminal file manager");
    assert_eq!(a, b);
}

#[test]
fn fenced_reply_with_surrounding_space_and_crlf() {
    let content = "  \r\n```json\r\n{\"query\": \"fd\"}\r\n```\r\n ";
    assert_eq!(parse_query_from_content(content).unwrap(), "fd");
}

#[test]
fn query_member_must_be_a_string() {
    let err = parse_query_from_content(r#"{"query": 7}"#).unwrap_err();
    assert_eq!(err.preview, r#"{"query": 7}"#);
    assert!(parse_query_from_content(r#"{"q":"x"}"#).is_err());
    assert!(parse_query_from_content("not json at all").is_err());
}

#[test]
fn error_quotes_at_most_two_hundred_chars() {
    let long: String = std::iter::repeat('x').take(250).collect();
    let err = parse_query_from_content(&long).unwrap_err();
    let expected = format!("{}\u{2026}", "x".repeat(200));
    assert_eq!(err.preview, expected);
    assert_eq!(
        err.message(),
        format!("OpenAI response was not valid JSON (first 200 chars): {}", expected)
    );
}

#[test]
fn strip_fence_with_language_tag() {
    let body = strip_code_fence("```json\n{\"a\":1}\n```").unwrap();
    assert_eq!(body, "{\"a\":1}");
}

#[test]
fn strip_fence_stops_at_first_closing_line() {
    let body = strip_code_fence("```\n line one \nline two\n  ```  \nafter\n```").unwrap();
    assert_eq!(body, "line one \nline two");
}

#[test]
fn strip_fence_unclosed_takes_rest() {
    assert_eq!(strip_code_fence("```\nabc\ndef").unwrap(), "abc\ndef");
}

#[test]
fn strip_fence_rejects_missing_or_empty() {
    assert_eq!(strip_code_fence("{\"a\":1}"), None);
    assert_eq!(strip_code_fence("``"), None);
    assert_eq!(strip_code_fence("```json"), None);
    assert_eq!(strip_code_fence("```json\n```"), None);
}

#[test]
fn strip_fence_keeps_bare_carriage_return_at_end() {
    assert_eq!(strip_code_fence("```\r\nab\r"), Some("ab".to_string()));
    assert_eq!(strip_code_fence("```\nab\rc"), Some("ab\rc".to_string()));
}

#[test]
fn preview_cuts_and_marks() {
    assert_eq!(truncate_preview("abcdef", 3), "abc\u{2026}");
    assert_eq!(truncate_preview("abc", 3), "abc");
    assert_eq!(truncate_preview("", 0), "");
    assert_eq!(truncate_preview("\u{e9}t\u{e9}", 1), "\u{e9}\u{2026}");
}

#[test]
fn trim_bounds_skip_unicode_space() {
    let v = chars_of("\u{a0}\t ab c\u{3000}\n");
    assert_eq!(v.len(), 9);
    assert_eq!(trim_bounds(&v, 0, v.len()), (3, 7));
    let blank = chars_of(" \t ");
    assert_eq!(trim_bounds(&blank, 0, 3), (3, 3));
}
