use tempurview::json::{JsonNumber, JsonValue};
use tempurview::json_lines::{highlight_search_matches, json_to_lines, Line, Span, SpanStyle};

fn lines_text(lines: &[Line]) -> String {
    lines
        .iter()
        .map(|l| l.spans.iter().map(|s| s.text.as_str()).collect::<String>())
        .collect::<Vec<_>>()
        .join("\n")
}

fn s(t: &str) -> JsonValue {
    JsonValue::String(t.to_string())
}

fn n(v: u64) -> JsonValue {
    JsonValue::Number(JsonNumber::PosInt(v))
}

fn obj(members: Vec<(&str, JsonValue)>) -> JsonValue {
    JsonValue::Object(members.into_iter().map(|(k, v)| (k.to_string(), v)).collect())
}

fn plain(t: &str) -> Line {
    Line { spans: vec![Span { text: t.to_string(), style: SpanStyle::Plain }] }
}

#[test]
fn test_null() {
    assert_eq!(lines_text(&json_to_lines(&JsonValue::Null)), "null");
}

#[test]
fn test_boolean_true() {
    assert_eq!(lines_text(&json_to_lines(&JsonValue::Bool(true))), "true");
}

#[test]
fn test_boolean_false() {
    assert_eq!(lines_text(&json_to_lines(&JsonValue::Bool(false))), "false");
}

#[test]
fn test_number() {
    assert_eq!(lines_text(&json_to_lines(&n(42))), "42");
}

#[test]
fn test_string() {
    assert_eq!(lines_text(&json_to_lines(&s("hello world"))), "\"hello world\"");
}

#[test]
fn test_string_with_newlines() {
    assert_eq!(lines_text(&json_to_lines(&s("line1\nline2\rline3"))), "\"line1\\nline2\\rline3\"");
}

#[test]
fn test_empty_array() {
    assert_eq!(lines_text(&json_to_lines(&JsonValue::Array(vec![]))), "[]");
}

#[test]
fn test_empty_object() {
    assert_eq!(lines_text(&json_to_lines(&JsonValue::Object(vec![]))), "{}");
}

#[test]
fn test_simple_object() {
    let lines = json_to_lines(&obj(vec![("name", s("test")), ("count", n(5))]));
    let text = lines_text(&lines);
    assert!(text.contains("{"));
    assert!(text.contains("}"));
    assert!(text.contains("\"name\""));
    assert!(text.contains("\"test\""));
    assert!(text.contains("\"count\""));
    assert!(text.contains("5"));
}

#[test]
fn test_nested_object() {
    let val = obj(vec![("outer", obj(vec![("inner", s("value"))]))]);
    let text = lines_text(&json_to_lines(&val));
    assert!(text.contains("\"outer\""));
    assert!(text.contains("\"inner\""));
    assert!(text.contains("\"value\""));
}

#[test]
fn test_array_of_mixed_types() {
    let val = JsonValue::Array(vec![n(1), s("two"), JsonValue::Bool(true), JsonValue::Null]);
    let text = lines_text(&json_to_lines(&val));
    assert!(text.contains("1"));
    assert!(text.contains("\"two\""));
    assert!(text.contains("true"));
    assert!(text.contains("null"));
}

#[test]
fn test_search_single_match() {
    let lines = vec![plain("hello world"), plain("foo bar"), plain("hello again")];
    let (_, indices) = highlight_search_matches(&lines, "hello");
    assert_eq!(indices, vec![0, 2]);
}

#[test]
fn test_search_case_insensitive() {
    let lines = vec![plain("Hello World"), plain("no match")];
    let (_, indices) = highlight_search_matches(&lines, "hello");
    assert_eq!(indices, vec![0]);
}

#[test]
fn test_search_no_match() {
    let lines = vec![plain("hello world")];
    let (_, indices) = highlight_search_matches(&lines, "xyz");
    assert!(indices.is_empty());
}

#[test]
fn test_search_empty_query() {
    let lines = vec![plain("hello")];
    let (result, indices) = highlight_search_matches(&lines, "");
    assert!(indices.is_empty());
    assert_eq!(result.len(), 1);
}

#[test]
fn test_search_highlight_applied() {
    let lines = vec![Line { spans: vec![Span { text: "find me here".to_string(), style: SpanStyle::Text }] }];
    let (result, indices) = highlight_search_matches(&lines, "me");
    assert_eq!(indices, vec![0]);
    assert!(result[0].spans.len() > 1);
    let highlight_span = result[0].spans.iter().find(|s| s.text == "me").expect("should find 'me' span");
    assert_eq!(highlight_span.style, SpanStyle::Highlight);
}

#[test]
fn test_search_multiple_matches_in_one_line() {
    let lines = vec![plain("aba aba")];
    let (result, indices) = highlight_search_matches(&lines, "aba");
    assert_eq!(indices, vec![0]);
    let highlighted_chars: usize = result[0]
        .spans
        .iter()
        .filter(|s| s.style == SpanStyle::Highlight)
        .map(|s| s.text.len())
        .sum();
    assert_eq!(highlighted_chars, 6);
}

#[test]
fn nested_layout_is_exact() {
    let val = obj(vec![
        ("a", n(1)),
        ("list", JsonValue::Array(vec![n(2), n(3)])),
        ("deep", obj(vec![("x", JsonValue::Null), ("y", obj(vec![("z", JsonValue::Bool(false))]))])),
    ]);
    let text = lines_text(&json_to_lines(&val));
    let expected = [
        "{",
        "  \"a\": 1,",
        "  \"list\": [",
        "    2,",
        "    3",
        "  ],",
        "  \"deep\": {",
        "    \"x\": null,",
        "    \"y\": ",
        "{",
        "      \"z\": false",
        "    }",
        "  }",
        "}",
    ]
    .join("\n");
    assert_eq!(text, expected);
}

#[test]
fn highlight_splits_and_merges_pieces() {
    let lines = vec![Line {
        spans: vec![
            Span { text: "ab".to_string(), style: SpanStyle::Key },
            Span { text: "cd".to_string(), style: SpanStyle::Text },
        ],
    }];
    let (result, indices) = highlight_search_matches(&lines, "BC");
    assert_eq!(indices, vec![0]);
    let pieces: Vec<(&str, SpanStyle)> = result[0].spans.iter().map(|s| (s.text.as_str(), s.style)).collect();
    assert_eq!(pieces, vec![("a", SpanStyle::Key), ("bc", SpanStyle::Highlight), ("d", SpanStyle::Text)]);
    let untouched = vec![plain("zzz")];
    let (r2, i2) = highlight_search_matches(&untouched, "q");
    assert!(i2.is_empty());
    assert_eq!(r2[0].spans[0].text, "zzz");
}

#[test]
fn search_matches_regardless_of_letter_case() {
    let lines = vec![plain("ERROR: Timeout"), plain("ok"), plain("eRrOr again")];
    let (_, indices) = highlight_search_matches(&lines, "ErRoR");
    assert_eq!(indices, vec![0, 2]);
    let (_, none) = highlight_search_matches(&lines, "errors");
    assert!(none.is_empty());
}
