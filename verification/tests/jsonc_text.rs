use codespace::jsonc::{read_workspace_json, strip_json_comments, workspace_json_text};
use codespace::prompts::parse_workspace_document;
use codespace::text::{replace_chars, str_contains, trim_chars};

#[test]
fn strip_json_comments_drops_comment_lines() {
    let input = "{\n  // the folders\n  \"folders\": []\n}";
    assert_eq!(strip_json_comments(input), "{\n  \"folders\": []\n}");
    assert_eq!(strip_json_comments("{\n  // note\n  \"a\": 1\n}"), "{\n  \"a\": 1\n}");
}

#[test]
fn strip_json_comments_drops_trailing_comments() {
    let input = "{\"a\": 1} // note\n   // whole line\n\t//tabbed";
    assert_eq!(strip_json_comments(input), "{\"a\": 1} ");
    assert_eq!(strip_json_comments("{\n  \"a\": 1 // one\n}"), "{\n  \"a\": 1 \n}");
}

#[test]
fn strip_json_comments_keeps_slashes_in_strings() {
    assert_eq!(strip_json_comments("{\"url\": \"http://x\"} // c"), "{\"url\": \"http://x\"} ");
    assert_eq!(strip_json_comments("{\"a\": \"q\\\"//x\"}"), "{\"a\": \"q\\\"//x\"}");
    assert_eq!(strip_json_comments("{\"a\": \"q\\\\\"//x\n}"), "{\"a\": \"q\\\\\"\n}");
    assert_eq!(strip_json_comments("1 / 2"), "1 / 2");
    assert_eq!(strip_json_comments("  \"//not a comment\": 1"), "  \"//not a comment\": 1");
}

#[test]
fn strip_json_comments_splits_crlf_and_drops_final_newline() {
    assert_eq!(strip_json_comments("a\r\n// x\r\nb\r\n"), "a\nb");
    assert_eq!(strip_json_comments("a\n\nb"), "a\n\nb");
    assert_eq!(strip_json_comments(""), "");
    assert_eq!(strip_json_comments("// only"), "");
    assert_eq!(strip_json_comments("a\r"), "a\r");
    assert_eq!(strip_json_comments("x\r\r\ny"), "x\r\ny");
    assert_eq!(strip_json_comments("\u{3000}// wide space\ncode"), "code");
}

#[test]
fn plain_json_passes_unchanged() {
    let plain = "{\n  \"folders\": [\n    {\n      \"path\": \"C:\\\\p\"\n    }\n  ],\n  \"url\": \"https://example.org//x\"\n}";
    assert_eq!(strip_json_comments(plain), plain);
}

#[test]
fn read_workspace_json_accepts_commented_json() {
    let content = "{\n  // comment\n  \"settings\": {}\n}";
    let doc = read_workspace_json(content).expect("parses");
    assert_eq!(workspace_json_text(&doc).unwrap(), "{\n  \"settings\": {}\n}");
}

#[test]
fn read_workspace_json_rejects_invalid_json() {
    assert!(read_workspace_json("{ not json").is_none());
    assert!(read_workspace_json("{\"a\": 1 /* block */}").is_none());
}

#[test]
fn read_workspace_json_accepts_trailing_comments() {
    let doc = read_workspace_json("{\"a\": 1 // x\n}").expect("parses");
    assert_eq!(workspace_json_text(&doc).unwrap(), "{\n  \"a\": 1\n}");
    let doc = read_workspace_json("{\"u\": \"http://h\" // link\n}").expect("parses");
    assert_eq!(workspace_json_text(&doc).unwrap(), "{\n  \"u\": \"http://h\"\n}");
}

#[test]
fn parse_workspace_document_reports_invalid_json() {
    let e = parse_workspace_document("[1,").unwrap_err();
    assert!(e.starts_with("Invalid JSON: "));
    assert!(e.len() > "Invalid JSON: ".len());
}

#[test]
fn pretty_text_of_parsed_document() {
    let doc = parse_workspace_document("{\"b\":[1,true,null],\"a\":\"x\"}").unwrap();
    assert_eq!(
        workspace_json_text(&doc).unwrap(),
        "{\n  \"a\": \"x\",\n  \"b\": [\n    1,\n    true,\n    null\n  ]\n}"
    );
}

#[test]
fn text_helpers() {
    assert!(str_contains("hello world", "o w"));
    assert!(!str_contains("hello", "world"));
    let s: Vec<char> = "  a b \n".chars().collect();
    assert_eq!(trim_chars(&s).iter().collect::<String>(), "a b");
    let r = replace_chars(
        &"${x}/a/${x}".chars().collect::<Vec<char>>(),
        &"${x}".chars().collect::<Vec<char>>(),
        &"R".chars().collect::<Vec<char>>(),
    );
    assert_eq!(r.iter().collect::<String>(), "R/a/R");
}
