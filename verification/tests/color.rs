use codespace::color::{
    darken, darken_safe, extract_color_from_customizations, read_workspace_color,
    remove_workspace_color, set_workspace_color, write_full_color_overrides,
};
use codespace::json::{get_member, Json};
use codespace::jsonc::workspace_json_text;
use codespace::prompts::{holds_members, parse_workspace_document};

fn doc(text: &str) -> Json {
    parse_workspace_document(text).unwrap()
}

#[test]
fn darken_scales_each_channel() {
    assert_eq!(darken("#101010"), "#0c0c0c");
    assert_eq!(darken("#0a0b0c"), "#080809");
    assert_eq!(darken("#000000"), "#000000");
}

#[test]
fn darken_takes_a_fifth_off_bright_channels() {
    assert_eq!(darken("#ff0000"), "#cc0000");
    assert_eq!(darken("#ffffff"), "#cccccc");
    assert_eq!(darken("#808080"), "#666666");
    assert_eq!(darken("##123456"), "#0e2944");
}

#[test]
fn darken_reads_bad_channels_as_zero() {
    assert_eq!(darken("#zzzzzz"), "#000000");
    assert_eq!(darken("#+f+f-f"), "#0c0c00");
    assert_eq!(darken("#ABCDEF"), "#88a4bf");
}

#[test]
fn darken_keeps_colors_of_other_lengths() {
    assert_eq!(darken("abc"), "#abc");
    assert_eq!(darken("#12345"), "#12345");
    assert_eq!(darken(""), "#");
}

#[test]
fn darken_safe_flags_split_characters() {
    assert!(darken_safe("#123456"));
    assert!(darken_safe("#é"));
    assert!(!darken_safe("#aéb12"));
    assert!(darken_safe("#abé12"));
}

#[test]
fn read_color_prefers_title_bar() {
    let content = r##"{"settings":{"workbench.colorCustomizations":{"statusBar.background":"#000003","activityBar.background":"#000002","titleBar.activeBackground":"#000001"}}}"##;
    assert_eq!(read_workspace_color(content).as_deref(), Some("#000001"));
    let content = r##"{"settings":{"workbench.colorCustomizations":{"statusBar.background":"#000003","activityBar.background":"#000002"}}}"##;
    assert_eq!(read_workspace_color(content).as_deref(), Some("#000002"));
    let content = r##"{"settings":{"workbench.colorCustomizations":{"statusBar.background":"#000003"}}}"##;
    assert_eq!(read_workspace_color(content).as_deref(), Some("#000003"));
}

#[test]
fn read_color_falls_back_to_first_hash_value() {
    let content = r##"{"settings":{"workbench.colorCustomizations":{"z.key":"#000009","a.key":"red","b.key":"#000002"}}}"##;
    assert_eq!(read_workspace_color(content).as_deref(), Some("#000002"));
    let content = r##"{"settings":{"workbench.colorCustomizations":{"a.key":"red"}}}"##;
    assert_eq!(read_workspace_color(content), None);
}

#[test]
fn read_color_of_files_without_one() {
    assert_eq!(read_workspace_color("{}"), None);
    assert_eq!(read_workspace_color("not json"), None);
    assert_eq!(read_workspace_color(r#"{"settings":{}}"#), None);
    let commented = "{\n // c\n \"settings\": {\"workbench.colorCustomizations\": {\"titleBar.activeBackground\": \"#abcdef\"}}\n}";
    assert_eq!(read_workspace_color(commented).as_deref(), Some("#abcdef"));
}

#[test]
fn extract_color_from_non_object() {
    assert_eq!(extract_color_from_customizations(&doc("\"#123456\"")), None);
    assert_eq!(extract_color_from_customizations(&doc(r##"{"x":"#1"}"##)).as_deref(), Some("#1"));
}

#[test]
fn color_read_after_set() {
    let mut ws = doc(r#"{"folders":[{"path":"."}]}"#);
    assert!(holds_members(&ws));
    set_workspace_color(&mut ws, "#336699");
    let text = workspace_json_text(&ws).unwrap();
    assert_eq!(read_workspace_color(&text).as_deref(), Some("#336699"));
    assert!(text.contains("\"statusBarItem.hoverBackground\": \"#28517a\""));
    assert!(text.contains("\"titleBar.inactiveBackground\": \"#33669999\""));
}

#[test]
fn set_color_replaces_old_customizations_and_peacock() {
    let mut ws = doc(r##"{"settings":{"peacock.color":"#111111","editor.fontSize":12,"workbench.colorCustomizations":{"editor.background":"#222222"}}}"##);
    set_workspace_color(&mut ws, "#ff0000");
    let text = workspace_json_text(&ws).unwrap();
    assert!(!text.contains("peacock.color"));
    assert!(!text.contains("editor.background"));
    assert!(text.contains("\"editor.fontSize\": 12"));
    assert_eq!(text.matches("\"#ffffff\"").count(), 7);
    assert_eq!(text.matches("\"#ffffff99\"").count(), 3);
    assert!(text.contains("\"statusBarItem.hoverBackground\": \"#cc0000\""));
    assert_eq!(text.matches("\"#ff0000\"").count(), 8);
}

#[test]
fn set_color_twice_is_set_once() {
    let mut a = doc(r#"{"settings":{"x":1}}"#);
    let mut b = doc(r#"{"settings":{"x":1}}"#);
    set_workspace_color(&mut a, "#010203");
    set_workspace_color(&mut a, "#010203");
    set_workspace_color(&mut b, "#010203");
    assert_eq!(a, b);
}

#[test]
fn write_overrides_on_null_settings() {
    let mut settings = Json::Null;
    write_full_color_overrides(&mut settings, "#123456");
    let wb = get_member(&settings, "workbench.colorCustomizations").unwrap();
    match wb {
        Json::Object(ms) => assert_eq!(ms.len(), 20),
        _ => panic!("not an object"),
    }
}

#[test]
fn no_color_after_remove() {
    let mut ws = doc(r##"{"settings":{"peacock.color":"#1","workbench.colorCustomizations":{"titleBar.activeBackground":"#2"},"keep":true}}"##);
    assert!(remove_workspace_color(&mut ws));
    let text = workspace_json_text(&ws).unwrap();
    assert_eq!(text, "{\n  \"settings\": {\n    \"keep\": true\n  }\n}");
    assert_eq!(read_workspace_color(&text), None);
}

#[test]
fn remove_color_without_settings() {
    let mut ws = doc(r#"{"folders":[]}"#);
    assert!(!remove_workspace_color(&mut ws));
    assert_eq!(workspace_json_text(&ws).unwrap(), "{\n  \"folders\": []\n}");
    let mut odd = doc(r#"{"settings":5}"#);
    assert!(remove_workspace_color(&mut odd));
    assert_eq!(workspace_json_text(&odd).unwrap(), "{\n  \"settings\": 5\n}");
}

#[test]
fn overrides_written_twice_are_written_once() {
    let mut a = doc(r##"{"peacock.color":"#1","x":2,"workbench.colorCustomizations":{"a":"#3"}}"##);
    write_full_color_overrides(&mut a, "#0a0b0c");
    let once = workspace_json_text(&a).unwrap();
    write_full_color_overrides(&mut a, "#0a0b0c");
    assert_eq!(workspace_json_text(&a).unwrap(), once);
    assert!(!once.contains("peacock.color"));
    assert!(once.contains("\"x\": 2"));
    assert!(once.contains("\"statusBarItem.hoverBackground\": \"#080809\""));
}
