use codespace::jsonc::workspace_json_text;
use codespace::prompts::{check_prompts_folder, holds_members, parse_workspace_document, toggle_prompts_folder};

#[test]
fn check_prompts_folder_answers() {
    assert_eq!(check_prompts_folder(r#"{"folders":[{"path":"."}]}"#), Ok(false));
    assert_eq!(
        check_prompts_folder(r#"{"folders":[{"path":"."},{"name":"prompts","path":"C:\\p"}]}"#),
        Ok(true)
    );
}

#[test]
fn check_prompts_folder_errors() {
    assert_eq!(check_prompts_folder(r#"{"settings":{}}"#), Err("No folders array".to_string()));
    assert_eq!(check_prompts_folder(r#"{"folders":{}}"#), Err("No folders array".to_string()));
    let e = check_prompts_folder("{oops").unwrap_err();
    assert!(e.starts_with("Invalid JSON: "));
}

#[test]
fn toggle_adds_then_removes() {
    let initial = r#"{"folders":[{"path":"."}],"settings":{}}"#;
    let mut ws = parse_workspace_document(initial).unwrap();
    assert!(holds_members(&ws));
    assert_eq!(toggle_prompts_folder(&mut ws, "C:\\Users\\u\\AppData\\Roaming\\Code\\User\\prompts"), Ok(true));
    let text = workspace_json_text(&ws).unwrap();
    assert_eq!(check_prompts_folder(&text), Ok(true));
    assert!(text.contains("\"name\": \"prompts\""));
    assert_eq!(toggle_prompts_folder(&mut ws, "elsewhere"), Ok(false));
    assert_eq!(check_prompts_folder(&workspace_json_text(&ws).unwrap()), Ok(false));
    assert_eq!(ws, parse_workspace_document(initial).unwrap());
}

#[test]
fn toggle_removes_first_prompts_folder_only() {
    let mut ws = parse_workspace_document(r#"{"folders":[{"name":"prompts","path":"a"},{"name":"prompts","path":"b"}]}"#).unwrap();
    assert_eq!(toggle_prompts_folder(&mut ws, "c"), Ok(false));
    let text = workspace_json_text(&ws).unwrap();
    assert!(!text.contains("\"a\""));
    assert!(text.contains("\"b\""));
}

#[test]
fn toggle_without_folders_is_an_error() {
    let mut ws = parse_workspace_document(r#"{"settings":{}}"#).unwrap();
    assert_eq!(toggle_prompts_folder(&mut ws, "p"), Err("No folders array".to_string()));
    assert_eq!(workspace_json_text(&ws).unwrap(), "{\n  \"folders\": null,\n  \"settings\": {}\n}");
    let arr = parse_workspace_document("[1]").unwrap();
    assert!(!holds_members(&arr));
}
