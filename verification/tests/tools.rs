use cockpit_tui::app::command::{extract_edit_args, tool_invocation, ToolArgs};

fn args(json: &str) -> ToolArgs {
    let value: serde_json::Value = serde_json::from_str(json).unwrap();
    ToolArgs::from_json(&value, "short".to_string())
}

fn invocation(tool: &str, json: &str) -> (String, String) {
    tool_invocation(tool, &args(json))
}

fn pair(a: &str, b: &str) -> (String, String) {
    (a.to_string(), b.to_string())
}

#[test]
fn string_members_are_read_from_json() {
    let a = args(r#"{"command": "ls", "path": 3, "url": null, "old_string": "", "more": "x"}"#);
    assert_eq!(a.command.as_deref(), Some("ls"));
    assert_eq!(a.path, None);
    assert_eq!(a.url, None);
    assert_eq!(a.old_string.as_deref(), Some(""));
    assert_eq!(a.new_string, None);
    assert_eq!(a.short, "short");
    assert_eq!(args(r#"["command"]"#).command, None);
    assert_eq!(args(r#""command""#).command, None);
}

#[test]
fn calls_are_summed_up_from_json() {
    let two_lines = r#"{"command": "ls\npwd"}"#;
    assert_eq!(invocation("bash", two_lines), pair("ls …", "ls\npwd"));
    assert_eq!(invocation("bash", "{}"), pair("", ""));
    assert_eq!(invocation("read", r#"{"path": "a.rs"}"#), pair("a.rs", "a.rs"));
    assert_eq!(invocation("editunlock", "{}"), pair("short", "short"));
    assert_eq!(invocation("webfetch", r#"{"url": "u"}"#), pair("u", "u"));
    assert_eq!(invocation("grep", r#"{"path": "a.rs"}"#), pair("short", "short"));
}

#[test]
fn an_edit_needs_all_its_parts() {
    let e = extract_edit_args(&args(
        r#"{"path": "a.rs", "old_string": "one", "new_string": "two"}"#,
    ));
    let e = e.unwrap();
    assert_eq!((e.path.as_str(), e.old.as_str(), e.new.as_str()), ("a.rs", "one", "two"));
    assert!(extract_edit_args(&args(r#"{"path": "a.rs", "old_string": "one"}"#)).is_none());
    assert!(extract_edit_args(&args(
        r#"{"path": 1, "old_string": "one", "new_string": "two"}"#
    ))
    .is_none());
}
