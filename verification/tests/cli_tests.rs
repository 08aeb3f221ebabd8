use tsunu_alive::cli::{
    auto_allow_tools, claude_cli_args, control_response_json, initialize_request_json, select_claude_path, pick_cli_path,
    should_auto_allow, user_message_json, ClaudeProcess, ControlAction, InteractiveUserMessage, OutputAction,
    GUI_SYSTEM_PROMPT,
};
use tsunu_alive::events::{ClaudeEvent, ClaudeEventParser};
use tsunu_alive::json::{JsonNumber, JsonValue};

fn cdoc(text: &str) -> JsonValue {
    let v: serde_json::Value = serde_json::from_str(text).unwrap();
    cconvert(&v)
}

fn cconvert(v: &serde_json::Value) -> JsonValue {
    match v {
        serde_json::Value::Null => JsonValue::Null,
        serde_json::Value::Bool(b) => JsonValue::Bool(*b),
        serde_json::Value::Number(n) => {
            if let Some(u) = n.as_u64() {
                JsonValue::Number(JsonNumber::PosInt(u))
            } else if let Some(i) = n.as_i64() {
                JsonValue::Number(JsonNumber::NegInt(i))
            } else {
                JsonValue::Number(JsonNumber::Float(n.as_f64().unwrap().to_bits()))
            }
        }
        serde_json::Value::String(s) => JsonValue::Str(s.clone()),
        serde_json::Value::Array(a) => JsonValue::Array(a.iter().map(cconvert).collect()),
        serde_json::Value::Object(m) => JsonValue::Object(m.iter().map(|(k, x)| (k.clone(), cconvert(x))).collect()),
    }
}

fn at<'a>(j: &'a JsonValue, path: &[&str]) -> &'a JsonValue {
    let mut cur = j;
    for k in path {
        cur = cur.get(k).unwrap_or_else(|| panic!("missing {}", k));
    }
    cur
}

#[test]
fn test_interactive_user_message_format() {
    let msg = InteractiveUserMessage::new("Hello, assistant!");
    let json = msg.to_json();
    assert_eq!(json.get_str("type"), Some("user"));
    assert_eq!(json.get_str("session_id"), Some(""));
    assert!(json.get("parent_tool_use_id").unwrap().is_null());
    assert_eq!(json.get_bool("isSynthetic"), Some(false));
    assert_eq!(at(&json, &["message"]).get_str("role"), Some("user"));
    let content = at(&json, &["message", "content"]).as_array().unwrap();
    assert_eq!(content[0].get_str("type"), Some("text"));
    assert_eq!(content[0].get_str("text"), Some("Hello, assistant!"));
}

#[test]
fn test_interactive_user_message_content_is_array() {
    let msg = InteractiveUserMessage::new("test");
    let json = msg.to_json();
    assert!(at(&json, &["message", "content"]).as_array().is_some());
    assert_eq!(at(&json, &["message", "content"]).as_array().unwrap().len(), 1);
}

#[test]
fn user_message_line_carries_the_text() {
    let json = user_message_json("多行\n訊息");
    let content = at(&json, &["message", "content"]).as_array().unwrap();
    assert_eq!(content[0].get_str("text"), Some("多行\n訊息"));
}

#[test]
fn test_control_response_format_allow() {
    let tool_input = cdoc(r#"{"file_path": "/tmp/test.txt"}"#);
    let control_response = control_response_json("req-abc-123", "allow", Some("toolu_test123"), Some(&tool_input), None);
    assert_eq!(control_response.get_str("type"), Some("control_response"));
    assert_eq!(at(&control_response, &["response"]).get_str("subtype"), Some("success"));
    assert_eq!(at(&control_response, &["response"]).get_str("request_id"), Some("req-abc-123"));
    assert_eq!(at(&control_response, &["response", "response"]).get_str("behavior"), Some("allow"));
    assert_eq!(at(&control_response, &["response", "response", "updatedInput"]).get_str("file_path"), Some("/tmp/test.txt"));
    assert_eq!(at(&control_response, &["response", "response"]).get_str("toolUseID"), Some("toolu_test123"));
}

#[test]
fn test_control_response_format_deny_with_message() {
    let control_response = control_response_json("req-deny-456", "deny", Some("toolu_deny789"), None, Some("使用者拒絕了這個操作"));
    assert_eq!(at(&control_response, &["response", "response"]).get_str("behavior"), Some("deny"));
    assert_eq!(at(&control_response, &["response", "response"]).get_str("message"), Some("使用者拒絕了這個操作"));
    assert_eq!(at(&control_response, &["response", "response"]).get_str("toolUseID"), Some("toolu_deny789"));
}

#[test]
fn control_response_allow_without_input_sends_empty_object() {
    let r = control_response_json("r1", "allow", None, None, None);
    let payload = at(&r, &["response", "response"]);
    match payload.get("updatedInput").unwrap() {
        JsonValue::Object(m) => assert!(m.is_empty()),
        other => panic!("unexpected {:?}", other),
    }
    assert!(payload.get("toolUseID").is_none());
}

#[test]
fn test_auto_allow_tools_contains_expected() {
    let tools = auto_allow_tools();
    assert!(tools.contains(&"Read"));
    assert!(tools.contains(&"Glob"));
    assert!(tools.contains(&"Grep"));
    assert!(tools.contains(&"TodoWrite"));
    assert!(tools.contains(&"CronCreate"));
    assert!(tools.contains(&"WebSearch"));
}

#[test]
fn test_auto_allow_tools_excludes_dangerous() {
    let tools = auto_allow_tools();
    assert!(!tools.contains(&"Bash"));
    assert!(!tools.contains(&"Edit"));
    assert!(!tools.contains(&"Write"));
}

#[test]
fn permission_modes_decide_auto_allow() {
    assert!(!should_auto_allow("bypassPermissions", "AskUserQuestion"));
    assert!(!should_auto_allow("bypassPermissions", "ExitPlanMode"));
    assert!(should_auto_allow("bypassPermissions", "Bash"));
    assert!(should_auto_allow("acceptEdits", "Edit"));
    assert!(should_auto_allow("acceptEdits", "Bash"));
    assert!(!should_auto_allow("acceptEdits", "ExitPlanMode"));
    assert!(!should_auto_allow("default", "Edit"));
    assert!(should_auto_allow("default", "Read"));
    assert!(should_auto_allow("plan", "EnterPlanMode"));
    assert!(!should_auto_allow("plan", "AskUserQuestion"));
}

#[test]
fn test_parse_control_request_permission() {
    let json = cdoc(
        r#"{"type": "control_request", "request": {"type": "permission", "request_id": "perm-req-001", "tool_name": "Bash", "input": {"command": "ls -la"}}}"#,
    );
    let mut process = ClaudeProcess::new();
    match process.handle_control_request(&json) {
        ControlAction::AskUser(event) => {
            assert_eq!(event.get_str("tool_use_id"), Some("perm-req-001"));
            assert_eq!(event.get_str("tool_name"), Some("Bash"));
            assert_eq!(at(&event, &["tool_input"]).get_str("command"), Some("ls -la"));
            assert_eq!(event.get_str("cli_tool_use_id"), Some(""));
        }
        other => panic!("expected a question to the user, got {:?}", matches!(other, ControlAction::Reply(_))),
    }
    assert_eq!(process.pending_tool_inputs.len(), 1);
    assert_eq!(process.pending_tool_inputs[0].0, "perm-req-001");
}

#[test]
fn control_request_auto_allowed_replies_with_input() {
    let json = cdoc(
        r#"{"type": "control_request", "request_id": "req-9", "request": {"subtype": "can_use_tool", "toolName": "Read", "toolUseId": "toolu_1", "tool_input": {"file_path": "/a"}}}"#,
    );
    let mut process = ClaudeProcess::new();
    match process.handle_control_request(&json) {
        ControlAction::Reply(reply) => {
            assert_eq!(at(&reply, &["response"]).get_str("request_id"), Some("req-9"));
            assert_eq!(at(&reply, &["response", "response"]).get_str("behavior"), Some("allow"));
            assert_eq!(at(&reply, &["response", "response"]).get_str("toolUseID"), Some("toolu_1"));
            assert_eq!(at(&reply, &["response", "response", "updatedInput"]).get_str("file_path"), Some("/a"));
        }
        ControlAction::AskUser(_) => panic!("Read runs without asking"),
    }
    assert!(process.pending_tool_inputs.is_empty());
}

#[test]
fn control_request_bypass_mode_still_asks_for_questions() {
    let json = cdoc(r#"{"type": "control_request", "request_id": "q1", "request": {"tool_name": "AskUserQuestion", "input": {}}}"#);
    let mut process = ClaudeProcess::new();
    process.permission_mode = Some("bypassPermissions".to_string());
    assert!(matches!(process.handle_control_request(&json), ControlAction::AskUser(_)));
    let json2 = cdoc(r#"{"type": "control_request", "request_id": "q2", "request": {"tool_name": "Bash", "input": {}}}"#);
    assert!(matches!(process.handle_control_request(&json2), ControlAction::Reply(_)));
}

#[test]
fn test_initialize_message_format() {
    let init_msg = initialize_request_json();
    assert_eq!(init_msg.get_str("type"), Some("initialize"));
    assert!(init_msg.get_str("appendSystemPrompt").unwrap().contains("tsunu_alive"));
    assert!(matches!(at(&init_msg, &["hooks"]), JsonValue::Object(_)));
    assert!(matches!(at(&init_msg, &["sdkMcpServers"]), JsonValue::Object(_)));
}

#[test]
fn cli_args_follow_the_options() {
    let args = claude_cli_args(
        &Some("sess-1".to_string()),
        &Some("plan".to_string()),
        &Some("adaptive".to_string()),
        &Some(vec!["discord".to_string()]),
    );
    assert_eq!(
        args,
        vec![
            "--input-format", "stream-json", "--output-format", "stream-json", "--verbose",
            "--permission-prompt-tool", "stdio", "--resume", "sess-1", "--permission-mode", "plan",
            "--thinking", "adaptive", "--channels", "discord",
        ]
    );
    let plain = claude_cli_args(&None, &Some("acceptEdits".to_string()), &Some("off".to_string()), &None);
    assert_eq!(plain.len(), 7);
}

#[test]
fn route_output_tracks_session_and_commands() {
    let mut process = ClaudeProcess::new();
    let mut parser = ClaudeEventParser::new();
    let init = cdoc(r#"{"type": "system", "subtype": "init", "session_id": "abc", "model": "m"}"#);
    match process.route_output(&mut parser, &init) {
        OutputAction::Emit(events) => assert_eq!(events.len(), 1),
        _ => panic!("expected events"),
    }
    assert_eq!(process.session_id.as_deref(), Some("abc"));
    let keep_alive = cdoc(r#"{"type": "keep_alive"}"#);
    assert!(matches!(process.route_output(&mut parser, &keep_alive), OutputAction::Ignore));
    let reply = cdoc(
        r#"{"type": "control_response", "response": {"subtype": "success", "response": {"commands": [{"name": "review"}, {"description": "x"}, {"name": "uni"}], "pid": 7}}}"#,
    );
    match process.route_output(&mut parser, &reply) {
        OutputAction::Emit(events) => match &events[0] {
            ClaudeEvent::Init { session_id, slash_commands, .. } => {
                assert_eq!(session_id, "");
                assert_eq!(slash_commands.clone().unwrap(), vec!["review".to_string(), "uni".to_string()]);
            }
            _ => panic!("expected Init"),
        },
        _ => panic!("expected events"),
    }
    assert_eq!(process.session_id.as_deref(), Some("abc"));
}

#[test]
fn cli_path_prefers_the_one_on_path() {
    let candidates = vec!["/nonexistent-home-for-test/.local/bin/tool".to_string()];
    assert_eq!(select_claude_path(Some("/usr/bin/tool"), &candidates, "tool"), "/usr/bin/tool");
    assert_eq!(select_claude_path(None, &vec![], "tool"), "tool");
    assert_eq!(select_claude_path(None, &candidates, "tool"), "tool");
    let with_existing = vec!["/nonexistent-a".to_string(), "/".to_string()];
    assert_eq!(select_claude_path(None, &with_existing, "tool"), "/");
}

#[test]
fn cli_path_takes_the_first_found_candidate() {
    let candidates = vec!["/a/tool".to_string(), "/b/tool".to_string(), "/c/tool".to_string()];
    assert_eq!(pick_cli_path(Some("/usr/bin/tool"), &candidates, &vec![true, true, true], "tool"), "/usr/bin/tool");
    assert_eq!(pick_cli_path(None, &candidates, &vec![false, true, true], "tool"), "/b/tool");
    assert_eq!(pick_cli_path(None, &candidates, &vec![false, false], "tool"), "tool");
    assert_eq!(pick_cli_path(None, &candidates, &vec![false, false, true], "tool"), "/c/tool");
    assert_eq!(pick_cli_path(None, &vec![], &vec![true], "tool"), "tool");
}
