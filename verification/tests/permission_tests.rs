use tsunu_alive::json::{JsonNumber, JsonValue};
use tsunu_alive::permission::{
    auto_allow_tools, cancelled_response, respond_reply, PermissionRequest, PermissionRespondRequest,
    PermissionResponse, PermissionState, RequestOutcome, WhitelistAddRequest,
};

fn request(tool: &str, id: &str, session: Option<&str>, input: JsonValue) -> PermissionRequest {
    PermissionRequest {
        tool_name: tool.to_string(),
        tool_input: input,
        tool_use_id: id.to_string(),
        session_id: session.map(|s| s.to_string()),
    }
}

#[test]
fn test_permission_response_serialization() {
    let response = PermissionResponse { behavior: "allow".to_string(), message: None, updated_input: None };
    let json = response.to_json();
    assert_eq!(json.get_str("behavior"), Some("allow"));
    assert!(json.get("message").is_none());
    assert!(json.get("updated_input").is_none());
}

#[test]
fn test_session_whitelist() {
    let mut guard = PermissionState::new();
    assert!(!guard.is_tool_allowed(&Some("session1".to_string()), "Bash"));
    guard.add_to_session_whitelist("session1", "Bash");
    assert!(guard.is_tool_allowed(&Some("session1".to_string()), "Bash"));
    assert!(!guard.is_tool_allowed(&Some("session1".to_string()), "Edit"));
    assert!(!guard.is_tool_allowed(&Some("session2".to_string()), "Bash"));
    guard.clear_session_whitelist("session1");
    assert!(!guard.is_tool_allowed(&Some("session1".to_string()), "Bash"));
}

#[test]
fn whitelist_never_applies_without_session() {
    let mut guard = PermissionState::new();
    guard.add_to_session_whitelist("s", "Bash");
    assert!(!guard.is_tool_allowed(&None, "Bash"));
}

#[test]
fn test_auto_allow_tools_contains_user_interaction() {
    assert!(auto_allow_tools().contains(&"AskUserQuestion"));
}

#[test]
fn test_auto_allow_tools_contains_task_management() {
    assert!(auto_allow_tools().contains(&"TodoRead"));
    assert!(auto_allow_tools().contains(&"TodoWrite"));
}

#[test]
fn test_auto_allow_tools_contains_read_only() {
    assert!(auto_allow_tools().contains(&"Read"));
    assert!(auto_allow_tools().contains(&"Glob"));
    assert!(auto_allow_tools().contains(&"Grep"));
}

#[test]
fn test_auto_allow_tools_contains_subagent() {
    assert!(auto_allow_tools().contains(&"Task"));
    assert!(auto_allow_tools().contains(&"TaskOutput"));
}

#[test]
fn test_auto_allow_tools_contains_web_read_only() {
    assert!(auto_allow_tools().contains(&"WebSearch"));
    assert!(auto_allow_tools().contains(&"WebFetch"));
}

#[test]
fn test_auto_allow_tools_contains_plan_mode() {
    assert!(auto_allow_tools().contains(&"EnterPlanMode"));
}

#[test]
fn test_auto_allow_tools_does_not_contain_write_tools() {
    assert!(!auto_allow_tools().contains(&"Edit"));
    assert!(!auto_allow_tools().contains(&"Write"));
    assert!(!auto_allow_tools().contains(&"Bash"));
    assert!(!auto_allow_tools().contains(&"NotebookEdit"));
}

#[test]
fn test_auto_allow_tools_does_not_contain_exit_plan_mode() {
    assert!(!auto_allow_tools().contains(&"ExitPlanMode"));
}

#[test]
fn test_auto_allow_tools_count_matches_frontend() {
    assert_eq!(auto_allow_tools().len(), 11);
}

#[test]
fn test_auto_allow_tools_has_no_duplicates() {
    let mut seen = std::collections::HashSet::new();
    for tool in auto_allow_tools() {
        assert!(seen.insert(tool), "Duplicate tool found: {}", tool);
    }
}

#[test]
fn listed_tool_is_answered_at_once() {
    let mut state = PermissionState::new();
    match state.handle_request(&request("Read", "t1", None, JsonValue::Null)) {
        RequestOutcome::Answer(r) => {
            assert_eq!(r.behavior, "allow");
            assert!(r.message.is_none());
        }
        _ => panic!("Read is listed"),
    }
    let reply = state.respond(&PermissionRespondRequest { tool_use_id: "t1".into(), behavior: "allow".into(), message: None });
    assert!(reply.is_none());
}

#[test]
fn waiting_request_is_answered_once() {
    let mut state = PermissionState::new();
    let input = JsonValue::Object(vec![("command".to_string(), JsonValue::Str("rm -rf build".to_string()))]);
    match state.handle_request(&request("Bash", "t2", Some("s1"), input)) {
        RequestOutcome::AskTool(ev) => {
            assert_eq!(ev.tool_name, "Bash");
            assert_eq!(ev.tool_use_id, "t2");
            assert_eq!(ev.session_id.as_deref(), Some("s1"));
            assert_eq!(ev.tool_input.get_str("command"), Some("rm -rf build"));
        }
        _ => panic!("Bash waits for the user"),
    }
    let decision = PermissionRespondRequest { tool_use_id: "t2".into(), behavior: "deny".into(), message: Some("no".into()) };
    let first = state.respond(&decision).expect("the request waits");
    assert_eq!(first.behavior, "deny");
    assert_eq!(first.message.as_deref(), Some("no"));
    assert!(state.respond(&decision).is_none());
}

#[test]
fn exit_plan_mode_asks_for_plan_approval() {
    let mut state = PermissionState::new();
    let input = JsonValue::Object(vec![
        ("plan".to_string(), JsonValue::Str("1. do it".to_string())),
        ("_planFilePath".to_string(), JsonValue::Str("/p/plan.md".to_string())),
    ]);
    match state.handle_request(&request("ExitPlanMode", "t3", None, input)) {
        RequestOutcome::AskPlan(ev) => {
            assert_eq!(ev.tool_use_id, "t3");
            assert_eq!(ev.plan_content.as_deref(), Some("1. do it"));
            assert_eq!(ev.plan_file_path.as_deref(), Some("/p/plan.md"));
        }
        _ => panic!("ExitPlanMode waits for plan approval"),
    }
    let timed_out = state.time_out("t3");
    assert_eq!(timed_out.behavior, "deny");
    assert_eq!(timed_out.message.as_deref(), Some("Permission request timed out"));
    assert!(state.respond(&PermissionRespondRequest { tool_use_id: "t3".into(), behavior: "allow".into(), message: None }).is_none());
}

#[test]
fn whitelisted_tool_runs_in_its_session_only() {
    let mut state = PermissionState::new();
    let reply = state.whitelist_add(&WhitelistAddRequest { session_id: "s".into(), tool_name: "Edit".into() });
    assert_eq!(reply.get_bool("success"), Some(true));
    assert!(matches!(state.handle_request(&request("Edit", "a", Some("s"), JsonValue::Null)), RequestOutcome::Answer(_)));
    assert!(matches!(state.handle_request(&request("Edit", "b", Some("t"), JsonValue::Null)), RequestOutcome::AskTool(_)));
}

#[test]
fn replies_to_the_front_end() {
    assert_eq!(respond_reply(true).get_bool("success"), Some(true));
    let missing = respond_reply(false);
    assert_eq!(missing.get_bool("success"), Some(false));
    assert_eq!(missing.get_str("error"), Some("No pending permission request found"));
    let c = cancelled_response();
    assert_eq!(c.message.as_deref(), Some("Permission request was cancelled"));
    let full = PermissionResponse {
        behavior: "allow".into(),
        message: Some("ok".into()),
        updated_input: Some(JsonValue::Number(JsonNumber::PosInt(3))),
    }
    .to_json();
    assert_eq!(full.get_str("message"), Some("ok"));
    assert_eq!(full.get_u64("updated_input"), Some(3));
}
