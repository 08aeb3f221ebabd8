use tsunu_alive::ide::{
    parse_error_response, Diagnostic, IdeServer, IdeServerEvent, JsonRpcError, JsonRpcRequest, JsonRpcResponse,
    SelectionRange, DEFAULT_WS_PORT,
};
use tsunu_alive::json::{JsonNumber, JsonValue};

fn obj(members: Vec<(&str, JsonValue)>) -> JsonValue {
    JsonValue::Object(members.into_iter().map(|(k, v)| (k.to_string(), v)).collect())
}

fn s(x: &str) -> JsonValue {
    JsonValue::Str(x.to_string())
}

fn rpc(id: u64, method: &str, params: Option<JsonValue>) -> JsonRpcRequest {
    JsonRpcRequest {
        jsonrpc: "2.0".to_string(),
        id: Some(JsonValue::Number(JsonNumber::PosInt(id))),
        method: method.to_string(),
        params,
    }
}

#[test]
fn test_selection_range_default() {
    let range = SelectionRange::default();
    assert_eq!(range.start_line, 0);
    assert_eq!(range.end_line, 0);
}

#[test]
fn test_json_rpc_response_success() {
    let response = JsonRpcResponse {
        jsonrpc: "2.0".to_string(),
        id: Some(JsonValue::Number(JsonNumber::PosInt(1))),
        result: Some(obj(vec![("status", s("ok"))])),
        error: None,
    };
    let json = response.to_json();
    assert!(json.get("result").is_some());
    assert!(json.get("error").is_none());
}

#[test]
fn test_json_rpc_response_error() {
    let response = JsonRpcResponse {
        jsonrpc: "2.0".to_string(),
        id: None,
        result: None,
        error: Some(JsonRpcError { code: -32700, message: "Parse error".to_string() }),
    };
    let json = response.to_json();
    let error = json.get("error").unwrap();
    assert_eq!(error.get("code").unwrap().as_number(), Some(JsonNumber::NegInt(-32700)));
    assert!(json.get("result").is_none());
    assert!(json.get("id").unwrap().is_null());
}

#[test]
fn parse_error_reply_names_the_problem() {
    let json = parse_error_response("expected value at line 1").to_json();
    assert_eq!(json.get("error").unwrap().get_str("message"), Some("Parse error: expected value at line 1"));
}

#[test]
fn context_update_then_clear() {
    let mut server = IdeServer::new(DEFAULT_WS_PORT);
    assert!(server.get_context().is_none());
    let params = obj(vec![("filePath", s("/src/main.rs")), ("languageId", s("rust")), ("selectedText", s("let x"))]);
    let diags = vec![Diagnostic {
        severity: "warning".to_string(),
        message: "unused variable".to_string(),
        range: SelectionRange::default(),
    }];
    let sel = SelectionRange { start_line: 10, start_character: 0, end_line: 10, end_character: 10 };
    let out = server.handle_message(&rpc(1, "context/update", Some(params)), Some(sel), Some(diags), "127.0.0.1:5000", "2026-01-23T12:00:00Z");
    let reply = out.response.unwrap().to_json();
    assert_eq!(reply.get("result").unwrap().get_str("status"), Some("ok"));
    assert_eq!(reply.get_u64("id"), Some(1));
    match out.event {
        Some(IdeServerEvent::ContextUpdated(c)) => assert_eq!(c.file_path.as_deref(), Some("/src/main.rs")),
        _ => panic!("expected a context update"),
    }
    let ctx = server.get_context().unwrap();
    assert_eq!(ctx.language_id.as_deref(), Some("rust"));
    assert_eq!(ctx.client_id.as_deref(), Some("127.0.0.1:5000"));
    assert_eq!(ctx.last_updated.as_deref(), Some("2026-01-23T12:00:00Z"));
    assert_eq!(ctx.diagnostics.len(), 1);
    assert_eq!(ctx.selection.unwrap().end_character, 10);
    let status = server.get_status();
    assert!(status.current_context.is_some());
    let cleared = server.handle_message(&rpc(2, "context/clear", None), None, None, "c", "t");
    assert!(cleared.response.is_some());
    assert!(cleared.event.is_none());
    assert!(server.get_context().is_none());
}

#[test]
fn selection_change_is_not_answered() {
    let mut server = IdeServer::new(1);
    server.handle_message(&rpc(1, "context/update", Some(obj(vec![("filePath", s("/a.rs"))]))), None, None, "c1", "t1");
    let out = server.handle_message(&rpc(2, "selection/changed", Some(obj(vec![("selectedText", s("abc"))]))), None, None, "c2", "t2");
    assert!(out.response.is_none());
    assert!(out.event.is_none());
    let ctx = server.get_context().unwrap();
    assert_eq!(ctx.file_path.as_deref(), Some("/a.rs"));
    assert_eq!(ctx.selected_text.as_deref(), Some("abc"));
    assert_eq!(ctx.client_id.as_deref(), Some("c2"));
}

#[test]
fn unknown_method_is_refused() {
    let mut server = IdeServer::new(1);
    let out = server.handle_message(&rpc(9, "foo/bar", None), None, None, "c", "t");
    let reply = out.response.unwrap().to_json();
    let err = reply.get("error").unwrap();
    assert_eq!(err.get("code").unwrap().as_number(), Some(JsonNumber::NegInt(-32601)));
    assert_eq!(err.get_str("message"), Some("Method not found: foo/bar"));
}

#[test]
fn clients_connect_say_hello_and_leave() {
    let mut server = IdeServer::new(DEFAULT_WS_PORT);
    server.set_running(true);
    match server.connect_client("127.0.0.1:12345", "2026-01-23T12:00:00Z") {
        IdeServerEvent::ClientConnected(c) => assert_eq!(c.name, "Unknown IDE"),
        _ => panic!("expected a connection event"),
    }
    let hello = obj(vec![("name", s("VS Code")), ("workspacePath", s("D:\\project_A"))]);
    server.handle_message(&rpc(1, "client/hello", Some(hello)), None, None, "127.0.0.1:12345", "t");
    let status = server.get_status();
    assert!(status.running);
    assert_eq!(status.port, 19750);
    assert_eq!(status.connected_clients.len(), 1);
    assert_eq!(status.connected_clients[0].name, "VS Code");
    assert_eq!(status.connected_clients[0].workspace_path.as_deref(), Some("D:\\project_A"));
    server.disconnect_client("127.0.0.1:12345");
    assert!(server.get_status().connected_clients.is_empty());
}
