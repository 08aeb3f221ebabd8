use tsunu_alive::events::{parse_claude_output, ClaudeEvent, ClaudeEventParser};
use tsunu_alive::json::{JsonNumber, JsonValue};

fn doc(text: &str) -> JsonValue {
    let v: serde_json::Value = serde_json::from_str(text).unwrap();
    convert(&v)
}

fn convert(v: &serde_json::Value) -> JsonValue {
    match v {
        serde_json::Value::Null => JsonValue::Null,
        serde_json::Value::Bool(b) => JsonValue::Bool(*b),
        serde_json::Value::Number(n) => {
            if let Some(u) = n.as_u64() {
                JsonValue::Number(JsonNumber::PosInt(u))
            } else if let Some(i) = n.as_i64() {
                JsonValue::Number(JsonNumber::NegInt(i))
            } else {
                JsonValue::Number(JsonNumber::Float(n.as_f64().unwrap().to_bits()))
            }
        }
        serde_json::Value::String(s) => JsonValue::Str(s.clone()),
        serde_json::Value::Array(a) => JsonValue::Array(a.iter().map(convert).collect()),
        serde_json::Value::Object(m) => JsonValue::Object(m.iter().map(|(k, x)| (k.clone(), convert(x))).collect()),
    }
}

fn float_of(n: &JsonNumber) -> f64 {
    match n {
        JsonNumber::Float(bits) => f64::from_bits(*bits),
        JsonNumber::PosInt(u) => *u as f64,
        JsonNumber::NegInt(i) => *i as f64,
    }
}

#[test]
fn test_parse_init_event() {
    let json = doc(r#"{"type": "system", "subtype": "init", "session_id": "test-session-123", "model": "sonnet-4-20250514"}"#);
    let events = parse_claude_output(&json);
    assert_eq!(events.len(), 1);
    match &events[0] {
        ClaudeEvent::Init { session_id, model, slash_commands } => {
            assert_eq!(session_id, "test-session-123");
            assert_eq!(model, "sonnet-4-20250514");
            assert!(slash_commands.is_none());
        }
        _ => panic!("Expected Init event"),
    }
}

#[test]
fn test_parse_text_event() {
    let json = doc(r#"{"type": "assistant", "message": {"content": [{"type": "text", "text": "Hello, world!"}]}}"#);
    let events = parse_claude_output(&json);
    assert_eq!(events.len(), 1);
    match &events[0] {
        ClaudeEvent::Text { text, is_complete } => {
            assert_eq!(text, "Hello, world!");
            assert!(!*is_complete);
        }
        _ => panic!("Expected Text event"),
    }
}

#[test]
fn test_parse_tool_use_event() {
    let json = doc(
        r#"{"type": "assistant", "message": {"content": [{"type": "tool_use", "name": "Read", "id": "tool-123", "input": {"file_path": "/path/to/file.txt"}}]}}"#,
    );
    let events = parse_claude_output(&json);
    assert_eq!(events.len(), 1);
    match &events[0] {
        ClaudeEvent::ToolUse { tool_name, tool_id, input } => {
            assert_eq!(tool_name, "Read");
            assert_eq!(tool_id, "tool-123");
            assert_eq!(input.get_str("file_path"), Some("/path/to/file.txt"));
        }
        _ => panic!("Expected ToolUse event"),
    }
}

#[test]
fn test_parse_complete_event() {
    let json = doc(r#"{"type": "result", "result": "Task completed successfully", "total_cost_usd": 0.05}"#);
    let events = parse_claude_output(&json);
    let complete_events: Vec<_> = events.iter().filter(|e| matches!(e, ClaudeEvent::Complete { .. })).collect();
    assert_eq!(complete_events.len(), 1);
    match complete_events[0] {
        ClaudeEvent::Complete { result, cost_usd, total_tokens_in_conversation, context_window_max, input_tokens_this_turn } => {
            assert_eq!(result, "Task completed successfully");
            assert!((float_of(cost_usd) - 0.05).abs() < 0.001);
            assert!(total_tokens_in_conversation.is_none());
            assert!(context_window_max.is_none());
            // the share of the window in use is reported only when both counts are present
            assert!(total_tokens_in_conversation.is_none() || context_window_max.is_none());
            assert!(input_tokens_this_turn.is_none());
        }
        _ => panic!("Expected Complete event"),
    }
}

#[test]
fn test_parse_complete_event_with_context_info() {
    let mut parser = ClaudeEventParser::new();
    let assistant_json = doc(
        r#"{"type": "assistant", "message": {"content": [{"type": "text", "text": "Hello"}], "usage": {"input_tokens": 12000, "output_tokens": 3000}, "stop_reason": "end_turn"}}"#,
    );
    parser.parse(&assistant_json);
    let result_json = doc(
        r#"{"type": "result", "result": "Done", "total_cost_usd": 0.10, "usage": {"input_tokens": 50000, "output_tokens": 10000}, "modelUsage": {"sonnet-4-6-20260101": {"inputTokens": 50000, "outputTokens": 10000, "contextWindow": 200000, "maxOutputTokens": 64000}}}"#,
    );
    let events = parser.parse(&result_json);
    let complete_events: Vec<_> = events.iter().filter(|e| matches!(e, ClaudeEvent::Complete { .. })).collect();
    assert_eq!(complete_events.len(), 1);
    match complete_events[0] {
        ClaudeEvent::Complete { result, cost_usd, total_tokens_in_conversation, context_window_max, input_tokens_this_turn } => {
            assert_eq!(result, "Done");
            assert!((float_of(cost_usd) - 0.10).abs() < 0.001);
            assert_eq!(*total_tokens_in_conversation, Some(15000));
            assert_eq!(*context_window_max, Some(200000));
            let percent = total_tokens_in_conversation.unwrap() as f64 / context_window_max.unwrap() as f64 * 100.0;
            assert!((percent - 7.5).abs() < 0.001);
            assert_eq!(*input_tokens_this_turn, Some(12000));
        }
        _ => panic!("Expected Complete event"),
    }
}

#[test]
fn test_parse_unknown_type() {
    let json = doc(r#"{"type": "unknown_type", "data": "something"}"#);
    let events = parse_claude_output(&json);
    assert!(events.is_empty());
}

#[test]
fn test_parse_missing_type() {
    let json = doc(r#"{"data": "no type field"}"#);
    let events = parse_claude_output(&json);
    assert!(events.is_empty());
}

#[test]
fn test_parse_api_error_event() {
    let json = doc(
        r#"{"type": "assistant", "isApiErrorMessage": true, "error": "invalid_request", "message": {"model": "<synthetic>", "role": "assistant", "stop_reason": "stop_sequence", "content": [{"type": "text", "text": "Request too large (max 20MB). Try with a smaller file."}], "usage": {"input_tokens": 0, "output_tokens": 0, "cache_creation_input_tokens": 0, "cache_read_input_tokens": 0}}}"#,
    );
    let events = parse_claude_output(&json);
    assert_eq!(events.len(), 1);
    match &events[0] {
        ClaudeEvent::ApiError { error_code, message } => {
            assert_eq!(error_code, "invalid_request");
            assert!(message.contains("Request too large"));
        }
        _ => panic!("Expected ApiError event, got {:?}", events[0]),
    }
}

#[test]
fn test_parse_api_error_not_triggered_for_normal_assistant() {
    let json = doc(
        r#"{"type": "assistant", "message": {"content": [{"type": "text", "text": "Hello, world!"}], "stop_reason": "end_turn", "usage": {"input_tokens": 100, "output_tokens": 50, "cache_creation_input_tokens": 0, "cache_read_input_tokens": 0}}}"#,
    );
    let events = parse_claude_output(&json);
    assert!(!events.is_empty());
    for event in &events {
        if let ClaudeEvent::ApiError { .. } = event {
            panic!("Normal assistant should not be ApiError");
        }
    }
}

#[test]
fn parse_counts_only_assistant_usage_for_context() {
    // the context figure follows the last assistant turn, not the cumulative result usage
    let mut parser = ClaudeEventParser::new();
    parser.parse(&doc(r#"{"type": "assistant", "message": {"content": [], "usage": {"input_tokens": 100, "cache_read_input_tokens": 20, "output_tokens": 5}}}"#));
    parser.parse(&doc(r#"{"type": "user", "message": {"content": []}}"#));
    let events = parser.parse(&doc(r#"{"type": "result", "result": "ok", "total_cost_usd": 0}"#));
    match &events[0] {
        ClaudeEvent::Complete { total_tokens_in_conversation, input_tokens_this_turn, .. } => {
            assert_eq!(*total_tokens_in_conversation, Some(125));
            assert_eq!(*input_tokens_this_turn, Some(120));
        }
        other => panic!("unexpected {:?}", other),
    }
}

#[test]
fn parse_fresh_parser_reports_no_token_counts() {
    let events = parse_claude_output(&doc(r#"{"type": "result", "result": "ok", "total_cost_usd": 1}"#));
    match &events[0] {
        ClaudeEvent::Complete { total_tokens_in_conversation, cost_usd, .. } => {
            assert_eq!(*total_tokens_in_conversation, None);
            assert_eq!(*cost_usd, JsonNumber::PosInt(1));
        }
        other => panic!("unexpected {:?}", other),
    }
}

#[test]
fn compaction_summary_is_reported_alone() {
    let line = doc(r#"{"type":"user","isCompactSummary":true,"message":{"content":[{"type":"text","text":"first"},{"content":"second"}]},"toolUseResult":{"stdout":"x"}}"#);
    let events = parse_claude_output(&line);
    assert_eq!(events.len(), 1);
    match &events[0] {
        ClaudeEvent::Compacted { summary } => assert_eq!(summary, "first\nsecond"),
        _ => panic!("expected a summary"),
    }
    let empty = doc(r#"{"type":"user","isSynthetic":true,"message":{"content":""}}"#);
    assert!(parse_claude_output(&empty).is_empty());
    let replay = doc(r#"{"type":"user","isSynthetic":true,"isReplay":true,"message":{"content":[{"type":"tool_result","tool_use_id":"t1","content":"ok"}]}}"#);
    assert!(matches!(parse_claude_output(&replay)[0], ClaudeEvent::ToolResult { .. }));
}
