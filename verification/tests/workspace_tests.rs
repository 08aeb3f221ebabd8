use tsunu_alive::history::{restore_history, HistoryChatItem};
use tsunu_alive::json::{JsonNumber, JsonValue};
use tsunu_alive::workspace::{
    find_working_dir_arg, get_hook_script_content, get_project_dir_name, greet, is_system_message, order_sessions,
    parse_skill_md, pick_recent_plan, select_file_items, session_summary, skill_item, sort_skills, HookScripts,
    SessionItem,
};

fn wdoc(text: &str) -> JsonValue {
    let v: serde_json::Value = serde_json::from_str(text).unwrap();
    wconvert(&v)
}

fn wconvert(v: &serde_json::Value) -> JsonValue {
    match v {
        serde_json::Value::Null => JsonValue::Null,
        serde_json::Value::Bool(b) => JsonValue::Bool(*b),
        serde_json::Value::Number(n) => {
            if let Some(u) = n.as_u64() {
                JsonValue::Number(JsonNumber::PosInt(u))
            } else if let Some(i) = n.as_i64() {
                JsonValue::Number(JsonNumber::NegInt(i))
            } else {
                JsonValue::Number(JsonNumber::Float(n.as_f64().unwrap().to_bits()))
            }
        }
        serde_json::Value::String(s) => JsonValue::Str(s.clone()),
        serde_json::Value::Array(a) => JsonValue::Array(a.iter().map(wconvert).collect()),
        serde_json::Value::Object(m) => JsonValue::Object(m.iter().map(|(k, x)| (k.clone(), wconvert(x))).collect()),
    }
}

#[test]
fn project_dir_names_follow_the_cli() {
    assert_eq!(get_project_dir_name("d:\\game\\tsunu_alive"), "d--game-tsunu-alive");
    assert_eq!(get_project_dir_name("/home/user/my_project"), "home--user-my-project");
    assert_eq!(get_project_dir_name(""), "unknown");
    assert_eq!(get_project_dir_name("///"), "unknown");
    assert_eq!(get_project_dir_name("C:\\Work"), "c--work");
}

#[test]
fn skill_md_frontmatter_and_fallbacks() {
    let (name, desc) = parse_skill_md("---\nname: \"uni\"\ndescription: 'Unity helper'\n---\n# Title\nBody", "folder");
    assert_eq!(name, "uni");
    assert_eq!(desc, "Unity helper");
    let (name2, desc2) = parse_skill_md("# Heading\n\nFirst line of text\nsecond", "folder");
    assert_eq!(name2, "folder");
    assert_eq!(desc2, "First line of text");
    let long = "x".repeat(150);
    let (_, desc3) = parse_skill_md(&long, "f");
    assert_eq!(desc3.chars().count(), 100);
    let item = skill_item("---\nname: a\n---\n", "dir", "user");
    assert_eq!(item.name, "a");
    assert_eq!(item.source, "user");
}

#[test]
fn system_messages_are_recognized() {
    assert!(is_system_message("  Caveat: the messages below"));
    assert!(is_system_message("<system-reminder>x"));
    assert!(is_system_message("text </system-reminder>"));
    assert!(is_system_message("<command-name>/clear</command-name>"));
    assert!(!is_system_message("Hello there"));
}

#[test]
fn file_menu_filters_sorts_and_limits() {
    let entries = vec![
        ("zeta.rs".to_string(), false),
        (".git".to_string(), true),
        ("node_modules".to_string(), true),
        ("Alpha.rs".to_string(), false),
        ("src".to_string(), true),
        ("target".to_string(), true),
        ("beta".to_string(), true),
    ];
    let items = select_file_items(&entries, None, None);
    let names: Vec<&str> = items.iter().map(|i| i.name.as_str()).collect();
    assert_eq!(names, vec!["beta", "src", "Alpha.rs", "zeta.rs"]);
    let filtered = select_file_items(&entries, Some("sub/dir"), Some("ALP"));
    assert_eq!(filtered.len(), 1);
    assert_eq!(filtered[0].path, "sub/dir/Alpha.rs");
    let many: Vec<(String, bool)> = (0..80).map(|i| (format!("f{:03}", i), false)).collect();
    let limited = select_file_items(&many, None, None);
    assert_eq!(limited.len(), 50);
    assert_eq!(limited[0].name, "f000");
    assert_eq!(limited[49].name, "f049");
}

#[test]
fn file_menu_sort_is_stable_for_equal_names() {
    let entries = vec![("b".to_string(), false), ("B".to_string(), false), ("a".to_string(), false)];
    let items = select_file_items(&entries, None, None);
    let names: Vec<&str> = items.iter().map(|i| i.name.as_str()).collect();
    assert_eq!(names, vec!["a", "b", "B"]);
}

#[test]
fn skills_sort_by_lowercase_name() {
    let skills = vec![
        skill_item("---\nname: Zed\n---\n", "z", "user"),
        skill_item("---\nname: alpha\n---\n", "a", "project"),
        skill_item("---\nname: Beta\n---\n", "b", "user"),
    ];
    let sorted = sort_skills(&skills);
    let names: Vec<&str> = sorted.iter().map(|s| s.name.as_str()).collect();
    assert_eq!(names, vec!["alpha", "Beta", "Zed"]);
}

#[test]
fn sessions_newest_first_at_most_fifty() {
    let mk = |id: &str, t: &str| SessionItem {
        session_id: id.to_string(),
        created_at: t.to_string(),
        last_modified: t.to_string(),
        summary: None,
    };
    let sessions = vec![mk("a", "2026-01-01T00:00:00+08:00"), mk("b", "2026-03-01T00:00:00+08:00"), mk("c", "2026-02-01T00:00:00+08:00")];
    let ordered = order_sessions(&sessions);
    let ids: Vec<&str> = ordered.iter().map(|s| s.session_id.as_str()).collect();
    assert_eq!(ids, vec!["b", "c", "a"]);
    let many: Vec<SessionItem> = (0..60).map(|i| mk(&format!("s{}", i), &format!("2026-01-01T00:00:{:02}Z", i))).collect();
    let top = order_sessions(&many);
    assert_eq!(top.len(), 50);
    assert_eq!(top[0].session_id, "s59");
}

#[test]
fn session_summary_is_the_first_user_text() {
    let lines = vec![
        wdoc(r#"{"type": "summary", "summary": "x"}"#),
        wdoc(r#"{"type": "user", "message": {"content": [{"type": "text", "text": "array form"}]}}"#),
        wdoc(r#"{"type": "user", "message": {"content": "請幫我重構這個模組，並且加上測試，順便檢查效能問題，還有文件也要更新喔，謝謝你的幫忙！再補充一些說明文字"}}"#),
    ];
    let summary = session_summary(&lines).unwrap();
    assert!(summary.ends_with("..."));
    assert_eq!(summary.chars().count(), 53);
    let short = vec![wdoc(r#"{"type": "user", "message": {"content": "hi"}}"#)];
    assert_eq!(session_summary(&short).as_deref(), Some("hi"));
    assert_eq!(session_summary(&vec![]), None);
}

#[test]
fn most_recent_plan_is_picked() {
    assert_eq!(pick_recent_plan(&vec![]), None);
    assert_eq!(pick_recent_plan(&vec![(10, 0), (30, 5), (30, 5), (20, 9)]), Some(1));
    assert_eq!(pick_recent_plan(&vec![(10, 1), (10, 2)]), Some(1));
}

#[test]
fn working_dir_comes_after_its_flag() {
    let args = |v: &[&str]| v.iter().map(|s| s.to_string()).collect::<Vec<String>>();
    assert_eq!(find_working_dir_arg(&args(&["app", "-w", "/p"])).as_deref(), Some("/p"));
    assert_eq!(find_working_dir_arg(&args(&["app", "--working-dir", "/q", "-w", "/r"])).as_deref(), Some("/q"));
    assert_eq!(find_working_dir_arg(&args(&["app", "-w"])), None);
    assert_eq!(find_working_dir_arg(&args(&["app"])), None);
}

#[test]
fn greeting_and_hook_scripts() {
    assert_eq!(greet("阿宇"), "Hello, 阿宇! You've been greeted from Rust!");
    let scripts = HookScripts { powershell: "ps".to_string(), shell: "sh".to_string() };
    assert_eq!(get_hook_script_content("tsunu-permission.ps1", &scripts).as_deref(), Some("ps"));
    assert_eq!(get_hook_script_content("tsunu-permission.sh", &scripts).as_deref(), Some("sh"));
    assert_eq!(get_hook_script_content("other.sh", &scripts), None);
}

#[test]
fn history_restores_messages_and_tool_results() {
    let lines = vec![
        wdoc(r#"{"type": "user", "message": {"content": "Please read the file"}}"#),
        wdoc(r#"{"type": "assistant", "message": {"content": [{"type": "text", "text": "Sure."}, {"type": "tool_use", "id": "t1", "name": "Read", "input": {"file_path": "/a"}}]}}"#),
        wdoc(r#"{"type": "user", "message": {"content": [{"type": "tool_result", "tool_use_id": "t1", "content": "file body", "is_error": true}]}}"#),
        wdoc(r#"{"type": "assistant", "message": {"content": [{"type": "text", "text": "Caveat: internal"}]}}"#),
        wdoc(r#"{"type": "assistant", "message": {"content": [{"type": "text", "text": "Done."}]}}"#),
    ];
    let messages = restore_history(&lines);
    assert_eq!(messages.len(), 3);
    assert_eq!(messages[0].role, "user");
    assert_eq!(messages[1].role, "assistant");
    match &messages[1].items[1] {
        HistoryChatItem::Tool { tool } => {
            assert_eq!(tool.id, "t1");
            assert_eq!(tool.result.as_deref(), Some("file body"));
            assert_eq!(tool.is_error, Some(true));
        }
        other => panic!("unexpected {:?}", other),
    }
    match &messages[2].items[0] {
        HistoryChatItem::Text { content } => assert_eq!(content, "Done."),
        other => panic!("unexpected {:?}", other),
    }
}

#[test]
fn history_keeps_the_last_two_hundred_messages() {
    let mut lines = Vec::new();
    for i in 0..250 {
        lines.push(wdoc(&format!(r#"{{"type": "user", "message": {{"content": "m{}"}}}}"#, i)));
    }
    let messages = restore_history(&lines);
    assert_eq!(messages.len(), 200);
    match &messages[0].items[0] {
        HistoryChatItem::Text { content } => assert_eq!(content, "m50"),
        other => panic!("unexpected {:?}", other),
    }
}

#[test]
fn project_dir_name_ignores_extra_slashes_and_underscores() {
    for s in ["home/user/my_project", "d:\\game\\tsunu_alive", "a", "", "x/y_z/"] {
        let base = get_project_dir_name(s);
        assert_eq!(get_project_dir_name(&format!("/{}/", s)), base);
        assert_eq!(get_project_dir_name(&s.replace('/', "//")), base);
        assert_eq!(get_project_dir_name(&s.replace('_', "-")), base);
    }
}

#[test]
fn skill_description_from_text_is_short() {
    let body = "y".repeat(300);
    let (_, d) = parse_skill_md(&format!("---\nname: n\n---\n\n{}", body), "f");
    assert_eq!(d.chars().count(), 100);
    let (_, d2) = parse_skill_md(&format!("---\ndescription: {}\n---\n", body), "f");
    assert_eq!(d2, body);
}

#[test]
fn restored_messages_are_well_formed() {
    let lines = [
        r#"{"type":"user","message":{"content":"hello"}}"#,
        r#"{"type":"assistant","message":{"content":[{"type":"text","text":"   "},{"type":"text","text":"Hi"},{"type":"tool_use","id":"t1","name":"Read","input":{}}]}}"#,
        r#"{"type":"user","message":{"content":[{"type":"tool_result","tool_use_id":"t1","content":"ok"},{"type":"text","text":"a"},{"type":"text","text":"b"}]}}"#,
        r#"{"type":"assistant","message":{"content":[{"type":"text","text":""}]}}"#,
    ];
    let entries: Vec<JsonValue> = lines.iter().map(|l| wdoc(l)).collect();
    let ms = restore_history(&entries);
    assert_eq!(ms.len(), 3);
    for m in &ms {
        assert!(m.role == "user" || m.role == "assistant");
        assert!(!m.items.is_empty());
        if m.role == "user" {
            assert_eq!(m.items.len(), 1);
            assert!(matches!(m.items[0], HistoryChatItem::Text { .. }));
        } else {
            for it in &m.items {
                if let HistoryChatItem::Text { content } = it {
                    assert!(!content.trim().is_empty());
                }
            }
        }
    }
}
