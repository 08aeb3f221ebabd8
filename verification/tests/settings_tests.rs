use tsunu_alive::json::{JsonNumber, JsonValue};
use tsunu_alive::settings::{
    add_permission_entry, compact_hook_command, default_permission_settings, install_permission_hook,
    merge_compact_hook, permission_hook_command, set_executable_path, setup_done_json,
};

fn sdoc(text: &str) -> JsonValue {
    let v: serde_json::Value = serde_json::from_str(text).unwrap();
    sconvert(&v)
}

fn sconvert(v: &serde_json::Value) -> JsonValue {
    match v {
        serde_json::Value::Null => JsonValue::Null,
        serde_json::Value::Bool(b) => JsonValue::Bool(*b),
        serde_json::Value::Number(n) => {
            if let Some(u) = n.as_u64() {
                JsonValue::Number(JsonNumber::PosInt(u))
            } else if let Some(i) = n.as_i64() {
                JsonValue::Number(JsonNumber::NegInt(i))
            } else {
                JsonValue::Number(JsonNumber::Float(n.as_f64().unwrap().to_bits()))
            }
        }
        serde_json::Value::String(s) => JsonValue::Str(s.clone()),
        serde_json::Value::Array(a) => JsonValue::Array(a.iter().map(sconvert).collect()),
        serde_json::Value::Object(m) => JsonValue::Object(m.iter().map(|(k, x)| (k.clone(), sconvert(x))).collect()),
    }
}

fn allow_list(j: &JsonValue) -> Vec<String> {
    j.get("permissions").unwrap().get_array("allow").unwrap().iter().map(|v| v.as_str().unwrap().to_string()).collect()
}

#[test]
fn test_add_permission_creates_new_file() {
    let (added, json) = add_permission_entry(default_permission_settings(), "Edit").unwrap();
    assert!(added);
    let allow = allow_list(&json);
    assert_eq!(allow.len(), 1);
    assert_eq!(allow[0], "Edit:*");
}

#[test]
fn test_add_permission_appends_to_existing() {
    let (_, first) = add_permission_entry(default_permission_settings(), "Edit").unwrap();
    let (added, json) = add_permission_entry(first, "Bash").unwrap();
    assert!(added);
    let allow = allow_list(&json);
    assert_eq!(allow.len(), 2);
    assert!(allow.contains(&"Edit:*".to_string()));
    assert!(allow.contains(&"Bash:*".to_string()));
}

#[test]
fn test_add_permission_no_duplicate() {
    let (added1, first) = add_permission_entry(default_permission_settings(), "Read").unwrap();
    assert!(added1);
    let (added2, json) = add_permission_entry(first, "Read").unwrap();
    assert!(!added2);
    assert_eq!(allow_list(&json).len(), 1);
}

#[test]
fn test_add_permission_preserves_existing_settings() {
    let existing = sdoc(r#"{"permissions": {"allow": ["Existing:*"]}, "other_setting": "should_be_preserved"}"#);
    let (added, json) = add_permission_entry(existing, "NewTool").unwrap();
    assert!(added);
    assert_eq!(json.get_str("other_setting"), Some("should_be_preserved"));
    let allow = allow_list(&json);
    assert_eq!(allow.len(), 2);
    assert!(allow.contains(&"Existing:*".to_string()));
    assert!(allow.contains(&"NewTool:*".to_string()));
}

#[test]
fn add_permission_fills_missing_parts_and_refuses_non_arrays() {
    let (added, json) = add_permission_entry(sdoc(r#"{"model": "x"}"#), "Edit").unwrap();
    assert!(added);
    assert_eq!(allow_list(&json), vec!["Edit:*".to_string()]);
    let (_, from_null) = add_permission_entry(JsonValue::Null, "Bash").unwrap();
    assert_eq!(allow_list(&from_null), vec!["Bash:*".to_string()]);
    let err = add_permission_entry(sdoc(r#"{"permissions": {"allow": "Edit:*"}}"#), "Edit").unwrap_err();
    assert_eq!(err, "permissions.allow is not an array");
}

#[test]
fn permission_hook_is_installed_once() {
    let cmd_string = permission_hook_command("$HOME/.tool/hooks", false);
    let cmd = cmd_string.as_str();
    assert_eq!(cmd, "$HOME/.tool/hooks/tsunu-permission.sh");
    let (installed, json) = install_permission_hook(sdoc(r#"{"theme": "dark"}"#), cmd);
    assert!(installed);
    assert_eq!(json.get_str("theme"), Some("dark"));
    let entries = json.get("hooks").unwrap().get_array("PermissionRequest").unwrap();
    assert_eq!(entries.len(), 1);
    assert_eq!(entries[0].get_str("matcher"), Some("*"));
    let hook = &entries[0].get_array("hooks").unwrap()[0];
    assert_eq!(hook.get_str("command"), Some(cmd));
    assert_eq!(hook.get_u64("timeout"), Some(60000));
    let (again, _) = install_permission_hook(json, cmd);
    assert!(!again);
    assert_eq!(
        permission_hook_command("$HOME/.tool/hooks", true),
        "powershell.exe -ExecutionPolicy Bypass -File \"$HOME/.tool/hooks/tsunu-permission.ps1\""
    );
}

#[test]
fn compact_hook_replaces_user_prompt_submit_and_keeps_others() {
    let cmd = compact_hook_command("/home/u/.tool/hooks/check-compact.sh", false);
    assert_eq!(cmd, "bash \"/home/u/.tool/hooks/check-compact.sh\"");
    let settings = sdoc(r#"{"hooks": {"Stop": [], "UserPromptSubmit": [1]}, "x": 1}"#);
    let merged = merge_compact_hook(settings, &cmd).unwrap();
    let hooks = merged.get("hooks").unwrap();
    assert!(hooks.get("Stop").is_some());
    let ups = hooks.get_array("UserPromptSubmit").unwrap();
    assert_eq!(ups.len(), 1);
    assert_eq!(ups[0].get_str("matcher"), Some(""));
    assert_eq!(ups[0].get_array("hooks").unwrap()[0].get_str("command"), Some(cmd.as_str()));
    assert_eq!(merge_compact_hook(sdoc("[1]"), &cmd).unwrap_err(), "Global settings.json is not an object");
    let win = compact_hook_command("C:\\h\\check-compact.ps1", true);
    assert_eq!(win, "powershell.exe -ExecutionPolicy Bypass -File \"C:\\h\\check-compact.ps1\"");
}

#[test]
fn editor_settings_get_the_executable_path() {
    let j = set_executable_path(sdoc(r#"{"editor.fontSize": 14}"#), "/opt/app/tsunu");
    assert_eq!(j.get_str("tsunuAlive.executablePath"), Some("/opt/app/tsunu"));
    assert_eq!(j.get_u64("editor.fontSize"), Some(14));
    let unchanged = set_executable_path(sdoc("[]"), "/x");
    assert!(unchanged.as_array().is_some());
    let done = setup_done_json("2026-01-01T00:00:00+08:00");
    assert_eq!(done.get_u64("version"), Some(1));
}
