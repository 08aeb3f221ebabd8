//! The edits the app makes to settings files of the assistant's CLI and of VS
//! Code: they are computed here on JSON documents; reading and writing the
//! files is left to the caller.
use vstd::prelude::*;
use crate::json::{Json, JsonNumber, JsonValue, clone_all, lookup, models, obj_insert, opt_as_array, opt_as_str, opt_get};
use crate::text::{concat, contains_str, has_infix, str_eq};

verus! {

broadcast use vstd::std_specs::vec::group_vec_axioms;

/// `j[k] = v` as serde_json does it: null becomes an object first; other
/// non-objects are left as they are (serde_json panics on them, and the
/// callers here never let that happen).
pub open spec fn set_key(j: Json, k: Seq<char>, v: Json) -> Json {
    match j {
        Json::Null => Json::Object(seq![(k, v)]),
        Json::Object(m) => Json::Object(obj_insert(m, k, v)),
        _ => j,
    }
}

/// The member `k`, or null.
pub open spec fn member_or_null(j: Json, k: Seq<char>) -> Json {
    match j.member(k) {
        Some(v) => v,
        None => Json::Null,
    }
}

/// Computes `set_key(j@, k@, v@)`.
pub fn set_key_exec(j: JsonValue, k: &str, v: JsonValue) -> (r: JsonValue)
    ensures
        r@ == set_key(j@, k@, v@),
{
    match j {
        JsonValue::Null => {
            let r = JsonValue::new_object().with(k, v);
            assert(r@->Object_0 =~= seq![(k@, v@)]);
            r
        },
        JsonValue::Object(m) => {
            let mut j = JsonValue::Object(m);
            j.set_member(k, v);
            j
        },
        other => other,
    }
}

fn member_or_null_exec(j: &JsonValue, k: &str) -> (r: JsonValue)
    ensures
        r@ == member_or_null(j@, k@),
{
    match j.get(k) {
        Some(v) => v.deep_clone(),
        None => JsonValue::Null,
    }
}

// ---------------------------------------------------------------------------
// Project permissions (settings.local.json in the project's CLI folder)

/// A document on which the permission edit is defined: serde_json would
/// panic on an object member `permissions` that is neither an object nor
/// null, and on a top level that is neither.
pub open spec fn permission_settings_ok(j: Json) -> bool {
    &&& (j is Null || j is Object)
    &&& match j.member("permissions"@) {
        Some(p) => p is Object || p is Null,
        None => true,
    }
}

/// The settings a project starts with.
pub open spec fn default_permission_settings_model() -> Json {
    Json::Object(seq![("permissions"@, Json::Object(seq![("allow"@, Json::Array(seq![]))]))])
}

/// The settings with `permissions` and `permissions.allow` present: each is
/// added, as `{"allow": []}` and `[]`, when it is missing.
pub open spec fn normalized_permissions(j: Json) -> Json {
    let j1 = match j.member("permissions"@) {
        Some(_) => j,
        None => set_key(j, "permissions"@, Json::Object(seq![("allow"@, Json::Array(seq![]))])),
    };
    let p = member_or_null(j1, "permissions"@);
    match p.member("allow"@) {
        Some(_) => j1,
        None => set_key(j1, "permissions"@, set_key(p, "allow"@, Json::Array(seq![]))),
    }
}

/// The `permissions.allow` list, when it is an array.
pub open spec fn allow_list(j: Json) -> Option<Seq<Json>> {
    opt_as_array(opt_get(j.member("permissions"@), "allow"@))
}

/// The entry that lets every use of a tool run: `Tool:*`.
pub open spec fn permission_entry(tool: Seq<char>) -> Seq<char> {
    tool + ":*"@
}

/// Adding a tool to the project's allow list: whether it was added (it is
/// not when already there) and the settings to write back; an error when
/// `permissions.allow` is not an array.
pub open spec fn add_permission_model(j: Json, tool: Seq<char>) -> Result<(bool, Json), Seq<char>> {
    let n = normalized_permissions(j);
    match allow_list(n) {
        None => Err("permissions.allow is not an array"@),
        Some(a) => if a.contains(Json::Str(permission_entry(tool))) {
            Ok((false, n))
        } else {
            Ok(
                (
                    true,
                    set_key(
                        n,
                        "permissions"@,
                        set_key(
                            member_or_null(n, "permissions"@),
                            "allow"@,
                            Json::Array(a.push(Json::Str(permission_entry(tool)))),
                        ),
                    ),
                ),
            )
        },
    }
}

/// `{"permissions": {"allow": []}}`, for a project without settings.
pub fn default_permission_settings() -> (r: JsonValue)
    ensures
        r@ == default_permission_settings_model(),
{
    let e: Vec<JsonValue> = Vec::new();
    assert(models(e@) =~= Seq::<Json>::empty());
    let allow = JsonValue::new_object().with("allow", JsonValue::array(e));
    let r = JsonValue::new_object().with("permissions", allow);
    assert(allow@->Object_0 =~= seq![("allow"@, Json::Array(seq![]))]);
    assert(r@->Object_0 =~= default_permission_settings_model()->Object_0);
    r
}

fn normalize_permissions_exec(j: JsonValue) -> (r: JsonValue)
    ensures
        r@ == normalized_permissions(j@),
{
    let j1 = if j.get("permissions").is_none() {
        let e: Vec<JsonValue> = Vec::new();
        assert(models(e@) =~= Seq::<Json>::empty());
        let allow = JsonValue::new_object().with("allow", JsonValue::array(e));
        assert(allow@->Object_0 =~= seq![("allow"@, Json::Array(seq![]))]);
        set_key_exec(j, "permissions", allow)
    } else {
        j
    };
    let p = member_or_null_exec(&j1, "permissions");
    if p.get("allow").is_none() {
        let e: Vec<JsonValue> = Vec::new();
        assert(models(e@) =~= Seq::<Json>::empty());
        let empty = JsonValue::array(e);
        let p2 = set_key_exec(p, "allow", empty);
        set_key_exec(j1, "permissions", p2)
    } else {
        j1
    }
}

fn array_has_str(a: &Vec<JsonValue>, s: &str) -> (r: bool)
    ensures
        r == models(a@).contains(Json::Str(s@)),
{
    let mut i: usize = 0;
    while i < a.len()
        invariant
            0 <= i <= a@.len(),
            forall|k: int| 0 <= k < i ==> (#[trigger] a@[k])@ != Json::Str(s@),
        decreases a.len() - i,
    {
        match a[i].as_str() {
            Some(x) => {
                if str_eq(x, s) {
                    assert(models(a@)[i as int] == Json::Str(s@));
                    return true;
                }
            },
            None => {},
        }
        i = i + 1;
    }
    assert(!models(a@).contains(Json::Str(s@))) by {
        if models(a@).contains(Json::Str(s@)) {
            let k = choose|k: int| 0 <= k < models(a@).len() && models(a@)[k] == Json::Str(s@);
            assert(a@[k]@ == Json::Str(s@));
        }
    }
    false
}

/// Adds `Tool:*` to the project's allow list (see `add_permission_model`).
pub fn add_permission_entry(settings: JsonValue, tool_name: &str) -> (r: Result<(bool, JsonValue), String>)
    requires
        permission_settings_ok(settings@),
    ensures
        match (r, add_permission_model(settings@, tool_name@)) {
            (Ok((added, j)), Ok((added2, j2))) => added == added2 && j@ == j2,
            (Err(e), Err(e2)) => e@ == e2,
            _ => false,
        },
{
    let n = normalize_permissions_exec(settings);
    let entry = concat(tool_name, ":*");
    let perms = member_or_null_exec(&n, "permissions");
    let allow = match perms.get("allow") {
        Some(v) => match v.as_array() {
            Some(a) => clone_all(a),
            None => {
                return Err("permissions.allow is not an array".to_owned());
            },
        },
        None => {
            return Err("permissions.allow is not an array".to_owned());
        },
    };
    assert(allow_list(n@) == Some(models(allow@)));
    if array_has_str(&allow, entry.as_str()) {
        Ok((false, n))
    } else {
        let mut allow = allow;
        let ghost before = models(allow@);
        allow.push(JsonValue::string(entry.as_str()));
        assert(models(allow@) =~= before.push(Json::Str(entry@)));
        let p2 = set_key_exec(perms, "allow", JsonValue::array(allow));
        Ok((true, set_key_exec(n, "permissions", p2)))
    }
}

// ---------------------------------------------------------------------------
// The permission-request hook (the user's settings.json of the CLI)

/// The command of the app's permission hook, whose script lies in
/// `hooks_dir`.
pub open spec fn permission_hook_command_model(hooks_dir: Seq<char>, windows: bool) -> Seq<char> {
    if windows {
        "powershell.exe -ExecutionPolicy Bypass -File \""@ + hooks_dir + "/tsunu-permission.ps1\""@
    } else {
        hooks_dir + "/tsunu-permission.sh"@
    }
}

/// The command of the app's permission hook, for Windows or elsewhere.
pub fn permission_hook_command(hooks_dir: &str, windows: bool) -> (r: String)
    ensures
        r@ == permission_hook_command_model(hooks_dir@, windows),
{
    if windows {
        let a = concat("powershell.exe -ExecutionPolicy Bypass -File \"", hooks_dir);
        concat(a.as_str(), "/tsunu-permission.ps1\"")
    } else {
        concat(hooks_dir, "/tsunu-permission.sh")
    }
}

/// The file name of the hook script, for Windows or elsewhere.
pub fn hook_script_name(windows: bool) -> (r: &'static str)
    ensures
        r@ == (if windows {
            "tsunu-permission.ps1"@
        } else {
            "tsunu-permission.sh"@
        }),
{
    if windows {
        "tsunu-permission.ps1"
    } else {
        "tsunu-permission.sh"
    }
}

/// Whether a hook command runs one of the app's permission scripts.
pub open spec fn command_is_ours(item: Json) -> bool {
    match opt_as_str(item.member("command"@)) {
        Some(c) => has_infix(c, "tsunu-permission"@),
        None => false,
    }
}

/// The commands of a hook entry (its `hooks` array).
pub open spec fn entry_commands(h: Json) -> Seq<Json> {
    match opt_as_array(h.member("hooks"@)) {
        Some(a) => a,
        None => seq![],
    }
}

/// Whether a hook entry has a command that runs one of the app's scripts.
pub open spec fn entry_is_ours(h: Json) -> bool {
    exists|k: int| 0 <= k < entry_commands(h).len() && #[trigger] command_is_ours(entry_commands(h)[k])
}

/// The entries of `hooks.PermissionRequest`.
pub open spec fn permission_entries(j: Json) -> Seq<Json> {
    match j.member("hooks"@) {
        Some(h) => match opt_as_array(h.member("PermissionRequest"@)) {
            Some(arr) => arr,
            None => seq![],
        },
        None => seq![],
    }
}

/// Whether the settings already hold the app's permission hook.
pub open spec fn has_permission_hook(j: Json) -> bool {
    exists|i: int| 0 <= i < permission_entries(j).len() && #[trigger] entry_is_ours(permission_entries(j)[i])
}

/// The hook entry the app installs: every tool, with a 60 s timeout.
pub open spec fn hook_config(command: Seq<char>) -> Json {
    Json::Object(
        seq![
            ("matcher"@, Json::Str("*"@)),
            ("hooks"@, Json::Array(seq![Json::Object(seq![
                ("type"@, Json::Str("command"@)),
                ("command"@, Json::Str(command)),
                ("timeout"@, Json::Num(JsonNumber::PosInt(60000))),
            ])])),
        ],
    )
}

/// The settings with the hook entry appended to `hooks.PermissionRequest`
/// (each created when missing; nothing is appended when that member is not
/// an array).
pub open spec fn with_permission_hook(j: Json, command: Seq<char>) -> Json {
    let j1 = match j.member("hooks"@) {
        Some(_) => j,
        None => set_key(j, "hooks"@, Json::Object(seq![])),
    };
    let h = member_or_null(j1, "hooks"@);
    let j2 = match h.member("PermissionRequest"@) {
        Some(_) => j1,
        None => set_key(j1, "hooks"@, set_key(h, "PermissionRequest"@, Json::Array(seq![]))),
    };
    let h2 = member_or_null(j2, "hooks"@);
    match opt_as_array(h2.member("PermissionRequest"@)) {
        Some(arr) => set_key(j2, "hooks"@, set_key(h2, "PermissionRequest"@, Json::Array(arr.push(hook_config(command))))),
        None => j2,
    }
}

/// A document on which the hook edit is defined (serde_json would panic
/// on the others when the hook has to be added).
pub open spec fn hook_settings_ok(j: Json) -> bool {
    !has_permission_hook(j) ==> {
        &&& (j is Null || j is Object)
        &&& match j.member("hooks"@) {
            Some(h) => h is Object || h is Null,
            None => true,
        }
    }
}

/// Installing the hook: whether it had to be added, and the settings.
pub open spec fn install_hook_model(j: Json, command: Seq<char>) -> (bool, Json) {
    if has_permission_hook(j) {
        (false, j)
    } else {
        (true, with_permission_hook(j, command))
    }
}

fn entry_is_ours_exec(h: &JsonValue) -> (r: bool)
    ensures
        r == entry_is_ours(h@),
{
    match h.get_array("hooks") {
        Some(a) => {
            let ghost ma = models(a@);
            let mut i: usize = 0;
            while i < a.len()
                invariant
                    0 <= i <= a@.len(),
                    ma == models(a@),
                    entry_commands(h@) == ma,
                    forall|k: int| 0 <= k < i ==> !command_is_ours(#[trigger] ma[k]),
                decreases a.len() - i,
            {
                match a[i].get_str("command") {
                    Some(c) => {
                        if contains_str(c, "tsunu-permission") {
                            assert(command_is_ours(entry_commands(h@)[i as int]));
                            return true;
                        }
                    },
                    None => {},
                }
                i = i + 1;
            }
            assert(!entry_is_ours(h@)) by {
                if entry_is_ours(h@) {
                    let k = choose|k: int| 0 <= k < entry_commands(h@).len() && #[trigger] command_is_ours(entry_commands(h@)[k]);
                    assert(!command_is_ours(ma[k]));
                }
            }
            false
        },
        None => false,
    }
}

fn has_permission_hook_exec(j: &JsonValue) -> (r: bool)
    ensures
        r == has_permission_hook(j@),
{
    match j.get("hooks") {
        Some(h) => match h.get_array("PermissionRequest") {
            Some(arr) => {
                let ghost ma = models(arr@);
                let mut i: usize = 0;
                while i < arr.len()
                    invariant
                        0 <= i <= arr@.len(),
                        ma == models(arr@),
                        permission_entries(j@) == ma,
                        forall|k: int| 0 <= k < i ==> !entry_is_ours(#[trigger] ma[k]),
                    decreases arr.len() - i,
                {
                    if entry_is_ours_exec(&arr[i]) {
                        assert(entry_is_ours(permission_entries(j@)[i as int]));
                        return true;
                    }
                    i = i + 1;
                }
                assert(!has_permission_hook(j@)) by {
                    if has_permission_hook(j@) {
                        let k = choose|k: int| 0 <= k < permission_entries(j@).len() && #[trigger] entry_is_ours(permission_entries(j@)[k]);
                        assert(!entry_is_ours(ma[k]));
                    }
                }
                false
            },
            None => false,
        },
        None => false,
    }
}

fn hook_config_exec(command: &str) -> (r: JsonValue)
    ensures
        r@ == hook_config(command@),
{
    let inner = JsonValue::new_object().with("type", JsonValue::string("command")).with(
        "command",
        JsonValue::string(command),
    ).with("timeout", JsonValue::Number(JsonNumber::PosInt(60000)));
    let ghost im = inner@;
    let hooks = JsonValue::array(vec![inner]);
    let r = JsonValue::new_object().with("matcher", JsonValue::string("*")).with("hooks", hooks);
    let ghost expected_inner = Json::Object(seq![
        ("type"@, Json::Str("command"@)),
        ("command"@, Json::Str(command@)),
        ("timeout"@, Json::Num(JsonNumber::PosInt(60000))),
    ]);
    assert(im->Object_0 =~= expected_inner->Object_0);
    assert(hooks@->Array_0 =~= seq![expected_inner]);
    assert(r@->Object_0 =~= hook_config(command@)->Object_0);
    r
}

/// Adds the app's permission hook to the user's settings unless it is
/// there; returns whether it was added, and the settings.
pub fn install_permission_hook(settings: JsonValue, command: &str) -> (r: (bool, JsonValue))
    requires
        hook_settings_ok(settings@),
    ensures
        (r.0, r.1@) == install_hook_model(settings@, command@),
{
    if has_permission_hook_exec(&settings) {
        return (false, settings);
    }
    let j1 = if settings.get("hooks").is_none() {
        set_key_exec(settings, "hooks", JsonValue::new_object())
    } else {
        settings
    };
    let h = member_or_null_exec(&j1, "hooks");
    let j2 = if h.get("PermissionRequest").is_none() {
        let e: Vec<JsonValue> = Vec::new();
        assert(models(e@) =~= Seq::<Json>::empty());
        let empty = JsonValue::array(e);
        let h1 = set_key_exec(h, "PermissionRequest", empty);
        set_key_exec(j1, "hooks", h1)
    } else {
        j1
    };
    let h2 = member_or_null_exec(&j2, "hooks");
    let result = match h2.get_array("PermissionRequest") {
        Some(arr) => {
            let mut out = clone_all(arr);
            let ghost before = models(out@);
            let cfg = hook_config_exec(command);
            out.push(cfg);
            assert(models(out@) =~= before.push(hook_config(command@)));
            let h3 = set_key_exec(h2, "PermissionRequest", JsonValue::array(out));
            set_key_exec(j2, "hooks", h3)
        },
        None => j2,
    };
    (true, result)
}


// ---------------------------------------------------------------------------
// The compaction hook in the global settings, and VS Code's settings

/// The command that runs the compaction check script at `script_path`.
pub open spec fn compact_hook_command_model(script_path: Seq<char>, windows: bool) -> Seq<char> {
    if windows {
        "powershell.exe -ExecutionPolicy Bypass -File \""@ + script_path + "\""@
    } else {
        "bash \""@ + script_path + "\""@
    }
}

/// Builds `compact_hook_command_model(script_path, windows)`.
pub fn compact_hook_command(script_path: &str, windows: bool) -> (r: String)
    ensures
        r@ == compact_hook_command_model(script_path@, windows),
{
    let head = if windows {
        concat("powershell.exe -ExecutionPolicy Bypass -File \"", script_path)
    } else {
        concat("bash \"", script_path)
    };
    concat(head.as_str(), "\"")
}

/// The `UserPromptSubmit` hooks: the compaction check on every prompt.
pub open spec fn compact_hook_entry(command: Seq<char>) -> Json {
    Json::Array(
        seq![Json::Object(seq![
            ("matcher"@, Json::Str(seq![])),
            ("hooks"@, Json::Array(seq![Json::Object(seq![
                ("type"@, Json::Str("command"@)),
                ("command"@, Json::Str(command)),
            ])])),
        ])],
    )
}

/// The global settings with the compaction hook as `hooks.UserPromptSubmit`
/// (other hooks are kept; `hooks` is created when missing and left alone
/// when it is not an object); an error when the settings are not an object.
pub open spec fn merge_compact_hook_model(j: Json, command: Seq<char>) -> Result<Json, Seq<char>> {
    match j {
        Json::Object(m) => {
            let m1 = match lookup(m, "hooks"@) {
                Some(_) => m,
                None => obj_insert(m, "hooks"@, Json::Object(seq![])),
            };
            Ok(
                Json::Object(
                    match lookup(m1, "hooks"@) {
                        Some(Json::Object(hm)) => obj_insert(
                            m1,
                            "hooks"@,
                            Json::Object(obj_insert(hm, "UserPromptSubmit"@, compact_hook_entry(command))),
                        ),
                        _ => m1,
                    },
                ),
            )
        },
        _ => Err("Global settings.json is not an object"@),
    }
}

fn compact_hook_entry_exec(command: &str) -> (r: JsonValue)
    ensures
        r@ == compact_hook_entry(command@),
{
    proof {
        reveal_strlit("");
    }
    let inner = JsonValue::new_object().with("type", JsonValue::string("command")).with(
        "command",
        JsonValue::string(command),
    );
    let ghost im = inner@;
    let hv = vec![inner];
    assert(models(hv@) =~= seq![im]);
    let entry = JsonValue::new_object().with("matcher", JsonValue::string("")).with(
        "hooks",
        JsonValue::array(hv),
    );
    let ghost em = entry@;
    let ev = vec![entry];
    assert(models(ev@) =~= seq![em]);
    let r = JsonValue::array(ev);
    let ghost expected = compact_hook_entry(command@);
    let ghost e0 = expected->Array_0[0];
    let ghost i0 = e0->Object_0[1].1->Array_0[0];
    assert(im->Object_0 =~= i0->Object_0);
    assert(im == i0);
    assert(""@ =~= Seq::<char>::empty());
    assert(em->Object_0[1].1->Array_0 =~= seq![i0]);
    assert(em->Object_0 =~= e0->Object_0);
    assert(r@->Array_0 =~= expected->Array_0);
    r
}

/// Installs the compaction hook in the global settings (see `merge_compact_hook_model`).
pub fn merge_compact_hook(settings: JsonValue, command: &str) -> (r: Result<JsonValue, String>)
    ensures
        match (r, merge_compact_hook_model(settings@, command@)) {
            (Ok(j), Ok(j2)) => j@ == j2,
            (Err(e), Err(e2)) => e@ == e2,
            _ => false,
        },
{
    match settings {
        JsonValue::Object(m) => {
            proof {
                crate::json::lemma_object_model(m);
            }
            let mut j = JsonValue::Object(m);
            if j.get("hooks").is_none() {
                j.set_member("hooks", JsonValue::new_object());
            }
            let hooks = member_or_null_exec(&j, "hooks");
            match hooks {
                JsonValue::Object(hm) => {
                    let mut h = JsonValue::Object(hm);
                    h.set_member("UserPromptSubmit", compact_hook_entry_exec(command));
                    j.set_member("hooks", h);
                    Ok(j)
                },
                _ => Ok(j),
            }
        },
        _ => Err("Global settings.json is not an object".to_owned()),
    }
}

/// VS Code's settings with `tsunuAlive.executablePath` set to `exe`, when
/// they are an object.
pub open spec fn set_executable_path_model(j: Json, exe: Seq<char>) -> Json {
    match j {
        Json::Object(m) => Json::Object(obj_insert(m, "tsunuAlive.executablePath"@, Json::Str(exe))),
        _ => j,
    }
}

/// Points the editor extension at this executable.
pub fn set_executable_path(settings: JsonValue, exe: &str) -> (r: JsonValue)
    ensures
        r@ == set_executable_path_model(settings@, exe@),
{
    let mut j = settings;
    j.set_member("tsunuAlive.executablePath", JsonValue::string(exe));
    j
}

/// The marker written once the setup wizard is done.
pub fn setup_done_json(completed_at: &str) -> (r: JsonValue)
    ensures
        r@ == Json::Object(
            seq![("version"@, Json::Num(JsonNumber::PosInt(1))), ("completedAt"@, Json::Str(completed_at@))],
        ),
{
    let r = JsonValue::new_object().with("version", JsonValue::Number(JsonNumber::PosInt(1))).with(
        "completedAt",
        JsonValue::string(completed_at),
    );
    assert(r@->Object_0 =~= seq![
        ("version"@, Json::Num(JsonNumber::PosInt(1))),
        ("completedAt"@, Json::Str(completed_at@)),
    ]);
    r
}


/// Decides `permission_settings_ok`.
pub fn permission_settings_valid(settings: &JsonValue) -> (r: bool)
    ensures
        r == permission_settings_ok(settings@),
{
    match settings {
        JsonValue::Null => true,
        JsonValue::Object(_) => match settings.get("permissions") {
            Some(p) => match p {
                JsonValue::Object(_) => true,
                JsonValue::Null => true,
                _ => false,
            },
            None => true,
        },
        _ => false,
    }
}

/// Decides `hook_settings_ok`.
pub fn hook_settings_valid(settings: &JsonValue) -> (r: bool)
    ensures
        r == hook_settings_ok(settings@),
{
    if has_permission_hook_exec(settings) {
        return true;
    }
    match settings {
        JsonValue::Null => true,
        JsonValue::Object(_) => match settings.get("hooks") {
            Some(h) => match h {
                JsonValue::Object(_) => true,
                JsonValue::Null => true,
                _ => false,
            },
            None => true,
        },
        _ => false,
    }
}

// ---------------------------------------------------------------------------
// Laws

/// `set_key` on an object or null: the key reads back the new value, the
/// other keys read as before.
pub proof fn lemma_set_key(j: Json, k: Seq<char>, v: Json)
    requires
        j is Null || j is Object,
    ensures
        set_key(j, k, v) is Object,
        set_key(j, k, v).member(k) == Some(v),
        forall|other: Seq<char>| other != k ==> #[trigger] set_key(j, k, v).member(other) == j.member(other),
{
    match j {
        Json::Null => {
            let m = seq![(k, v)];
            assert(m.drop_first() =~= Seq::<(Seq<char>, Json)>::empty());
            assert forall|other: Seq<char>| other != k implies #[trigger] set_key(j, k, v).member(other) == j.member(
                other,
            ) by {
                assert(lookup(m.drop_first(), other) is None);
            }
        },
        Json::Object(m) => {
            crate::json::lemma_lookup_insert_same(m, k, v);
            assert forall|other: Seq<char>| other != k implies #[trigger] set_key(j, k, v).member(other) == j.member(
                other,
            ) by {
                crate::json::lemma_lookup_insert_other(m, k, v, other);
            }
        },
        _ => {},
    }
}

proof fn lemma_normalized_shape(j: Json)
    requires
        permission_settings_ok(j),
    ensures
        ({
            let n = normalized_permissions(j);
            &&& n is Object
            &&& n.member("permissions"@) == Some(member_or_null(n, "permissions"@))
            &&& member_or_null(n, "permissions"@) is Object
            &&& member_or_null(n, "permissions"@).member("allow"@) is Some
            &&& forall|k: Seq<char>| k != "permissions"@ ==> #[trigger] n.member(k) == j.member(k)
        }),
{
    let fresh = Json::Object(seq![("allow"@, Json::Array(seq![]))]);
    assert(fresh.member("allow"@) == Some(Json::Array(seq![])));
    let j1 = match j.member("permissions"@) {
        Some(_) => j,
        None => set_key(j, "permissions"@, fresh),
    };
    lemma_set_key(j, "permissions"@, fresh);
    let p = member_or_null(j1, "permissions"@);
    lemma_set_key(p, "allow"@, Json::Array(seq![]));
    lemma_set_key(j1, "permissions"@, set_key(p, "allow"@, Json::Array(seq![])));
}

/// Adding a tool twice adds it once: on the settings the first call
/// returns, the second finds the entry and changes nothing.
pub proof fn law_add_permission_idempotent(j: Json, tool: Seq<char>)
    requires
        permission_settings_ok(j),
        add_permission_model(j, tool) is Ok,
    ensures
        ({
            let j2 = add_permission_model(j, tool)->Ok_0.1;
            add_permission_model(j2, tool) == Ok::<(bool, Json), Seq<char>>((false, j2))
        }),
{
    lemma_normalized_shape(j);
    let n = normalized_permissions(j);
    let p = member_or_null(n, "permissions"@);
    let e = Json::Str(permission_entry(tool));
    match allow_list(n) {
        Some(a) => {
            if !a.contains(e) {
                let arr = Json::Array(a.push(e));
                let p2 = set_key(p, "allow"@, arr);
                lemma_set_key(p, "allow"@, arr);
                lemma_set_key(n, "permissions"@, p2);
                let j2 = set_key(n, "permissions"@, p2);
                assert(normalized_permissions(j2) == j2);
                assert(allow_list(j2) == Some(a.push(e)));
                assert(a.push(e)[a.len() as int] == e);
            } else {
                assert(normalized_permissions(n) == n);
            }
        },
        None => {},
    }
}

/// Adding a permission keeps every other top-level setting.
pub proof fn law_add_permission_keeps_settings(j: Json, tool: Seq<char>, key: Seq<char>)
    requires
        permission_settings_ok(j),
        add_permission_model(j, tool) is Ok,
        key != "permissions"@,
    ensures
        add_permission_model(j, tool)->Ok_0.1.member(key) == j.member(key),
{
    lemma_normalized_shape(j);
    let n = normalized_permissions(j);
    let p = member_or_null(n, "permissions"@);
    match allow_list(n) {
        Some(a) => {
            if !a.contains(Json::Str(permission_entry(tool))) {
                let arr = Json::Array(a.push(Json::Str(permission_entry(tool))));
                lemma_set_key(n, "permissions"@, set_key(p, "allow"@, arr));
            }
        },
        None => {},
    }
}

/// A tool that is added joins the end of the allow list, after the entries
/// that were there.
pub proof fn law_add_permission_appends(j: Json, tool: Seq<char>)
    requires
        permission_settings_ok(j),
        add_permission_model(j, tool) matches Ok((added, _)) && added,
    ensures
        allow_list(normalized_permissions(j)) matches Some(a) && allow_list(add_permission_model(j, tool)->Ok_0.1)
            == Some(a.push(Json::Str(permission_entry(tool)))),
{
    lemma_normalized_shape(j);
    let n = normalized_permissions(j);
    let p = member_or_null(n, "permissions"@);
    let a = allow_list(n)->Some_0;
    let arr = Json::Array(a.push(Json::Str(permission_entry(tool))));
    lemma_set_key(p, "allow"@, arr);
    lemma_set_key(n, "permissions"@, set_key(p, "allow"@, arr));
}

/// The app's hook commands are recognized as its own, wherever the hooks
/// folder is.
pub proof fn lemma_hook_commands_are_ours(hooks_dir: Seq<char>, windows: bool)
    ensures
        has_infix(permission_hook_command_model(hooks_dir, windows), "tsunu-permission"@),
{
    reveal_strlit("tsunu-permission");
    reveal_strlit("powershell.exe -ExecutionPolicy Bypass -File \"");
    reveal_strlit("/tsunu-permission.ps1\"");
    reveal_strlit("/tsunu-permission.sh");
    let c = permission_hook_command_model(hooks_dir, windows);
    if windows {
        let k = ("powershell.exe -ExecutionPolicy Bypass -File \""@.len() + hooks_dir.len() + 1) as int;
        assert(c.subrange(k, k + 16) =~= "tsunu-permission"@);
        assert(crate::text::occurs_at(c, "tsunu-permission"@, k));
    } else {
        let k = (hooks_dir.len() + 1) as int;
        assert(c.subrange(k, k + 16) =~= "tsunu-permission"@);
        assert(crate::text::occurs_at(c, "tsunu-permission"@, k));
    }
}

/// Settings whose `hooks.PermissionRequest`, when present, is an array.
pub open spec fn permission_entries_ok(j: Json) -> bool {
    match j.member("hooks"@) {
        Some(h) => match h.member("PermissionRequest"@) {
            Some(pr) => pr is Array,
            None => true,
        },
        None => true,
    }
}

proof fn lemma_hook_config_is_ours(command: Seq<char>)
    requires
        has_infix(command, "tsunu-permission"@),
    ensures
        entry_is_ours(hook_config(command)),
{
    reveal_strlit("type");
    reveal_strlit("command");
    reveal_strlit("matcher");
    reveal_strlit("hooks");
    assert("type"@.len() == 4);
    assert("command"@.len() == 7);
    assert("matcher"@.len() == 7);
    assert("matcher"@[0] != "hooks"@[0]);
    let inner = Json::Object(seq![
        ("type"@, Json::Str("command"@)),
        ("command"@, Json::Str(command)),
        ("timeout"@, Json::Num(JsonNumber::PosInt(60000))),
    ]);
    let im = inner->Object_0;
    assert(im.drop_first()[0].0 == "command"@);
    assert(im[0].0 != "command"@);
    assert(lookup(im.drop_first(), "command"@) == Some(Json::Str(command)));
    assert(inner.member("command"@) == Some(Json::Str(command)));
    let hm = hook_config(command)->Object_0;
    assert(hm[0].0 != "hooks"@);
    assert(hm.drop_first()[0].0 == "hooks"@);
    assert(lookup(hm.drop_first(), "hooks"@) == Some(Json::Array(seq![inner])));
    assert(hook_config(command).member("hooks"@) == Some(Json::Array(seq![inner])));
    assert(entry_commands(hook_config(command)) == seq![inner]);
    assert(command_is_ours(entry_commands(hook_config(command))[0]));
}

/// Installing the permission hook twice installs it once: after the first
/// install, the settings hold the hook. (Settings whose
/// `hooks.PermissionRequest` is there but not an array never get the hook;
/// they are left out.) The commands `permission_hook_command` builds
/// qualify, by `lemma_hook_commands_are_ours`.
pub proof fn law_install_hook_idempotent(j: Json, command: Seq<char>)
    requires
        hook_settings_ok(j),
        permission_entries_ok(j),
        has_infix(command, "tsunu-permission"@),
    ensures
        has_permission_hook(install_hook_model(j, command).1),
        install_hook_model(install_hook_model(j, command).1, command) == (false, install_hook_model(j, command).1),
{
    if !has_permission_hook(j) {
        let j1 = match j.member("hooks"@) {
            Some(_) => j,
            None => set_key(j, "hooks"@, Json::Object(seq![])),
        };
        lemma_set_key(j, "hooks"@, Json::Object(seq![]));
        let h = member_or_null(j1, "hooks"@);
        assert(h is Object || h is Null);
        let j2 = match h.member("PermissionRequest"@) {
            Some(_) => j1,
            None => set_key(j1, "hooks"@, set_key(h, "PermissionRequest"@, Json::Array(seq![]))),
        };
        lemma_set_key(h, "PermissionRequest"@, Json::Array(seq![]));
        lemma_set_key(j1, "hooks"@, set_key(h, "PermissionRequest"@, Json::Array(seq![])));
        let h2 = member_or_null(j2, "hooks"@);
        assert(h2 is Object);
        let arr = opt_as_array(h2.member("PermissionRequest"@))->Some_0;
        let cfg = hook_config(command);
        let h3 = set_key(h2, "PermissionRequest"@, Json::Array(arr.push(cfg)));
        lemma_set_key(h2, "PermissionRequest"@, Json::Array(arr.push(cfg)));
        lemma_set_key(j2, "hooks"@, h3);
        let j3 = set_key(j2, "hooks"@, h3);
        assert(j3 == with_permission_hook(j, command));
        assert(permission_entries(j3) == arr.push(cfg));
        lemma_hook_config_is_ours(command);
        assert(permission_entries(j3)[arr.len() as int] == cfg);
        assert(entry_is_ours(permission_entries(j3)[arr.len() as int]));
    }
}

/// Installing the permission hook keeps every other top-level setting.
pub proof fn law_install_hook_keeps_settings(j: Json, command: Seq<char>, key: Seq<char>)
    requires
        hook_settings_ok(j),
        key != "hooks"@,
    ensures
        install_hook_model(j, command).1.member(key) == j.member(key),
{
    if !has_permission_hook(j) {
        let j1 = match j.member("hooks"@) {
            Some(_) => j,
            None => set_key(j, "hooks"@, Json::Object(seq![])),
        };
        lemma_set_key(j, "hooks"@, Json::Object(seq![]));
        let h = member_or_null(j1, "hooks"@);
        let j2 = match h.member("PermissionRequest"@) {
            Some(_) => j1,
            None => set_key(j1, "hooks"@, set_key(h, "PermissionRequest"@, Json::Array(seq![]))),
        };
        lemma_set_key(j1, "hooks"@, set_key(h, "PermissionRequest"@, Json::Array(seq![])));
        let h2 = member_or_null(j2, "hooks"@);
        match opt_as_array(h2.member("PermissionRequest"@)) {
            Some(arr) => {
                lemma_set_key(
                    j2,
                    "hooks"@,
                    set_key(h2, "PermissionRequest"@, Json::Array(arr.push(hook_config(command)))),
                );
            },
            None => {},
        }
    }
}

/// The compaction hook lands in `hooks.UserPromptSubmit` and every other
/// hook kind is kept.
pub proof fn law_compact_hook_merge(m: Seq<(Seq<char>, Json)>, command: Seq<char>, kind: Seq<char>)
    requires
        lookup(m, "hooks"@) matches Some(h) ==> h is Object,
        kind != "UserPromptSubmit"@,
    ensures
        merge_compact_hook_model(Json::Object(m), command) matches Ok(j2) && opt_get(j2.member("hooks"@), "UserPromptSubmit"@)
            == Some(compact_hook_entry(command)) && opt_get(j2.member("hooks"@), kind) == opt_get(
            Json::Object(m).member("hooks"@),
            kind,
        ),
{
    let m1 = match lookup(m, "hooks"@) {
        Some(_) => m,
        None => obj_insert(m, "hooks"@, Json::Object(seq![])),
    };
    crate::json::lemma_lookup_insert_same(m, "hooks"@, Json::Object(seq![]));
    let h = lookup(m1, "hooks"@)->Some_0;
    let hm = h->Object_0;
    crate::json::lemma_lookup_insert_same(hm, "UserPromptSubmit"@, compact_hook_entry(command));
    crate::json::lemma_lookup_insert_other(hm, "UserPromptSubmit"@, compact_hook_entry(command), kind);
    let h2 = Json::Object(obj_insert(hm, "UserPromptSubmit"@, compact_hook_entry(command)));
    crate::json::lemma_lookup_insert_same(m1, "hooks"@, h2);
    if lookup(m, "hooks"@) is None {
        assert(hm == Seq::<(Seq<char>, Json)>::empty());
        assert(lookup(hm, kind) is None);
    }
}

} // verus!
