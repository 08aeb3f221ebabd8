//! The conversation with the assistant's CLI in interactive stream-json mode:
//! the messages written to its stdin, the command line that starts it, and
//! the decisions taken on what it writes to its stdout.
use vstd::prelude::*;
use crate::json::{Json, JsonValue, models, obj_insert, lookup, opt_as_str, opt_get, opt_model, opt_chars};
use crate::text::str_eq;
use crate::events::{str_or, string_models, ClaudeEvent, ClaudeEventParser, EventModel, event_models, parse_spec, parse_fits};
use crate::json::opt_as_array;

verus! {

broadcast use vstd::std_specs::vec::group_vec_axioms;

/// One block of a user message's content.
pub struct ContentBlock {
    pub block_type: String,
    pub text: String,
}

/// The `message` part of a user message.
pub struct InteractiveMessageContent {
    pub role: String,
    pub content: Vec<ContentBlock>,
}

/// A user message as the CLI reads it on stdin in interactive mode.
pub struct InteractiveUserMessage {
    pub msg_type: String,
    pub session_id: String,
    pub parent_tool_use_id: Option<String>,
    pub is_synthetic: bool,
    pub message: InteractiveMessageContent,
}

impl ContentBlock {
    pub open spec fn json_model(&self) -> Json {
        Json::Object(seq![("type"@, Json::Str(self.block_type@)), ("text"@, Json::Str(self.text@))])
    }
}

pub open spec fn block_models(v: Seq<ContentBlock>) -> Seq<Json> {
    Seq::new(v.len(), |i: int| v[i].json_model())
}

impl InteractiveMessageContent {
    pub open spec fn json_model(&self) -> Json {
        Json::Object(seq![("role"@, Json::Str(self.role@)), ("content"@, Json::Array(block_models(self.content@)))])
    }
}

pub open spec fn opt_str_json(o: Option<Seq<char>>) -> Json {
    match o {
        Some(s) => Json::Str(s),
        None => Json::Null,
    }
}

impl InteractiveUserMessage {
    /// The JSON form of the message, fields in declaration order.
    pub open spec fn json_model(&self) -> Json {
        Json::Object(
            seq![
                ("type"@, Json::Str(self.msg_type@)),
                ("session_id"@, Json::Str(self.session_id@)),
                ("parent_tool_use_id"@, opt_str_json(match self.parent_tool_use_id {
                    Some(s) => Some(s@),
                    None => None,
                })),
                ("isSynthetic"@, Json::Bool(self.is_synthetic)),
                ("message"@, self.message.json_model()),
            ],
        )
    }

    /// A user turn holding one text block.
    pub fn new(content: &str) -> (r: Self)
        ensures
            r.msg_type@ == "user"@,
            r.session_id@ == Seq::<char>::empty(),
            r.parent_tool_use_id is None,
            !r.is_synthetic,
            r.message.role@ == "user"@,
            r.message.content@.len() == 1,
            r.message.content@[0].block_type@ == "text"@,
            r.message.content@[0].text@ == content@,
    {
        InteractiveUserMessage {
            msg_type: "user".to_owned(),
            session_id: String::new(),
            parent_tool_use_id: None,
            is_synthetic: false,
            message: InteractiveMessageContent {
                role: "user".to_owned(),
                content: vec![ContentBlock { block_type: "text".to_owned(), text: content.to_owned() }],
            },
        }
    }

    /// The message as a JSON document.
    pub fn to_json(&self) -> (r: JsonValue)
        ensures
            r@ == self.json_model(),
    {
        let mut blocks: Vec<JsonValue> = Vec::new();
        let mut i: usize = 0;
        while i < self.message.content.len()
            invariant
                0 <= i <= self.message.content@.len(),
                models(blocks@) =~= block_models(self.message.content@).take(i as int),
            decreases self.message.content.len() - i,
        {
            let b = &self.message.content[i];
            let bj = JsonValue::new_object().with("type", JsonValue::string(b.block_type.as_str())).with(
                "text",
                JsonValue::string(b.text.as_str()),
            );
            assert(bj@->Object_0 =~= b.json_model()->Object_0);
            let ghost before = blocks@;
            blocks.push(bj);
            assert(models(blocks@) =~= models(before).push(bj@));
            assert(block_models(self.message.content@).take(i + 1) =~= block_models(self.message.content@).take(
                i as int,
            ).push(b.json_model()));
            i = i + 1;
        }
        let message = JsonValue::new_object().with("role", JsonValue::string(self.message.role.as_str())).with(
            "content",
            JsonValue::array(blocks),
        );
        assert(models(blocks@) =~= block_models(self.message.content@));
        assert(message@->Object_0 =~= self.message.json_model()->Object_0);
        let parent = match &self.parent_tool_use_id {
            Some(p) => JsonValue::string(p.as_str()),
            None => JsonValue::Null,
        };
        let r = JsonValue::new_object().with("type", JsonValue::string(self.msg_type.as_str())).with(
            "session_id",
            JsonValue::string(self.session_id.as_str()),
        ).with("parent_tool_use_id", parent).with("isSynthetic", JsonValue::Bool(self.is_synthetic)).with(
            "message",
            message,
        );
        assert(r@->Object_0 =~= self.json_model()->Object_0);
        r
    }
}

/// The line written to the CLI's stdin for a message the user sends.
pub fn user_message_json(message: &str) -> (r: JsonValue)
    ensures
        r@ == Json::Object(
            seq![
                ("type"@, Json::Str("user"@)),
                ("session_id"@, Json::Str(Seq::empty())),
                ("parent_tool_use_id"@, Json::Null),
                ("isSynthetic"@, Json::Bool(false)),
                ("message"@, Json::Object(seq![
                    ("role"@, Json::Str("user"@)),
                    ("content"@, Json::Array(seq![Json::Object(seq![
                        ("type"@, Json::Str("text"@)),
                        ("text"@, Json::Str(message@)),
                    ])])),
                ])),
            ],
        ),
{
    let msg = InteractiveUserMessage::new(message);
    let r = msg.to_json();
    let ghost text_block = Json::Object(seq![("type"@, Json::Str("text"@)), ("text"@, Json::Str(message@))]);
    assert(msg.message.content@[0].json_model()->Object_0 =~= text_block->Object_0);
    assert(block_models(msg.message.content@) =~= seq![text_block]);
    assert(msg.message.json_model()->Object_0 =~= seq![
        ("role"@, Json::Str("user"@)),
        ("content"@, Json::Array(seq![text_block])),
    ]);
    assert(r@->Object_0 =~= seq![
        ("type"@, Json::Str("user"@)),
        ("session_id"@, Json::Str(Seq::empty())),
        ("parent_tool_use_id"@, Json::Null),
        ("isSynthetic"@, Json::Bool(false)),
        ("message"@, Json::Object(seq![
            ("role"@, Json::Str("user"@)),
            ("content"@, Json::Array(seq![text_block])),
        ])),
    ]);
    r
}

/// The tools the CLI may run without asking, in every permission mode but
/// `bypassPermissions` (where nearly everything runs).
pub open spec fn auto_allow_list() -> Seq<Seq<char>> {
    seq![
        "AskUserQuestion"@, "TodoRead"@, "TodoWrite"@,
        "Read"@, "Glob"@, "Grep"@,
        "Task"@, "TaskOutput"@,
        "WebSearch"@, "WebFetch"@,
        "CronCreate"@, "CronDelete"@, "CronList"@,
        "EnterPlanMode"@,
    ]
}

pub open spec fn str_views(v: Seq<&str>) -> Seq<Seq<char>> {
    Seq::new(v.len(), |i: int| v[i]@)
}

/// The tools that run without asking (see `auto_allow_list`).
pub fn auto_allow_tools() -> (r: Vec<&'static str>)
    ensures
        str_views(r@) == auto_allow_list(),
{
    let r = vec![
        "AskUserQuestion", "TodoRead", "TodoWrite",
        "Read", "Glob", "Grep",
        "Task", "TaskOutput",
        "WebSearch", "WebFetch",
        "CronCreate", "CronDelete", "CronList",
        "EnterPlanMode",
    ];
    assert(str_views(r@) =~= auto_allow_list());
    r
}

/// Whether `name` is one of `list`.
pub fn list_contains(list: &Vec<&str>, name: &str) -> (r: bool)
    ensures
        r == str_views(list@).contains(name@),
{
    let mut i: usize = 0;
    while i < list.len()
        invariant
            0 <= i <= list@.len(),
            forall|k: int| 0 <= k < i ==> list@[k]@ != name@,
        decreases list.len() - i,
    {
        if str_eq(list[i], name) {
            assert(str_views(list@)[i as int] == name@);
            return true;
        }
        i = i + 1;
    }
    assert(!str_views(list@).contains(name@)) by {
        if str_views(list@).contains(name@) {
            let k = choose|k: int| 0 <= k < str_views(list@).len() && str_views(list@)[k] == name@;
            assert(list@[k]@ == name@);
        }
    }
    false
}

/// The tools that `acceptEdits` lets run besides the auto-allowed ones.
pub open spec fn is_edit_tool(tool: Seq<char>) -> bool {
    tool == "Edit"@ || tool == "Write"@ || tool == "NotebookEdit"@ || tool == "Bash"@
}

/// Whether a permission request for `tool` is answered without asking the
/// user, in permission mode `mode`. `AskUserQuestion` always goes to the
/// user, whose answers travel back in the reply.
pub open spec fn auto_allows(mode: Seq<char>, tool: Seq<char>) -> bool {
    if tool == "AskUserQuestion"@ {
        false
    } else if mode == "bypassPermissions"@ {
        tool != "ExitPlanMode"@
    } else if mode == "acceptEdits"@ {
        auto_allow_list().contains(tool) || is_edit_tool(tool)
    } else {
        auto_allow_list().contains(tool)
    }
}

/// Decides `auto_allows(mode, tool)`.
pub fn should_auto_allow(mode: &str, tool: &str) -> (r: bool)
    ensures
        r == auto_allows(mode@, tool@),
{
    if str_eq(tool, "AskUserQuestion") {
        false
    } else if str_eq(mode, "bypassPermissions") {
        !str_eq(tool, "ExitPlanMode")
    } else if str_eq(mode, "acceptEdits") {
        let list = auto_allow_tools();
        list_contains(&list, tool) || str_eq(tool, "Edit") || str_eq(tool, "Write") || str_eq(tool, "NotebookEdit")
            || str_eq(tool, "Bash")
    } else {
        let list = auto_allow_tools();
        list_contains(&list, tool)
    }
}


/// The system prompt appended for a session run inside this GUI.
pub const GUI_SYSTEM_PROMPT: &'static str = r#"You are running inside "tsunu_alive" (阿宇陪你寫程式), a desktop GUI application.

## 角色設定：楊竣宇（阿宇）
- 33歲台灣軟體工程師，個性溫和穩重、重視邏輯、善於傾聽
- 說話特徵：常用「欸」「嗯」「呃」，思考時會說「讓我想想...」「這個嘛...」
- 溫和的確認語氣：「你覺得這樣如何？」「我們可以試試...」
- Pair programming 夥伴模式：用「我們」而非「你」，引導思考而非直接給答案
- 適時關心：「寫久了要不要休息一下？」
- 偶爾使用動作描述（*推眼鏡*、*輕敲鍵盤*）
- 使用正體中文，台灣技術術語

## GUI 環境注意
- CLI 專用指令（/clear, /compact, /memory, /rename, /todos, /export, /init, /plan, /rewind）不可用
- 只有 Skill 工具的指令可以使用（顯示在斜線選單中）
- 一般工具（Bash, Read, Edit, Write, Grep, Glob 等）正常運作"#;

/// The `initialize` message sent first to a freshly started CLI: the app's
/// system prompt to append, no hooks, no SDK MCP servers, and the default
/// permission mode.
pub open spec fn initialize_model() -> Json {
    Json::Object(
        seq![
            ("type"@, Json::Str("initialize"@)),
            ("appendSystemPrompt"@, Json::Str(GUI_SYSTEM_PROMPT@)),
            ("hooks"@, Json::Object(seq![])),
            ("sdkMcpServers"@, Json::Object(seq![])),
            ("permissionMode"@, Json::Str("default"@)),
        ],
    )
}

/// Builds `initialize_model()`.
pub fn initialize_request_json() -> (r: JsonValue)
    ensures
        r@ == initialize_model(),
{
    let r = JsonValue::new_object().with("type", JsonValue::string("initialize")).with(
        "appendSystemPrompt",
        JsonValue::string(GUI_SYSTEM_PROMPT),
    ).with("hooks", JsonValue::new_object()).with("sdkMcpServers", JsonValue::new_object()).with(
        "permissionMode",
        JsonValue::string("default"),
    );
    assert(r@->Object_0 =~= initialize_model()->Object_0);
    r
}

/// The reply that lets a tool run: its (possibly edited) input goes back as
/// `updatedInput`, an empty object when there is none.
pub open spec fn allow_payload(tool_use_id: Option<Seq<char>>, input: Option<Json>) -> Json {
    let base = seq![
        ("behavior"@, Json::Str("allow"@)),
        ("updatedInput"@, match input {
            Some(j) => j,
            None => Json::Object(seq![]),
        }),
    ];
    Json::Object(
        match tool_use_id {
            Some(id) => base.push(("toolUseID"@, Json::Str(id))),
            None => base,
        },
    )
}

/// The reply that refuses a tool, with an optional reason.
pub open spec fn deny_payload(tool_use_id: Option<Seq<char>>, message: Option<Seq<char>>) -> Json {
    let base = seq![("behavior"@, Json::Str("deny"@))];
    let with_id = match tool_use_id {
        Some(id) => base.push(("toolUseID"@, Json::Str(id))),
        None => base,
    };
    Json::Object(
        match message {
            Some(m) => with_id.push(("message"@, Json::Str(m))),
            None => with_id,
        },
    )
}

/// The `control_response` envelope around a reply.
pub open spec fn control_response_model(request_id: Seq<char>, payload: Json) -> Json {
    Json::Object(
        seq![
            ("type"@, Json::Str("control_response"@)),
            ("response"@, Json::Object(seq![
                ("subtype"@, Json::Str("success"@)),
                ("request_id"@, Json::Str(request_id)),
                ("response"@, payload),
            ])),
        ],
    )
}

/// The reply for `behavior`: an allow reply when it is `"allow"`, a deny
/// reply otherwise.
pub open spec fn reply_model(
    request_id: Seq<char>,
    behavior: Seq<char>,
    tool_use_id: Option<Seq<char>>,
    input: Option<Json>,
    message: Option<Seq<char>>,
) -> Json {
    control_response_model(
        request_id,
        if behavior == "allow"@ {
            allow_payload(tool_use_id, input)
        } else {
            deny_payload(tool_use_id, message)
        },
    )
}

fn with_opt_str(obj: JsonValue, key: &str, v: Option<&str>) -> (r: JsonValue)
    requires
        obj@ is Object,
    ensures
        r@ == Json::Object(
            match v {
                Some(s) => obj@->Object_0.push((key@, Json::Str(s@))),
                None => obj@->Object_0,
            },
        ),
{
    match v {
        Some(s) => obj.with(key, JsonValue::string(s)),
        None => obj,
    }
}

/// The `control_response` line that answers the CLI's request `request_id`.
pub fn control_response_json(
    request_id: &str,
    behavior: &str,
    tool_use_id: Option<&str>,
    tool_input: Option<&JsonValue>,
    message: Option<&str>,
) -> (r: JsonValue)
    ensures
        r@ == reply_model(request_id@, behavior@, opt_chars(tool_use_id), opt_model(tool_input), opt_chars(message)),
{
    let payload = if str_eq(behavior, "allow") {
        let input = match tool_input {
            Some(v) => v.deep_clone(),
            None => JsonValue::new_object(),
        };
        let base = JsonValue::new_object().with("behavior", JsonValue::string("allow")).with("updatedInput", input);
        let data = with_opt_str(base, "toolUseID", tool_use_id);
        assert(data@->Object_0 =~= allow_payload(opt_chars(tool_use_id), opt_model(tool_input))->Object_0);
        data
    } else {
        let base = JsonValue::new_object().with("behavior", JsonValue::string("deny"));
        let with_id = with_opt_str(base, "toolUseID", tool_use_id);
        let data = with_opt_str(with_id, "message", message);
        assert(data@->Object_0 =~= deny_payload(opt_chars(tool_use_id), opt_chars(message))->Object_0);
        data
    };
    let inner = JsonValue::new_object().with("subtype", JsonValue::string("success")).with(
        "request_id",
        JsonValue::string(request_id),
    ).with("response", payload);
    let r = JsonValue::new_object().with("type", JsonValue::string("control_response")).with("response", inner);
    let ghost expected = reply_model(
        request_id@,
        behavior@,
        opt_chars(tool_use_id),
        opt_model(tool_input),
        opt_chars(message),
    );
    assert(inner@->Object_0 =~= expected->Object_0[1].1->Object_0);
    assert(r@->Object_0 =~= expected->Object_0);
    r
}


/// What the app keeps about the running CLI besides the process and its
/// pipes: the session it reported, the permission mode the user chose, and
/// the input of each permission request that waits for the user, by
/// request id.
pub struct ClaudeProcess {
    pub session_id: Option<String>,
    pub permission_mode: Option<String>,
    pub pending_tool_inputs: Vec<(String, JsonValue)>,
}

/// The model of a `ClaudeProcess`. `pending` is read as a map through
/// `lookup`; a request id inserted again keeps its place and takes the new
/// input.
pub struct ProcessModel {
    pub session_id: Option<Seq<char>>,
    pub permission_mode: Option<Seq<char>>,
    pub pending: Seq<(Seq<char>, Json)>,
}

pub open spec fn opt_string_view(o: Option<String>) -> Option<Seq<char>> {
    match o {
        Some(s) => Some(s@),
        None => None,
    }
}

impl View for ClaudeProcess {
    type V = ProcessModel;

    open spec fn view(&self) -> ProcessModel {
        ProcessModel {
            session_id: opt_string_view(self.session_id),
            permission_mode: opt_string_view(self.permission_mode),
            pending: crate::json::members_model(self.pending_tool_inputs@),
        }
    }
}

impl ClaudeProcess {
    /// No session, no mode chosen, nothing pending.
    pub fn new() -> (r: Self)
        ensures
            r@ == (ProcessModel { session_id: None, permission_mode: None, pending: seq![] }),
    {
        let r = ClaudeProcess { session_id: None, permission_mode: None, pending_tool_inputs: Vec::new() };
        assert(r@.pending =~= Seq::<(Seq<char>, Json)>::empty());
        r
    }

    /// The input kept for the permission request `request_id`.
    pub open spec fn pending_input(self, request_id: Seq<char>) -> Option<Json> {
        lookup(self@.pending, request_id)
    }
}

impl Default for ClaudeProcess {
    fn default() -> (r: Self)
        ensures
            r@ == (ProcessModel { session_id: None, permission_mode: None, pending: seq![] }),
    {
        ClaudeProcess::new()
    }
}

/// The member `a` of `j`, or else its member `b`.
pub open spec fn either_member(j: Json, a: Seq<char>, b: Seq<char>) -> Option<Json> {
    match j.member(a) {
        Some(v) => Some(v),
        None => j.member(b),
    }
}

/// A field of a control request's `request` object, under either of its
/// two spellings.
pub open spec fn request_field(j: Json, a: Seq<char>, b: Seq<char>) -> Option<Json> {
    match j.member("request"@) {
        Some(r) => either_member(r, a, b),
        None => None,
    }
}

/// The id the reply must carry: `request_id` at the top, or inside `request`.
pub open spec fn control_request_id(j: Json) -> Seq<char> {
    str_or(
        opt_as_str(
            match j.member("request_id"@) {
                Some(v) => Some(v),
                None => opt_get(j.member("request"@), "request_id"@),
            },
        ),
        seq![],
    )
}

pub open spec fn control_tool_name(j: Json) -> Seq<char> {
    str_or(opt_as_str(request_field(j, "tool_name"@, "toolName"@)), seq![])
}

pub open spec fn control_tool_use_id(j: Json) -> Seq<char> {
    str_or(opt_as_str(request_field(j, "tool_use_id"@, "toolUseId"@)), seq![])
}

pub open spec fn control_tool_input(j: Json) -> Json {
    match request_field(j, "tool_input"@, "input"@) {
        Some(v) => v,
        None => Json::Null,
    }
}

/// The event that asks the front end to show a permission dialog.
pub open spec fn permission_request_payload(
    request_id: Seq<char>,
    tool_name: Seq<char>,
    tool_input: Json,
    tool_use_id: Seq<char>,
) -> Json {
    Json::Object(
        seq![
            ("tool_use_id"@, Json::Str(request_id)),
            ("tool_name"@, Json::Str(tool_name)),
            ("tool_input"@, tool_input),
            ("session_id"@, Json::Str(seq![])),
            ("cli_tool_use_id"@, Json::Str(tool_use_id)),
        ],
    )
}

/// What to do about a control request of the CLI.
pub enum ControlAction {
    /// Write this `control_response` to the CLI's stdin.
    Reply(JsonValue),
    /// Emit this payload as a `permission-request` event and wait for the user.
    AskUser(JsonValue),
}

/// The permission mode in force: the chosen one, `default` when none was chosen.
pub open spec fn mode_in_force(m: ProcessModel) -> Seq<char> {
    str_or(m.permission_mode, "default"@)
}

/// How the state and the answer follow from a control request `j`.
pub open spec fn control_outcome(before: ProcessModel, after: ProcessModel, r: ControlAction, j: Json) -> bool {
    let rid = control_request_id(j);
    let tool = control_tool_name(j);
    let tuid = control_tool_use_id(j);
    let input = control_tool_input(j);
    if auto_allows(mode_in_force(before), tool) {
        &&& r matches ControlAction::Reply(x) && x@ == control_response_model(rid, allow_payload(Some(tuid), Some(input)))
        &&& after == before
    } else {
        &&& r matches ControlAction::AskUser(x) && x@ == permission_request_payload(rid, tool, input, tuid)
        &&& after == (ProcessModel { pending: obj_insert(before.pending, rid, input), ..before })
    }
}

fn either<'a>(j: &'a JsonValue, a: &str, b: &str) -> (r: Option<&'a JsonValue>)
    ensures
        opt_model(r) == either_member(j@, a@, b@),
{
    match j.get(a) {
        Some(v) => Some(v),
        None => j.get(b),
    }
}

fn field<'a>(j: &'a JsonValue, a: &str, b: &str) -> (r: Option<&'a JsonValue>)
    ensures
        opt_model(r) == request_field(j@, a@, b@),
{
    match j.get("request") {
        Some(r) => either(r, a, b),
        None => None,
    }
}

fn str_or_empty(o: Option<&JsonValue>) -> (r: &str)
    ensures
        r@ == str_or(opt_as_str(opt_model(o)), seq![]),
{
    proof {
        reveal_strlit("");
    }
    match o {
        Some(v) => match v.as_str() {
            Some(s) => s,
            None => "",
        },
        None => "",
    }
}

impl ClaudeProcess {
    /// Decides a control request of the CLI (a permission prompt): answers
    /// it at once when the permission mode lets the tool run, else keeps the
    /// tool's input under the request id and asks the user.
    pub fn handle_control_request(&mut self, json: &JsonValue) -> (r: ControlAction)
        ensures
            control_outcome(old(self)@, final(self)@, r, json@),
    {
        let rid_value = match json.get("request_id") {
            Some(v) => Some(v),
            None => match json.get("request") {
                Some(r) => r.get("request_id"),
                None => None,
            },
        };
        let request_id = str_or_empty(rid_value);
        let tool_name = str_or_empty(field(json, "tool_name", "toolName"));
        let tool_use_id = str_or_empty(field(json, "tool_use_id", "toolUseId"));
        let tool_input = match field(json, "tool_input", "input") {
            Some(v) => v.deep_clone(),
            None => JsonValue::Null,
        };
        let mode: &str = match &self.permission_mode {
            Some(m) => m.as_str(),
            None => "default",
        };
        if should_auto_allow(mode, tool_name) {
            ControlAction::Reply(control_response_json(request_id, "allow", Some(tool_use_id), Some(&tool_input), None))
        } else {
            let payload = JsonValue::new_object().with("tool_use_id", JsonValue::string(request_id)).with(
                "tool_name",
                JsonValue::string(tool_name),
            ).with("tool_input", tool_input.deep_clone()).with("session_id", JsonValue::string("")).with(
                "cli_tool_use_id",
                JsonValue::string(tool_use_id),
            );
            proof {
                reveal_strlit("");
            }
            assert(""@ =~= Seq::<char>::empty());
            assert(payload@->Object_0 =~= permission_request_payload(
                request_id@,
                tool_name@,
                tool_input@,
                tool_use_id@,
            )->Object_0);
            crate::json::members_insert(&mut self.pending_tool_inputs, request_id, tool_input);
            ControlAction::AskUser(payload)
        }
    }
}


/// The `type` of an output line, empty when it has none.
pub open spec fn output_type(j: Json) -> Seq<char> {
    str_or(opt_as_str(j.member("type"@)), seq![])
}

/// Output lines that carry nothing for the front end.
pub open spec fn is_ignored_type(t: Seq<char>) -> bool {
    t == "keep_alive"@ || t == "streamlined_text"@ || t == "streamlined_tool_use_summary"@
}

/// The `name` strings of the command entries, in order.
pub open spec fn command_names(a: Seq<Json>) -> Seq<Seq<char>>
    decreases a.len(),
{
    if a.len() == 0 {
        seq![]
    } else {
        command_names(a.drop_last()) + match opt_as_str(a.last().member("name"@)) {
            Some(s) => seq![s],
            None => seq![],
        }
    }
}

/// The commands a successful `initialize` reply lists.
pub open spec fn commands_of(j: Json) -> Option<Seq<Seq<char>>> {
    match j.member("response"@) {
        Some(resp) => if opt_as_str(resp.member("subtype"@)) == Some("success"@) {
            match resp.member("response"@) {
                Some(inner) => match opt_as_array(inner.member("commands"@)) {
                    Some(a) => Some(command_names(a)),
                    None => None,
                },
                None => None,
            }
        } else {
            None
        },
        None => None,
    }
}

/// The events for a `control_response` line: an `Init` that carries only the
/// slash commands, when the reply lists commands.
pub open spec fn control_response_events(j: Json) -> Seq<EventModel> {
    match commands_of(j) {
        Some(c) => seq![EventModel::Init { session_id: seq![], model: seq![], slash_commands: Some(c) }],
        None => seq![],
    }
}

/// The session id after the events: that of the last `Init`, if any.
pub open spec fn last_init_session(evs: Seq<EventModel>, cur: Option<Seq<char>>) -> Option<Seq<char>>
    decreases evs.len(),
{
    if evs.len() == 0 {
        cur
    } else {
        match evs.last() {
            EventModel::Init { session_id, .. } => Some(session_id),
            _ => last_init_session(evs.drop_last(), cur),
        }
    }
}

/// What to do with one line of the CLI's output.
pub enum OutputAction {
    /// A control request, decided.
    Control(ControlAction),
    /// Nothing to do.
    Ignore,
    /// Emit these events to the front end, in order.
    Emit(Vec<ClaudeEvent>),
}

/// Whether `route_output` hands the line to the event parser.
pub open spec fn is_parsed_type(t: Seq<char>) -> bool {
    t != "control_request"@ && t != "control_response"@ && !is_ignored_type(t)
}

fn command_names_of(a: &Vec<JsonValue>) -> (r: Vec<String>)
    ensures
        string_models(r@) == command_names(models(a@)),
{
    let ghost ma = models(a@);
    let mut out: Vec<String> = Vec::new();
    let mut i: usize = 0;
    while i < a.len()
        invariant
            0 <= i <= a@.len(),
            ma == models(a@),
            string_models(out@) == command_names(ma.take(i as int)),
        decreases a.len() - i,
    {
        assert(ma.take(i + 1).drop_last() =~= ma.take(i as int));
        assert(ma.take(i + 1).last() == a@[i as int]@);
        match a[i].get_str("name") {
            Some(s) => {
                let ghost before = out@;
                out.push(s.to_owned());
                assert(string_models(out@) =~= string_models(before) + seq![s@]);
            },
            None => {},
        }
        i = i + 1;
    }
    assert(ma.take(a@.len() as int) =~= ma);
    out
}

fn commands_of_exec(json: &JsonValue) -> (r: Option<Vec<String>>)
    ensures
        match r {
            Some(v) => commands_of(json@) == Some(string_models(v@)),
            None => commands_of(json@) is None,
        },
{
    match json.get("response") {
        Some(resp) => {
            let ok = match resp.get_str("subtype") {
                Some(st) => str_eq(st, "success"),
                None => false,
            };
            if ok {
                match resp.get("response") {
                    Some(inner) => match inner.get_array("commands") {
                        Some(a) => Some(command_names_of(a)),
                        None => None,
                    },
                    None => None,
                }
            } else {
                None
            }
        },
        None => None,
    }
}

impl ClaudeProcess {
    /// Routes one line of the CLI's output: control requests are decided,
    /// keep-alives and streamlined summaries ignored, the reply to
    /// `initialize` yields the slash commands, and everything else goes
    /// through the event parser; the session id follows the parser's
    /// `Init` events.
    pub fn route_output(&mut self, parser: &mut ClaudeEventParser, json: &JsonValue) -> (r: OutputAction)
        requires
            is_parsed_type(output_type(json@)) ==> parse_fits(old(parser).state(), json@),
        ensures
            output_type(json@) == "control_request"@ ==> (r matches OutputAction::Control(a) && control_outcome(
                old(self)@,
                final(self)@,
                a,
                json@,
            ) && final(parser).state() == old(parser).state()),
            is_ignored_type(output_type(json@)) ==> (r is Ignore && final(self)@ == old(self)@ && final(parser).state()
                == old(parser).state()),
            output_type(json@) == "control_response"@ ==> (r matches OutputAction::Emit(evs) && event_models(evs@)
                == control_response_events(json@) && final(self)@ == old(self)@ && final(parser).state()
                == old(parser).state()),
            is_parsed_type(output_type(json@)) ==> (r matches OutputAction::Emit(evs) && (
                final(parser).state(),
                event_models(evs@),
            ) == parse_spec(old(parser).state(), json@) && final(self)@ == (ProcessModel {
                session_id: last_init_session(event_models(evs@), old(self)@.session_id),
                ..old(self)@
            })),
    {
        proof {
            reveal_strlit("");
            reveal_strlit("control_request");
            reveal_strlit("control_response");
            reveal_strlit("keep_alive");
            reveal_strlit("streamlined_text");
            reveal_strlit("streamlined_tool_use_summary");
            assert("control_request"@.len() == 15);
            assert("control_response"@.len() == 16);
            assert("keep_alive"@.len() == 10);
            assert("streamlined_text"@.len() == 16);
            assert("streamlined_text"@[0] != "control_response"@[0]);
            assert("streamlined_tool_use_summary"@.len() == 28);
        }
        let t: &str = match json.get_str("type") {
            Some(t) => t,
            None => "",
        };
        if str_eq(t, "control_request") {
            return OutputAction::Control(self.handle_control_request(json));
        }
        if str_eq(t, "keep_alive") || str_eq(t, "streamlined_text") || str_eq(t, "streamlined_tool_use_summary") {
            return OutputAction::Ignore;
        }
        if str_eq(t, "control_response") {
            let mut evs: Vec<ClaudeEvent> = Vec::new();
            match commands_of_exec(json) {
                Some(c) => {
                    evs.push(ClaudeEvent::Init { session_id: String::new(), model: String::new(), slash_commands: Some(c) });
                },
                None => {},
            }
            assert(event_models(evs@) =~= control_response_events(json@));
            return OutputAction::Emit(evs);
        }
        let evs = parser.parse(json);
        let mut i: usize = 0;
        let ghost start = self@;
        while i < evs.len()
            invariant
                0 <= i <= evs@.len(),
                self@ == (ProcessModel {
                    session_id: last_init_session(event_models(evs@).take(i as int), start.session_id),
                    ..start
                }),
            decreases evs.len() - i,
        {
            assert(event_models(evs@).take(i + 1).drop_last() =~= event_models(evs@).take(i as int));
            match &evs[i] {
                ClaudeEvent::Init { session_id, .. } => {
                    self.session_id = Some(session_id.clone());
                },
                _ => {},
            }
            i = i + 1;
        }
        assert(event_models(evs@).take(evs@.len() as int) =~= event_models(evs@));
        OutputAction::Emit(evs)
    }
}

/// The arguments that start the CLI in interactive stream-json mode.
pub open spec fn base_args() -> Seq<Seq<char>> {
    seq![
        "--input-format"@, "stream-json"@,
        "--output-format"@, "stream-json"@,
        "--verbose"@,
        "--permission-prompt-tool"@, "stdio"@,
    ]
}

/// `--channels <name>` for each channel, in order.
pub open spec fn channel_args(chs: Seq<Seq<char>>) -> Seq<Seq<char>>
    decreases chs.len(),
{
    if chs.len() == 0 {
        seq![]
    } else {
        channel_args(chs.drop_last()) + seq!["--channels"@, chs.last()]
    }
}

/// The whole argument list: resume a session when one is given, pass the
/// permission mode only when it is `plan` (the others are enforced by the
/// app), pass the thinking mode unless it is `off`, then the channels.
pub open spec fn cli_args_model(
    session_id: Option<Seq<char>>,
    permission_mode: Option<Seq<char>>,
    thinking_mode: Option<Seq<char>>,
    channels: Option<Seq<Seq<char>>>,
) -> Seq<Seq<char>> {
    base_args() + match session_id {
        Some(s) => seq!["--resume"@, s],
        None => seq![],
    } + match permission_mode {
        Some(m) => if m == "plan"@ {
            seq!["--permission-mode"@, m]
        } else {
            seq![]
        },
        None => seq![],
    } + match thinking_mode {
        Some(t) => if t != "off"@ {
            seq!["--thinking"@, t]
        } else {
            seq![]
        },
        None => seq![],
    } + match channels {
        Some(c) => channel_args(c),
        None => seq![],
    }
}

fn push_arg(args: &mut Vec<String>, a: &str)
    ensures
        string_models(final(args)@) == string_models(old(args)@).push(a@),
{
    args.push(a.to_owned());
    assert(string_models(args@) =~= string_models(old(args)@).push(a@));
}

/// The arguments `cli_args_model` describes.
pub fn claude_cli_args(
    session_id: &Option<String>,
    permission_mode: &Option<String>,
    thinking_mode: &Option<String>,
    channels: &Option<Vec<String>>,
) -> (r: Vec<String>)
    ensures
        string_models(r@) == cli_args_model(
            opt_string_view(*session_id),
            opt_string_view(*permission_mode),
            opt_string_view(*thinking_mode),
            match channels {
                Some(c) => Some(string_models(c@)),
                None => None,
            },
        ),
{
    let mut args: Vec<String> = Vec::new();
    assert(string_models(args@) =~= Seq::<Seq<char>>::empty());
    push_arg(&mut args, "--input-format");
    push_arg(&mut args, "stream-json");
    push_arg(&mut args, "--output-format");
    push_arg(&mut args, "stream-json");
    push_arg(&mut args, "--verbose");
    push_arg(&mut args, "--permission-prompt-tool");
    push_arg(&mut args, "stdio");
    let ghost a0 = string_models(args@);
    assert(a0 =~= base_args());
    match session_id {
        Some(sid) => {
            push_arg(&mut args, "--resume");
            push_arg(&mut args, sid.as_str());
        },
        None => {},
    }
    let ghost a1 = string_models(args@);
    assert(a1 =~= a0 + match opt_string_view(*session_id) {
        Some(s) => seq!["--resume"@, s],
        None => seq![],
    });
    match permission_mode {
        Some(m) => {
            if str_eq(m.as_str(), "plan") {
                push_arg(&mut args, "--permission-mode");
                push_arg(&mut args, m.as_str());
            }
        },
        None => {},
    }
    let ghost a2 = string_models(args@);
    assert(a2 =~= a1 + match opt_string_view(*permission_mode) {
        Some(m) => if m == "plan"@ {
            seq!["--permission-mode"@, m]
        } else {
            seq![]
        },
        None => seq![],
    });
    match thinking_mode {
        Some(t) => {
            if !str_eq(t.as_str(), "off") {
                push_arg(&mut args, "--thinking");
                push_arg(&mut args, t.as_str());
            }
        },
        None => {},
    }
    let ghost a3 = string_models(args@);
    assert(a3 =~= a2 + match opt_string_view(*thinking_mode) {
        Some(t) => if t != "off"@ {
            seq!["--thinking"@, t]
        } else {
            seq![]
        },
        None => seq![],
    });
    match channels {
        Some(chs) => {
            let ghost cm = string_models(chs@);
            let mut i: usize = 0;
            while i < chs.len()
                invariant
                    0 <= i <= chs@.len(),
                    cm == string_models(chs@),
                    string_models(args@) == a3 + channel_args(cm.take(i as int)),
                decreases chs.len() - i,
            {
                assert(cm.take(i + 1).drop_last() =~= cm.take(i as int));
                push_arg(&mut args, "--channels");
                push_arg(&mut args, chs[i].as_str());
                assert(string_models(args@) =~= a3 + channel_args(cm.take(i + 1)));
                i = i + 1;
            }
            assert(cm.take(chs@.len() as int) =~= cm);
        },
        None => {
            assert(string_models(args@) =~= a3 + Seq::<Seq<char>>::empty());
        },
    }
    args
}


/// Facts on the listed tool names: fourteen distinct names, none of which
/// changes files or leaves plan mode.
pub proof fn lemma_auto_allow_list_facts()
    ensures
        auto_allow_list().len() == 14,
        auto_allow_list().no_duplicates(),
        !auto_allow_list().contains("ExitPlanMode"@),
        !auto_allow_list().contains("Edit"@),
        !auto_allow_list().contains("Write"@),
        !auto_allow_list().contains("Bash"@),
        !auto_allow_list().contains("NotebookEdit"@),
{
    reveal_strlit("AskUserQuestion");
    reveal_strlit("TodoRead");
    reveal_strlit("TodoWrite");
    reveal_strlit("Read");
    reveal_strlit("Glob");
    reveal_strlit("Grep");
    reveal_strlit("Task");
    reveal_strlit("TaskOutput");
    reveal_strlit("WebSearch");
    reveal_strlit("WebFetch");
    reveal_strlit("CronCreate");
    reveal_strlit("CronDelete");
    reveal_strlit("CronList");
    reveal_strlit("EnterPlanMode");
    reveal_strlit("ExitPlanMode");
    reveal_strlit("Edit");
    reveal_strlit("Write");
    reveal_strlit("Bash");
    reveal_strlit("NotebookEdit");
    let l = auto_allow_list();
    assert forall|i: int, j: int| 0 <= i < l.len() && 0 <= j < l.len() && i != j implies l[i] != l[j] by {
        if l[i] == l[j] {
            assert(l[i].len() == l[j].len());
            assert(l[i][0] == l[j][0]);
            assert(l[i][1] == l[j][1]);
            assert(l[i][l[i].len() - 1] == l[j][l[j].len() - 1]);
            assert(l[i][4] == l[j][4]);
        }
    }
    assert forall|i: int| 0 <= i < l.len() implies l[i] != "ExitPlanMode"@ && l[i] != "Edit"@ && l[i] != "Write"@
        && l[i] != "Bash"@ && l[i] != "NotebookEdit"@ by {
        assert(l[i][0] != 'E' || l[i][1] == 'n');
        assert(l[i][0] != 'W' || l[i][1] == 'e');
        assert(l[i][0] != 'B');
        assert(l[i][0] != 'N');
    }
}

/// `AskUserQuestion` is never answered without the user, in any mode: the
/// request waits, and the tool's input is kept under the request id.
pub proof fn law_ask_user_question_goes_to_user(before: ProcessModel, after: ProcessModel, r: ControlAction, j: Json)
    requires
        control_outcome(before, after, r, j),
        control_tool_name(j) == "AskUserQuestion"@,
    ensures
        r is AskUser,
        lookup(after.pending, control_request_id(j)) == Some(control_tool_input(j)),
{
    crate::json::lemma_lookup_insert_same(before.pending, control_request_id(j), control_tool_input(j));
}

/// `ExitPlanMode` always waits for the user to approve the plan, in any mode.
pub proof fn law_exit_plan_mode_goes_to_user(before: ProcessModel, after: ProcessModel, r: ControlAction, j: Json)
    requires
        control_outcome(before, after, r, j),
        control_tool_name(j) == "ExitPlanMode"@,
    ensures
        r is AskUser,
        lookup(after.pending, control_request_id(j)) == Some(control_tool_input(j)),
{
    lemma_auto_allow_list_facts();
    reveal_strlit("ExitPlanMode");
    reveal_strlit("NotebookEdit");
    reveal_strlit("Edit");
    reveal_strlit("Write");
    reveal_strlit("Bash");
    reveal_strlit("AskUserQuestion");
    assert("ExitPlanMode"@[0] != "NotebookEdit"@[0]);
    assert("ExitPlanMode"@.len() != "AskUserQuestion"@.len());
    assert("ExitPlanMode"@.len() != "Edit"@.len());
    assert("ExitPlanMode"@.len() != "Write"@.len());
    assert("ExitPlanMode"@.len() != "Bash"@.len());
    crate::json::lemma_lookup_insert_same(before.pending, control_request_id(j), control_tool_input(j));
}

/// In `bypassPermissions` mode every other tool runs at once, and nothing is
/// kept.
pub proof fn law_bypass_runs_other_tools(before: ProcessModel, after: ProcessModel, r: ControlAction, j: Json)
    requires
        control_outcome(before, after, r, j),
        mode_in_force(before) == "bypassPermissions"@,
        control_tool_name(j) != "ExitPlanMode"@,
        control_tool_name(j) != "AskUserQuestion"@,
    ensures
        r is Reply,
        after == before,
{
}

/// Outside `bypassPermissions` and `acceptEdits`, tools that change files or
/// run commands always wait for the user.
pub proof fn law_write_tools_need_user(before: ProcessModel, after: ProcessModel, r: ControlAction, j: Json)
    requires
        control_outcome(before, after, r, j),
        mode_in_force(before) != "bypassPermissions"@,
        mode_in_force(before) != "acceptEdits"@,
        is_edit_tool(control_tool_name(j)),
    ensures
        r is AskUser,
{
    lemma_auto_allow_list_facts();
}

/// A listed tool runs at once in every mode but `bypassPermissions`
/// (where it runs too), except `AskUserQuestion`.
pub proof fn law_listed_tools_run(before: ProcessModel, after: ProcessModel, r: ControlAction, j: Json)
    requires
        control_outcome(before, after, r, j),
        auto_allow_list().contains(control_tool_name(j)),
        control_tool_name(j) != "AskUserQuestion"@,
    ensures
        r is Reply,
        after == before,
{
    lemma_auto_allow_list_facts();
}

/// A request that waits leaves the inputs of other waiting requests as they were.
pub proof fn law_waiting_keeps_others(
    before: ProcessModel,
    after: ProcessModel,
    r: ControlAction,
    j: Json,
    other: Seq<char>,
)
    requires
        control_outcome(before, after, r, j),
        other != control_request_id(j),
    ensures
        lookup(after.pending, other) == lookup(before.pending, other),
        after.session_id == before.session_id,
        after.permission_mode == before.permission_mode,
{
    crate::json::lemma_lookup_insert_other(before.pending, control_request_id(j), control_tool_input(j), other);
}


/// The first candidate from index `i` on whose entry in `found` is `true`
/// (candidates past the end of `found` count as not found).
pub open spec fn first_found_from(cands: Seq<Seq<char>>, found: Seq<bool>, i: int) -> Option<Seq<char>>
    decreases cands.len() - i,
{
    if i < 0 || i >= cands.len() {
        None
    } else if i < found.len() && found[i] {
        Some(cands[i])
    } else {
        first_found_from(cands, found, i + 1)
    }
}

/// The CLI to run: the one on the `PATH`, else the first candidate marked
/// found, else `fallback`.
pub open spec fn cli_path_choice(
    on_path: Option<Seq<char>>,
    cands: Seq<Seq<char>>,
    found: Seq<bool>,
    fallback: Seq<char>,
) -> Seq<char> {
    match on_path {
        Some(p) => p,
        None => match first_found_from(cands, found, 0) {
            Some(c) => c,
            None => fallback,
        },
    }
}

/// Chooses the CLI to run from what was found: `on_path` is the program
/// found on the `PATH`, `found[i]` says whether `candidates[i]` exists.
pub fn pick_cli_path(on_path: Option<&str>, candidates: &Vec<String>, found: &Vec<bool>, fallback: &str) -> (r: String)
    ensures
        r@ == cli_path_choice(opt_chars(on_path), string_models(candidates@), found@, fallback@),
{
    match on_path {
        Some(p) => p.to_owned(),
        None => {
            let ghost cands = string_models(candidates@);
            let mut i: usize = 0;
            while i < candidates.len()
                invariant
                    0 <= i <= candidates@.len(),
                    on_path is None,
                    cands == string_models(candidates@),
                    first_found_from(cands, found@, 0) == first_found_from(cands, found@, i as int),
                decreases candidates.len() - i,
            {
                if i < found.len() && found[i] {
                    let c = candidates[i].clone();
                    assert(c@ == cands[i as int]);
                    return c;
                }
                i = i + 1;
            }
            fallback.to_owned()
        },
    }
}

/// The CLI to run: the one found on the `PATH` (`on_path`), else the first
/// of the usual install locations (`candidates`, in order) that exists,
/// else `fallback` (the bare program name). Which candidates exist depends
/// on the disk: the result is the choice `pick_cli_path` makes for some
/// record of them, and so the path on the `PATH`, a candidate or the fallback.
pub fn select_claude_path(on_path: Option<&str>, candidates: &Vec<String>, fallback: &str) -> (r: String)
    ensures
        exists|found: Seq<bool>|
            #[trigger] cli_path_choice(opt_chars(on_path), string_models(candidates@), found, fallback@) == r@,
        on_path is Some ==> r@ == on_path->Some_0@,
        on_path is None ==> (r@ == fallback@ || exists|i: int| 0 <= i < candidates@.len() && r@ == #[trigger] candidates@[i]@),
{
    let mut found: Vec<bool> = Vec::new();
    if on_path.is_none() {
        let mut i: usize = 0;
        while i < candidates.len()
            invariant_except_break
                found@.len() == i,
            invariant
                0 <= i <= candidates@.len(),
            ensures
                found@.len() <= candidates@.len(),
            decreases candidates.len() - i,
        {
            let here = crate::setup::path_exists(candidates[i].as_str());
            found.push(here);
            if here {
                break;
            }
            i = i + 1;
        }
    }
    let r = pick_cli_path(on_path, candidates, &found, fallback);
    proof {
        let cands = string_models(candidates@);
        assert(cli_path_choice(opt_chars(on_path), cands, found@, fallback@) == r@);
        if on_path is None {
            lemma_first_found_is_candidate(cands, found@, 0);
            if first_found_from(cands, found@, 0) is Some {
                let k = choose|k: int| 0 <= k < cands.len() && first_found_from(cands, found@, 0) == Some(cands[k]);
                assert(r@ == candidates@[k]@);
            }
        }
    }
    r
}

/// A found candidate is one of the candidates.
proof fn lemma_first_found_is_candidate(cands: Seq<Seq<char>>, found: Seq<bool>, i: int)
    requires
        0 <= i,
    ensures
        first_found_from(cands, found, i) matches Some(c) ==> exists|k: int|
            0 <= k < cands.len() && first_found_from(cands, found, i) == Some(#[trigger] cands[k]),
    decreases cands.len() - i,
{
    if i < cands.len() && !(i < found.len() && found[i]) {
        lemma_first_found_is_candidate(cands, found, i + 1);
    }
}

/// In `acceptEdits` mode the tools that edit files or run commands (`Edit`,
/// `Write`, `NotebookEdit`, `Bash`) are allowed at once: the reply allows
/// the request with its input, and nothing is kept waiting.
pub proof fn law_accept_edits_runs_edit_tools(before: ProcessModel, after: ProcessModel, r: ControlAction, j: Json)
    requires
        control_outcome(before, after, r, j),
        before.permission_mode == Some("acceptEdits"@),
        control_tool_name(j) == "Edit"@ || control_tool_name(j) == "Write"@ || control_tool_name(j) == "NotebookEdit"@
            || control_tool_name(j) == "Bash"@,
    ensures
        r matches ControlAction::Reply(x) && x@ == control_response_model(
            control_request_id(j),
            allow_payload(Some(control_tool_use_id(j)), Some(control_tool_input(j))),
        ),
        after == before,
        auto_allows("acceptEdits"@, control_tool_name(j)),
{
    reveal_strlit("acceptEdits");
    reveal_strlit("bypassPermissions");
    reveal_strlit("AskUserQuestion");
    reveal_strlit("Edit");
    reveal_strlit("Write");
    reveal_strlit("NotebookEdit");
    reveal_strlit("Bash");
    assert("acceptEdits"@.len() != "bypassPermissions"@.len());
    assert("AskUserQuestion"@.len() == 15);
    assert("Edit"@.len() == 4);
    assert("Write"@.len() == 5);
    assert("NotebookEdit"@.len() == 12);
    assert("Bash"@.len() == 4);
}

/// A thinking mode other than `off` is passed on: the arguments hold
/// `--thinking` immediately followed by that mode.
pub proof fn law_thinking_mode_is_passed(
    session_id: Option<Seq<char>>,
    permission_mode: Option<Seq<char>>,
    t: Seq<char>,
    channels: Option<Seq<Seq<char>>>,
)
    requires
        t != "off"@,
    ensures
        exists|i: int|
            0 <= i && i + 1 < cli_args_model(session_id, permission_mode, Some(t), channels).len() && #[trigger] cli_args_model(
                session_id,
                permission_mode,
                Some(t),
                channels,
            )[i] == "--thinking"@ && cli_args_model(session_id, permission_mode, Some(t), channels)[i + 1] == t,
{
    let p0 = base_args();
    let p1 = match session_id {
        Some(s) => seq!["--resume"@, s],
        None => seq![],
    };
    let p2 = match permission_mode {
        Some(m) => if m == "plan"@ {
            seq!["--permission-mode"@, m]
        } else {
            seq![]
        },
        None => seq![],
    };
    let p3 = seq!["--thinking"@, t];
    let p4 = match channels {
        Some(c) => channel_args(c),
        None => seq![],
    };
    let r = cli_args_model(session_id, permission_mode, Some(t), channels);
    assert(r == p0 + p1 + p2 + p3 + p4);
    let i = (p0.len() + p1.len() + p2.len()) as int;
    assert(r[i] == "--thinking"@);
    assert(r[i + 1] == t);
}

} // verus!
