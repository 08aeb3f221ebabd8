use vstd::prelude::*;
use crate::json::{Json, JsonNumber, JsonValue, models, opt_as_array, opt_as_bool, opt_as_str, opt_as_u64, opt_chars, opt_get, opt_model};
use crate::text::{concat, decimal, push_str, str_eq, u64_to_decimal};

verus! {

/// An event for the front end, decoded from one line of the CLI's stream-json output.
#[derive(Debug)]
pub enum ClaudeEvent {
    Init { session_id: String, model: String, slash_commands: Option<Vec<String>> },
    Text { text: String, is_complete: bool },
    ToolUse { tool_name: String, tool_id: String, input: JsonValue },
    ToolResult {
        tool_id: String,
        result: String,
        is_error: bool,
        structured_patch: Option<JsonValue>,
        image_base64: Option<String>,
    },
    /// The end of a turn. The share of the context window in use is
    /// `total_tokens_in_conversation / context_window_max`, reported when both are present.
    Complete {
        result: String,
        cost_usd: JsonNumber,
        total_tokens_in_conversation: Option<u64>,
        context_window_max: Option<u64>,
        input_tokens_this_turn: Option<u64>,
    },
    Compacted { summary: String },
    ApiError { error_code: String, message: String },
    Error { message: String },
    Connected,
    ProcessExited,
}

/// The model of a `ClaudeEvent`.
pub enum EventModel {
    Init { session_id: Seq<char>, model: Seq<char>, slash_commands: Option<Seq<Seq<char>>> },
    Text { text: Seq<char>, is_complete: bool },
    ToolUse { tool_name: Seq<char>, tool_id: Seq<char>, input: Json },
    ToolResult {
        tool_id: Seq<char>,
        result: Seq<char>,
        is_error: bool,
        structured_patch: Option<Json>,
        image_base64: Option<Seq<char>>,
    },
    Complete {
        result: Seq<char>,
        cost_usd: JsonNumber,
        total_tokens_in_conversation: Option<u64>,
        context_window_max: Option<u64>,
        input_tokens_this_turn: Option<u64>,
    },
    Compacted { summary: Seq<char> },
    ApiError { error_code: Seq<char>, message: Seq<char> },
    Error { message: Seq<char> },
    Connected,
    ProcessExited,
}

pub open spec fn string_models(v: Seq<String>) -> Seq<Seq<char>> {
    Seq::new(v.len(), |i: int| v[i]@)
}

pub open spec fn opt_strings_model(o: Option<Vec<String>>) -> Option<Seq<Seq<char>>> {
    match o {
        Some(v) => Some(string_models(v@)),
        None => None,
    }
}

pub open spec fn opt_json_model(o: Option<JsonValue>) -> Option<Json> {
    match o {
        Some(v) => Some(v@),
        None => None,
    }
}

pub open spec fn opt_string_model(o: Option<String>) -> Option<Seq<char>> {
    match o {
        Some(v) => Some(v@),
        None => None,
    }
}

impl View for ClaudeEvent {
    type V = EventModel;

    open spec fn view(&self) -> EventModel {
        match self {
            ClaudeEvent::Init { session_id, model, slash_commands } => EventModel::Init {
                session_id: session_id@,
                model: model@,
                slash_commands: opt_strings_model(*slash_commands),
            },
            ClaudeEvent::Text { text, is_complete } => EventModel::Text { text: text@, is_complete: *is_complete },
            ClaudeEvent::ToolUse { tool_name, tool_id, input } => EventModel::ToolUse {
                tool_name: tool_name@,
                tool_id: tool_id@,
                input: input@,
            },
            ClaudeEvent::ToolResult { tool_id, result, is_error, structured_patch, image_base64 } =>
                EventModel::ToolResult {
                tool_id: tool_id@,
                result: result@,
                is_error: *is_error,
                structured_patch: opt_json_model(*structured_patch),
                image_base64: opt_string_model(*image_base64),
            },
            ClaudeEvent::Complete {
                result,
                cost_usd,
                total_tokens_in_conversation,
                context_window_max,
                input_tokens_this_turn,
            } => EventModel::Complete {
                result: result@,
                cost_usd: *cost_usd,
                total_tokens_in_conversation: *total_tokens_in_conversation,
                context_window_max: *context_window_max,
                input_tokens_this_turn: *input_tokens_this_turn,
            },
            ClaudeEvent::Compacted { summary } => EventModel::Compacted { summary: summary@ },
            ClaudeEvent::ApiError { error_code, message } => EventModel::ApiError {
                error_code: error_code@,
                message: message@,
            },
            ClaudeEvent::Error { message } => EventModel::Error { message: message@ },
            ClaudeEvent::Connected => EventModel::Connected,
            ClaudeEvent::ProcessExited => EventModel::ProcessExited,
        }
    }
}

pub open spec fn event_models(v: Seq<ClaudeEvent>) -> Seq<EventModel> {
    Seq::new(v.len(), |i: int| v[i]@)
}

pub open spec fn str_or(o: Option<Seq<char>>, d: Seq<char>) -> Seq<char> {
    match o {
        Some(s) => s,
        None => d,
    }
}

/// The strings among `a`, in order (`filter_map(as_str)`).
pub open spec fn strings_in(a: Seq<Json>) -> Seq<Seq<char>>
    decreases a.len(),
{
    if a.len() == 0 {
        seq![]
    } else {
        strings_in(a.drop_last()) + match a.last().as_str() {
            Some(s) => seq![s],
            None => seq![],
        }
    }
}

/// The strings among the elements of `a`.
pub fn collect_strings(a: &Vec<JsonValue>) -> (r: Vec<String>)
    ensures
        string_models(r@) == strings_in(models(a@)),
{
    let ghost ma = models(a@);
    let mut out: Vec<String> = Vec::new();
    let mut i: usize = 0;
    while i < a.len()
        invariant
            0 <= i <= a@.len(),
            ma == models(a@),
            string_models(out@) == strings_in(ma.take(i as int)),
        decreases a.len() - i,
    {
        proof {
            assert(ma.take(i + 1).drop_last() =~= ma.take(i as int));
            assert(ma.take(i + 1).last() == a@[i as int]@);
        }
        match a[i].as_str() {
            Some(s) => {
                let ghost before = out@;
                out.push(s.to_owned());
                assert(string_models(out@) =~= string_models(before) + seq![s@]);
            },
            None => {},
        }
        i = i + 1;
    }
    assert(ma.take(a@.len() as int) =~= ma);
    out
}

pub open spec fn slash_commands_spec(j: Json) -> Option<Seq<Seq<char>>> {
    match opt_as_array(j.member("slash_commands"@)) {
        Some(a) => Some(strings_in(a)),
        None => None,
    }
}

/// An `Init` event when the message names a session.
pub open spec fn init_spec(j: Json) -> Seq<EventModel> {
    match opt_as_str(j.member("session_id"@)) {
        Some(sid) => seq![
            EventModel::Init {
                session_id: sid,
                model: str_or(opt_as_str(j.member("model"@)), "unknown"@),
                slash_commands: slash_commands_spec(j),
            },
        ],
        None => seq![],
    }
}

/// Events of a `system` message: an `init` subtype, or no subtype at all, announces the session.
pub open spec fn system_spec(j: Json) -> Seq<EventModel> {
    match opt_as_str(j.member("subtype"@)) {
        Some(st) => if st == "init"@ {
            init_spec(j)
        } else {
            seq![]
        },
        None => init_spec(j),
    }
}

fn init_events(json: &JsonValue) -> (r: Vec<ClaudeEvent>)
    ensures
        event_models(r@) == init_spec(json@),
{
    let mut events: Vec<ClaudeEvent> = Vec::new();
    match json.get_str("session_id") {
        Some(sid) => {
            let model = match json.get_str("model") {
                Some(m) => m.to_owned(),
                None => "unknown".to_owned(),
            };
            let slash_commands = match json.get_array("slash_commands") {
                Some(a) => Some(collect_strings(a)),
                None => None,
            };
            events.push(ClaudeEvent::Init { session_id: sid.to_owned(), model, slash_commands });
            assert(event_models(events@) =~= init_spec(json@));
        },
        None => {
            assert(event_models(events@) =~= init_spec(json@));
        },
    }
    events
}

fn system_events(json: &JsonValue) -> (r: Vec<ClaudeEvent>)
    ensures
        event_models(r@) == system_spec(json@),
{
    match json.get_str("subtype") {
        Some(st) => {
            if str_eq(st, "init") {
                init_events(json)
            } else {
                let r: Vec<ClaudeEvent> = Vec::new();
                assert(event_models(r@) =~= system_spec(json@));
                r
            }
        },
        None => init_events(json),
    }
}

pub open spec fn first_of(o: Option<Seq<Json>>) -> Option<Json> {
    match o {
        Some(a) => if a.len() > 0 {
            Some(a[0])
        } else {
            None
        },
        None => None,
    }
}

pub open spec fn u64_or_zero(o: Option<u64>) -> u64 {
    match o {
        Some(n) => n,
        None => 0,
    }
}

pub open spec fn is_true(o: Option<bool>) -> bool {
    o == Some(true)
}

/// An assistant message that the CLI marks as an API error.
pub open spec fn is_api_error(j: Json) -> bool {
    is_true(opt_as_bool(j.member("isApiErrorMessage"@)))
}

pub open spec fn api_error_spec(j: Json) -> Seq<EventModel> {
    let content0 = first_of(opt_as_array(opt_get(j.member("message"@), "content"@)));
    seq![
        EventModel::ApiError {
            error_code: str_or(opt_as_str(j.member("error"@)), "unknown"@),
            message: str_or(opt_as_str(opt_get(content0, "text"@)), "Unknown API error"@),
        },
    ]
}

/// The context size a usage record reports: fresh input plus both kinds of cached input.
pub open spec fn usage_input(u: Json) -> int {
    u64_or_zero(opt_as_u64(u.member("input_tokens"@))) + u64_or_zero(
        opt_as_u64(u.member("cache_creation_input_tokens"@)),
    ) + u64_or_zero(opt_as_u64(u.member("cache_read_input_tokens"@)))
}

/// The token counters after an assistant message.
pub open spec fn assistant_state(st: (u64, u64), j: Json) -> (u64, u64) {
    if is_api_error(j) {
        st
    } else {
        match opt_get(j.member("message"@), "usage"@) {
            Some(u) => (
                usage_input(u) as u64,
                match opt_as_u64(u.member("output_tokens"@)) {
                    Some(o) => o,
                    None => st.1,
                },
            ),
            None => st,
        }
    }
}

/// The usage record of an assistant message sums without overflow.
pub open spec fn assistant_fits(j: Json) -> bool {
    !is_api_error(j) ==> match opt_get(j.member("message"@), "usage"@) {
        Some(u) => usage_input(u) <= u64::MAX,
        None => true,
    }
}

pub open spec fn block_spec(b: Json, complete: bool) -> Seq<EventModel> {
    match opt_as_str(b.member("type"@)) {
        Some(t) => if t == "text"@ {
            match opt_as_str(b.member("text"@)) {
                Some(x) => seq![EventModel::Text { text: x, is_complete: complete }],
                None => seq![],
            }
        } else if t == "tool_use"@ {
            match (opt_as_str(b.member("name"@)), opt_as_str(b.member("id"@))) {
                (Some(n), Some(id)) => seq![
                    EventModel::ToolUse {
                        tool_name: n,
                        tool_id: id,
                        input: match b.member("input"@) {
                            Some(v) => v,
                            None => Json::Null,
                        },
                    },
                ],
                _ => seq![],
            }
        } else {
            seq![]
        },
        None => seq![],
    }
}

pub open spec fn blocks_spec(a: Seq<Json>, complete: bool) -> Seq<EventModel>
    decreases a.len(),
{
    if a.len() == 0 {
        seq![]
    } else {
        blocks_spec(a.drop_last(), complete) + block_spec(a.last(), complete)
    }
}

/// A message is complete once its `stop_reason` is present and not null.
pub open spec fn stop_reason_set(m: Json) -> bool {
    match m.member("stop_reason"@) {
        Some(v) => !v.is_null(),
        None => false,
    }
}

pub open spec fn assistant_spec(j: Json) -> Seq<EventModel> {
    if is_api_error(j) {
        api_error_spec(j)
    } else {
        match j.member("message"@) {
            Some(m) => match opt_as_array(m.member("content"@)) {
                Some(a) => blocks_spec(a, stop_reason_set(m)),
                None => seq![],
            },
            None => seq![],
        }
    }
}

/// The text of a summary item: its `text`, or else its `content`.
pub open spec fn item_text(item: Json) -> Option<Seq<char>> {
    match opt_as_str(item.member("text"@)) {
        Some(s) => Some(s),
        None => opt_as_str(item.member("content"@)),
    }
}

pub open spec fn item_texts(a: Seq<Json>) -> Seq<Seq<char>>
    decreases a.len(),
{
    if a.len() == 0 {
        seq![]
    } else {
        item_texts(a.drop_last()) + match item_text(a.last()) {
            Some(s) => seq![s],
            None => seq![],
        }
    }
}

/// The parts joined by newlines (`join("\n")`).
pub open spec fn join_lines(parts: Seq<Seq<char>>) -> Seq<char>
    decreases parts.len(),
{
    if parts.len() == 0 {
        seq![]
    } else if parts.len() == 1 {
        parts[0]
    } else {
        join_lines(parts.drop_last()) + seq!['\n'] + parts.last()
    }
}

/// The summary a compaction message carries: string content as is, or the
/// texts of its content items joined by newlines.
pub open spec fn compact_summary(j: Json) -> Seq<char> {
    match opt_get(j.member("message"@), "content"@) {
        Some(c) => match c.as_str() {
            Some(s) => s,
            None => match c.as_array() {
                Some(a) => join_lines(item_texts(a)),
                None => seq![],
            },
        },
        None => seq![],
    }
}

/// A user message that carries a compaction summary.
pub open spec fn is_compaction(j: Json) -> bool {
    is_true(opt_as_bool(j.member("isCompactSummary"@))) || (is_true(
        opt_as_bool(j.member("isSynthetic"@)),
    ) && !is_true(opt_as_bool(j.member("isReplay"@))))
}

/// The tool-result record of a user message, under either spelling.
pub open spec fn tool_result_of(j: Json) -> Option<Json> {
    match j.member("toolUseResult"@) {
        Some(v) => Some(v),
        None => j.member("tool_use_result"@),
    }
}

/// The first content item of a user message.
pub open spec fn first_content_item(j: Json) -> Option<Json> {
    first_of(opt_as_array(opt_get(j.member("message"@), "content"@)))
}

pub open spec fn first_is_image(a: Seq<Json>) -> bool {
    a.len() > 0 && opt_as_str(a[0].member("type"@)) == Some("image"@)
}

/// The text shown for a tool result.
pub open spec fn tool_result_text(tr: Option<Json>, ci: Option<Json>) -> Seq<char> {
    match tr {
        Some(t) => match opt_as_str(t.member("filePath"@)) {
            Some(fp) => "Your plan has been saved to: "@ + fp,
            None => match t.member("file"@) {
                Some(f) => match opt_as_str(f.member("filePath"@)) {
                    Some(fp) => fp,
                    None => if f.member("base64"@) is Some {
                        "image"@
                    } else {
                        "success"@
                    },
                },
                None => match opt_as_str(opt_get(ci, "content"@)) {
                    Some(c) => c,
                    None => str_or(opt_as_str(t.member("type"@)), "success"@),
                },
            },
        },
        None => match opt_get(ci, "content"@) {
            Some(c) => match c.as_str() {
                Some(s) => s,
                None => match c.as_array() {
                    Some(a) => if first_is_image(a) {
                        "image"@
                    } else {
                        "success"@
                    },
                    None => "success"@,
                },
            },
            None => "success"@,
        },
    }
}

/// Base64 image data of a tool result: from the record's file, else from an image content block.
pub open spec fn image_data(tr: Option<Json>, ci: Option<Json>) -> Option<Seq<char>> {
    match opt_as_str(opt_get(opt_get(tr, "file"@), "base64"@)) {
        Some(s) => Some(s),
        None => match opt_as_array(opt_get(ci, "content"@)) {
            Some(a) => if first_is_image(a) {
                opt_as_str(opt_get(a[0].member("source"@), "data"@))
            } else {
                None
            },
            None => None,
        },
    }
}

pub open spec fn user_spec(j: Json) -> Seq<EventModel> {
    if is_compaction(j) {
        let s = compact_summary(j);
        if s.len() > 0 {
            seq![EventModel::Compacted { summary: s }]
        } else {
            seq![]
        }
    } else {
        let tr = tool_result_of(j);
        let ci = first_content_item(j);
        let tool_id = str_or(opt_as_str(opt_get(ci, "tool_use_id"@)), seq![]);
        if tool_id.len() > 0 {
            seq![
                EventModel::ToolResult {
                    tool_id,
                    result: tool_result_text(tr, ci),
                    is_error: is_true(opt_as_bool(opt_get(ci, "is_error"@))),
                    structured_patch: opt_get(tr, "structuredPatch"@),
                    image_base64: image_data(tr, ci),
                },
            ]
        } else {
            seq![]
        }
    }
}

/// The context window of the first model listed under `modelUsage`.
pub open spec fn context_window_of(j: Json) -> Option<u64> {
    match j.member("modelUsage"@) {
        Some(Json::Object(m)) => if m.len() > 0 {
            opt_as_u64(m[0].1.member("contextWindow"@))
        } else {
            None
        },
        _ => None,
    }
}

pub open spec fn result_spec(st: (u64, u64), j: Json) -> Seq<EventModel> {
    let last = st.0 + st.1;
    seq![
        EventModel::Complete {
            result: str_or(opt_as_str(j.member("result"@)), seq![]),
            cost_usd: match j.member("total_cost_usd"@) {
                Some(Json::Num(n)) => n,
                _ => JsonNumber::PosInt(0),
            },
            total_tokens_in_conversation: if last > 0 {
                Some(last as u64)
            } else {
                None
            },
            context_window_max: context_window_of(j),
            input_tokens_this_turn: if st.0 > 0 {
                Some(st.0)
            } else {
                None
            },
        },
    ]
}

/// The running-time note of a long shell command.
pub open spec fn progress_text(elapsed: u64, output: Seq<char>) -> Seq<char> {
    "\u{23f3} \u{57f7}\u{884c}\u{4e2d}... ("@ + decimal(elapsed as nat) + "s)"@ + if output.len() == 0 {
        seq![]
    } else {
        seq!['\n'] + output
    }
}

pub open spec fn progress_spec(j: Json) -> Seq<EventModel> {
    match j.member("data"@) {
        Some(d) => {
            let data_type = str_or(opt_as_str(d.member("type"@)), seq![]);
            let parent = str_or(opt_as_str(j.member("parentToolUseID"@)), seq![]);
            if data_type == "bash_progress"@ {
                let elapsed = u64_or_zero(opt_as_u64(d.member("elapsedTimeSeconds"@)));
                let output = str_or(opt_as_str(d.member("output"@)), seq![]);
                if parent.len() > 0 && (elapsed % 10 == 0 || output.len() > 0) {
                    seq![
                        EventModel::ToolResult {
                            tool_id: parent,
                            result: progress_text(elapsed, output),
                            is_error: false,
                            structured_patch: None,
                            image_base64: None,
                        },
                    ]
                } else {
                    seq![]
                }
            } else {
                seq![]
            }
        },
        None => seq![],
    }
}

/// What one output line does: the token counters afterwards and the events it yields.
pub open spec fn parse_spec(st: (u64, u64), j: Json) -> ((u64, u64), Seq<EventModel>) {
    match opt_as_str(j.member("type"@)) {
        Some(t) => if t == "system"@ {
            (st, system_spec(j))
        } else if t == "assistant"@ {
            (assistant_state(st, j), assistant_spec(j))
        } else if t == "user"@ {
            (st, user_spec(j))
        } else if t == "result"@ {
            (st, result_spec(st, j))
        } else if t == "progress"@ {
            (st, progress_spec(j))
        } else {
            (st, seq![])
        },
        None => (st, seq![]),
    }
}

/// The token sums of a line fit in `u64`.
pub open spec fn parse_fits(st: (u64, u64), j: Json) -> bool {
    match opt_as_str(j.member("type"@)) {
        Some(t) => (t == "assistant"@ ==> assistant_fits(j)) && (t == "result"@ ==> st.0 + st.1
            <= u64::MAX),
        None => true,
    }
}

fn block_events(b: &JsonValue, complete: bool) -> (r: Vec<ClaudeEvent>)
    ensures
        event_models(r@) == block_spec(b@, complete),
{
    let mut out: Vec<ClaudeEvent> = Vec::new();
    match b.get_str("type") {
        Some(t) => {
            if str_eq(t, "text") {
                match b.get_str("text") {
                    Some(x) => {
                        out.push(ClaudeEvent::Text { text: x.to_owned(), is_complete: complete });
                    },
                    None => {},
                }
            } else if str_eq(t, "tool_use") {
                match (b.get_str("name"), b.get_str("id")) {
                    (Some(n), Some(id)) => {
                        let input = match b.get("input") {
                            Some(v) => v.deep_clone(),
                            None => JsonValue::Null,
                        };
                        out.push(ClaudeEvent::ToolUse { tool_name: n.to_owned(), tool_id: id.to_owned(), input });
                    },
                    _ => {},
                }
            }
        },
        None => {},
    }
    assert(event_models(out@) =~= block_spec(b@, complete));
    out
}

fn blocks_events(a: &Vec<JsonValue>, complete: bool) -> (r: Vec<ClaudeEvent>)
    ensures
        event_models(r@) == blocks_spec(models(a@), complete),
{
    let ghost ma = models(a@);
    let mut out: Vec<ClaudeEvent> = Vec::new();
    let mut i: usize = 0;
    while i < a.len()
        invariant
            0 <= i <= a@.len(),
            ma == models(a@),
            event_models(out@) == blocks_spec(ma.take(i as int), complete),
        decreases a.len() - i,
    {
        proof {
            assert(ma.take(i + 1).drop_last() =~= ma.take(i as int));
            assert(ma.take(i + 1).last() == a@[i as int]@);
        }
        let mut more = block_events(&a[i], complete);
        let ghost before = out@;
        let ghost added = more@;
        out.append(&mut more);
        assert(event_models(out@) =~= event_models(before) + event_models(added));
        i = i + 1;
    }
    assert(ma.take(a@.len() as int) =~= ma);
    out
}

fn api_error_events(json: &JsonValue) -> (r: Vec<ClaudeEvent>)
    ensures
        event_models(r@) == api_error_spec(json@),
{
    let error_code = match json.get_str("error") {
        Some(e) => e.to_owned(),
        None => "unknown".to_owned(),
    };
    let mut text: Option<&str> = None;
    match json.get("message") {
        Some(m) => match m.get_array("content") {
            Some(a) => {
                if a.len() > 0 {
                    text = a[0].get_str("text");
                }
            },
            None => {},
        },
        None => {},
    }
    let message = match text {
        Some(t) => t.to_owned(),
        None => "Unknown API error".to_owned(),
    };
    let mut out: Vec<ClaudeEvent> = Vec::new();
    out.push(ClaudeEvent::ApiError { error_code, message });
    assert(event_models(out@) =~= api_error_spec(json@));
    out
}

/// Decodes the CLI's stream-json output line by line, keeping the token
/// counts of the most recent assistant turn for the `Complete` event.
pub struct ClaudeEventParser {
    last_turn_input_tokens: u64,
    last_turn_output_tokens: u64,
}

impl ClaudeEventParser {
    /// Context tokens of the last assistant turn (fresh plus cached input).
    pub closed spec fn input_tokens(&self) -> u64 {
        self.last_turn_input_tokens
    }

    /// Output tokens of the last assistant turn.
    pub closed spec fn output_tokens(&self) -> u64 {
        self.last_turn_output_tokens
    }

    pub open spec fn state(&self) -> (u64, u64) {
        (self.input_tokens(), self.output_tokens())
    }

    pub fn new() -> (r: Self)
        ensures
            r.state() == (0u64, 0u64),
    {
        ClaudeEventParser { last_turn_input_tokens: 0, last_turn_output_tokens: 0 }
    }

    fn assistant(&mut self, json: &JsonValue) -> (r: Vec<ClaudeEvent>)
        requires
            assistant_fits(json@),
        ensures
            final(self).state() == assistant_state(old(self).state(), json@),
            event_models(r@) == assistant_spec(json@),
    {
        let api_error = match json.get_bool("isApiErrorMessage") {
            Some(b) => b,
            None => false,
        };
        if api_error {
            return api_error_events(json);
        }
        match json.get("message") {
            Some(message) => {
                match message.get("usage") {
                    Some(usage) => {
                        let input = match usage.get_u64("input_tokens") {
                            Some(n) => n,
                            None => 0,
                        };
                        let cache_create = match usage.get_u64("cache_creation_input_tokens") {
                            Some(n) => n,
                            None => 0,
                        };
                        let cache_read = match usage.get_u64("cache_read_input_tokens") {
                            Some(n) => n,
                            None => 0,
                        };
                        self.last_turn_input_tokens = input + cache_create + cache_read;
                        match usage.get_u64("output_tokens") {
                            Some(o) => {
                                self.last_turn_output_tokens = o;
                            },
                            None => {},
                        }
                    },
                    None => {},
                }
                match message.get_array("content") {
                    Some(content) => {
                        let is_complete = match message.get("stop_reason") {
                            Some(v) => !v.is_null(),
                            None => false,
                        };
                        blocks_events(content, is_complete)
                    },
                    None => {
                        let r: Vec<ClaudeEvent> = Vec::new();
                        assert(event_models(r@) =~= assistant_spec(json@));
                        r
                    },
                }
            },
            None => {
                let r: Vec<ClaudeEvent> = Vec::new();
                assert(event_models(r@) =~= assistant_spec(json@));
                r
            },
        }
    }
}

fn item_text_of(item: &JsonValue) -> (r: Option<&str>)
    ensures
        opt_chars(r) == item_text(item@),
{
    match item.get_str("text") {
        Some(t) => Some(t),
        None => item.get_str("content"),
    }
}

fn collect_item_texts(a: &Vec<JsonValue>) -> (r: Vec<String>)
    ensures
        string_models(r@) == item_texts(models(a@)),
{
    let ghost ma = models(a@);
    let mut out: Vec<String> = Vec::new();
    let mut i: usize = 0;
    while i < a.len()
        invariant
            0 <= i <= a@.len(),
            ma == models(a@),
            string_models(out@) == item_texts(ma.take(i as int)),
        decreases a.len() - i,
    {
        proof {
            assert(ma.take(i + 1).drop_last() =~= ma.take(i as int));
            assert(ma.take(i + 1).last() == a@[i as int]@);
        }
        match item_text_of(&a[i]) {
            Some(t) => {
                let ghost before = out@;
                out.push(t.to_owned());
                assert(string_models(out@) =~= string_models(before) + seq![t@]);
            },
            None => {},
        }
        i = i + 1;
    }
    assert(ma.take(a@.len() as int) =~= ma);
    out
}

/// `parts.join("\n")`.
pub fn join_with_newlines(parts: &Vec<String>) -> (r: String)
    ensures
        r@ == join_lines(string_models(parts@)),
{
    let ghost sp = string_models(parts@);
    let mut out = String::new();
    let mut i: usize = 0;
    while i < parts.len()
        invariant
            0 <= i <= parts@.len(),
            sp == string_models(parts@),
            out@ == join_lines(sp.take(i as int)),
        decreases parts.len() - i,
    {
        proof {
            assert(sp.take(i + 1).drop_last() =~= sp.take(i as int));
        }
        if i > 0 {
            push_str(&mut out, "\n");
        }
        push_str(&mut out, parts[i].as_str());
        proof {
            reveal_strlit("\n");
            if i == 0 {
                assert(sp.take(1) =~= seq![parts@[0]@]);
            }
        }
        i = i + 1;
    }
    assert(sp.take(parts@.len() as int) =~= sp);
    out
}

fn compact_summary_of(json: &JsonValue) -> (r: String)
    ensures
        r@ == compact_summary(json@),
{
    match json.get("message") {
        Some(m) => match m.get("content") {
            Some(c) => match c.as_str() {
                Some(s) => s.to_owned(),
                None => match c.as_array() {
                    Some(a) => {
                        let texts = collect_item_texts(a);
                        join_with_newlines(&texts)
                    },
                    None => String::new(),
                },
            },
            None => String::new(),
        },
        None => String::new(),
    }
}

fn first_item(json: &JsonValue) -> (r: Option<&JsonValue>)
    ensures
        opt_model(r) == first_content_item(json@),
{
    match json.get("message") {
        Some(m) => match m.get_array("content") {
            Some(a) => if a.len() > 0 {
                Some(&a[0])
            } else {
                None
            },
            None => None,
        },
        None => None,
    }
}

fn opt_member<'a>(o: Option<&'a JsonValue>, key: &str) -> (r: Option<&'a JsonValue>)
    ensures
        opt_model(r) == opt_get(opt_model(o), key@),
{
    match o {
        Some(v) => v.get(key),
        None => None,
    }
}

fn opt_str<'a>(o: Option<&'a JsonValue>) -> (r: Option<&'a str>)
    ensures
        opt_chars(r) == opt_as_str(opt_model(o)),
{
    match o {
        Some(v) => v.as_str(),
        None => None,
    }
}

fn first_image<'a>(a: &'a Vec<JsonValue>) -> (r: bool)
    ensures
        r == first_is_image(models(a@)),
{
    if a.len() > 0 {
        match a[0].get_str("type") {
            Some(t) => str_eq(t, "image"),
            None => false,
        }
    } else {
        false
    }
}

fn result_text(tr: Option<&JsonValue>, ci: Option<&JsonValue>) -> (r: String)
    ensures
        r@ == tool_result_text(opt_model(tr), opt_model(ci)),
{
    match tr {
        Some(t) => match t.get_str("filePath") {
            Some(fp) => concat("Your plan has been saved to: ", fp),
            None => match t.get("file") {
                Some(f) => match f.get_str("filePath") {
                    Some(fp) => fp.to_owned(),
                    None => if f.get("base64").is_some() {
                        "image".to_owned()
                    } else {
                        "success".to_owned()
                    },
                },
                None => match opt_str(opt_member(ci, "content")) {
                    Some(c) => c.to_owned(),
                    None => match t.get_str("type") {
                        Some(ty) => ty.to_owned(),
                        None => "success".to_owned(),
                    },
                },
            },
        },
        None => match opt_member(ci, "content") {
            Some(c) => match c.as_str() {
                Some(s) => s.to_owned(),
                None => match c.as_array() {
                    Some(a) => if first_image(a) {
                        "image".to_owned()
                    } else {
                        "success".to_owned()
                    },
                    None => "success".to_owned(),
                },
            },
            None => "success".to_owned(),
        },
    }
}

fn image_of(tr: Option<&JsonValue>, ci: Option<&JsonValue>) -> (r: Option<String>)
    ensures
        opt_string_model(r) == image_data(opt_model(tr), opt_model(ci)),
{
    match opt_str(opt_member(opt_member(tr, "file"), "base64")) {
        Some(s) => Some(s.to_owned()),
        None => match opt_member(ci, "content") {
            Some(c) => match c.as_array() {
                Some(a) => if first_image(a) {
                    match opt_str(opt_member(a[0].get("source"), "data")) {
                        Some(d) => Some(d.to_owned()),
                        None => None,
                    }
                } else {
                    None
                },
                None => None,
            },
            None => None,
        },
    }
}

fn opt_clone(o: Option<&JsonValue>) -> (r: Option<JsonValue>)
    ensures
        opt_json_model(r) == opt_model(o),
{
    match o {
        Some(v) => Some(v.deep_clone()),
        None => None,
    }
}

fn user_events(json: &JsonValue) -> (r: Vec<ClaudeEvent>)
    ensures
        event_models(r@) == user_spec(json@),
{
    let mut out: Vec<ClaudeEvent> = Vec::new();
    let is_synthetic = match json.get_bool("isSynthetic") {
        Some(b) => b,
        None => false,
    };
    let is_replay = match json.get_bool("isReplay") {
        Some(b) => b,
        None => false,
    };
    let is_compact_legacy = match json.get_bool("isCompactSummary") {
        Some(b) => b,
        None => false,
    };
    if is_compact_legacy || (is_synthetic && !is_replay) {
        let summary = compact_summary_of(json);
        if summary.as_str().is_empty() {
            assert(event_models(out@) =~= user_spec(json@));
            return out;
        }
        out.push(ClaudeEvent::Compacted { summary });
        assert(event_models(out@) =~= user_spec(json@));
        return out;
    }
    let tool_result = match json.get("toolUseResult") {
        Some(v) => Some(v),
        None => json.get("tool_use_result"),
    };
    let content_item = first_item(json);
    let tool_id = match opt_str(opt_member(content_item, "tool_use_id")) {
        Some(t) => t.to_owned(),
        None => String::new(),
    };
    let is_error = match opt_member(content_item, "is_error") {
        Some(v) => match v.as_bool() {
            Some(b) => b,
            None => false,
        },
        None => false,
    };
    if !tool_id.as_str().is_empty() {
        let result = result_text(tool_result, content_item);
        let structured_patch = opt_clone(opt_member(tool_result, "structuredPatch"));
        let image_base64 = image_of(tool_result, content_item);
        out.push(ClaudeEvent::ToolResult { tool_id, result, is_error, structured_patch, image_base64 });
    }
    assert(event_models(out@) =~= user_spec(json@));
    out
}

fn context_window(json: &JsonValue) -> (r: Option<u64>)
    ensures
        r == context_window_of(json@),
{
    match json.get("modelUsage") {
        Some(JsonValue::Object(m)) => {
            if m.len() > 0 {
                m[0].1.get_u64("contextWindow")
            } else {
                None
            }
        },
        _ => None,
    }
}

fn progress_events(json: &JsonValue) -> (r: Vec<ClaudeEvent>)
    ensures
        event_models(r@) == progress_spec(json@),
{
    let mut out: Vec<ClaudeEvent> = Vec::new();
    match json.get("data") {
        Some(data) => {
            let data_type = match data.get_str("type") {
                Some(t) => t,
                None => "",
            };
            let parent = match json.get_str("parentToolUseID") {
                Some(t) => t,
                None => "",
            };
            proof {
                reveal_strlit("");
            }
            assert(str_or(opt_as_str(data@.member("type"@)), seq![]) == data_type@);
            assert(str_or(opt_as_str(json@.member("parentToolUseID"@)), seq![]) == parent@);
            if str_eq(data_type, "bash_progress") {
                let elapsed = match data.get_u64("elapsedTimeSeconds") {
                    Some(n) => n,
                    None => 0,
                };
                let output = match data.get_str("output") {
                    Some(t) => t,
                    None => "",
                };
                assert(str_or(opt_as_str(data@.member("output"@)), seq![]) == output@);
                if !parent.is_empty() && (elapsed % 10 == 0 || !output.is_empty()) {
                    let mut text = "\u{23f3} \u{57f7}\u{884c}\u{4e2d}... (".to_owned();
                    let n = u64_to_decimal(elapsed);
                    push_str(&mut text, n.as_str());
                    push_str(&mut text, "s)");
                    if !output.is_empty() {
                        push_str(&mut text, "\n");
                        push_str(&mut text, output);
                        proof {
                            reveal_strlit("\n");
                        }
                    }
                    assert(text@ =~= progress_text(elapsed, output@));
                    out.push(ClaudeEvent::ToolResult {
                        tool_id: parent.to_owned(),
                        result: text,
                        is_error: false,
                        structured_patch: None,
                        image_base64: None,
                    });
                    let ghost d = data@;
                    assert(json@.member("data"@) == Some(d));
                    assert(str_or(opt_as_str(d.member("type"@)), seq![]) == data_type@);
                    assert(str_or(opt_as_str(json@.member("parentToolUseID"@)), seq![]) == parent@);
                    assert(u64_or_zero(opt_as_u64(d.member("elapsedTimeSeconds"@))) == elapsed);
                    assert(str_or(opt_as_str(d.member("output"@)), seq![]) == output@);
                    assert(progress_spec(json@).len() == 1);
                    assert(event_models(out@)[0] == progress_spec(json@)[0]);
                }
            }
        },
        None => {},
    }
    assert(event_models(out@) =~= progress_spec(json@));
    out
}

impl ClaudeEventParser {
    fn result_events(&self, json: &JsonValue) -> (r: Vec<ClaudeEvent>)
        requires
            self.state().0 + self.state().1 <= u64::MAX,
        ensures
            event_models(r@) == result_spec(self.state(), json@),
    {
        let result = match json.get_str("result") {
            Some(t) => t.to_owned(),
            None => String::new(),
        };
        let cost_usd = match json.get("total_cost_usd") {
            Some(v) => match v.as_number() {
                Some(n) => n,
                None => JsonNumber::PosInt(0),
            },
            None => JsonNumber::PosInt(0),
        };
        let context_window_max = context_window(json);
        let last_turn_tokens = self.last_turn_input_tokens + self.last_turn_output_tokens;
        let total_tokens_in_conversation = if last_turn_tokens > 0 {
            Some(last_turn_tokens)
        } else {
            None
        };
        let input_tokens_this_turn = if self.last_turn_input_tokens > 0 {
            Some(self.last_turn_input_tokens)
        } else {
            None
        };
        let mut out: Vec<ClaudeEvent> = Vec::new();
        out.push(ClaudeEvent::Complete {
            result,
            cost_usd,
            total_tokens_in_conversation,
            context_window_max,
            input_tokens_this_turn,
        });
        assert(event_models(out@) =~= result_spec(self.state(), json@));
        out
    }

    /// Decodes one line of CLI output.
    pub fn parse(&mut self, json: &JsonValue) -> (r: Vec<ClaudeEvent>)
        requires
            parse_fits(old(self).state(), json@),
        ensures
            (final(self).state(), event_models(r@)) == parse_spec(old(self).state(), json@),
    {
        let empty: Vec<ClaudeEvent> = Vec::new();
        assert(event_models(empty@) =~= Seq::<EventModel>::empty());
        match json.get_str("type") {
            Some(t) => {
                if str_eq(t, "system") {
                    system_events(json)
                } else if str_eq(t, "assistant") {
                    self.assistant(json)
                } else if str_eq(t, "user") {
                    user_events(json)
                } else if str_eq(t, "result") {
                    self.result_events(json)
                } else if str_eq(t, "progress") {
                    progress_events(json)
                } else {
                    empty
                }
            },
            None => empty,
        }
    }
}

/// Whether `parse` may take this line in the parser's current state.
pub fn parse_fits_exec(parser: &ClaudeEventParser, json: &JsonValue) -> (r: bool)
    ensures
        r == parse_fits(parser.state(), json@),
{
    match json.get_str("type") {
        Some(t) => {
            if str_eq(t, "assistant") {
                let api_error = match json.get_bool("isApiErrorMessage") {
                    Some(b) => b,
                    None => false,
                };
                if api_error {
                    return !str_eq(t, "result") || parser.fits_sum();
                }
                match json.get("message") {
                    Some(m) => match m.get("usage") {
                        Some(u) => {
                            let a = match u.get_u64("input_tokens") { Some(n) => n, None => 0 };
                            let b = match u.get_u64("cache_creation_input_tokens") { Some(n) => n, None => 0 };
                            let c = match u.get_u64("cache_read_input_tokens") { Some(n) => n, None => 0 };
                            let ok = a <= u64::MAX - b && a + b <= u64::MAX - c;
                            ok && (!str_eq(t, "result") || parser.fits_sum())
                        },
                        None => !str_eq(t, "result") || parser.fits_sum(),
                    },
                    None => !str_eq(t, "result") || parser.fits_sum(),
                }
            } else {
                !str_eq(t, "result") || parser.fits_sum()
            }
        },
        None => true,
    }
}

impl ClaudeEventParser {
    fn fits_sum(&self) -> (r: bool)
        ensures
            r == (self.state().0 + self.state().1 <= u64::MAX),
    {
        self.last_turn_input_tokens <= u64::MAX - self.last_turn_output_tokens
    }
}

/// Decodes one line with a fresh parser.
pub fn parse_claude_output(json: &JsonValue) -> (r: Vec<ClaudeEvent>)
    requires
        parse_fits((0u64, 0u64), json@),
    ensures
        event_models(r@) == parse_spec((0u64, 0u64), json@).1,
{
    let mut parser = ClaudeEventParser::new();
    parser.parse(json)
}


proof fn lemma_line_types_distinct()
    ensures
        "assistant"@ != "system"@,
        "assistant"@ != "user"@,
        "assistant"@ != "result"@,
        "assistant"@ != "progress"@,
        "result"@ != "system"@,
        "result"@ != "user"@,
        "result"@ != "progress"@,
{
    reveal_strlit("assistant");
    reveal_strlit("system");
    reveal_strlit("user");
    reveal_strlit("result");
    reveal_strlit("progress");
    assert("assistant"@.len() == 9);
    assert("system"@.len() == 6);
    assert("user"@.len() == 4);
    assert("result"@.len() == 6);
    assert("progress"@.len() == 8);
    assert("result"@[0] != "system"@[0]);
}

/// Lines without a `type`, or of a type the parser does not handle, yield
/// no event and leave the token counters as they were.
pub proof fn law_unknown_lines_yield_nothing(st: (u64, u64), j: Json)
    requires
        match opt_as_str(j.member("type"@)) {
            Some(t) => t != "system"@ && t != "assistant"@ && t != "user"@ && t != "result"@ && t != "progress"@,
            None => true,
        },
    ensures
        parse_spec(st, j) == (st, Seq::<EventModel>::empty()),
{
}

/// Only assistant lines move the token counters.
pub proof fn law_only_assistant_lines_count_tokens(st: (u64, u64), j: Json)
    requires
        opt_as_str(j.member("type"@)) != Some("assistant"@),
    ensures
        parse_spec(st, j).0 == st,
{
}

/// An assistant line that is no API error and carries a usage record sets
/// the turn's input to the sum of its input, cache-creation and cache-read
/// tokens (a missing count is 0) and the output to its output tokens (kept
/// when missing); without a usage record the counters stay as they were.
pub proof fn law_assistant_usage_sets_counters(st: (u64, u64), j: Json)
    requires
        opt_as_str(j.member("type"@)) == Some("assistant"@),
        !is_api_error(j),
        assistant_fits(j),
    ensures
        match opt_get(j.member("message"@), "usage"@) {
            Some(u) => parse_spec(st, j).0.0 == u64_or_zero(opt_as_u64(u.member("input_tokens"@))) + u64_or_zero(
                opt_as_u64(u.member("cache_creation_input_tokens"@)),
            ) + u64_or_zero(opt_as_u64(u.member("cache_read_input_tokens"@))) && parse_spec(st, j).0.1 == match opt_as_u64(
                u.member("output_tokens"@),
            ) {
                Some(o) => o,
                None => st.1,
            },
            None => parse_spec(st, j).0 == st,
        },
{
    lemma_line_types_distinct();
}

/// A user line that carries a compaction summary yields the summary as one
/// `Compacted` event (nothing when it is empty), never a tool result, and
/// leaves the counters as they were.
pub proof fn law_compaction_yields_summary(st: (u64, u64), j: Json)
    requires
        opt_as_str(j.member("type"@)) == Some("user"@),
        is_compaction(j),
    ensures
        parse_spec(st, j).0 == st,
        compact_summary(j).len() > 0 ==> parse_spec(st, j).1 == seq![EventModel::Compacted { summary: compact_summary(j) }],
        compact_summary(j).len() == 0 ==> parse_spec(st, j).1 == Seq::<EventModel>::empty(),
{
    lemma_line_types_distinct();
    reveal_strlit("user");
    reveal_strlit("system");
    assert("user"@.len() != "system"@.len());
}

proof fn lemma_blocks_completion(a: Seq<Json>, complete: bool)
    ensures
        forall|i: int|
            0 <= i < blocks_spec(a, complete).len() ==> (#[trigger] blocks_spec(a, complete)[i] matches EventModel::Text {
                is_complete,
                ..
            } ==> is_complete == complete),
    decreases a.len(),
{
    if a.len() > 0 {
        lemma_blocks_completion(a.drop_last(), complete);
        let pre = blocks_spec(a.drop_last(), complete);
        let last = block_spec(a.last(), complete);
        assert forall|i: int| 0 <= i < blocks_spec(a, complete).len() implies (#[trigger] blocks_spec(a, complete)[i] matches EventModel::Text {
            is_complete,
            ..
        } ==> is_complete == complete) by {
            if i < pre.len() {
                assert(blocks_spec(a, complete)[i] == pre[i]);
            } else {
                assert(blocks_spec(a, complete)[i] == last[i - pre.len()]);
            }
        }
    }
}

/// The texts of an assistant line are complete exactly when its message has
/// a `stop_reason` that is present and not null; otherwise they are still
/// streaming.
pub proof fn law_text_complete_iff_stopped(st: (u64, u64), j: Json)
    requires
        opt_as_str(j.member("type"@)) == Some("assistant"@),
    ensures
        forall|i: int|
            0 <= i < parse_spec(st, j).1.len() ==> (#[trigger] parse_spec(st, j).1[i] matches EventModel::Text {
                is_complete,
                ..
            } ==> (is_complete <==> (opt_get(j.member("message"@), "stop_reason"@) matches Some(v) && !(v is Null)))),
{
    lemma_line_types_distinct();
    if !is_api_error(j) {
        match j.member("message"@) {
            Some(m) => match opt_as_array(m.member("content"@)) {
                Some(a) => lemma_blocks_completion(a, stop_reason_set(m)),
                None => {},
            },
            None => {},
        }
    }
}

/// An assistant line marked as an API error yields that error alone and
/// leaves the counters as they were.
pub proof fn law_api_error_reported_alone(st: (u64, u64), j: Json)
    requires
        opt_as_str(j.member("type"@)) == Some("assistant"@),
        is_api_error(j),
    ensures
        parse_spec(st, j).0 == st,
        parse_spec(st, j).1.len() == 1,
        parse_spec(st, j).1[0] is ApiError,
{
    lemma_line_types_distinct();
}

proof fn lemma_blocks_no_api_error(a: Seq<Json>, complete: bool)
    ensures
        forall|i: int| 0 <= i < blocks_spec(a, complete).len() ==> !(#[trigger] blocks_spec(a, complete)[i] is ApiError),
    decreases a.len(),
{
    if a.len() > 0 {
        lemma_blocks_no_api_error(a.drop_last(), complete);
        let pre = blocks_spec(a.drop_last(), complete);
        let last = block_spec(a.last(), complete);
        assert forall|i: int| 0 <= i < blocks_spec(a, complete).len() implies !(#[trigger] blocks_spec(a, complete)[i] is ApiError) by {
            if i < pre.len() {
                assert(blocks_spec(a, complete)[i] == pre[i]);
            } else {
                assert(blocks_spec(a, complete)[i] == last[i - pre.len()]);
            }
        }
    }
}

/// An assistant line that is not marked as an API error never yields one,
/// whatever its text says.
pub proof fn law_plain_assistant_is_no_api_error(st: (u64, u64), j: Json)
    requires
        opt_as_str(j.member("type"@)) == Some("assistant"@),
        !is_api_error(j),
    ensures
        forall|i: int| 0 <= i < parse_spec(st, j).1.len() ==> !(#[trigger] parse_spec(st, j).1[i] is ApiError),
{
    lemma_line_types_distinct();
    match j.member("message"@) {
        Some(m) => match opt_as_array(m.member("content"@)) {
            Some(a) => lemma_blocks_no_api_error(a, stop_reason_set(m)),
            None => {},
        },
        None => {},
    }
}

/// A result line yields one `Complete` event. Its context figure is the
/// last assistant turn's context plus output tokens, present exactly when
/// positive; the turn's input is reported likewise.
pub proof fn law_result_reports_last_turn(st: (u64, u64), j: Json)
    requires
        opt_as_str(j.member("type"@)) == Some("result"@),
        parse_fits(st, j),
    ensures
        parse_spec(st, j).0 == st,
        parse_spec(st, j).1.len() == 1,
        parse_spec(st, j).1[0] matches EventModel::Complete { total_tokens_in_conversation: t, input_tokens_this_turn: it, .. } && (
        t is Some <==> st.0 + st.1 > 0) && (t matches Some(x) ==> x == st.0 + st.1) && (it is Some <==> st.0 > 0) && (
        it matches Some(y) ==> y == st.0),
{
    lemma_line_types_distinct();
}

} // verus!
