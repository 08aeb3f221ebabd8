use vstd::prelude::*;
use crate::events::{join_lines, str_or, string_models, join_with_newlines};
use crate::json::{Json, JsonValue, models, obj_insert, opt_as_array, opt_as_bool, opt_as_str, opt_chars, opt_get, opt_model, shift};
use crate::text::{concat, has_prefix, starts_with, str_eq, trim, trim_str};
use crate::workspace::{is_system_message, system_message};

verus! {

/// A tool call in a restored conversation.
#[derive(Debug)]
pub struct HistoryToolUse {
    pub id: String,
    pub name: String,
    pub tool_type: String,
    pub input: JsonValue,
    pub result: Option<String>,
    pub structured_patch: Option<JsonValue>,
    pub is_error: Option<bool>,
}

/// One item of a restored message.
#[derive(Debug)]
pub enum HistoryChatItem {
    Text { content: String },
    Tool { tool: HistoryToolUse },
}

/// A restored message: "user" or "assistant", with its items.
#[derive(Debug)]
pub struct HistoryMessage {
    pub role: String,
    pub items: Vec<HistoryChatItem>,
}

pub struct ToolModel {
    pub id: Seq<char>,
    pub name: Seq<char>,
    pub tool_type: Seq<char>,
    pub input: Json,
    pub result: Option<Seq<char>>,
    pub structured_patch: Option<Json>,
    pub is_error: Option<bool>,
}

pub enum ItemModel {
    Text { content: Seq<char> },
    Tool { tool: ToolModel },
}

pub struct MessageModel {
    pub role: Seq<char>,
    pub items: Seq<ItemModel>,
}

pub open spec fn opt_string_view(o: Option<String>) -> Option<Seq<char>> {
    match o {
        Some(s) => Some(s@),
        None => None,
    }
}

pub open spec fn opt_json_view(o: Option<JsonValue>) -> Option<Json> {
    match o {
        Some(v) => Some(v@),
        None => None,
    }
}

impl View for HistoryToolUse {
    type V = ToolModel;

    open spec fn view(&self) -> ToolModel {
        ToolModel {
            id: self.id@,
            name: self.name@,
            tool_type: self.tool_type@,
            input: self.input@,
            result: opt_string_view(self.result),
            structured_patch: opt_json_view(self.structured_patch),
            is_error: self.is_error,
        }
    }
}

impl View for HistoryChatItem {
    type V = ItemModel;

    open spec fn view(&self) -> ItemModel {
        match self {
            HistoryChatItem::Text { content } => ItemModel::Text { content: content@ },
            HistoryChatItem::Tool { tool } => ItemModel::Tool { tool: tool@ },
        }
    }
}

pub open spec fn item_models(v: Seq<HistoryChatItem>) -> Seq<ItemModel> {
    Seq::new(v.len(), |i: int| v[i]@)
}

impl View for HistoryMessage {
    type V = MessageModel;

    open spec fn view(&self) -> MessageModel {
        MessageModel { role: self.role@, items: item_models(self.items@) }
    }
}

pub open spec fn message_models(v: Seq<HistoryMessage>) -> Seq<MessageModel> {
    Seq::new(v.len(), |i: int| v[i]@)
}

/// What a tool-result entry sets on the tool call it answers.
pub struct ToolUpdate {
    pub result: Option<Seq<char>>,
    pub is_error: Option<bool>,
    pub plan_file_path: Option<Seq<char>>,
    pub structured_patch: Option<Json>,
}

/// A tool call after its result arrives: the result text replaces the old one;
/// an error flag, a plan path (added to an object input as `_planFilePath`) and
/// a structured patch are set only when present.
pub open spec fn apply_update(t: ToolModel, u: ToolUpdate) -> ToolModel {
    ToolModel {
        result: u.result,
        is_error: if u.is_error == Some(true) {
            Some(true)
        } else {
            t.is_error
        },
        input: match u.plan_file_path {
            Some(p) => if t.input is Object {
                Json::Object(obj_insert(t.input->Object_0, "_planFilePath"@, Json::Str(p)))
            } else {
                t.input
            },
            None => t.input,
        },
        structured_patch: if u.structured_patch is Some {
            u.structured_patch
        } else {
            t.structured_patch
        },
        ..t
    }
}

pub open spec fn is_tool_with_id(item: ItemModel, id: Seq<char>) -> bool {
    match item {
        ItemModel::Tool { tool } => tool.id == id,
        _ => false,
    }
}

/// The position of the first tool call with this id.
pub open spec fn tool_index(items: Seq<ItemModel>, id: Seq<char>) -> Option<int>
    decreases items.len(),
{
    if items.len() == 0 {
        None
    } else if is_tool_with_id(items[0], id) {
        Some(0)
    } else {
        match tool_index(items.drop_first(), id) {
            Some(i) => Some(i + 1),
            None => None,
        }
    }
}

pub open spec fn answers(m: MessageModel, id: Seq<char>) -> bool {
    m.role == "assistant"@ && tool_index(m.items, id) is Some
}

pub open spec fn update_item(item: ItemModel, u: ToolUpdate) -> ItemModel {
    match item {
        ItemModel::Tool { tool } => ItemModel::Tool { tool: apply_update(tool, u) },
        other => other,
    }
}

pub open spec fn update_message(m: MessageModel, id: Seq<char>, u: ToolUpdate) -> MessageModel {
    match tool_index(m.items, id) {
        Some(j) => MessageModel { items: m.items.update(j, update_item(m.items[j], u)), ..m },
        None => m,
    }
}

/// The tool result lands on the first matching call of the latest assistant
/// message that has one; without such a message nothing changes.
pub open spec fn update_latest(msgs: Seq<MessageModel>, id: Seq<char>, u: ToolUpdate) -> Seq<MessageModel>
    decreases msgs.len(),
{
    if msgs.len() == 0 {
        msgs
    } else if answers(msgs.last(), id) {
        msgs.drop_last().push(update_message(msgs.last(), id, u))
    } else {
        update_latest(msgs.drop_last(), id, u).push(msgs.last())
    }
}

/// The result text a tool-result entry records, from the entry's record first.
pub open spec fn record_result(tur: Option<Json>) -> Option<Seq<char>> {
    match tur {
        Some(t) => match opt_as_str(t.member("filePath"@)) {
            Some(fp) => Some("Your plan has been saved to: "@ + fp),
            None => match t.member("file"@) {
                Some(f) => match opt_as_str(f.member("filePath"@)) {
                    Some(fp) => Some(fp),
                    None => if f.member("base64"@) is Some {
                        Some("image"@)
                    } else {
                        None
                    },
                },
                None => None,
            },
        },
        None => None,
    }
}

/// The result text carried by the content item itself.
pub open spec fn content_result(item: Json) -> Option<Seq<char>> {
    match item.member("content"@) {
        Some(c) => match c.as_str() {
            Some(s) => Some(s),
            None => match c.as_array() {
                Some(a) => if a.len() > 0 {
                    if opt_as_str(a[0].member("type"@)) == Some("image"@) {
                        Some("image"@)
                    } else {
                        Some("success"@)
                    }
                } else {
                    None
                },
                None => None,
            },
        },
        None => None,
    }
}

pub open spec fn tool_update(item: Json, j: Json) -> ToolUpdate {
    let tur = j.member("toolUseResult"@);
    ToolUpdate {
        result: match record_result(tur) {
            Some(r) => Some(r),
            None => content_result(item),
        },
        is_error: opt_as_bool(item.member("is_error"@)),
        plan_file_path: opt_as_str(opt_get(tur, "filePath"@)),
        structured_patch: opt_get(tur, "structuredPatch"@),
    }
}

/// One content item of a user entry: texts (other than IDE notes) are
/// collected, tool results update the tool call they answer.
pub open spec fn user_item(msgs: Seq<MessageModel>, texts: Seq<Seq<char>>, item: Json, j: Json) -> (
    Seq<MessageModel>,
    Seq<Seq<char>>,
) {
    let ty = str_or(opt_as_str(item.member("type"@)), seq![]);
    if ty == "text"@ {
        match opt_as_str(item.member("text"@)) {
            Some(x) => if !has_prefix(x, "<ide_"@) {
                (msgs, texts.push(x))
            } else {
                (msgs, texts)
            },
            None => (msgs, texts),
        }
    } else if ty == "tool_result"@ {
        (
            update_latest(msgs, str_or(opt_as_str(item.member("tool_use_id"@)), seq![]), tool_update(item, j)),
            texts,
        )
    } else {
        (msgs, texts)
    }
}

pub open spec fn user_items(msgs: Seq<MessageModel>, items: Seq<Json>, j: Json) -> (
    Seq<MessageModel>,
    Seq<Seq<char>>,
)
    decreases items.len(),
{
    if items.len() == 0 {
        (msgs, seq![])
    } else {
        let (m, t) = user_items(msgs, items.drop_last(), j);
        user_item(m, t, items.last(), j)
    }
}

pub open spec fn text_message(role: Seq<char>, text: Seq<char>) -> MessageModel {
    MessageModel { role, items: seq![ItemModel::Text { content: text }] }
}

/// The messages once a pending assistant message with content is stored.
pub open spec fn flush(msgs: Seq<MessageModel>, current: Option<MessageModel>) -> Seq<MessageModel> {
    match current {
        Some(m) => if m.items.len() > 0 {
            msgs.push(m)
        } else {
            msgs
        },
        None => msgs,
    }
}

pub open spec fn user_entry(msgs: Seq<MessageModel>, j: Json) -> Seq<MessageModel> {
    let content = opt_get(j.member("message"@), "content"@);
    match opt_as_array(content) {
        Some(items) => {
            let (m, t) = user_items(msgs, items, j);
            if t.len() > 0 {
                m.push(text_message("user"@, join_lines(t)))
            } else {
                m
            }
        },
        None => match opt_as_str(content) {
            Some(s) => msgs.push(text_message("user"@, s)),
            None => msgs,
        },
    }
}

/// The items an assistant entry contributes: visible texts and tool calls.
pub open spec fn assistant_item(item: Json) -> Seq<ItemModel> {
    let ty = str_or(opt_as_str(item.member("type"@)), seq![]);
    if ty == "text"@ {
        match opt_as_str(item.member("text"@)) {
            Some(x) => if trim(x).len() > 0 && !system_message(x) {
                seq![ItemModel::Text { content: x }]
            } else {
                seq![]
            },
            None => seq![],
        }
    } else if ty == "tool_use"@ {
        let name = str_or(opt_as_str(item.member("name"@)), seq![]);
        seq![
            ItemModel::Tool {
                tool: ToolModel {
                    id: str_or(opt_as_str(item.member("id"@)), seq![]),
                    name: name,
                    tool_type: name,
                    input: match item.member("input"@) {
                        Some(v) => v,
                        None => Json::Object(seq![]),
                    },
                    result: None,
                    structured_patch: None,
                    is_error: None,
                },
            },
        ]
    } else {
        seq![]
    }
}

pub open spec fn assistant_items(items: Seq<Json>) -> Seq<ItemModel>
    decreases items.len(),
{
    if items.len() == 0 {
        seq![]
    } else {
        assistant_items(items.drop_last()) + assistant_item(items.last())
    }
}

pub open spec fn assistant_entry(j: Json) -> Option<MessageModel> {
    match j.member("message"@) {
        Some(m) => match opt_as_array(m.member("content"@)) {
            Some(items) => {
                let its = assistant_items(items);
                if its.len() > 0 {
                    Some(MessageModel { role: "assistant"@, items: its })
                } else {
                    None
                }
            },
            None => None,
        },
        None => None,
    }
}

/// One transcript entry: stored messages and the pending assistant message.
pub open spec fn history_step(st: (Seq<MessageModel>, Option<MessageModel>), j: Json) -> (
    Seq<MessageModel>,
    Option<MessageModel>,
) {
    let ty = str_or(opt_as_str(j.member("type"@)), seq![]);
    if ty == "user"@ {
        (user_entry(flush(st.0, st.1), j), None)
    } else if ty == "assistant"@ {
        (flush(st.0, st.1), assistant_entry(j))
    } else {
        st
    }
}

pub open spec fn history_run(entries: Seq<Json>) -> (Seq<MessageModel>, Option<MessageModel>)
    decreases entries.len(),
{
    if entries.len() == 0 {
        (seq![], None)
    } else {
        history_step(history_run(entries.drop_last()), entries.last())
    }
}

/// The most messages a restored conversation keeps: the latest ones.
pub open spec fn max_history_messages() -> nat {
    200
}

/// The conversation a transcript restores, at most its last 200 messages.
pub open spec fn history_of(entries: Seq<Json>) -> Seq<MessageModel> {
    let st = history_run(entries);
    let all = flush(st.0, st.1);
    if all.len() > max_history_messages() {
        all.skip(all.len() - max_history_messages())
    } else {
        all
    }
}

struct ResultUpdate {
    result: Option<String>,
    is_error: Option<bool>,
    plan_file_path: Option<String>,
    structured_patch: Option<JsonValue>,
}

impl ResultUpdate {
    spec fn model(&self) -> ToolUpdate {
        ToolUpdate {
            result: opt_string_view(self.result),
            is_error: self.is_error,
            plan_file_path: opt_string_view(self.plan_file_path),
            structured_patch: opt_json_view(self.structured_patch),
        }
    }
}

fn apply_to_tool(tool: &mut HistoryToolUse, upd: ResultUpdate)
    ensures
        final(tool)@ == apply_update(old(tool)@, upd.model()),
{
    let ghost u = upd.model();
    let ResultUpdate { result, is_error, plan_file_path, structured_patch } = upd;
    tool.result = result;
    if is_error == Some(true) {
        tool.is_error = Some(true);
    }
    match plan_file_path {
        Some(p) => {
            let v = JsonValue::string(p.as_str());
            tool.input.set_member("_planFilePath", v);
            proof {
                reveal_strlit("_planFilePath");
            }
        },
        None => {},
    }
    if structured_patch.is_some() {
        tool.structured_patch = structured_patch;
    }
    assert(tool@ == apply_update(old(tool)@, u));
}

proof fn lemma_tool_index_bounds(items: Seq<ItemModel>, id: Seq<char>)
    ensures
        tool_index(items, id) matches Some(j) ==> 0 <= j < items.len() && is_tool_with_id(items[j], id),
    decreases items.len(),
{
    if items.len() > 0 && !is_tool_with_id(items[0], id) {
        lemma_tool_index_bounds(items.drop_first(), id);
    }
}

fn find_tool(items: &Vec<HistoryChatItem>, id: &str) -> (r: Option<usize>)
    ensures
        match r {
            Some(j) => tool_index(item_models(items@), id@) == Some(j as int) && j < items@.len(),
            None => tool_index(item_models(items@), id@) is None,
        },
{
    let ghost im = item_models(items@);
    let mut i: usize = 0;
    assert(im.skip(0) =~= im);
    assert(tool_index(im, id@) == shift(tool_index(im.skip(0), id@), 0)) by {
        match tool_index(im, id@) {
            Some(x) => {},
            None => {},
        }
    }
    while i < items.len()
        invariant
            0 <= i <= items@.len(),
            im == item_models(items@),
            tool_index(im, id@) == shift(tool_index(im.skip(i as int), id@), i as int),
        decreases items.len() - i,
    {
        assert(im.skip(i as int)[0] == items@[i as int]@);
        match &items[i] {
            HistoryChatItem::Tool { tool } => {
                if str_eq(tool.id.as_str(), id) {
                    return Some(i);
                }
            },
            _ => {},
        }
        assert(im.skip(i as int).drop_first() =~= im.skip(i + 1));
        i = i + 1;
    }
    assert(im.skip(i as int).len() == 0);
    None
}

proof fn lemma_update_latest_suffix(msgs: Seq<MessageModel>, id: Seq<char>, u: ToolUpdate, k: int)
    requires
        0 <= k <= msgs.len(),
        forall|i: int| k <= i < msgs.len() ==> !answers(#[trigger] msgs[i], id),
    ensures
        update_latest(msgs, id, u) == update_latest(msgs.take(k), id, u) + msgs.skip(k),
    decreases msgs.len() - k,
{
    if k == msgs.len() {
        assert(msgs.take(k) =~= msgs);
        assert(msgs.skip(k) =~= Seq::<MessageModel>::empty());
        assert(update_latest(msgs.take(k), id, u) + msgs.skip(k) =~= update_latest(msgs, id, u));
    } else {
        let d = msgs.drop_last();
        assert(!answers(msgs[msgs.len() - 1], id));
        lemma_update_latest_suffix(d, id, u, k);
        assert(d.take(k) =~= msgs.take(k));
        assert(d.skip(k).push(msgs.last()) =~= msgs.skip(k));
        assert(update_latest(msgs, id, u) == update_latest(d, id, u).push(msgs.last()));
        assert(update_latest(msgs.take(k), id, u) + msgs.skip(k) =~= (update_latest(d.take(k), id, u)
            + d.skip(k)).push(msgs.last()));
    }
}

fn update_messages(messages: &mut Vec<HistoryMessage>, id: &str, upd: ResultUpdate)
    ensures
        message_models(final(messages)@) == update_latest(message_models(old(messages)@), id@, upd.model()),
{
    let ghost mm = message_models(messages@);
    let ghost u = upd.model();
    let mut k: usize = messages.len();
    while k > 0
        invariant
            0 <= k <= messages@.len(),
            messages@ == old(messages)@,
            mm == message_models(messages@),
            u == upd.model(),
            forall|i: int| k <= i < mm.len() ==> !answers(#[trigger] mm[i], id@),
        decreases k,
    {
        k = k - 1;
        assert(mm[k as int] == messages@[k as int]@);
        if str_eq(messages[k].role.as_str(), "assistant") {
            match find_tool(&messages[k].items, id) {
                Some(j) => {
                    proof {
                        lemma_update_latest_suffix(mm, id@, u, k + 1);
                        assert(mm.take(k + 1).drop_last() =~= mm.take(k as int));
                        assert(mm.take(k + 1).last() == mm[k as int]);
                    }
                    let ghost old_items = item_models(messages@[k as int].items@);
                    proof {
                        lemma_tool_index_bounds(old_items, id@);
                        assert(old_items[j as int] == messages@[k as int].items@[j as int]@);
                    }
                    let mut msg = messages.remove(k);
                    let mut item = msg.items.remove(j);
                    let ghost old_item = item@;
                    assert(old_item == old_items[j as int]);
                    assert(is_tool_with_id(old_item, id@));
                    match item {
                        HistoryChatItem::Tool { mut tool } => {
                            assert(old_item == ItemModel::Tool { tool: tool@ });
                            let ghost t0 = tool@;
                            apply_to_tool(&mut tool, upd);
                            assert(tool@ == apply_update(t0, u));
                            item = HistoryChatItem::Tool { tool };
                        },
                        HistoryChatItem::Text { content } => {
                            item = HistoryChatItem::Text { content };
                        },
                    }
                    assert(item@ == update_item(old_item, u));
                    msg.items.insert(j, item);
                    assert(item_models(msg.items@) =~= old_items.update(j as int, update_item(old_items[j as int], u)));
                    messages.insert(k, msg);
                    assert(message_models(messages@) =~= mm.take(k as int).push(update_message(mm[k as int], id@, u)) + mm.skip(k + 1));
                    return;
                },
                None => {},
            }
        }
    }
    proof {
        lemma_update_latest_suffix(mm, id@, u, 0);
        assert(mm.take(0) =~= Seq::<MessageModel>::empty());
        assert(mm.skip(0) =~= mm);
    }
}

fn opt_clone(o: Option<&JsonValue>) -> (r: Option<JsonValue>)
    ensures
        opt_json_view(r) == opt_model(o),
{
    match o {
        Some(v) => Some(v.deep_clone()),
        None => None,
    }
}

fn record_result_of(tur: Option<&JsonValue>) -> (r: Option<String>)
    ensures
        opt_string_view(r) == record_result(opt_model(tur)),
{
    match tur {
        Some(t) => match t.get_str("filePath") {
            Some(fp) => Some(concat("Your plan has been saved to: ", fp)),
            None => match t.get("file") {
                Some(f) => match f.get_str("filePath") {
                    Some(fp) => Some(fp.to_owned()),
                    None => if f.get("base64").is_some() {
                        Some("image".to_owned())
                    } else {
                        None
                    },
                },
                None => None,
            },
        },
        None => None,
    }
}

fn content_result_of(item: &JsonValue) -> (r: Option<String>)
    ensures
        opt_string_view(r) == content_result(item@),
{
    match item.get("content") {
        Some(c) => match c.as_str() {
            Some(s) => Some(s.to_owned()),
            None => match c.as_array() {
                Some(a) => if a.len() > 0 {
                    let is_image = match a[0].get_str("type") {
                        Some(t) => str_eq(t, "image"),
                        None => false,
                    };
                    if is_image {
                        Some("image".to_owned())
                    } else {
                        Some("success".to_owned())
                    }
                } else {
                    None
                },
                None => None,
            },
        },
        None => None,
    }
}

fn tool_update_of(item: &JsonValue, json: &JsonValue) -> (r: ResultUpdate)
    ensures
        r.model() == tool_update(item@, json@),
{
    let tur = json.get("toolUseResult");
    let result = match record_result_of(tur) {
        Some(r) => Some(r),
        None => content_result_of(item),
    };
    let is_error = item.get_bool("is_error");
    let plan_file_path = match tur {
        Some(t) => match t.get_str("filePath") {
            Some(p) => Some(p.to_owned()),
            None => None,
        },
        None => None,
    };
    let structured_patch = match tur {
        Some(t) => opt_clone(t.get("structuredPatch")),
        None => None,
    };
    ResultUpdate { result, is_error, plan_file_path, structured_patch }
}

fn str_or_empty(o: Option<&str>) -> (r: &str)
    ensures
        r@ == str_or(opt_chars(o), seq![]),
{
    proof {
        reveal_strlit("");
    }
    match o {
        Some(s) => s,
        None => "",
    }
}

fn text_message_exec(role: &str, text: String) -> (r: HistoryMessage)
    ensures
        r@ == text_message(role@, text@),
{
    let mut items: Vec<HistoryChatItem> = Vec::new();
    items.push(HistoryChatItem::Text { content: text });
    let r = HistoryMessage { role: role.to_owned(), items };
    assert(r@.items =~= text_message(role@, text@).items);
    r
}

fn user_entry_exec(messages: &mut Vec<HistoryMessage>, json: &JsonValue)
    ensures
        message_models(final(messages)@) == user_entry(message_models(old(messages)@), json@),
{
    let content = match json.get("message") {
        Some(m) => m.get("content"),
        None => None,
    };
    match content {
        Some(c) => match c.as_array() {
            Some(items) => {
                let ghost mi = models(items@);
                let ghost m0 = message_models(messages@);
                let mut texts: Vec<String> = Vec::new();
                let mut i: usize = 0;
                while i < items.len()
                    invariant
                        0 <= i <= items@.len(),
                        mi == models(items@),
                        (message_models(messages@), string_models(texts@)) == user_items(m0, mi.take(i as int), json@),
                    decreases items.len() - i,
                {
                    assert(mi.take(i + 1).drop_last() =~= mi.take(i as int));
                    assert(mi.take(i + 1).last() == items@[i as int]@);
                    let item = &items[i];
                    let ty = str_or_empty(item.get_str("type"));
                    if str_eq(ty, "text") {
                        match item.get_str("text") {
                            Some(x) => {
                                if !starts_with(x, "<ide_") {
                                    let ghost before = texts@;
                                    texts.push(x.to_owned());
                                    assert(string_models(texts@) =~= string_models(before).push(x@));
                                }
                            },
                            None => {},
                        }
                    } else if str_eq(ty, "tool_result") {
                        let id = str_or_empty(item.get_str("tool_use_id"));
                        let upd = tool_update_of(item, json);
                        update_messages(messages, id, upd);
                    }
                    i = i + 1;
                }
                assert(mi.take(items@.len() as int) =~= mi);
                if texts.len() > 0 {
                    let joined = join_with_newlines(&texts);
                    let msg = text_message_exec("user", joined);
                    let ghost before = message_models(messages@);
                    messages.push(msg);
                    assert(message_models(messages@) =~= before.push(msg@));
                }
            },
            None => match c.as_str() {
                Some(s) => {
                    let msg = text_message_exec("user", s.to_owned());
                    let ghost before = message_models(messages@);
                    messages.push(msg);
                    assert(message_models(messages@) =~= before.push(msg@));
                },
                None => {},
            },
        },
        None => {},
    }
}

fn assistant_item_exec(item: &JsonValue) -> (r: Vec<HistoryChatItem>)
    ensures
        item_models(r@) == assistant_item(item@),
{
    let mut out: Vec<HistoryChatItem> = Vec::new();
    let ty = str_or_empty(item.get_str("type"));
    if str_eq(ty, "text") {
        match item.get_str("text") {
            Some(x) => {
                let t = trim_str(x);
                if !t.as_str().is_empty() && !is_system_message(x) {
                    out.push(HistoryChatItem::Text { content: x.to_owned() });
                }
            },
            None => {},
        }
    } else if str_eq(ty, "tool_use") {
        let id = str_or_empty(item.get_str("id"));
        let name = str_or_empty(item.get_str("name"));
        let input = match item.get("input") {
            Some(v) => v.deep_clone(),
            None => {
                let empty = JsonValue::Object(Vec::new());
                assert(empty@->Object_0 =~= Seq::<(Seq<char>, Json)>::empty());
                empty
            },
        };
        let tool = HistoryToolUse {
            id: id.to_owned(),
            name: name.to_owned(),
            tool_type: name.to_owned(),
            input,
            result: None,
            structured_patch: None,
            is_error: None,
        };
        out.push(HistoryChatItem::Tool { tool });
    }
    assert(item_models(out@) =~= assistant_item(item@));
    out
}

fn assistant_entry_exec(json: &JsonValue) -> (r: Option<HistoryMessage>)
    ensures
        match r {
            Some(m) => assistant_entry(json@) == Some(m@),
            None => assistant_entry(json@) is None,
        },
{
    match json.get("message") {
        Some(m) => match m.get_array("content") {
            Some(items) => {
                let ghost mi = models(items@);
                let mut its: Vec<HistoryChatItem> = Vec::new();
                let mut i: usize = 0;
                while i < items.len()
                    invariant
                        0 <= i <= items@.len(),
                        mi == models(items@),
                        item_models(its@) == assistant_items(mi.take(i as int)),
                    decreases items.len() - i,
                {
                    assert(mi.take(i + 1).drop_last() =~= mi.take(i as int));
                    assert(mi.take(i + 1).last() == items@[i as int]@);
                    let mut more = assistant_item_exec(&items[i]);
                    let ghost before = item_models(its@);
                    let ghost added = item_models(more@);
                    its.append(&mut more);
                    assert(item_models(its@) =~= before + added);
                    i = i + 1;
                }
                assert(mi.take(items@.len() as int) =~= mi);
                if its.len() > 0 {
                    Some(HistoryMessage { role: "assistant".to_owned(), items: its })
                } else {
                    None
                }
            },
            None => None,
        },
        None => None,
    }
}

fn flush_exec(messages: &mut Vec<HistoryMessage>, current: Option<HistoryMessage>)
    ensures
        message_models(final(messages)@) == flush(message_models(old(messages)@), match current {
            Some(m) => Some(m@),
            None => None,
        }),
{
    match current {
        Some(m) => {
            if m.items.len() > 0 {
                let ghost before = message_models(messages@);
                let ghost mv = m@;
                messages.push(m);
                assert(message_models(messages@) =~= before.push(mv));
            }
        },
        None => {},
    }
}

pub open spec fn opt_message_view(o: Option<HistoryMessage>) -> Option<MessageModel> {
    match o {
        Some(m) => Some(m@),
        None => None,
    }
}

/// Rebuilds a conversation from the entries of a session transcript (the
/// lines that hold JSON, in order), keeping at most its last 200 messages.
pub fn restore_history(entries: &Vec<JsonValue>) -> (r: Vec<HistoryMessage>)
    ensures
        message_models(r@) == history_of(models(entries@)),
{
    let ghost me = models(entries@);
    let mut messages: Vec<HistoryMessage> = Vec::new();
    let mut current: Option<HistoryMessage> = None;
    let mut i: usize = 0;
    assert(message_models(messages@) =~= Seq::<MessageModel>::empty());
    assert(me.take(0) =~= Seq::<Json>::empty());
    while i < entries.len()
        invariant
            0 <= i <= entries@.len(),
            me == models(entries@),
            (message_models(messages@), opt_message_view(current)) == history_run(me.take(i as int)),
        decreases entries.len() - i,
    {
        assert(me.take(i + 1).drop_last() =~= me.take(i as int));
        assert(me.take(i + 1).last() == entries@[i as int]@);
        let json = &entries[i];
        let ty = str_or_empty(json.get_str("type"));
        if str_eq(ty, "user") {
            let pending = current;
            current = None;
            flush_exec(&mut messages, pending);
            user_entry_exec(&mut messages, json);
        } else if str_eq(ty, "assistant") {
            let pending = current;
            flush_exec(&mut messages, pending);
            current = assistant_entry_exec(json);
        }
        i = i + 1;
    }
    assert(me.take(entries@.len() as int) =~= me);
    flush_exec(&mut messages, current);
    let len = messages.len();
    if len > 200 {
        let ghost all = message_models(messages@);
        let kept = messages.split_off(len - 200);
        assert(message_models(kept@) =~= all.skip(all.len() - 200));
        kept
    } else {
        messages
    }
}


/// A restored conversation holds at most 200 messages, and they are the
/// latest ones of the transcript, in order.
pub proof fn law_history_keeps_latest(entries: Seq<Json>)
    ensures
        history_of(entries).len() <= max_history_messages(),
        ({
            let st = history_run(entries);
            let all = flush(st.0, st.1);
            history_of(entries) == all.subrange(all.len() - history_of(entries).len(), all.len() as int)
        }),
{
    let st = history_run(entries);
    let all = flush(st.0, st.1);
    if all.len() > max_history_messages() {
        assert(all.skip(all.len() - max_history_messages()) =~= all.subrange(
            all.len() - max_history_messages(),
            all.len() as int,
        ));
    } else {
        assert(all =~= all.subrange(0, all.len() as int));
    }
}

/// The texts restored from an assistant message are never blank and never
/// the CLI's bookkeeping.
pub proof fn law_assistant_texts_are_conversation(item: Json)
    ensures
        forall|i: int| 0 <= i < assistant_item(item).len() ==> (#[trigger] assistant_item(item)[i] matches ItemModel::Text {
            content,
        } ==> trim(content).len() > 0 && !system_message(content)),
{
}

/// A restored message as the front end receives it: a user message holds
/// one text; an assistant message holds at least one item, and none of its
/// texts is blank or the CLI's bookkeeping.
pub open spec fn restored_message_ok(m: MessageModel) -> bool {
    ||| m.role == "user"@ && m.items.len() == 1 && m.items[0] is Text
    ||| m.role == "assistant"@ && m.items.len() > 0 && forall|i: int|
        0 <= i < m.items.len() ==> (#[trigger] m.items[i] matches ItemModel::Text { content } ==> trim(content).len() > 0
            && !system_message(content))
}

pub open spec fn all_ok(msgs: Seq<MessageModel>) -> bool {
    forall|i: int| 0 <= i < msgs.len() ==> restored_message_ok(#[trigger] msgs[i])
}

pub open spec fn run_ok(st: (Seq<MessageModel>, Option<MessageModel>)) -> bool {
    &&& all_ok(st.0)
    &&& st.1 matches Some(m) ==> restored_message_ok(m)
}

proof fn lemma_assistant_items_ok(items: Seq<Json>)
    ensures
        forall|i: int| 0 <= i < assistant_items(items).len() ==> (#[trigger] assistant_items(items)[i] matches ItemModel::Text {
            content,
        } ==> trim(content).len() > 0 && !system_message(content)),
    decreases items.len(),
{
    if items.len() > 0 {
        lemma_assistant_items_ok(items.drop_last());
        let pre = assistant_items(items.drop_last());
        let last = assistant_item(items.last());
        law_assistant_texts_are_conversation(items.last());
        assert forall|i: int| 0 <= i < assistant_items(items).len() implies (#[trigger] assistant_items(items)[i] matches ItemModel::Text {
            content,
        } ==> trim(content).len() > 0 && !system_message(content)) by {
            if i < pre.len() {
                assert(assistant_items(items)[i] == pre[i]);
            } else {
                assert(assistant_items(items)[i] == last[i - pre.len()]);
            }
        }
    }
}

proof fn lemma_update_message_ok(m: MessageModel, id: Seq<char>, u: ToolUpdate)
    requires
        restored_message_ok(m),
        answers(m, id),
    ensures
        restored_message_ok(update_message(m, id, u)),
{
    lemma_tool_index_bounds(m.items, id);
    reveal_strlit("user");
    reveal_strlit("assistant");
    assert("user"@.len() != "assistant"@.len());
    let j = tool_index(m.items, id)->Some_0;
    let m2 = update_message(m, id, u);
    assert(m2.items[j] is Tool);
    assert forall|i: int| 0 <= i < m2.items.len() implies (#[trigger] m2.items[i] matches ItemModel::Text { content } ==> trim(
        content,
    ).len() > 0 && !system_message(content)) by {
        if i != j {
            assert(m2.items[i] == m.items[i]);
        }
    }
}

proof fn lemma_update_latest_ok(msgs: Seq<MessageModel>, id: Seq<char>, u: ToolUpdate)
    requires
        all_ok(msgs),
    ensures
        all_ok(update_latest(msgs, id, u)),
    decreases msgs.len(),
{
    if msgs.len() > 0 {
        let d = msgs.drop_last();
        assert(all_ok(d)) by {
            assert forall|i: int| 0 <= i < d.len() implies restored_message_ok(#[trigger] d[i]) by {
                assert(d[i] == msgs[i]);
            }
        }
        let r = update_latest(msgs, id, u);
        if answers(msgs.last(), id) {
            lemma_update_message_ok(msgs.last(), id, u);
            assert forall|i: int| 0 <= i < r.len() implies restored_message_ok(#[trigger] r[i]) by {
                if i < d.len() {
                    assert(r[i] == d[i]);
                }
            }
        } else {
            lemma_update_latest_ok(d, id, u);
            let r0 = update_latest(d, id, u);
            assert forall|i: int| 0 <= i < r.len() implies restored_message_ok(#[trigger] r[i]) by {
                if i < r0.len() {
                    assert(r[i] == r0[i]);
                } else {
                    assert(r[i] == msgs.last());
                }
            }
        }
    }
}

proof fn lemma_user_items_ok(msgs: Seq<MessageModel>, items: Seq<Json>, j: Json)
    requires
        all_ok(msgs),
    ensures
        all_ok(user_items(msgs, items, j).0),
    decreases items.len(),
{
    if items.len() > 0 {
        lemma_user_items_ok(msgs, items.drop_last(), j);
        let (m, t) = user_items(msgs, items.drop_last(), j);
        let item = items.last();
        let ty = str_or(opt_as_str(item.member("type"@)), seq![]);
        if ty != "text"@ && ty == "tool_result"@ {
            lemma_update_latest_ok(m, str_or(opt_as_str(item.member("tool_use_id"@)), seq![]), tool_update(item, j));
        }
    }
}

proof fn lemma_push_ok(msgs: Seq<MessageModel>, m: MessageModel)
    requires
        all_ok(msgs),
        restored_message_ok(m),
    ensures
        all_ok(msgs.push(m)),
{
    assert forall|i: int| 0 <= i < msgs.push(m).len() implies restored_message_ok(#[trigger] msgs.push(m)[i]) by {
        if i < msgs.len() {
            assert(msgs.push(m)[i] == msgs[i]);
        }
    }
}

proof fn lemma_flush_ok(st: (Seq<MessageModel>, Option<MessageModel>))
    requires
        run_ok(st),
    ensures
        all_ok(flush(st.0, st.1)),
{
    if let Some(m) = st.1 {
        if m.items.len() > 0 {
            lemma_push_ok(st.0, m);
        }
    }
}

proof fn lemma_history_run_ok(entries: Seq<Json>)
    ensures
        run_ok(history_run(entries)),
    decreases entries.len(),
{
    if entries.len() > 0 {
        lemma_history_run_ok(entries.drop_last());
        let st = history_run(entries.drop_last());
        let j = entries.last();
        let ty = str_or(opt_as_str(j.member("type"@)), seq![]);
        lemma_flush_ok(st);
        let f = flush(st.0, st.1);
        reveal_strlit("user");
        reveal_strlit("assistant");
        if ty == "user"@ {
            let content = opt_get(j.member("message"@), "content"@);
            match opt_as_array(content) {
                Some(items) => {
                    lemma_user_items_ok(f, items, j);
                    let (m, t) = user_items(f, items, j);
                    if t.len() > 0 {
                        lemma_push_ok(m, text_message("user"@, join_lines(t)));
                    }
                },
                None => match opt_as_str(content) {
                    Some(s) => lemma_push_ok(f, text_message("user"@, s)),
                    None => {},
                },
            }
        } else if ty == "assistant"@ {
            match j.member("message"@) {
                Some(m) => match opt_as_array(m.member("content"@)) {
                    Some(items) => lemma_assistant_items_ok(items),
                    None => {},
                },
                None => {},
            }
        }
    }
}

/// Every restored message is well formed: a user message is one text, an
/// assistant message has at least one item and no blank or bookkeeping text.
pub proof fn law_restored_messages_are_well_formed(entries: Seq<Json>)
    ensures
        all_ok(history_of(entries)),
{
    let st = history_run(entries);
    lemma_history_run_ok(entries);
    lemma_flush_ok(st);
    let all = flush(st.0, st.1);
    if all.len() > max_history_messages() {
        let k = all.len() - max_history_messages();
        assert forall|i: int| 0 <= i < all.skip(k).len() implies restored_message_ok(#[trigger] all.skip(k)[i]) by {
            assert(all.skip(k)[i] == all[i + k]);
        }
    }
}

/// A tool result whose entry's `toolUseResult` names no plan file (no string
/// `filePath`) and no `file` is the tool-result item's own text.
pub proof fn law_tool_result_falls_back_to_content(item: Json, j: Json, text: Seq<char>)
    requires
        opt_as_str(opt_get(j.member("toolUseResult"@), "filePath"@)) is None,
        opt_get(j.member("toolUseResult"@), "file"@) is None,
        item.member("content"@) == Some(Json::Str(text)),
    ensures
        tool_update(item, j).result == Some(text),
{
}

/// Restoring a tool call and the result that answers it: the assistant's
/// `tool_use` with id `id` is restored as one tool whose result is the text
/// of the user's `tool_result` for `id`, when the entry's `toolUseResult`
/// names no plan file and no `file`.
pub proof fn law_tool_call_gets_its_result(
    a: Json,
    am: Json,
    tu: Json,
    u: Json,
    tr: Json,
    id: Seq<char>,
    text: Seq<char>,
)
    requires
        opt_as_str(a.member("type"@)) == Some("assistant"@),
        a.member("message"@) == Some(am),
        opt_as_array(am.member("content"@)) == Some(seq![tu]),
        opt_as_str(tu.member("type"@)) == Some("tool_use"@),
        opt_as_str(tu.member("id"@)) == Some(id),
        opt_as_str(u.member("type"@)) == Some("user"@),
        opt_as_array(opt_get(u.member("message"@), "content"@)) == Some(seq![tr]),
        opt_as_str(tr.member("type"@)) == Some("tool_result"@),
        opt_as_str(tr.member("tool_use_id"@)) == Some(id),
        tr.member("content"@) == Some(Json::Str(text)),
        opt_as_str(opt_get(u.member("toolUseResult"@), "filePath"@)) is None,
        opt_get(u.member("toolUseResult"@), "file"@) is None,
    ensures
        history_of(seq![a, u]).len() == 1,
        history_of(seq![a, u])[0].role == "assistant"@,
        history_of(seq![a, u])[0].items.len() == 1,
        history_of(seq![a, u])[0].items[0] matches ItemModel::Tool { tool } && tool.id == id && tool.result == Some(
            text,
        ),
{
    reveal_strlit("user");
    reveal_strlit("assistant");
    reveal_strlit("text");
    reveal_strlit("tool_use");
    reveal_strlit("tool_result");
    assert("user"@.len() != "assistant"@.len());
    assert("text"@.len() != "tool_use"@.len());
    assert("text"@.len() != "tool_result"@.len());
    let entries = seq![a, u];
    assert(entries.drop_last() =~= seq![a]);
    assert(seq![a].drop_last() =~= Seq::<Json>::empty());
    let items = seq![tu];
    assert(items.drop_last() =~= Seq::<Json>::empty());
    assert(items.last() == tu);
    assert(assistant_items(Seq::<Json>::empty()) == Seq::<ItemModel>::empty());
    assert(assistant_items(items) =~= assistant_item(tu));
    assert(assistant_item(tu).len() == 1);
    assert(assistant_entry(a) is Some);
    let msg = assistant_entry(a)->Some_0;
    assert(seq![a].last() == a);
    assert(history_run(Seq::<Json>::empty()) == (Seq::<MessageModel>::empty(), None::<MessageModel>));
    assert(flush(Seq::<MessageModel>::empty(), None) == Seq::<MessageModel>::empty());
    assert(msg.items.len() == 1);
    assert(history_run(seq![a]) == (Seq::<MessageModel>::empty(), Some(msg)));
    let f = flush(Seq::<MessageModel>::empty(), Some(msg));
    assert(f =~= seq![msg]);
    let tritems = seq![tr];
    assert(tritems.drop_last() =~= Seq::<Json>::empty());
    assert(is_tool_with_id(msg.items[0], id));
    assert(tool_index(msg.items, id) == Some(0int));
    assert(answers(msg, id));
    let upd = tool_update(tr, u);
    law_tool_result_falls_back_to_content(tr, u, text);
    assert(f.last() == msg);
    assert(f.drop_last() =~= Seq::<MessageModel>::empty());
    let m2 = update_message(msg, id, upd);
    assert(update_latest(f, id, upd) == seq![m2]);
    assert(tritems.last() == tr);
    assert(user_items(f, Seq::<Json>::empty(), u) == (f, Seq::<Seq<char>>::empty()));
    assert(str_or(opt_as_str(tr.member("type"@)), seq![]) == "tool_result"@);
    assert(str_or(opt_as_str(tr.member("tool_use_id"@)), seq![]) == id);
    assert(user_item(f, Seq::<Seq<char>>::empty(), tr, u) == (seq![m2], Seq::<Seq<char>>::empty()));
    assert(user_items(f, tritems, u) == (seq![m2], Seq::<Seq<char>>::empty()));
    assert(user_entry(f, u) == seq![m2]);
    assert(history_run(entries) == (seq![m2], None::<MessageModel>));
    assert(history_of(entries) == seq![m2]);
}

} // verus!
