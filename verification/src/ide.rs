//! The IDE context server: the state it keeps about the connected editors
//! and the context they share, and its JSON-RPC request handling.
use vstd::prelude::*;
use crate::json::{Json, JsonNumber, JsonValue, opt_as_str, opt_model};
use crate::text::{concat, str_eq};
use crate::events::str_or;

verus! {

broadcast use vstd::std_specs::vec::group_vec_axioms;

/// The port the server listens on unless told otherwise.
pub const DEFAULT_WS_PORT: u16 = 19750;

/// A range of text in an editor.
#[derive(Debug, Clone, Copy, PartialEq, Eq, Structural)]
pub struct SelectionRange {
    pub start_line: u32,
    pub start_character: u32,
    pub end_line: u32,
    pub end_character: u32,
}

impl Default for SelectionRange {
    fn default() -> (r: Self)
        ensures
            r == (SelectionRange { start_line: 0, start_character: 0, end_line: 0, end_character: 0 }),
    {
        SelectionRange { start_line: 0, start_character: 0, end_line: 0, end_character: 0 }
    }
}

/// An error or warning an editor reports.
pub struct Diagnostic {
    pub severity: String,
    pub message: String,
    pub range: SelectionRange,
}

/// What an editor shares: the file it shows, the selection, and the
/// problems in it.
pub struct IdeContext {
    pub file_path: Option<String>,
    pub selected_text: Option<String>,
    pub selection: Option<SelectionRange>,
    pub file_content: Option<String>,
    pub language_id: Option<String>,
    pub diagnostics: Vec<Diagnostic>,
    pub last_updated: Option<String>,
    pub client_id: Option<String>,
}

/// A connected editor.
pub struct ConnectedClient {
    pub id: String,
    pub name: String,
    pub connected_at: String,
    pub workspace_path: Option<String>,
}

/// What the front end is told about the server.
pub struct IdeServerStatus {
    pub running: bool,
    pub port: u16,
    pub connected_clients: Vec<ConnectedClient>,
    pub current_context: Option<IdeContext>,
}

/// A JSON-RPC request from an editor.
pub struct JsonRpcRequest {
    pub jsonrpc: String,
    pub id: Option<JsonValue>,
    pub method: String,
    pub params: Option<JsonValue>,
}

/// A JSON-RPC response to an editor.
pub struct JsonRpcResponse {
    pub jsonrpc: String,
    pub id: Option<JsonValue>,
    pub result: Option<JsonValue>,
    pub error: Option<JsonRpcError>,
}

/// The error part of a JSON-RPC response.
pub struct JsonRpcError {
    pub code: i32,
    pub message: String,
}

/// A change the front end is notified of.
pub enum IdeServerEvent {
    ClientConnected(ConnectedClient),
    ClientDisconnected(String),
    ContextUpdated(IdeContext),
}

pub open spec fn opt_view(o: Option<String>) -> Option<Seq<char>> {
    match o {
        Some(s) => Some(s@),
        None => None,
    }
}

pub struct DiagnosticModel {
    pub severity: Seq<char>,
    pub message: Seq<char>,
    pub range: SelectionRange,
}

impl View for Diagnostic {
    type V = DiagnosticModel;

    open spec fn view(&self) -> DiagnosticModel {
        DiagnosticModel { severity: self.severity@, message: self.message@, range: self.range }
    }
}

pub open spec fn diagnostic_models(v: Seq<Diagnostic>) -> Seq<DiagnosticModel> {
    Seq::new(v.len(), |i: int| v[i]@)
}

pub struct ContextModel {
    pub file_path: Option<Seq<char>>,
    pub selected_text: Option<Seq<char>>,
    pub selection: Option<SelectionRange>,
    pub file_content: Option<Seq<char>>,
    pub language_id: Option<Seq<char>>,
    pub diagnostics: Seq<DiagnosticModel>,
    pub last_updated: Option<Seq<char>>,
    pub client_id: Option<Seq<char>>,
}

impl View for IdeContext {
    type V = ContextModel;

    open spec fn view(&self) -> ContextModel {
        ContextModel {
            file_path: opt_view(self.file_path),
            selected_text: opt_view(self.selected_text),
            selection: self.selection,
            file_content: opt_view(self.file_content),
            language_id: opt_view(self.language_id),
            diagnostics: diagnostic_models(self.diagnostics@),
            last_updated: opt_view(self.last_updated),
            client_id: opt_view(self.client_id),
        }
    }
}

/// The empty context.
pub open spec fn empty_context() -> ContextModel {
    ContextModel {
        file_path: None,
        selected_text: None,
        selection: None,
        file_content: None,
        language_id: None,
        diagnostics: seq![],
        last_updated: None,
        client_id: None,
    }
}

impl Default for IdeContext {
    fn default() -> (r: Self)
        ensures
            r@ == empty_context(),
    {
        let r = IdeContext {
            file_path: None,
            selected_text: None,
            selection: None,
            file_content: None,
            language_id: None,
            diagnostics: Vec::new(),
            last_updated: None,
            client_id: None,
        };
        assert(r@.diagnostics =~= Seq::<DiagnosticModel>::empty());
        r
    }
}

pub struct ClientModel {
    pub id: Seq<char>,
    pub name: Seq<char>,
    pub connected_at: Seq<char>,
    pub workspace_path: Option<Seq<char>>,
}

impl View for ConnectedClient {
    type V = ClientModel;

    open spec fn view(&self) -> ClientModel {
        ClientModel {
            id: self.id@,
            name: self.name@,
            connected_at: self.connected_at@,
            workspace_path: opt_view(self.workspace_path),
        }
    }
}

pub open spec fn client_models(v: Seq<ConnectedClient>) -> Seq<ClientModel> {
    Seq::new(v.len(), |i: int| v[i]@)
}

fn copy_opt(o: &Option<String>) -> (r: Option<String>)
    ensures
        opt_view(r) == opt_view(*o),
{
    match o {
        Some(s) => Some(s.clone()),
        None => None,
    }
}

impl Diagnostic {
    pub fn snapshot(&self) -> (r: Diagnostic)
        ensures
            r@ == self@,
    {
        Diagnostic { severity: self.severity.clone(), message: self.message.clone(), range: self.range }
    }
}

impl ConnectedClient {
    pub fn snapshot(&self) -> (r: ConnectedClient)
        ensures
            r@ == self@,
    {
        ConnectedClient {
            id: self.id.clone(),
            name: self.name.clone(),
            connected_at: self.connected_at.clone(),
            workspace_path: copy_opt(&self.workspace_path),
        }
    }
}

fn copy_diagnostics(v: &Vec<Diagnostic>) -> (r: Vec<Diagnostic>)
    ensures
        diagnostic_models(r@) == diagnostic_models(v@),
{
    let mut out: Vec<Diagnostic> = Vec::new();
    let mut i: usize = 0;
    while i < v.len()
        invariant
            0 <= i <= v@.len(),
            diagnostic_models(out@) =~= diagnostic_models(v@).take(i as int),
        decreases v.len() - i,
    {
        let ghost before = out@;
        let x = v[i].snapshot();
        out.push(x);
        assert(diagnostic_models(out@) =~= diagnostic_models(before).push(v@[i as int]@));
        assert(diagnostic_models(v@).take(i + 1) =~= diagnostic_models(v@).take(i as int).push(v@[i as int]@));
        i = i + 1;
    }
    assert(diagnostic_models(v@).take(v@.len() as int) =~= diagnostic_models(v@));
    out
}

fn copy_clients(v: &Vec<ConnectedClient>) -> (r: Vec<ConnectedClient>)
    ensures
        client_models(r@) == client_models(v@),
{
    let mut out: Vec<ConnectedClient> = Vec::new();
    let mut i: usize = 0;
    while i < v.len()
        invariant
            0 <= i <= v@.len(),
            client_models(out@) =~= client_models(v@).take(i as int),
        decreases v.len() - i,
    {
        let ghost before = out@;
        let x = v[i].snapshot();
        out.push(x);
        assert(client_models(out@) =~= client_models(before).push(v@[i as int]@));
        assert(client_models(v@).take(i + 1) =~= client_models(v@).take(i as int).push(v@[i as int]@));
        i = i + 1;
    }
    assert(client_models(v@).take(v@.len() as int) =~= client_models(v@));
    out
}

impl IdeContext {
    pub fn snapshot(&self) -> (r: IdeContext)
        ensures
            r@ == self@,
    {
        IdeContext {
            file_path: copy_opt(&self.file_path),
            selected_text: copy_opt(&self.selected_text),
            selection: self.selection,
            file_content: copy_opt(&self.file_content),
            language_id: copy_opt(&self.language_id),
            diagnostics: copy_diagnostics(&self.diagnostics),
            last_updated: copy_opt(&self.last_updated),
            client_id: copy_opt(&self.client_id),
        }
    }
}


/// The server's state: whether it runs, its port, the connected editors in
/// the order they connected (one entry per client id), and the shared
/// context.
pub struct IdeServer {
    context: IdeContext,
    clients: Vec<ConnectedClient>,
    running: bool,
    port: u16,
}

pub struct ServerModel {
    pub context: ContextModel,
    pub clients: Seq<ClientModel>,
    pub running: bool,
    pub port: u16,
}

impl View for IdeServer {
    type V = ServerModel;

    closed spec fn view(&self) -> ServerModel {
        ServerModel {
            context: self.context@,
            clients: client_models(self.clients@),
            running: self.running,
            port: self.port,
        }
    }
}

/// The first client with this id.
pub open spec fn client_index(cs: Seq<ClientModel>, id: Seq<char>) -> Option<int>
    decreases cs.len(),
{
    if cs.len() == 0 {
        None
    } else {
        match client_index(cs.drop_last(), id) {
            Some(i) => Some(i),
            None => if cs.last().id == id {
                Some(cs.len() - 1)
            } else {
                None
            },
        }
    }
}

/// The list after a client connects: an entry with the same id is replaced
/// in place, else the client is added at the end.
pub open spec fn clients_insert(cs: Seq<ClientModel>, c: ClientModel) -> Seq<ClientModel> {
    match client_index(cs, c.id) {
        Some(i) => cs.update(i, c),
        None => cs.push(c),
    }
}

/// The list after the client `id` disconnects.
pub open spec fn clients_remove(cs: Seq<ClientModel>, id: Seq<char>) -> Seq<ClientModel> {
    cs.filter(|c: ClientModel| c.id != id)
}

/// A client's entry after its `client/hello`: the name and workspace it gives.
pub open spec fn hello_client(c: ClientModel, params: Json) -> ClientModel {
    ClientModel {
        name: str_or(opt_as_str(params.member("name"@)), c.name),
        workspace_path: match opt_as_str(params.member("workspacePath"@)) {
            Some(w) => Some(w),
            None => c.workspace_path,
        },
        ..c
    }
}

/// The list after `client/hello` from `id` (no change for an unknown id).
pub open spec fn clients_hello(cs: Seq<ClientModel>, id: Seq<char>, params: Json) -> Seq<ClientModel> {
    match client_index(cs, id) {
        Some(i) => cs.update(i, hello_client(cs[i], params)),
        None => cs,
    }
}

/// The string member `key`, else `old`.
pub open spec fn str_member_or(params: Json, key: Seq<char>, old: Option<Seq<char>>) -> Option<Seq<char>> {
    match opt_as_str(params.member(key)) {
        Some(s) => Some(s),
        None => old,
    }
}

/// The context after `context/update` from `client` at time `now`. The
/// selection and the diagnostics are those the params decode to, if they do.
pub open spec fn updated_context(
    c: ContextModel,
    params: Json,
    selection: Option<SelectionRange>,
    diagnostics: Option<Seq<DiagnosticModel>>,
    client: Seq<char>,
    now: Seq<char>,
) -> ContextModel {
    ContextModel {
        file_path: str_member_or(params, "filePath"@, c.file_path),
        selected_text: str_member_or(params, "selectedText"@, c.selected_text),
        selection: match selection {
            Some(s) => Some(s),
            None => c.selection,
        },
        file_content: str_member_or(params, "fileContent"@, c.file_content),
        language_id: str_member_or(params, "languageId"@, c.language_id),
        diagnostics: match diagnostics {
            Some(d) => d,
            None => c.diagnostics,
        },
        last_updated: Some(now),
        client_id: Some(client),
    }
}

/// The context after `selection/changed` from `client` at time `now`.
pub open spec fn selection_changed_context(
    c: ContextModel,
    params: Json,
    selection: Option<SelectionRange>,
    client: Seq<char>,
    now: Seq<char>,
) -> ContextModel {
    ContextModel {
        selected_text: str_member_or(params, "selectedText"@, c.selected_text),
        selection: match selection {
            Some(s) => Some(s),
            None => c.selection,
        },
        last_updated: Some(now),
        client_id: Some(client),
        ..c
    }
}

/// The shared context, when an editor has named a file.
pub open spec fn visible_context(c: ContextModel) -> Option<ContextModel> {
    if c.file_path is Some {
        Some(c)
    } else {
        None
    }
}

impl IdeServer {
    /// A stopped server on `port`, with no client and an empty context.
    pub fn new(port: u16) -> (r: Self)
        ensures
            r@ == (ServerModel { context: empty_context(), clients: seq![], running: false, port }),
    {
        let r = IdeServer { context: IdeContext::default(), clients: Vec::new(), running: false, port };
        assert(r@.clients =~= Seq::<ClientModel>::empty());
        r
    }

    /// Marks the server as listening.
    pub fn set_running(&mut self, running: bool)
        ensures
            final(self)@ == (ServerModel { running, ..old(self)@ }),
    {
        self.running = running;
    }

    /// The shared context, if an editor has named a file.
    pub fn get_context(&self) -> (r: Option<IdeContext>)
        ensures
            match r {
                Some(c) => visible_context(self@.context) == Some(c@),
                None => visible_context(self@.context) is None,
            },
    {
        if self.context.file_path.is_some() {
            Some(self.context.snapshot())
        } else {
            None
        }
    }

    /// The status shown to the front end.
    pub fn get_status(&self) -> (r: IdeServerStatus)
        ensures
            r.running == self@.running,
            r.port == self@.port,
            client_models(r.connected_clients@) == self@.clients,
            match r.current_context {
                Some(c) => visible_context(self@.context) == Some(c@),
                None => visible_context(self@.context) is None,
            },
    {
        IdeServerStatus {
            running: self.running,
            port: self.port,
            connected_clients: copy_clients(&self.clients),
            current_context: self.get_context(),
        }
    }

    fn find_client(&self, id: &str) -> (r: Option<usize>)
        ensures
            match r {
                Some(i) => client_index(self@.clients, id@) == Some(i as int) && i < self@.clients.len(),
                None => client_index(self@.clients, id@) is None,
            },
    {
        let ghost cs = self@.clients;
        let mut i: usize = 0;
        while i < self.clients.len()
            invariant
                0 <= i <= self.clients@.len(),
                cs == client_models(self.clients@),
                client_index(cs.take(i as int), id@) is None,
            decreases self.clients.len() - i,
        {
            assert(cs.take(i + 1).drop_last() =~= cs.take(i as int));
            if str_eq(self.clients[i].id.as_str(), id) {
                assert(client_index(cs.take(i + 1), id@) == Some(i as int));
                proof {
                    lemma_client_index_prefix(cs, id@, i + 1);
                }
                assert(i < cs.len());
                return Some(i);
            }
            i = i + 1;
        }
        assert(cs.take(cs.len() as int) =~= cs);
        None
    }

    /// Records a new connection; the editor is named once it says hello.
    pub fn connect_client(&mut self, id: &str, connected_at: &str) -> (r: IdeServerEvent)
        ensures
            ({
                let c = ClientModel {
                    id: id@,
                    name: "Unknown IDE"@,
                    connected_at: connected_at@,
                    workspace_path: None,
                };
                &&& final(self)@ == (ServerModel { clients: clients_insert(old(self)@.clients, c), ..old(self)@ })
                &&& r matches IdeServerEvent::ClientConnected(x) && x@ == c
            }),
    {
        let c = ConnectedClient {
            id: id.to_owned(),
            name: "Unknown IDE".to_owned(),
            connected_at: connected_at.to_owned(),
            workspace_path: None,
        };
        let ghost cm = c@;
        let ghost before = self@.clients;
        let ev = IdeServerEvent::ClientConnected(c.snapshot());
        match self.find_client(id) {
            Some(i) => {
                self.clients.set(i, c);
                assert(self@.clients =~= before.update(i as int, cm));
            },
            None => {
                self.clients.push(c);
                assert(self@.clients =~= before.push(cm));
            },
        }
        ev
    }

    /// Forgets a connection that closed.
    pub fn disconnect_client(&mut self, id: &str) -> (r: IdeServerEvent)
        ensures
            final(self)@ == (ServerModel { clients: clients_remove(old(self)@.clients, id@), ..old(self)@ }),
            r matches IdeServerEvent::ClientDisconnected(x) && x@ == id@,
    {
        let ghost o = self@.clients;
        let ghost keep = |c: ClientModel| c.id != id@;
        let mut out: Vec<ConnectedClient> = Vec::new();
        let mut i: usize = 0;
        proof {
            reveal(Seq::filter);
        }
        assert(client_models(out@) =~= o.take(0).filter(keep));
        while i < self.clients.len()
            invariant
                0 <= i <= o.len(),
                o == client_models(self.clients@),
                keep == (|c: ClientModel| c.id != id@),
                client_models(out@) == o.take(i as int).filter(keep),
            decreases self.clients.len() - i,
        {
            assert(o.take(i + 1).drop_last() =~= o.take(i as int));
            proof {
                reveal(Seq::filter);
            }
            let ghost before = out@;
            if !str_eq(self.clients[i].id.as_str(), id) {
                let x = self.clients[i].snapshot();
                out.push(x);
                assert(client_models(out@) =~= client_models(before).push(o[i as int]));
            }
            assert(client_models(out@) =~= o.take(i + 1).filter(keep));
            i = i + 1;
        }
        assert(o.take(o.len() as int) =~= o);
        self.clients = out;
        IdeServerEvent::ClientDisconnected(id.to_owned())
    }
}

proof fn lemma_client_index_prefix(cs: Seq<ClientModel>, id: Seq<char>, n: int)
    requires
        0 <= n <= cs.len(),
        client_index(cs.take(n), id) is Some,
    ensures
        client_index(cs, id) == client_index(cs.take(n), id),
    decreases cs.len() - n,
{
    if n < cs.len() {
        assert(cs.take(n + 1).drop_last() =~= cs.take(n));
        lemma_client_index_prefix(cs, id, n + 1);
    } else {
        assert(cs.take(n) =~= cs);
    }
}


/// How serde writes an `i32`: as a non-negative or a negative integer.
pub open spec fn int_number(x: i32) -> JsonNumber {
    if x >= 0 {
        JsonNumber::PosInt(x as u64)
    } else {
        JsonNumber::NegInt(x as i64)
    }
}

fn int_number_exec(x: i32) -> (r: JsonNumber)
    ensures
        r == int_number(x),
{
    if x >= 0 {
        JsonNumber::PosInt(x as u64)
    } else {
        JsonNumber::NegInt(x as i64)
    }
}

impl JsonRpcError {
    pub open spec fn json_model(&self) -> Json {
        Json::Object(seq![("code"@, Json::Num(int_number(self.code))), ("message"@, Json::Str(self.message@))])
    }

    pub fn to_json(&self) -> (r: JsonValue)
        ensures
            r@ == self.json_model(),
    {
        let r = JsonValue::new_object().with("code", JsonValue::Number(int_number_exec(self.code))).with(
            "message",
            JsonValue::string(self.message.as_str()),
        );
        assert(r@->Object_0 =~= self.json_model()->Object_0);
        r
    }
}

pub open spec fn id_json(id: Option<Json>) -> Json {
    match id {
        Some(j) => j,
        None => Json::Null,
    }
}

impl JsonRpcResponse {
    /// The JSON form: `result` and `error` are left out when absent; a
    /// missing id is written as null.
    pub open spec fn json_model(&self) -> Json {
        let base = seq![
            ("jsonrpc"@, Json::Str(self.jsonrpc@)),
            ("id"@, id_json(match self.id {
                Some(j) => Some(j@),
                None => None,
            })),
        ];
        let with_result = match self.result {
            Some(r) => base.push(("result"@, r@)),
            None => base,
        };
        Json::Object(
            match self.error {
                Some(e) => with_result.push(("error"@, e.json_model())),
                None => with_result,
            },
        )
    }

    pub fn to_json(&self) -> (r: JsonValue)
        ensures
            r@ == self.json_model(),
    {
        let id = match &self.id {
            Some(j) => j.deep_clone(),
            None => JsonValue::Null,
        };
        let base = JsonValue::new_object().with("jsonrpc", JsonValue::string(self.jsonrpc.as_str())).with("id", id);
        let with_result = match &self.result {
            Some(r) => base.with("result", r.deep_clone()),
            None => base,
        };
        let r = match &self.error {
            Some(e) => with_result.with("error", e.to_json()),
            None => with_result,
        };
        assert(r@->Object_0 =~= self.json_model()->Object_0);
        r
    }
}

/// The success reply `{"status": "ok"}` to the request `id`.
pub open spec fn ok_reply(id: Option<Json>) -> Json {
    Json::Object(
        seq![
            ("jsonrpc"@, Json::Str("2.0"@)),
            ("id"@, id_json(id)),
            ("result"@, Json::Object(seq![("status"@, Json::Str("ok"@))])),
        ],
    )
}

/// The error reply to the request `id`.
pub open spec fn error_reply(id: Option<Json>, code: i32, message: Seq<char>) -> Json {
    Json::Object(
        seq![
            ("jsonrpc"@, Json::Str("2.0"@)),
            ("id"@, id_json(id)),
            ("error"@, Json::Object(seq![("code"@, Json::Num(int_number(code))), ("message"@, Json::Str(message))])),
        ],
    )
}

fn ok_response(id: &Option<JsonValue>) -> (r: JsonRpcResponse)
    ensures
        r.json_model() == ok_reply(opt_json(*id)),
{
    let result = JsonValue::new_object().with("status", JsonValue::string("ok"));
    let r = JsonRpcResponse {
        jsonrpc: "2.0".to_owned(),
        id: match id {
            Some(j) => Some(j.deep_clone()),
            None => None,
        },
        result: Some(result),
        error: None,
    };
    assert(result@->Object_0 =~= seq![("status"@, Json::Str("ok"@))]);
    assert(r.json_model()->Object_0 =~= ok_reply(opt_json(*id))->Object_0);
    r
}

fn error_response(id: &Option<JsonValue>, code: i32, message: String) -> (r: JsonRpcResponse)
    ensures
        r.json_model() == error_reply(opt_json(*id), code, message@),
{
    let r = JsonRpcResponse {
        jsonrpc: "2.0".to_owned(),
        id: match id {
            Some(j) => Some(j.deep_clone()),
            None => None,
        },
        result: None,
        error: Some(JsonRpcError { code, message }),
    };
    assert(r.json_model()->Object_0 =~= error_reply(opt_json(*id), code, message@)->Object_0);
    r
}

pub open spec fn opt_json(o: Option<JsonValue>) -> Option<Json> {
    match o {
        Some(j) => Some(j@),
        None => None,
    }
}

/// The reply to a message that is not a JSON-RPC request.
pub fn parse_error_response(detail: &str) -> (r: JsonRpcResponse)
    ensures
        r.json_model() == error_reply(None, -32700i32, "Parse error: "@ + detail@),
{
    error_response(&None, -32700, concat("Parse error: ", detail))
}

/// What a request leads to: the reply to send back, if any, and the event
/// for the front end, if any.
pub struct MessageOutcome {
    pub response: Option<JsonRpcResponse>,
    pub event: Option<IdeServerEvent>,
}

pub open spec fn reply_of(o: MessageOutcome) -> Option<Json> {
    match o.response {
        Some(r) => Some(r.json_model()),
        None => None,
    }
}

/// The server state after a request (the client list and the context).
pub open spec fn after_message(
    s: ServerModel,
    method: Seq<char>,
    params: Option<Json>,
    selection: Option<SelectionRange>,
    diagnostics: Option<Seq<DiagnosticModel>>,
    client: Seq<char>,
    now: Seq<char>,
) -> ServerModel {
    if method == "client/hello"@ {
        match params {
            Some(p) => ServerModel { clients: clients_hello(s.clients, client, p), ..s },
            None => s,
        }
    } else if method == "context/update"@ {
        match params {
            Some(p) => ServerModel {
                context: updated_context(s.context, p, selection, diagnostics, client, now),
                ..s
            },
            None => s,
        }
    } else if method == "context/clear"@ {
        ServerModel { context: empty_context(), ..s }
    } else if method == "selection/changed"@ {
        match params {
            Some(p) => ServerModel { context: selection_changed_context(s.context, p, selection, client, now), ..s },
            None => s,
        }
    } else {
        s
    }
}

/// The reply to a request: `{"status": "ok"}` for the known methods but
/// `selection/changed` (which gets none), `-32601` for any other method.
pub open spec fn reply_to(method: Seq<char>, id: Option<Json>) -> Option<Json> {
    if method == "client/hello"@ || method == "context/update"@ || method == "context/clear"@ {
        Some(ok_reply(id))
    } else if method == "selection/changed"@ {
        None
    } else {
        Some(error_reply(id, -32601i32, "Method not found: "@ + method))
    }
}

pub open spec fn opt_diagnostics(o: Option<Vec<Diagnostic>>) -> Option<Seq<DiagnosticModel>> {
    match o {
        Some(v) => Some(diagnostic_models(v@)),
        None => None,
    }
}

impl IdeServer {
    fn hello(&mut self, client_id: &str, params: &JsonValue)
        ensures
            final(self)@ == (ServerModel { clients: clients_hello(old(self)@.clients, client_id@, params@), ..old(self)@ }),
    {
        match self.find_client(client_id) {
            Some(i) => {
                let ghost before = self@.clients;
                let mut c = self.clients[i].snapshot();
                match params.get_str("name") {
                    Some(n) => {
                        c.name = n.to_owned();
                    },
                    None => {},
                }
                match params.get_str("workspacePath") {
                    Some(w) => {
                        c.workspace_path = Some(w.to_owned());
                    },
                    None => {},
                }
                assert(c@ == hello_client(before[i as int], params@));
                self.clients.set(i, c);
                assert(self@.clients =~= clients_hello(before, client_id@, params@));
            },
            None => {},
        }
    }

    /// Handles one JSON-RPC request from the editor `client_id`, received at
    /// time `now`. `selection` and `diagnostics` are what the request's
    /// `selection` and `diagnostics` params decode to, when they do.
    pub fn handle_message(
        &mut self,
        request: &JsonRpcRequest,
        selection: Option<SelectionRange>,
        diagnostics: Option<Vec<Diagnostic>>,
        client_id: &str,
        now: &str,
    ) -> (r: MessageOutcome)
        ensures
            final(self)@ == after_message(
                old(self)@,
                request.method@,
                opt_json(request.params),
                selection,
                opt_diagnostics(diagnostics),
                client_id@,
                now@,
            ),
            reply_of(r) == reply_to(request.method@, opt_json(request.id)),
            request.method@ == "context/update"@ && request.params is Some ==> (r.event matches Some(
                IdeServerEvent::ContextUpdated(c),
            ) && c@ == final(self)@.context),
            !(request.method@ == "context/update"@ && request.params is Some) ==> r.event is None,
    {
        proof {
            reveal_strlit("client/hello");
            reveal_strlit("context/update");
            reveal_strlit("context/clear");
            reveal_strlit("selection/changed");
            assert("client/hello"@.len() == 12);
            assert("context/update"@.len() == 14);
            assert("context/clear"@.len() == 13);
            assert("selection/changed"@.len() == 17);
        }
        let method = request.method.as_str();
        if str_eq(method, "client/hello") {
            match &request.params {
                Some(p) => self.hello(client_id, p),
                None => {},
            }
            MessageOutcome { response: Some(ok_response(&request.id)), event: None }
        } else if str_eq(method, "context/update") {
            match &request.params {
                Some(p) => {
                    let ghost c0 = self@.context;
                    match p.get_str("filePath") {
                        Some(v) => {
                            self.context.file_path = Some(v.to_owned());
                        },
                        None => {},
                    }
                    match p.get_str("selectedText") {
                        Some(v) => {
                            self.context.selected_text = Some(v.to_owned());
                        },
                        None => {},
                    }
                    match selection {
                        Some(sel) => {
                            self.context.selection = Some(sel);
                        },
                        None => {},
                    }
                    match p.get_str("fileContent") {
                        Some(v) => {
                            self.context.file_content = Some(v.to_owned());
                        },
                        None => {},
                    }
                    match p.get_str("languageId") {
                        Some(v) => {
                            self.context.language_id = Some(v.to_owned());
                        },
                        None => {},
                    }
                    match diagnostics {
                        Some(d) => {
                            self.context.diagnostics = d;
                        },
                        None => {},
                    }
                    self.context.last_updated = Some(now.to_owned());
                    self.context.client_id = Some(client_id.to_owned());
                    assert(self@.context == updated_context(
                        c0,
                        p@,
                        selection,
                        opt_diagnostics(diagnostics),
                        client_id@,
                        now@,
                    ));
                    let ev = IdeServerEvent::ContextUpdated(self.context.snapshot());
                    MessageOutcome { response: Some(ok_response(&request.id)), event: Some(ev) }
                },
                None => MessageOutcome { response: Some(ok_response(&request.id)), event: None },
            }
        } else if str_eq(method, "context/clear") {
            self.context = IdeContext::default();
            MessageOutcome { response: Some(ok_response(&request.id)), event: None }
        } else if str_eq(method, "selection/changed") {
            match &request.params {
                Some(p) => {
                    let ghost c0 = self@.context;
                    match p.get_str("selectedText") {
                        Some(v) => {
                            self.context.selected_text = Some(v.to_owned());
                        },
                        None => {},
                    }
                    match selection {
                        Some(sel) => {
                            self.context.selection = Some(sel);
                        },
                        None => {},
                    }
                    self.context.last_updated = Some(now.to_owned());
                    self.context.client_id = Some(client_id.to_owned());
                    assert(self@.context == selection_changed_context(c0, p@, selection, client_id@, now@));
                },
                None => {},
            }
            MessageOutcome { response: None, event: None }
        } else {
            let message = concat("Method not found: ", method);
            MessageOutcome { response: Some(error_response(&request.id, -32601, message)), event: None }
        }
    }
}


/// The notice sent to an editor as soon as it connects.
pub fn welcome_message() -> (r: JsonValue)
    ensures
        r@ == Json::Object(
            seq![
                ("jsonrpc"@, Json::Str("2.0"@)),
                ("method"@, Json::Str("server/hello"@)),
                ("params"@, Json::Object(seq![
                    ("name"@, Json::Str("Tsunu Alive IDE Server"@)),
                    ("version"@, Json::Str("0.1.0"@)),
                ])),
            ],
        ),
{
    let params = JsonValue::new_object().with("name", JsonValue::string("Tsunu Alive IDE Server")).with(
        "version",
        JsonValue::string("0.1.0"),
    );
    let ghost pm = params@;
    let r = JsonValue::new_object().with("jsonrpc", JsonValue::string("2.0")).with(
        "method",
        JsonValue::string("server/hello"),
    ).with("params", params);
    assert(pm->Object_0 =~= seq![
        ("name"@, Json::Str("Tsunu Alive IDE Server"@)),
        ("version"@, Json::Str("0.1.0"@)),
    ]);
    assert(r@->Object_0 =~= seq![
        ("jsonrpc"@, Json::Str("2.0"@)),
        ("method"@, Json::Str("server/hello"@)),
        ("params"@, pm),
    ]);
    r
}

/// `context/clear` empties the shared context, so none is shown until an
/// editor names a file again; the clients stay.
pub proof fn law_clear_hides_context(
    s: ServerModel,
    params: Option<Json>,
    selection: Option<SelectionRange>,
    diagnostics: Option<Seq<DiagnosticModel>>,
    client: Seq<char>,
    now: Seq<char>,
)
    ensures
        ({
            let s2 = after_message(s, "context/clear"@, params, selection, diagnostics, client, now);
            &&& s2.context == empty_context()
            &&& visible_context(s2.context) is None
            &&& s2.clients == s.clients
        }),
{
    reveal_strlit("client/hello");
    reveal_strlit("context/update");
    reveal_strlit("context/clear");
    assert("client/hello"@.len() == 12);
    assert("context/update"@.len() == 14);
    assert("context/clear"@.len() == 13);
}

/// A `context/update` that names a file makes the context visible, records
/// the file, which editor sent it, and when.
pub proof fn law_update_shows_context(
    s: ServerModel,
    p: Json,
    file: Seq<char>,
    selection: Option<SelectionRange>,
    diagnostics: Option<Seq<DiagnosticModel>>,
    client: Seq<char>,
    now: Seq<char>,
)
    requires
        opt_as_str(p.member("filePath"@)) == Some(file),
    ensures
        ({
            let c = after_message(s, "context/update"@, Some(p), selection, diagnostics, client, now).context;
            &&& visible_context(c) == Some(c)
            &&& c.file_path == Some(file)
            &&& c.client_id == Some(client)
            &&& c.last_updated == Some(now)
        }),
{
    reveal_strlit("client/hello");
    reveal_strlit("context/update");
    assert("client/hello"@.len() == 12);
    assert("context/update"@.len() == 14);
}

/// A `context/update` takes each string it carries: the file, the selected
/// text, the file's content and its language; a field it does not carry as a
/// string keeps its value. The decoded selection and diagnostics replace
/// the old ones when present.
pub proof fn law_update_takes_editor_fields(
    s: ServerModel,
    p: Json,
    selection: Option<SelectionRange>,
    diagnostics: Option<Seq<DiagnosticModel>>,
    client: Seq<char>,
    now: Seq<char>,
)
    ensures
        ({
            let c = after_message(s, "context/update"@, Some(p), selection, diagnostics, client, now).context;
            &&& (opt_as_str(p.member("filePath"@)) matches Some(x) ==> c.file_path == Some(x))
            &&& (opt_as_str(p.member("selectedText"@)) matches Some(x) ==> c.selected_text == Some(x))
            &&& (opt_as_str(p.member("fileContent"@)) matches Some(x) ==> c.file_content == Some(x))
            &&& (opt_as_str(p.member("languageId"@)) matches Some(x) ==> c.language_id == Some(x))
            &&& (opt_as_str(p.member("filePath"@)) is None ==> c.file_path == s.context.file_path)
            &&& (opt_as_str(p.member("selectedText"@)) is None ==> c.selected_text == s.context.selected_text)
            &&& (opt_as_str(p.member("fileContent"@)) is None ==> c.file_content == s.context.file_content)
            &&& (opt_as_str(p.member("languageId"@)) is None ==> c.language_id == s.context.language_id)
            &&& (selection matches Some(x) ==> c.selection == Some(x))
            &&& (diagnostics matches Some(d) ==> c.diagnostics == d)
        }),
{
    reveal_strlit("client/hello");
    reveal_strlit("context/update");
    assert("client/hello"@.len() == 12);
    assert("context/update"@.len() == 14);
}

/// `selection/changed` never changes the file, its content, language or
/// diagnostics, and is not answered.
pub proof fn law_selection_change_keeps_file(
    s: ServerModel,
    params: Option<Json>,
    id: Option<Json>,
    selection: Option<SelectionRange>,
    diagnostics: Option<Seq<DiagnosticModel>>,
    client: Seq<char>,
    now: Seq<char>,
)
    ensures
        ({
            let c = after_message(s, "selection/changed"@, params, selection, diagnostics, client, now).context;
            &&& c.file_path == s.context.file_path
            &&& c.file_content == s.context.file_content
            &&& c.language_id == s.context.language_id
            &&& c.diagnostics == s.context.diagnostics
            &&& reply_to("selection/changed"@, id) is None
        }),
{
    reveal_strlit("client/hello");
    reveal_strlit("context/update");
    reveal_strlit("context/clear");
    reveal_strlit("selection/changed");
    assert("client/hello"@.len() == 12);
    assert("context/update"@.len() == 14);
    assert("context/clear"@.len() == 13);
    assert("selection/changed"@.len() == 17);
}

/// A request for an unknown method changes nothing and is answered with
/// the JSON-RPC "method not found" error.
pub proof fn law_unknown_method_refused(
    s: ServerModel,
    method: Seq<char>,
    params: Option<Json>,
    id: Option<Json>,
    selection: Option<SelectionRange>,
    diagnostics: Option<Seq<DiagnosticModel>>,
    client: Seq<char>,
    now: Seq<char>,
)
    requires
        method != "client/hello"@,
        method != "context/update"@,
        method != "context/clear"@,
        method != "selection/changed"@,
    ensures
        after_message(s, method, params, selection, diagnostics, client, now) == s,
        reply_to(method, id) == Some(error_reply(id, -32601i32, "Method not found: "@ + method)),
{
}

proof fn lemma_client_index_found(cs: Seq<ClientModel>, id: Seq<char>)
    ensures
        client_index(cs, id) matches Some(i) ==> 0 <= i < cs.len() && cs[i].id == id,
        client_index(cs, id) is None ==> forall|k: int| 0 <= k < cs.len() ==> cs[k].id != id,
    decreases cs.len(),
{
    if cs.len() > 0 {
        lemma_client_index_found(cs.drop_last(), id);
        assert forall|k: int| 0 <= k < cs.len() - 1 implies cs.drop_last()[k] == cs[k] by {}
    }
}

/// A client that connects is listed with what it sent; one that disconnects
/// is no longer listed.
pub proof fn law_connect_disconnect(cs: Seq<ClientModel>, c: ClientModel)
    ensures
        clients_insert(cs, c).contains(c),
        forall|k: int| 0 <= k < clients_remove(cs, c.id).len() ==> clients_remove(cs, c.id)[k].id != c.id,
{
    lemma_client_index_found(cs, c.id);
    match client_index(cs, c.id) {
        Some(i) => {
            assert(clients_insert(cs, c)[i] == c);
        },
        None => {
            assert(clients_insert(cs, c)[cs.len() as int] == c);
        },
    }
    let keep = |x: ClientModel| x.id != c.id;
    assert forall|k: int| 0 <= k < cs.filter(keep).len() implies cs.filter(keep)[k].id != c.id by {
        cs.lemma_filter_pred(keep, k);
    }
}

} // verus!
