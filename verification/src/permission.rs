//! The permission policy behind the hook server: which tool requests are
//! answered at once, which wait for the user, the per-session whitelist, and
//! the answers sent back to the hook script.
use vstd::prelude::*;
use crate::json::{Json, JsonValue, opt_as_str};
use crate::text::str_eq;
use crate::cli::{list_contains, str_views};

verus! {

broadcast use vstd::std_specs::vec::group_vec_axioms;

/// A permission request sent by the hook script.
pub struct PermissionRequest {
    pub tool_name: String,
    pub tool_input: JsonValue,
    pub tool_use_id: String,
    pub session_id: Option<String>,
}

/// The decision returned to the hook script.
pub struct PermissionResponse {
    pub behavior: String,
    pub message: Option<String>,
    pub updated_input: Option<JsonValue>,
}

/// The event that asks the front end to confirm a tool.
pub struct PermissionRequestEvent {
    pub tool_name: String,
    pub tool_input: JsonValue,
    pub tool_use_id: String,
    pub session_id: Option<String>,
}

/// The event that asks the front end to approve a plan (`ExitPlanMode`).
pub struct PlanApprovalEvent {
    pub tool_use_id: String,
    pub plan_content: Option<String>,
    pub plan_file_path: Option<String>,
}

/// The user's decision, sent by the front end.
pub struct PermissionRespondRequest {
    pub tool_use_id: String,
    pub behavior: String,
    pub message: Option<String>,
}

/// A request to let a tool run for the rest of a session.
pub struct WhitelistAddRequest {
    pub session_id: String,
    pub tool_name: String,
}

pub open spec fn opt_view(o: Option<String>) -> Option<Seq<char>> {
    match o {
        Some(s) => Some(s@),
        None => None,
    }
}

/// The model of a response: behavior, message and edited input.
pub open spec fn response_model(r: PermissionResponse) -> (Seq<char>, Option<Seq<char>>, Option<Json>) {
    (r.behavior@, opt_view(r.message), match r.updated_input {
        Some(j) => Some(j@),
        None => None,
    })
}

impl PermissionResponse {
    /// The JSON form; absent fields are left out.
    pub open spec fn json_model(&self) -> Json {
        let base = seq![("behavior"@, Json::Str(self.behavior@))];
        let with_message = match self.message {
            Some(m) => base.push(("message"@, Json::Str(m@))),
            None => base,
        };
        Json::Object(
            match self.updated_input {
                Some(j) => with_message.push(("updated_input"@, j@)),
                None => with_message,
            },
        )
    }

    pub fn to_json(&self) -> (r: JsonValue)
        ensures
            r@ == self.json_model(),
    {
        let base = JsonValue::new_object().with("behavior", JsonValue::string(self.behavior.as_str()));
        let with_message = match &self.message {
            Some(m) => base.with("message", JsonValue::string(m.as_str())),
            None => base,
        };
        let r = match &self.updated_input {
            Some(j) => with_message.with("updated_input", j.deep_clone()),
            None => with_message,
        };
        assert(r@->Object_0 =~= self.json_model()->Object_0);
        r
    }

    /// Lets the tool run as requested.
    pub fn allow() -> (r: Self)
        ensures
            response_model(r) == ("allow"@, None::<Seq<char>>, None::<Json>),
    {
        PermissionResponse { behavior: "allow".to_owned(), message: None, updated_input: None }
    }

    /// Refuses the tool, saying why.
    pub fn deny(message: &str) -> (r: Self)
        ensures
            response_model(r) == ("deny"@, Some(message@), None::<Json>),
    {
        PermissionResponse { behavior: "deny".to_owned(), message: Some(message.to_owned()), updated_input: None }
    }
}

/// The tools the hook server lets run without asking.
pub open spec fn hook_auto_allow_list() -> Seq<Seq<char>> {
    seq![
        "AskUserQuestion"@,
        "TodoRead"@, "TodoWrite"@,
        "Read"@, "Glob"@, "Grep"@,
        "Task"@, "TaskOutput"@,
        "WebSearch"@, "WebFetch"@,
        "EnterPlanMode"@,
    ]
}

/// The tools the hook server lets run without asking (see `hook_auto_allow_list`).
pub fn auto_allow_tools() -> (r: Vec<&'static str>)
    ensures
        str_views(r@) == hook_auto_allow_list(),
{
    let r = vec![
        "AskUserQuestion",
        "TodoRead", "TodoWrite",
        "Read", "Glob", "Grep",
        "Task", "TaskOutput",
        "WebSearch", "WebFetch",
        "EnterPlanMode",
    ];
    assert(str_views(r@) =~= hook_auto_allow_list());
    r
}

/// Facts on the list: eleven distinct names, none of which changes files,
/// runs commands or leaves plan mode.
pub proof fn lemma_hook_list_facts()
    ensures
        hook_auto_allow_list().len() == 11,
        hook_auto_allow_list().no_duplicates(),
        !hook_auto_allow_list().contains("ExitPlanMode"@),
        !hook_auto_allow_list().contains("Edit"@),
        !hook_auto_allow_list().contains("Write"@),
        !hook_auto_allow_list().contains("Bash"@),
        !hook_auto_allow_list().contains("NotebookEdit"@),
{
    reveal_strlit("AskUserQuestion");
    reveal_strlit("TodoRead");
    reveal_strlit("TodoWrite");
    reveal_strlit("Read");
    reveal_strlit("Glob");
    reveal_strlit("Grep");
    reveal_strlit("Task");
    reveal_strlit("TaskOutput");
    reveal_strlit("WebSearch");
    reveal_strlit("WebFetch");
    reveal_strlit("EnterPlanMode");
    reveal_strlit("ExitPlanMode");
    reveal_strlit("Edit");
    reveal_strlit("Write");
    reveal_strlit("Bash");
    reveal_strlit("NotebookEdit");
    let l = hook_auto_allow_list();
    assert forall|i: int, j: int| 0 <= i < l.len() && 0 <= j < l.len() && i != j implies l[i] != l[j] by {
        if l[i] == l[j] {
            assert(l[i].len() == l[j].len());
            assert(l[i][0] == l[j][0]);
            assert(l[i][1] == l[j][1]);
            assert(l[i][l[i].len() - 1] == l[j][l[j].len() - 1]);
            assert(l[i][4] == l[j][4]);
        }
    }
    assert forall|i: int| 0 <= i < l.len() implies l[i] != "ExitPlanMode"@ && l[i] != "Edit"@ && l[i] != "Write"@
        && l[i] != "Bash"@ && l[i] != "NotebookEdit"@ by {
        assert(l[i][0] != 'E' || l[i][1] == 'n');
        assert(l[i][0] != 'W' || l[i][1] == 'e');
        assert(l[i][0] != 'B');
        assert(l[i][0] != 'N');
    }
}


/// The ids in a list.
pub open spec fn id_set(v: Seq<String>) -> Set<Seq<char>> {
    Set::new(|x: Seq<char>| exists|i: int| 0 <= i < v.len() && #[trigger] v[i]@ == x)
}

/// The (session, tool) pairs in a list.
pub open spec fn pair_set(v: Seq<(String, String)>) -> Set<(Seq<char>, Seq<char>)> {
    Set::new(|p: (Seq<char>, Seq<char>)| exists|i: int| 0 <= i < v.len() && #[trigger] v[i].0@ == p.0 && v[i].1@ == p.1)
}

/// The permission state: the requests that wait for the user, by tool use
/// id, and for each session the tools it lets run without asking.
pub struct PermissionState {
    pending: Vec<String>,
    session_allowed_tools: Vec<(String, String)>,
}

/// The model of the permission state.
pub struct PermissionModel {
    pub pending: Set<Seq<char>>,
    pub allowed: Set<(Seq<char>, Seq<char>)>,
}

impl View for PermissionState {
    type V = PermissionModel;

    closed spec fn view(&self) -> PermissionModel {
        PermissionModel { pending: id_set(self.pending@), allowed: pair_set(self.session_allowed_tools@) }
    }
}

/// Whether the whitelist lets `tool` run in the session, if there is one.
pub open spec fn whitelisted(m: PermissionModel, session_id: Option<Seq<char>>, tool: Seq<char>) -> bool {
    match session_id {
        Some(s) => m.allowed.contains((s, tool)),
        None => false,
    }
}

proof fn lemma_id_set_push(s: Seq<String>, x: String)
    ensures
        id_set(s.push(x)) == id_set(s).insert(x@),
{
    let n = s.push(x);
    assert forall|y: Seq<char>| id_set(n).contains(y) implies id_set(s).insert(x@).contains(y) by {
        let i = choose|i: int| 0 <= i < n.len() && #[trigger] n[i]@ == y;
        if i < s.len() {
            assert(s[i] == n[i]);
        }
    }
    assert forall|y: Seq<char>| id_set(s).insert(x@).contains(y) implies id_set(n).contains(y) by {
        if y == x@ {
            assert(n[s.len() as int]@ == y);
        } else {
            let i = choose|i: int| 0 <= i < s.len() && #[trigger] s[i]@ == y;
            assert(n[i] == s[i]);
        }
    }
    assert(id_set(n) =~= id_set(s).insert(x@));
}

proof fn lemma_id_set_empty(s: Seq<String>)
    requires
        s.len() == 0,
    ensures
        id_set(s) == Set::<Seq<char>>::empty(),
{
    assert(id_set(s) =~= Set::<Seq<char>>::empty());
}

proof fn lemma_pair_set_push(s: Seq<(String, String)>, x: (String, String))
    ensures
        pair_set(s.push(x)) == pair_set(s).insert((x.0@, x.1@)),
{
    let n = s.push(x);
    assert forall|p: (Seq<char>, Seq<char>)| pair_set(n).contains(p) implies pair_set(s).insert((x.0@, x.1@)).contains(
        p,
    ) by {
        let i = choose|i: int| 0 <= i < n.len() && #[trigger] n[i].0@ == p.0 && n[i].1@ == p.1;
        if i < s.len() {
            assert(s[i] == n[i]);
        }
    }
    assert forall|p: (Seq<char>, Seq<char>)| pair_set(s).insert((x.0@, x.1@)).contains(p) implies pair_set(n).contains(
        p,
    ) by {
        if p == (x.0@, x.1@) {
            assert(n[s.len() as int].0@ == p.0);
        } else {
            let i = choose|i: int| 0 <= i < s.len() && #[trigger] s[i].0@ == p.0 && s[i].1@ == p.1;
            assert(n[i] == s[i]);
        }
    }
    assert(pair_set(n) =~= pair_set(s).insert((x.0@, x.1@)));
}

proof fn lemma_pair_set_empty(s: Seq<(String, String)>)
    requires
        s.len() == 0,
    ensures
        pair_set(s) == Set::<(Seq<char>, Seq<char>)>::empty(),
{
    assert(pair_set(s) =~= Set::<(Seq<char>, Seq<char>)>::empty());
}

fn remove_id(v: &mut Vec<String>, id: &str)
    ensures
        id_set(final(v)@) == id_set(old(v)@).remove(id@),
{
    let ghost o = v@;
    let mut out: Vec<String> = Vec::new();
    let mut i: usize = 0;
    proof {
        lemma_id_set_empty(out@);
        lemma_id_set_empty(o.take(0));
    }
    assert(id_set(out@) =~= id_set(o.take(0)).remove(id@));
    while i < v.len()
        invariant
            0 <= i <= o.len(),
            v@ == o,
            id_set(out@) == id_set(o.take(i as int)).remove(id@),
        decreases v.len() - i,
    {
        proof {
            assert(o.take(i + 1) =~= o.take(i as int).push(o[i as int]));
            lemma_id_set_push(o.take(i as int), o[i as int]);
        }
        if !str_eq(v[i].as_str(), id) {
            let ghost before = out@;
            out.push(v[i].clone());
            proof {
                lemma_id_set_push(before, v@[i as int]);
            }
            assert(id_set(out@) =~= id_set(o.take(i + 1)).remove(id@));
        } else {
            assert(id_set(out@) =~= id_set(o.take(i + 1)).remove(id@));
        }
        i = i + 1;
    }
    assert(o.take(o.len() as int) =~= o);
    *v = out;
}

fn contains_id(v: &Vec<String>, id: &str) -> (r: bool)
    ensures
        r == id_set(v@).contains(id@),
{
    let mut i: usize = 0;
    while i < v.len()
        invariant
            0 <= i <= v@.len(),
            forall|k: int| 0 <= k < i ==> (#[trigger] v@[k])@ != id@,
        decreases v.len() - i,
    {
        if str_eq(v[i].as_str(), id) {
            assert(v@[i as int]@ == id@);
            return true;
        }
        i = i + 1;
    }
    false
}

impl PermissionState {
    /// Nothing pending, no whitelist.
    pub fn new() -> (r: Self)
        ensures
            r@.pending == Set::<Seq<char>>::empty(),
            r@.allowed == Set::<(Seq<char>, Seq<char>)>::empty(),
    {
        let r = PermissionState { pending: Vec::new(), session_allowed_tools: Vec::new() };
        assert(r@.pending =~= Set::<Seq<char>>::empty());
        assert(r@.allowed =~= Set::<(Seq<char>, Seq<char>)>::empty());
        r
    }

    /// Whether the session's whitelist lets `tool_name` run; never for a
    /// request without a session.
    pub fn is_tool_allowed(&self, session_id: &Option<String>, tool_name: &str) -> (r: bool)
        ensures
            r == whitelisted(self@, opt_view(*session_id), tool_name@),
    {
        match session_id {
            Some(sid) => {
                let ghost o = self.session_allowed_tools@;
                let mut i: usize = 0;
                proof {
                    lemma_pair_set_empty(o.take(0));
                }
                while i < self.session_allowed_tools.len()
                    invariant
                        0 <= i <= o.len(),
                        o == self.session_allowed_tools@,
                        opt_view(*session_id) == Some(sid@),
                        !pair_set(o.take(i as int)).contains((sid@, tool_name@)),
                    decreases self.session_allowed_tools.len() - i,
                {
                    proof {
                        assert(o.take(i + 1) =~= o.take(i as int).push(o[i as int]));
                        lemma_pair_set_push(o.take(i as int), o[i as int]);
                    }
                    let e = &self.session_allowed_tools[i];
                    if str_eq(e.0.as_str(), sid.as_str()) && str_eq(e.1.as_str(), tool_name) {
                        proof {
                            lemma_pair_set_push(o.take(i as int), o[i as int]);
                            assert(pair_set(o.take(i + 1)).contains((sid@, tool_name@)));
                            assert(o.take(i + 1).len() <= o.len());
                            assert forall|p: (Seq<char>, Seq<char>)| pair_set(o.take(i + 1)).contains(p) implies pair_set(
                                o,
                            ).contains(p) by {
                                let k = choose|k: int| 0 <= k < o.take(i + 1).len() && #[trigger] o.take(i + 1)[k].0@
                                    == p.0 && o.take(i + 1)[k].1@ == p.1;
                                assert(o[k] == o.take(i + 1)[k]);
                            }
                        }
                        return true;
                    }
                    i = i + 1;
                }
                assert(o.take(o.len() as int) =~= o);
                false
            },
            None => false,
        }
    }

    /// Lets `tool_name` run for the rest of the session.
    pub fn add_to_session_whitelist(&mut self, session_id: &str, tool_name: &str)
        ensures
            final(self)@.allowed == old(self)@.allowed.insert((session_id@, tool_name@)),
            final(self)@.pending == old(self)@.pending,
    {
        let ghost o = self.session_allowed_tools@;
        let e = (session_id.to_owned(), tool_name.to_owned());
        proof {
            lemma_pair_set_push(o, e);
        }
        self.session_allowed_tools.push(e);
    }

    /// Forgets the session's whitelist.
    pub fn clear_session_whitelist(&mut self, session_id: &str)
        ensures
            final(self)@.allowed == old(self)@.allowed.filter(|p: (Seq<char>, Seq<char>)| p.0 != session_id@),
            final(self)@.pending == old(self)@.pending,
    {
        let ghost o = self.session_allowed_tools@;
        let ghost keep = |p: (Seq<char>, Seq<char>)| p.0 != session_id@;
        let mut out: Vec<(String, String)> = Vec::new();
        let mut i: usize = 0;
        proof {
            lemma_pair_set_empty(out@);
            lemma_pair_set_empty(o.take(0));
        }
        assert(pair_set(out@) =~= pair_set(o.take(0)).filter(keep));
        while i < self.session_allowed_tools.len()
            invariant
                0 <= i <= o.len(),
                self.session_allowed_tools@ == o,
                keep == (|p: (Seq<char>, Seq<char>)| p.0 != session_id@),
                pair_set(out@) == pair_set(o.take(i as int)).filter(keep),
            decreases o.len() - i,
        {
            proof {
                assert(o.take(i + 1) =~= o.take(i as int).push(o[i as int]));
                lemma_pair_set_push(o.take(i as int), o[i as int]);
            }
            let e = &self.session_allowed_tools[i];
            if !str_eq(e.0.as_str(), session_id) {
                let ghost before = out@;
                let c = (e.0.clone(), e.1.clone());
                proof {
                    lemma_pair_set_push(before, c);
                }
                out.push(c);
                assert(pair_set(out@) =~= pair_set(o.take(i + 1)).filter(keep));
            } else {
                assert(pair_set(out@) =~= pair_set(o.take(i + 1)).filter(keep));
            }
            i = i + 1;
        }
        assert(o.take(o.len() as int) =~= o);
        self.session_allowed_tools = out;
    }
}


/// Whether a request is answered without the user: a listed tool, or one
/// the session's whitelist lets run.
pub open spec fn answered_at_once(m: PermissionModel, tool: Seq<char>, session_id: Option<Seq<char>>) -> bool {
    hook_auto_allow_list().contains(tool) || whitelisted(m, session_id, tool)
}

/// The state after a permission request: unchanged when it is answered at
/// once, else the request waits under its tool use id.
pub open spec fn after_request(m: PermissionModel, tool: Seq<char>, session_id: Option<Seq<char>>, id: Seq<char>) -> PermissionModel {
    if answered_at_once(m, tool, session_id) {
        m
    } else {
        PermissionModel { pending: m.pending.insert(id), ..m }
    }
}

/// The state after the request `id` stops waiting.
pub open spec fn after_settle(m: PermissionModel, id: Seq<char>) -> PermissionModel {
    PermissionModel { pending: m.pending.remove(id), ..m }
}

/// What the hook server does with a permission request.
pub enum RequestOutcome {
    /// Answer the hook script at once.
    Answer(PermissionResponse),
    /// Wait for the user, who is asked to approve a plan.
    AskPlan(PlanApprovalEvent),
    /// Wait for the user, who is asked to let a tool run.
    AskTool(PermissionRequestEvent),
}

fn opt_string(o: Option<&str>) -> (r: Option<String>)
    ensures
        opt_view(r) == crate::json::opt_chars(o),
{
    match o {
        Some(s) => Some(s.to_owned()),
        None => None,
    }
}

fn clone_opt(o: &Option<String>) -> (r: Option<String>)
    ensures
        opt_view(r) == opt_view(*o),
{
    match o {
        Some(s) => Some(s.clone()),
        None => None,
    }
}

impl PermissionState {
    /// Decides a request of the hook script: listed tools and whitelisted
    /// ones are allowed at once; any other request waits for the user, who
    /// is asked to approve the plan for `ExitPlanMode` and to let the tool
    /// run otherwise.
    pub fn handle_request(&mut self, req: &PermissionRequest) -> (r: RequestOutcome)
        ensures
            final(self)@ == after_request(old(self)@, req.tool_name@, opt_view(req.session_id), req.tool_use_id@),
            answered_at_once(old(self)@, req.tool_name@, opt_view(req.session_id)) ==> (r matches RequestOutcome::Answer(
                resp,
            ) && response_model(resp) == ("allow"@, None::<Seq<char>>, None::<Json>)),
            !answered_at_once(old(self)@, req.tool_name@, opt_view(req.session_id)) && req.tool_name@
                == "ExitPlanMode"@ ==> (r matches RequestOutcome::AskPlan(ev) && ev.tool_use_id@ == req.tool_use_id@
                && opt_view(ev.plan_content) == opt_as_str(req.tool_input@.member("plan"@)) && opt_view(
                ev.plan_file_path,
            ) == opt_as_str(req.tool_input@.member("_planFilePath"@))),
            !answered_at_once(old(self)@, req.tool_name@, opt_view(req.session_id)) && req.tool_name@
                != "ExitPlanMode"@ ==> (r matches RequestOutcome::AskTool(ev) && ev.tool_name@ == req.tool_name@
                && ev.tool_input@ == req.tool_input@ && ev.tool_use_id@ == req.tool_use_id@ && opt_view(ev.session_id)
                == opt_view(req.session_id)),
    {
        let list = auto_allow_tools();
        if list_contains(&list, req.tool_name.as_str()) {
            return RequestOutcome::Answer(PermissionResponse::allow());
        }
        if self.is_tool_allowed(&req.session_id, req.tool_name.as_str()) {
            return RequestOutcome::Answer(PermissionResponse::allow());
        }
        let ghost o = self.pending@;
        let id = req.tool_use_id.clone();
        proof {
            lemma_id_set_push(o, id);
        }
        self.pending.push(id);
        if str_eq(req.tool_name.as_str(), "ExitPlanMode") {
            RequestOutcome::AskPlan(
                PlanApprovalEvent {
                    tool_use_id: req.tool_use_id.clone(),
                    plan_content: opt_string(req.tool_input.get_str("plan")),
                    plan_file_path: opt_string(req.tool_input.get_str("_planFilePath")),
                },
            )
        } else {
            RequestOutcome::AskTool(
                PermissionRequestEvent {
                    tool_name: req.tool_name.clone(),
                    tool_input: req.tool_input.deep_clone(),
                    tool_use_id: req.tool_use_id.clone(),
                    session_id: clone_opt(&req.session_id),
                },
            )
        }
    }

    /// The user's decision for a waiting request: the response for the hook
    /// script, and the request stops waiting; `None` when no request waits
    /// under that id.
    pub fn respond(&mut self, req: &PermissionRespondRequest) -> (r: Option<PermissionResponse>)
        ensures
            r is Some <==> old(self)@.pending.contains(req.tool_use_id@),
            r matches Some(resp) ==> response_model(resp) == (req.behavior@, opt_view(req.message), None::<Json>),
            final(self)@ == after_settle(old(self)@, req.tool_use_id@),
    {
        if contains_id(&self.pending, req.tool_use_id.as_str()) {
            remove_id(&mut self.pending, req.tool_use_id.as_str());
            Some(
                PermissionResponse {
                    behavior: req.behavior.clone(),
                    message: clone_opt(&req.message),
                    updated_input: None,
                },
            )
        } else {
            remove_id(&mut self.pending, req.tool_use_id.as_str());
            assert(self@.pending =~= old(self)@.pending.remove(req.tool_use_id@));
            None
        }
    }

    /// The user did not decide in time: the request stops waiting and is refused.
    pub fn time_out(&mut self, tool_use_id: &str) -> (r: PermissionResponse)
        ensures
            response_model(r) == ("deny"@, Some("Permission request timed out"@), None::<Json>),
            final(self)@ == after_settle(old(self)@, tool_use_id@),
    {
        remove_id(&mut self.pending, tool_use_id);
        PermissionResponse::deny("Permission request timed out")
    }

    /// Lets a tool run for the rest of a session, and the reply to send.
    pub fn whitelist_add(&mut self, req: &WhitelistAddRequest) -> (r: JsonValue)
        ensures
            final(self)@.allowed == old(self)@.allowed.insert((req.session_id@, req.tool_name@)),
            final(self)@.pending == old(self)@.pending,
            r@ == Json::Object(seq![("success"@, Json::Bool(true))]),
    {
        self.add_to_session_whitelist(req.session_id.as_str(), req.tool_name.as_str());
        let r = JsonValue::new_object().with("success", JsonValue::Bool(true));
        assert(r@->Object_0 =~= seq![("success"@, Json::Bool(true))]);
        r
    }
}

/// The answer when the waiting ends without a decision (the app is closing).
pub fn cancelled_response() -> (r: PermissionResponse)
    ensures
        response_model(r) == ("deny"@, Some("Permission request was cancelled"@), None::<Json>),
{
    PermissionResponse::deny("Permission request was cancelled")
}

/// The reply to the front end's decision: success when a request waited.
pub fn respond_reply(found: bool) -> (r: JsonValue)
    ensures
        found ==> r@ == Json::Object(seq![("success"@, Json::Bool(true))]),
        !found ==> r@ == Json::Object(
            seq![("success"@, Json::Bool(false)), ("error"@, Json::Str("No pending permission request found"@))],
        ),
{
    if found {
        let r = JsonValue::new_object().with("success", JsonValue::Bool(true));
        assert(r@->Object_0 =~= seq![("success"@, Json::Bool(true))]);
        r
    } else {
        let r = JsonValue::new_object().with("success", JsonValue::Bool(false)).with(
            "error",
            JsonValue::string("No pending permission request found"),
        );
        assert(r@->Object_0 =~= seq![
            ("success"@, Json::Bool(false)),
            ("error"@, Json::Str("No pending permission request found"@)),
        ]);
        r
    }
}


/// After a tool is whitelisted for a session, requests for it in that
/// session are allowed at once.
pub proof fn law_whitelisted_tool_runs(m: PermissionModel, session_id: Seq<char>, tool: Seq<char>, id: Seq<char>)
    ensures
        ({
            let m2 = PermissionModel { allowed: m.allowed.insert((session_id, tool)), ..m };
            &&& whitelisted(m2, Some(session_id), tool)
            &&& after_request(m2, tool, Some(session_id), id) == m2
        }),
{
}

/// Whitelisting a tool for one session changes nothing for other sessions,
/// nor for requests without a session.
pub proof fn law_whitelist_is_per_session(
    m: PermissionModel,
    session_id: Seq<char>,
    tool: Seq<char>,
    other: Option<Seq<char>>,
    any_tool: Seq<char>,
)
    requires
        other != Some(session_id),
    ensures
        whitelisted(PermissionModel { allowed: m.allowed.insert((session_id, tool)), ..m }, other, any_tool)
            == whitelisted(m, other, any_tool),
{
}

/// Clearing a session's whitelist forgets every tool of that session and
/// keeps those of the others.
pub proof fn law_clear_forgets_session(m: PermissionModel, session_id: Seq<char>, tool: Seq<char>, other: Seq<char>)
    requires
        other != session_id,
    ensures
        ({
            let m2 = PermissionModel {
                allowed: m.allowed.filter(|p: (Seq<char>, Seq<char>)| p.0 != session_id),
                ..m
            };
            &&& !whitelisted(m2, Some(session_id), tool)
            &&& whitelisted(m2, Some(other), tool) == whitelisted(m, Some(other), tool)
        }),
{
}

/// A listed tool never waits for the user.
pub proof fn law_listed_tools_never_wait(m: PermissionModel, tool: Seq<char>, session_id: Option<Seq<char>>, id: Seq<char>)
    requires
        hook_auto_allow_list().contains(tool),
    ensures
        after_request(m, tool, session_id, id) == m,
{
}

/// Plan approval (`ExitPlanMode`) and tools that change files or run
/// commands wait for the user unless the session whitelisted them.
pub proof fn law_guarded_tools_wait(m: PermissionModel, tool: Seq<char>, session_id: Option<Seq<char>>, id: Seq<char>)
    requires
        tool == "ExitPlanMode"@ || tool == "Edit"@ || tool == "Write"@ || tool == "Bash"@ || tool == "NotebookEdit"@,
        !whitelisted(m, session_id, tool),
    ensures
        after_request(m, tool, session_id, id).pending.contains(id),
{
    lemma_hook_list_facts();
}

/// A request that waits is answered exactly once: the first decision (or
/// time-out) for its id finds it waiting, and afterwards it waits no more.
/// The whitelist is left as it was.
pub proof fn law_waiting_request_settles_once(
    m: PermissionModel,
    tool: Seq<char>,
    session_id: Option<Seq<char>>,
    id: Seq<char>,
)
    requires
        !answered_at_once(m, tool, session_id),
    ensures
        after_request(m, tool, session_id, id).pending.contains(id),
        !after_settle(after_request(m, tool, session_id, id), id).pending.contains(id),
        after_settle(after_request(m, tool, session_id, id), id).allowed == m.allowed,
{
}

/// Settling one request leaves the other waiting requests waiting.
pub proof fn law_settle_keeps_others(m: PermissionModel, id: Seq<char>, other: Seq<char>)
    requires
        other != id,
    ensures
        after_settle(m, id).pending.contains(other) == m.pending.contains(other),
{
}

} // verus!
