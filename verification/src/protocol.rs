//! The JSON-RPC conversation with a coding agent: the requests that are sent, how
//! they are framed, and what the agent's messages say.
use crate::config::{
    DEFAULT_CODEX_APPROVAL_POLICY, DEFAULT_CODEX_THREAD_SANDBOX,
};
use crate::json::{
    at_path, counts, counts_nothing, lemma_at_path, says, says_nothing, JsonNumberV,
};
use crate::json::{
    either, integer_json, json_list, json_nesting, json_parsed, json_plain, json_rendered,
    json_stored, keys_ascend, member, opt_json, opt_str, or_else, owned, render_json, text_of,
    text_within, u64_of, u64_within, within, Json, JsonV,
};
use crate::text::{
    concat2, concat3, decimal, decimal_text, opt_text, signed_decimal, signed_decimal_text, text_eq,
    text_le,
};
use crate::types::{make_session_id, session_id, LiveSession, SessionV, Timestamp};
use vstd::prelude::*;
use vstd::string::*;

verus! {

// ── Configuration ───────────────────────────────────────────────────────────

/// Configuration for the agent runner.
#[derive(Debug)]
pub struct AgentRunnerConfig {
    pub command: String,
    pub workspace_path: String,
    pub approval_policy: String,
    pub thread_sandbox: String,
    pub turn_sandbox_policy: String,
    pub turn_timeout_ms: u64,
    pub read_timeout_ms: u64,
    pub stall_timeout_ms: u64,
    pub max_turns: u32,
    pub max_run_ms: Option<u64>,
    pub max_tokens_per_run: Option<u64>,
    pub stop_after_first_turn: bool,
    /// The version by which the agent knows this program.
    pub client_version: String,
}

/// The configuration of the agent runner by its contents.
#[verifier::ext_equal]
pub struct AgentConfigV {
    pub command: Seq<char>,
    pub workspace_path: Seq<char>,
    pub approval_policy: Seq<char>,
    pub thread_sandbox: Seq<char>,
    pub turn_sandbox_policy: Seq<char>,
    pub turn_timeout_ms: u64,
    pub read_timeout_ms: u64,
    pub stall_timeout_ms: u64,
    pub max_turns: u32,
    pub max_run_ms: Option<u64>,
    pub max_tokens_per_run: Option<u64>,
    pub stop_after_first_turn: bool,
    pub client_version: Seq<char>,
}

impl View for AgentRunnerConfig {
    type V = AgentConfigV;

    open spec fn view(&self) -> AgentConfigV {
        AgentConfigV {
            command: self.command@,
            workspace_path: self.workspace_path@,
            approval_policy: self.approval_policy@,
            thread_sandbox: self.thread_sandbox@,
            turn_sandbox_policy: self.turn_sandbox_policy@,
            turn_timeout_ms: self.turn_timeout_ms,
            read_timeout_ms: self.read_timeout_ms,
            stall_timeout_ms: self.stall_timeout_ms,
            max_turns: self.max_turns,
            max_run_ms: self.max_run_ms,
            max_tokens_per_run: self.max_tokens_per_run,
            stop_after_first_turn: self.stop_after_first_turn,
            client_version: self.client_version@,
        }
    }
}

impl Clone for AgentRunnerConfig {
    fn clone(&self) -> (r: AgentRunnerConfig)
        ensures
            r@ == self@,
    {
        AgentRunnerConfig {
            command: self.command.clone(),
            workspace_path: self.workspace_path.clone(),
            approval_policy: self.approval_policy.clone(),
            thread_sandbox: self.thread_sandbox.clone(),
            turn_sandbox_policy: self.turn_sandbox_policy.clone(),
            turn_timeout_ms: self.turn_timeout_ms,
            read_timeout_ms: self.read_timeout_ms,
            stall_timeout_ms: self.stall_timeout_ms,
            max_turns: self.max_turns,
            max_run_ms: self.max_run_ms,
            max_tokens_per_run: self.max_tokens_per_run,
            stop_after_first_turn: self.stop_after_first_turn,
            client_version: self.client_version.clone(),
        }
    }
}

// ── Policies on the wire ────────────────────────────────────────────────────

/// An approval policy as the agent knows it.
pub open spec fn approval_wire(policy: Seq<char>) -> Seq<char> {
    if policy == "on-request"@ {
        "onRequest"@
    } else if policy == "on-failure"@ {
        "onFailure"@
    } else if policy == "unless-trusted"@ {
        "unlessTrusted"@
    } else {
        "never"@
    }
}

/// An approval policy as the agent knows it; the default for any other text.
pub fn approval_policy_wire(policy: &str) -> (r: &'static str)
    ensures
        r@ == approval_wire(policy@),
{
    if text_eq(policy, "on-request") {
        "onRequest"
    } else if text_eq(policy, "on-failure") {
        "onFailure"
    } else if text_eq(policy, "unless-trusted") {
        "unlessTrusted"
    } else {
        DEFAULT_CODEX_APPROVAL_POLICY
    }
}

/// A thread's sandbox as the agent knows it.
pub open spec fn sandbox_wire(sandbox: Seq<char>) -> Seq<char> {
    if sandbox == "read-only"@ {
        "read-only"@
    } else if sandbox == "danger-full-access"@ {
        "danger-full-access"@
    } else {
        "workspace-write"@
    }
}

/// A thread's sandbox as the agent knows it; the default for any other text.
pub fn thread_sandbox_wire(sandbox: &str) -> (r: &'static str)
    ensures
        r@ == sandbox_wire(sandbox@),
{
    if text_eq(sandbox, "read-only") {
        "read-only"
    } else if text_eq(sandbox, "danger-full-access") {
        "danger-full-access"
    } else {
        DEFAULT_CODEX_THREAD_SANDBOX
    }
}

/// A turn's sandbox as the agent knows it.
pub open spec fn turn_sandbox(sandbox: Seq<char>, cwd: Seq<char>) -> JsonV {
    if sandbox == "read-only"@ {
        JsonV::Object(seq![("type"@, JsonV::Text("readOnly"@))])
    } else if sandbox == "danger-full-access"@ {
        JsonV::Object(seq![("type"@, JsonV::Text("dangerFullAccess"@))])
    } else {
        JsonV::Object(
            seq![
                ("excludeSlashTmp"@, JsonV::Bool(false)),
                ("excludeTmpdirEnvVar"@, JsonV::Bool(false)),
                ("networkAccess"@, JsonV::Bool(true)),
                ("type"@, JsonV::Text("workspaceWrite"@)),
                ("writableRoots"@, JsonV::List(seq![JsonV::Text(cwd)])),
            ],
        )
    }
}

/// A turn's sandbox as the agent knows it; the default for any other text. In the
/// workspace the network stays open, and nothing else can be written.
pub fn turn_sandbox_policy_payload(sandbox: &str, cwd: &str) -> (r: Json)
    ensures
        r@ == turn_sandbox(sandbox@, cwd@),
{
    if text_eq(sandbox, "read-only") {
        let r: Json = Json::object().with("type", Json::text("readOnly"));
        assert(r@->Object_0 =~= turn_sandbox(sandbox@, cwd@)->Object_0);
        r
    } else if text_eq(sandbox, "danger-full-access") {
        let r: Json = Json::object().with("type", Json::text("dangerFullAccess"));
        assert(r@->Object_0 =~= turn_sandbox(sandbox@, cwd@)->Object_0);
        r
    } else {
        let roots: Vec<Json> = vec![Json::text(cwd)];
        assert(json_list(roots@) =~= seq![JsonV::Text(cwd@)]);
        let r: Json = Json::object().with("excludeSlashTmp", Json::Bool(false)).with(
            "excludeTmpdirEnvVar",
            Json::Bool(false),
        ).with("networkAccess", Json::Bool(true)).with("type", Json::text("workspaceWrite")).with(
            "writableRoots",
            Json::list(roots),
        );
        assert(r@->Object_0 =~= turn_sandbox(sandbox@, cwd@)->Object_0);
        r
    }
}

// ── Requests ────────────────────────────────────────────────────────────────

/// A request of the conversation.
pub open spec fn request(id: int, method: Seq<char>, params: JsonV) -> JsonV {
    JsonV::Object(
        seq![
            ("id"@, integer_json(id)),
            ("jsonrpc"@, JsonV::Text("2.0"@)),
            ("method"@, JsonV::Text(method)),
            ("params"@, params),
        ],
    )
}

fn make_request(id: u64, method: &str, params: Json) -> (r: Json)
    ensures
        r@ == request(id as int, method@, params@),
{
    let r: Json = Json::object().with("id", Json::unsigned(id)).with(
        "jsonrpc",
        Json::text("2.0"),
    ).with("method", Json::text(method)).with("params", params);
    assert(r@->Object_0 =~= request(id as int, method@, params@)->Object_0);
    r
}

/// The parameters with which the conversation opens.
pub open spec fn initialize_params(version: Seq<char>) -> JsonV {
    JsonV::Object(
        seq![
            ("capabilities"@, JsonV::Object(seq![("experimentalApi"@, JsonV::Bool(true))])),
            (
                "clientInfo"@,
                JsonV::Object(
                    seq![
                        ("name"@, JsonV::Text("symphony"@)),
                        ("title"@, JsonV::Text("Symphony"@)),
                        ("version"@, JsonV::Text(version)),
                    ],
                ),
            ),
        ],
    )
}

/// The request that opens the conversation.
pub fn initialize_request(id: u64, version: &str) -> (r: Json)
    ensures
        r@ == request(id as int, "initialize"@, initialize_params(version@)),
{
    let capabilities: Json = Json::object().with("experimentalApi", Json::Bool(true));
    let client: Json = Json::object().with("name", Json::text("symphony")).with(
        "title",
        Json::text("Symphony"),
    ).with("version", Json::text(version));
    proof {
        assert(capabilities@->Object_0 =~= seq![("experimentalApi"@, JsonV::Bool(true))]);
        assert(client@->Object_0 =~= seq![
            ("name"@, JsonV::Text("symphony"@)),
            ("title"@, JsonV::Text("Symphony"@)),
            ("version"@, JsonV::Text(version@)),
        ]);
    }
    let params: Json = Json::object().with("capabilities", capabilities).with(
        "clientInfo",
        client,
    );
    assert(params@->Object_0 =~= initialize_params(version@)->Object_0);
    make_request(id, "initialize", params)
}

/// The parameters with which a thread is started.
pub open spec fn thread_params(config: AgentConfigV, cwd: Seq<char>) -> JsonV {
    JsonV::Object(
        seq![
            ("approvalPolicy"@, JsonV::Text(approval_wire(config.approval_policy))),
            ("cwd"@, JsonV::Text(cwd)),
            ("sandbox"@, JsonV::Text(sandbox_wire(config.thread_sandbox))),
        ],
    )
}

/// The request that starts a thread.
pub fn thread_start_request(id: u64, config: &AgentRunnerConfig, cwd: &str) -> (r: Json)
    ensures
        r@ == request(id as int, "thread/start"@, thread_params(config@, cwd@)),
{
    let params: Json = Json::object().with(
        "approvalPolicy",
        Json::text(approval_policy_wire(config.approval_policy.as_str())),
    ).with("cwd", Json::text(cwd)).with(
        "sandbox",
        Json::text(thread_sandbox_wire(config.thread_sandbox.as_str())),
    );
    assert(params@->Object_0 =~= thread_params(config@, cwd@)->Object_0);
    make_request(id, "thread/start", params)
}

/// The parameters with which a turn is started.
pub open spec fn turn_params(
    thread_id: Seq<char>,
    prompt: Seq<char>,
    config: AgentConfigV,
    cwd: Seq<char>,
) -> JsonV {
    JsonV::Object(
        seq![
            ("approvalPolicy"@, JsonV::Text(approval_wire(config.approval_policy))),
            (
                "input"@,
                JsonV::List(
                    seq![
                        JsonV::Object(
                            seq![
                                ("text"@, JsonV::Text(prompt)),
                                ("text_elements"@, JsonV::List(Seq::empty())),
                                ("type"@, JsonV::Text("text"@)),
                            ],
                        ),
                    ],
                ),
            ),
            ("sandboxPolicy"@, turn_sandbox(config.turn_sandbox_policy, cwd)),
            ("threadId"@, JsonV::Text(thread_id)),
        ],
    )
}

/// The request that starts a turn.
pub fn turn_start_request(
    id: u64,
    thread_id: &str,
    prompt: &str,
    config: &AgentRunnerConfig,
    cwd: &str,
) -> (r: Json)
    ensures
        r@ == request(id as int, "turn/start"@, turn_params(thread_id@, prompt@, config@, cwd@)),
{
    let none: Vec<Json> = Vec::new();
    assert(json_list(none@) =~= Seq::<JsonV>::empty());
    let text: Json = Json::object().with("text", Json::text(prompt)).with(
        "text_elements",
        Json::list(none),
    ).with("type", Json::text("text"));
    assert(text@->Object_0 =~= seq![
        ("text"@, JsonV::Text(prompt@)),
        ("text_elements"@, JsonV::List(Seq::empty())),
        ("type"@, JsonV::Text("text"@)),
    ]);
    let input: Vec<Json> = vec![text];
    assert(json_list(input@) =~= seq![text@]);
    let params: Json = Json::object().with(
        "approvalPolicy",
        Json::text(approval_policy_wire(config.approval_policy.as_str())),
    ).with("input", Json::list(input)).with(
        "sandboxPolicy",
        turn_sandbox_policy_payload(config.turn_sandbox_policy.as_str(), cwd),
    ).with("threadId", Json::text(thread_id));
    assert(params@->Object_0 =~= turn_params(thread_id@, prompt@, config@, cwd@)->Object_0);
    make_request(id, "turn/start", params)
}

// ── Framing ─────────────────────────────────────────────────────────────────

/// A message as it goes over the wire: one line.
pub open spec fn framed(message: JsonV) -> Seq<char> {
    json_rendered(json_stored(message)).push('\n')
}

/// Frames a message as one line. A plain message is read back from its line.
pub fn frame_message(message: &Json) -> (r: String)
    ensures
        r@ == framed(message@),
        forall|i: int| 0 <= i < r@.len() - 1 ==> #[trigger] r@[i] != '\n',
        json_plain(message@, json_nesting()) ==> json_parsed(r@.drop_last()) == Some(message@),
{
    let line: String = render_json(message);
    let r: String = concat2(line.as_str(), "\n");
    proof {
        reveal_strlit("\n");
        assert(r@ =~= line@.push('\n'));
        assert(r@.drop_last() =~= line@);
        assert forall|i: int| 0 <= i < r@.len() - 1 implies #[trigger] r@[i] != '\n' by {
            if r@[i] == '\n' {
                assert(line@[i] == '\n');
                assert(line@.contains('\n'));
            }
        }
    }
    r
}

/// The requests of the conversation are plain: each is read back from its line as
/// it was meant.
pub proof fn law_requests_are_plain(
    id: int,
    version: Seq<char>,
    config: AgentConfigV,
    thread_id: Seq<char>,
    prompt: Seq<char>,
    cwd: Seq<char>,
)
    requires
        0 <= id <= u64::MAX,
    ensures
        json_plain(request(id, "initialize"@, initialize_params(version)), json_nesting()),
        json_plain(request(id, "thread/start"@, thread_params(config, cwd)), json_nesting()),
        json_plain(
            request(id, "turn/start"@, turn_params(thread_id, prompt, config, cwd)),
            json_nesting(),
        ),
{
    lemma_initialize_params_plain(version);
    lemma_thread_params_plain(config, cwd);
    lemma_turn_params_plain(thread_id, prompt, config, cwd);
    lemma_request_plain(id, "initialize"@, initialize_params(version));
    lemma_request_plain(id, "thread/start"@, thread_params(config, cwd));
    lemma_request_plain(id, "turn/start"@, turn_params(thread_id, prompt, config, cwd));
}

proof fn lemma_request_plain(id: int, method: Seq<char>, params: JsonV)
    requires
        0 <= id <= u64::MAX,
        json_plain(params, (json_nesting() - 1) as nat),
    ensures
        json_plain(request(id, method, params), json_nesting()),
{
    reveal_strlit("id");
    reveal_strlit("jsonrpc");
    reveal_strlit("method");
    reveal_strlit("params");
    let members = request(id, method, params)->Object_0;
    assert(keys_ascend(members)) by {
        reveal_with_fuel(text_le, 2);
    }
    assert forall|i: int| 0 <= i < members.len() implies json_plain(
        (#[trigger] members[i]).1,
        (json_nesting() - 1) as nat,
    ) by {}
}

proof fn lemma_initialize_params_plain(version: Seq<char>)
    ensures
        json_plain(initialize_params(version), (json_nesting() - 1) as nat),
{
    reveal_strlit("capabilities");
    reveal_strlit("clientInfo");
    reveal_strlit("name");
    reveal_strlit("title");
    reveal_strlit("version");
    let members = initialize_params(version)->Object_0;
    assert(keys_ascend(members)) by {
        reveal_with_fuel(text_le, 3);
    }
    let client = members[1].1->Object_0;
    assert(keys_ascend(client)) by {
        reveal_with_fuel(text_le, 2);
    }
    assert forall|i: int| 0 <= i < client.len() implies json_plain(
        (#[trigger] client[i]).1,
        (json_nesting() - 3) as nat,
    ) by {}
    let capabilities = members[0].1->Object_0;
    assert(keys_ascend(capabilities));
    assert(json_plain(capabilities[0].1, (json_nesting() - 3) as nat));
    assert(json_plain(members[0].1, (json_nesting() - 2) as nat));
    assert(json_plain(members[1].1, (json_nesting() - 2) as nat));
}

proof fn lemma_thread_params_plain(config: AgentConfigV, cwd: Seq<char>)
    ensures
        json_plain(thread_params(config, cwd), (json_nesting() - 1) as nat),
{
    reveal_strlit("approvalPolicy");
    reveal_strlit("cwd");
    reveal_strlit("sandbox");
    let members = thread_params(config, cwd)->Object_0;
    assert(keys_ascend(members)) by {
        reveal_with_fuel(text_le, 2);
    }
    assert forall|i: int| 0 <= i < members.len() implies json_plain(
        (#[trigger] members[i]).1,
        (json_nesting() - 2) as nat,
    ) by {}
}

proof fn lemma_turn_sandbox_plain(sandbox: Seq<char>, cwd: Seq<char>)
    ensures
        json_plain(turn_sandbox(sandbox, cwd), (json_nesting() - 2) as nat),
{
    reveal_strlit("excludeSlashTmp");
    reveal_strlit("excludeTmpdirEnvVar");
    reveal_strlit("networkAccess");
    reveal_strlit("type");
    reveal_strlit("writableRoots");
    let members = turn_sandbox(sandbox, cwd)->Object_0;
    assert(keys_ascend(members)) by {
        reveal_with_fuel(text_le, 9);
        assert("excludeSlashTmp"@[7] == 'S');
        assert("excludeTmpdirEnvVar"@[7] == 'T');
    }
    if members.len() == 5 {
        let roots = members[4].1->List_0;
        assert(json_plain(roots[0], (json_nesting() - 4) as nat));
        assert(json_plain(members[4].1, (json_nesting() - 3) as nat));
    }
    assert forall|i: int| 0 <= i < members.len() implies json_plain(
        (#[trigger] members[i]).1,
        (json_nesting() - 3) as nat,
    ) by {}
}

proof fn lemma_turn_params_plain(
    thread_id: Seq<char>,
    prompt: Seq<char>,
    config: AgentConfigV,
    cwd: Seq<char>,
)
    ensures
        json_plain(
            turn_params(thread_id, prompt, config, cwd),
            (json_nesting() - 1) as nat,
        ),
{
    reveal_strlit("approvalPolicy");
    reveal_strlit("input");
    reveal_strlit("sandboxPolicy");
    reveal_strlit("threadId");
    reveal_strlit("text");
    reveal_strlit("text_elements");
    reveal_strlit("type");
    lemma_turn_sandbox_plain(config.turn_sandbox_policy, cwd);
    let members = turn_params(thread_id, prompt, config, cwd)->Object_0;
    assert(keys_ascend(members)) by {
        reveal_with_fuel(text_le, 2);
    }
    let text = members[1].1->List_0[0];
    let parts = text->Object_0;
    assert(keys_ascend(parts)) by {
        reveal_with_fuel(text_le, 6);
    }
    assert forall|i: int| 0 <= i < parts.len() implies json_plain(
        (#[trigger] parts[i]).1,
        (json_nesting() - 4) as nat,
    ) by {}
    assert(json_plain(text, (json_nesting() - 3) as nat));
    assert(json_plain(members[1].1, (json_nesting() - 2) as nat));
    assert forall|i: int| 0 <= i < members.len() implies json_plain(
        (#[trigger] members[i]).1,
        (json_nesting() - 2) as nat,
    ) by {}
}

// ── Errors that end a reading ───────────────────────────────────────────────

/// Why the reading of an agent's messages ends before its aim is reached.
#[derive(Debug)]
pub enum EventError {
    /// The agent is gone or says goodbye.
    Exit,
    /// The turn failed, or the agent's output cannot be read.
    TurnFailed(String),
    /// The run has used up its budget.
    RunLimitExceeded(String),
}

/// The end of a reading by its contents.
#[verifier::ext_equal]
pub enum EventErrorV {
    Exit,
    TurnFailed(Seq<char>),
    RunLimitExceeded(Seq<char>),
}

impl View for EventError {
    type V = EventErrorV;

    open spec fn view(&self) -> EventErrorV {
        match self {
            EventError::Exit => EventErrorV::Exit,
            EventError::TurnFailed(s) => EventErrorV::TurnFailed(s@),
            EventError::RunLimitExceeded(s) => EventErrorV::RunLimitExceeded(s@),
        }
    }
}

/// A text in the form that `Debug` gives it, with quotes around it.
pub uninterp spec fn debug_quoted(s: Seq<char>) -> Seq<char>;

/// Whether a text holds only printable ASCII characters, no quote and no
/// backslash.
pub open spec fn needs_no_escape(s: Seq<char>) -> bool {
    forall|i: int|
        0 <= i < s.len() ==> ' ' <= #[trigger] s[i] && s[i] <= '~' && s[i] != '"' && s[i] != '\\'
}

/// Calls the `Debug` form of `str`. Claimed of it: the result is a function of the
/// text, and puts a text without anything to escape between quotes as it is.
#[verifier::external_body]
fn debug_text(s: &str) -> (r: String)
    ensures
        r@ == debug_quoted(s@),
        needs_no_escape(s@) ==> r@ == seq!['"'] + s@ + seq!['"'],
{
    format!("{s:?}")
}

/// The form in which a start-up failure shows the end of a reading.
pub open spec fn event_error_shown(e: EventErrorV) -> Seq<char> {
    match e {
        EventErrorV::Exit => "Exit"@,
        EventErrorV::TurnFailed(s) => "TurnFailed("@ + debug_quoted(s) + ")"@,
        EventErrorV::RunLimitExceeded(s) => "RunLimitExceeded("@ + debug_quoted(s) + ")"@,
    }
}

impl EventError {
    /// The form in which a start-up failure shows the end of a reading.
    pub fn shown(&self) -> (r: String)
        ensures
            r@ == event_error_shown(self@),
            self@ matches EventErrorV::TurnFailed(s) ==> needs_no_escape(s) ==> r@
                == "TurnFailed("@ + (seq!['"'] + s + seq!['"']) + ")"@,
    {
        match self {
            EventError::Exit => "Exit".to_owned(),
            EventError::TurnFailed(s) => {
                let quoted: String = debug_text(s.as_str());
                concat3("TurnFailed(", quoted.as_str(), ")")
            },
            EventError::RunLimitExceeded(s) => {
                let quoted: String = debug_text(s.as_str());
                concat3("RunLimitExceeded(", quoted.as_str(), ")")
            },
        }
    }
}

// ── Messages ────────────────────────────────────────────────────────────────

/// A member of a member.
pub open spec fn at2(o: Option<JsonV>, a: Seq<char>, b: Seq<char>) -> Option<JsonV> {
    within(within(o, a), b)
}

/// A member of a member of a member.
pub open spec fn at3(o: Option<JsonV>, a: Seq<char>, b: Seq<char>, c: Seq<char>) -> Option<JsonV> {
    within(at2(o, a, b), c)
}

fn get2<'a>(o: Option<&'a Json>, a: &str, b: &str) -> (r: Option<&'a Json>)
    ensures
        opt_json(r) == at2(opt_json(o), a@, b@),
{
    member(member(o, a), b)
}

fn get3<'a>(o: Option<&'a Json>, a: &str, b: &str, c: &str) -> (r: Option<&'a Json>)
    ensures
        opt_json(r) == at3(opt_json(o), a@, b@, c@),
{
    member(get2(o, a, b), c)
}

/// A text, or another where there is none.
pub open spec fn text_or(o: Option<Seq<char>>, other: Seq<char>) -> Seq<char> {
    match o {
        Some(s) => s,
        None => other,
    }
}

/// The error that a message speaks of.
pub open spec fn rpc_error(msg: JsonV) -> Option<Seq<char>> {
    match msg.get("error"@) {
        None => None,
        Some(error) => {
            let message = text_or(text_within(error.get("message"@)), "JSON-RPC error"@);
            match error.get("code"@) {
                Some(code) => match code.as_i64() {
                    Some(n) => Some(
                        "JSON-RPC error "@ + signed_decimal(n as int) + ": "@ + message,
                    ),
                    None => Some("JSON-RPC error: "@ + message),
                },
                None => Some("JSON-RPC error: "@ + message),
            }
        },
    }
}

/// The error that a message speaks of.
pub fn json_rpc_error_message(msg: &Json) -> (r: Option<String>)
    ensures
        opt_text(r) == rpc_error(msg@),
{
    match msg.get("error") {
        None => None,
        Some(error) => {
            let message: &str = match text_of(error.get("message")) {
                Some(m) => m,
                None => "JSON-RPC error",
            };
            let code: Option<i64> = match error.get("code") {
                Some(code) => code.as_i64(),
                None => None,
            };
            match code {
                Some(n) => {
                    let number: String = signed_decimal_text(n);
                    let head: String = concat3("JSON-RPC error ", number.as_str(), ": ");
                    Some(concat2(head.as_str(), message))
                },
                None => Some(concat2("JSON-RPC error: ", message)),
            }
        },
    }
}

/// What kind of event a message reports.
pub open spec fn event_type(msg: JsonV) -> Option<Seq<char>> {
    text_within(or_else(msg.get("method"@), at2(Some(msg), "result"@, "type"@)))
}

fn event_type_of<'a>(msg: &'a Json) -> (r: Option<&'a str>)
    ensures
        opt_str(r) == event_type(msg@),
{
    text_of(either(msg.get("method"), get2(Some(msg), "result", "type")))
}

/// The last usage that a message reports.
pub open spec fn usage_in(msg: JsonV) -> Option<JsonV> {
    or_else(
        at2(Some(msg), "result"@, "usage"@),
        at3(Some(msg), "params"@, "tokenUsage"@, "last"@),
    )
}

/// The total usage that a message reports.
pub open spec fn total_in(msg: JsonV) -> Option<JsonV> {
    at3(Some(msg), "params"@, "tokenUsage"@, "total"@)
}

/// The thread that a message names.
pub open spec fn thread_in(msg: JsonV) -> Option<Seq<char>> {
    text_within(
        or_else(
            or_else(
                at3(Some(msg), "result"@, "thread"@, "id"@),
                at2(Some(msg), "params"@, "threadId"@),
            ),
            at3(Some(msg), "params"@, "thread"@, "id"@),
        ),
    )
}

/// The turn that a message names.
pub open spec fn turn_in(msg: JsonV) -> Option<Seq<char>> {
    text_within(
        or_else(
            at3(Some(msg), "result"@, "turn"@, "id"@),
            at3(Some(msg), "params"@, "turn"@, "id"@),
        ),
    )
}

/// A number that a report of usage holds.
pub open spec fn tokens_in(usage: Option<JsonV>, key: Seq<char>) -> Option<u64> {
    u64_within(within(usage, key))
}

/// A counter after an addition.
pub open spec fn added(count: u64, more: Option<u64>) -> u64 {
    match more {
        Some(n) => (count + n) as u64,
        None => count,
    }
}

/// A value, or another where there is none.
pub open spec fn or_kept<T>(o: Option<T>, kept: T) -> T {
    match o {
        Some(v) => v,
        None => kept,
    }
}

/// Whether the counters can take what a message reports.
pub open spec fn usage_fits(session: SessionV, msg: JsonV) -> bool {
    let input = tokens_in(usage_in(msg), "inputTokens"@);
    let output = tokens_in(usage_in(msg), "outputTokens"@);
    &&& input matches Some(n) ==> session.codex_input_tokens + n <= u64::MAX
    &&& output matches Some(n) ==> session.codex_output_tokens + n <= u64::MAX
}

/// The session with the names of thread and turn that a message gives.
pub open spec fn with_names(session: SessionV, msg: JsonV) -> SessionV {
    let thread_id = match thread_in(msg) {
        Some(id) => Some(id),
        None => session.thread_id,
    };
    match turn_in(msg) {
        Some(turn_id) => SessionV {
            thread_id,
            turn_id: Some(turn_id),
            session_id: match thread_id {
                Some(id) => Some(session_id(id, turn_id)),
                None => session.session_id,
            },
            ..session
        },
        None => SessionV { thread_id, ..session },
    }
}

/// The session with the usage that a message reports: the last usage is added, and
/// a total takes the place of what was counted.
pub open spec fn with_usage(session: SessionV, msg: JsonV) -> SessionV {
    let last = usage_in(msg);
    let total = total_in(msg);
    let input = tokens_in(last, "inputTokens"@);
    let output = tokens_in(last, "outputTokens"@);
    SessionV {
        codex_input_tokens: or_kept(
            tokens_in(total, "inputTokens"@),
            added(session.codex_input_tokens, input),
        ),
        codex_output_tokens: or_kept(
            tokens_in(total, "outputTokens"@),
            added(session.codex_output_tokens, output),
        ),
        codex_total_tokens: or_kept(tokens_in(total, "totalTokens"@), session.codex_total_tokens),
        last_reported_input_tokens: or_kept(input, session.last_reported_input_tokens),
        last_reported_output_tokens: or_kept(output, session.last_reported_output_tokens),
        ..session
    }
}

/// The session after a message.
pub open spec fn after_message(session: SessionV, msg: JsonV, now: Timestamp) -> SessionV {
    let noted = SessionV {
        last_codex_event: event_type(msg),
        last_codex_timestamp: Some(now),
        last_codex_message: text_within(
            or_else(
                at2(Some(msg), "result"@, "message"@),
                at2(Some(msg), "params"@, "message"@),
            ),
        ),
        ..session
    };
    with_usage(with_names(noted, msg), msg)
}

fn usage_of<'a>(msg: &'a Json) -> (r: Option<&'a Json>)
    ensures
        opt_json(r) == usage_in(msg@),
{
    either(get2(Some(msg), "result", "usage"), get3(Some(msg), "params", "tokenUsage", "last"))
}

/// Whether the counters can take what a message reports.
pub fn message_fits(session: &LiveSession, msg: &Json) -> (r: bool)
    ensures
        r == usage_fits(session@, msg@),
{
    let usage: Option<&Json> = usage_of(msg);
    let input_fits: bool = match u64_of(member(usage, "inputTokens")) {
        Some(n) => n <= u64::MAX - session.codex_input_tokens,
        None => true,
    };
    let output_fits: bool = match u64_of(member(usage, "outputTokens")) {
        Some(n) => n <= u64::MAX - session.codex_output_tokens,
        None => true,
    };
    input_fits && output_fits
}

fn note_names(session: &mut LiveSession, msg: &Json)
    ensures
        final(session)@ == with_names(old(session)@, msg@),
{
    let o: Option<&Json> = Some(msg);
    let thread: Option<&Json> = either(
        either(get3(o, "result", "thread", "id"), get2(o, "params", "threadId")),
        get3(o, "params", "thread", "id"),
    );
    if let Some(id) = text_of(thread) {
        session.thread_id = Some(id.to_owned());
    }
    let turn: Option<&Json> = either(
        get3(o, "result", "turn", "id"),
        get3(o, "params", "turn", "id"),
    );
    if let Some(turn_id) = text_of(turn) {
        session.turn_id = Some(turn_id.to_owned());
        let named: Option<String> = match &session.thread_id {
            Some(thread_id) => Some(make_session_id(thread_id.as_str(), turn_id)),
            None => None,
        };
        if named.is_some() {
            session.session_id = named;
        }
    }
}

fn note_usage(session: &mut LiveSession, msg: &Json)
    requires
        usage_fits(old(session)@, msg@),
    ensures
        final(session)@ == with_usage(old(session)@, msg@),
{
    let usage: Option<&Json> = usage_of(msg);
    if let Some(n) = u64_of(member(usage, "inputTokens")) {
        session.codex_input_tokens = session.codex_input_tokens + n;
        session.last_reported_input_tokens = n;
    }
    if let Some(n) = u64_of(member(usage, "outputTokens")) {
        session.codex_output_tokens = session.codex_output_tokens + n;
        session.last_reported_output_tokens = n;
    }
    let total: Option<&Json> = get3(Some(msg), "params", "tokenUsage", "total");
    if let Some(n) = u64_of(member(total, "inputTokens")) {
        session.codex_input_tokens = n;
    }
    if let Some(n) = u64_of(member(total, "outputTokens")) {
        session.codex_output_tokens = n;
    }
    if let Some(n) = u64_of(member(total, "totalTokens")) {
        session.codex_total_tokens = n;
    }
}

/// Notes in the session what a message says.
pub fn note_message(session: &mut LiveSession, msg: &Json, now: Timestamp)
    requires
        usage_fits(old(session)@, msg@),
    ensures
        final(session)@ == after_message(old(session)@, msg@, now),
{
    let o: Option<&Json> = Some(msg);
    session.last_codex_event = owned(event_type_of(msg));
    session.last_codex_timestamp = Some(now);
    session.last_codex_message = owned(
        text_of(either(get2(o, "result", "message"), get2(o, "params", "message"))),
    );
    note_names(session, msg);
    note_usage(session, msg);
}

/// What a message means for the turn.
#[derive(Debug)]
pub enum Verdict {
    /// The turn goes on.
    Continue,
    /// The turn is complete.
    TurnDone,
    /// The reading ends.
    Failed(EventError),
}

/// What a message means for the turn, by its contents.
#[verifier::ext_equal]
pub enum VerdictV {
    Continue,
    TurnDone,
    Failed(EventErrorV),
}

impl View for Verdict {
    type V = VerdictV;

    open spec fn view(&self) -> VerdictV {
        match self {
            Verdict::Continue => VerdictV::Continue,
            Verdict::TurnDone => VerdictV::TurnDone,
            Verdict::Failed(e) => VerdictV::Failed(e@),
        }
    }
}

/// What a message means for the turn: a turn that is complete may have failed.
pub open spec fn message_verdict(msg: JsonV) -> VerdictV {
    match event_type(msg) {
        None => VerdictV::Continue,
        Some(kind) => if kind == "v2/TurnCompleted"@ || kind == "turn_completed"@ || kind
            == "turn/completed"@ {
            if text_within(at3(Some(msg), "params"@, "turn"@, "status"@)) == Some("failed"@) {
                VerdictV::Failed(
                    EventErrorV::TurnFailed(
                        text_or(
                            text_within(
                                within(
                                    at3(Some(msg), "params"@, "turn"@, "error"@),
                                    "message"@,
                                ),
                            ),
                            "turn failed"@,
                        ),
                    ),
                )
            } else {
                VerdictV::TurnDone
            }
        } else if kind == "v2/TurnFailed"@ || kind == "turn_failed"@ {
            VerdictV::Failed(
                EventErrorV::TurnFailed(
                    text_or(
                        text_within(at3(Some(msg), "result"@, "error"@, "message"@)),
                        "unknown error"@,
                    ),
                ),
            )
        } else if kind == "exit"@ {
            VerdictV::Failed(EventErrorV::Exit)
        } else {
            VerdictV::Continue
        },
    }
}

/// What a message means for the turn.
pub fn judge_message(msg: &Json) -> (r: Verdict)
    ensures
        r@ == message_verdict(msg@),
{
    let o: Option<&Json> = Some(msg);
    match event_type_of(msg) {
        None => Verdict::Continue,
        Some(kind) => if text_eq(kind, "v2/TurnCompleted") || text_eq(kind, "turn_completed")
            || text_eq(kind, "turn/completed") {
            let failed: bool = match text_of(get3(o, "params", "turn", "status")) {
                Some(status) => text_eq(status, "failed"),
                None => false,
            };
            if failed {
                let reason: &str = match text_of(
                    member(get3(o, "params", "turn", "error"), "message"),
                ) {
                    Some(reason) => reason,
                    None => "turn failed",
                };
                Verdict::Failed(EventError::TurnFailed(reason.to_owned()))
            } else {
                Verdict::TurnDone
            }
        } else if text_eq(kind, "v2/TurnFailed") || text_eq(kind, "turn_failed") {
            let reason: &str = match text_of(get3(o, "result", "error", "message")) {
                Some(reason) => reason,
                None => "unknown error",
            };
            Verdict::Failed(EventError::TurnFailed(reason.to_owned()))
        } else if text_eq(kind, "exit") {
            Verdict::Failed(EventError::Exit)
        } else {
            Verdict::Continue
        },
    }
}

// ── Budgets ─────────────────────────────────────────────────────────────────

/// How long to wait for events of a turn: the shorter of the two limits that are
/// set; without a limit, for ever.
pub open spec fn event_timeout(
    stall_timeout_ms: u64,
    elapsed_ms: u64,
    max_run_ms: Option<u64>,
) -> Option<u64> {
    let run_timeout = match max_run_ms {
        Some(max) => Some(
            if max > elapsed_ms {
                (max - elapsed_ms) as u64
            } else {
                0
            },
        ),
        None => None,
    };
    if stall_timeout_ms == 0 {
        run_timeout
    } else {
        match run_timeout {
            Some(run) => if run < stall_timeout_ms {
                Some(run)
            } else {
                Some(stall_timeout_ms)
            },
            None => Some(stall_timeout_ms),
        }
    }
}

/// How long to wait for events of a turn.
pub fn next_event_timeout_ms(
    stall_timeout_ms: u64,
    elapsed_ms: u64,
    max_run_ms: Option<u64>,
) -> (r: Option<u64>)
    ensures
        r == event_timeout(stall_timeout_ms, elapsed_ms, max_run_ms),
{
    let run_timeout: Option<u64> = match max_run_ms {
        Some(max) => Some(
            if max > elapsed_ms {
                max - elapsed_ms
            } else {
                0
            },
        ),
        None => None,
    };
    if stall_timeout_ms == 0 {
        run_timeout
    } else {
        match run_timeout {
            Some(run) => if run < stall_timeout_ms {
                Some(run)
            } else {
                Some(stall_timeout_ms)
            },
            None => Some(stall_timeout_ms),
        }
    }
}

/// The tokens that a session has used: the total that was reported, or else what
/// went in and came out.
pub open spec fn session_tokens(session: SessionV) -> u64 {
    if session.codex_total_tokens > 0 {
        session.codex_total_tokens
    } else if session.codex_input_tokens + session.codex_output_tokens > u64::MAX {
        u64::MAX
    } else {
        (session.codex_input_tokens + session.codex_output_tokens) as u64
    }
}

/// The tokens that a session has used.
pub fn current_session_tokens(session: &LiveSession) -> (r: u64)
    ensures
        r == session_tokens(session@),
{
    if session.codex_total_tokens > 0 {
        session.codex_total_tokens
    } else if session.codex_output_tokens > u64::MAX - session.codex_input_tokens {
        u64::MAX
    } else {
        session.codex_input_tokens + session.codex_output_tokens
    }
}

/// What is said of a run that took too long.
pub open spec fn max_run_text(max_run_ms: u64) -> Seq<char> {
    "worker exceeded max_run_ms budget ("@ + decimal(max_run_ms as nat) + "ms)"@
}

/// What is said of a run that took too long.
pub fn max_run_error(max_run_ms: u64) -> (r: String)
    ensures
        r@ == max_run_text(max_run_ms),
{
    let ms: String = decimal_text(max_run_ms);
    concat3("worker exceeded max_run_ms budget (", ms.as_str(), "ms)")
}

/// What is said of a run that used too much.
pub open spec fn max_tokens_text(max_tokens: u64, current_tokens: u64) -> Seq<char> {
    "worker exceeded max_tokens_per_run budget ("@ + decimal(current_tokens as nat) + "/"@
        + decimal(max_tokens as nat) + " tokens)"@
}

/// What is said of a run that used too much.
pub fn max_tokens_error(max_tokens: u64, current_tokens: u64) -> (r: String)
    ensures
        r@ == max_tokens_text(max_tokens, current_tokens),
{
    let current: String = decimal_text(current_tokens);
    let max: String = decimal_text(max_tokens);
    let head: String = concat3(
        "worker exceeded max_tokens_per_run budget (",
        current.as_str(),
        "/",
    );
    concat3(head.as_str(), max.as_str(), " tokens)")
}

/// Which budget a run has used up, if any.
pub open spec fn limit_violation(
    session: SessionV,
    elapsed_ms: u64,
    max_run_ms: Option<u64>,
    max_tokens_per_run: Option<u64>,
) -> Option<Seq<char>> {
    if max_run_ms is Some && elapsed_ms >= max_run_ms->0 {
        Some(max_run_text(max_run_ms->0))
    } else if max_tokens_per_run is Some && session_tokens(session) >= max_tokens_per_run->0 {
        Some(max_tokens_text(max_tokens_per_run->0, session_tokens(session)))
    } else {
        None
    }
}

/// Which budget a run has used up, if any.
pub fn run_limit_violation(
    session: &LiveSession,
    elapsed_ms: u64,
    max_run_ms: Option<u64>,
    max_tokens_per_run: Option<u64>,
) -> (r: Option<String>)
    ensures
        opt_text(r) == limit_violation(session@, elapsed_ms, max_run_ms, max_tokens_per_run),
{
    if let Some(max) = max_run_ms {
        if elapsed_ms >= max {
            return Some(max_run_error(max));
        }
    }
    if let Some(max) = max_tokens_per_run {
        let current: u64 = current_session_tokens(session);
        if current >= max {
            return Some(max_tokens_error(max, current));
        }
    }
    None
}

/// Waiting ends at once exactly where the budget of time is used up, and never
/// takes longer than either limit.
pub proof fn law_event_timeout(stall_timeout_ms: u64, elapsed_ms: u64, max_run_ms: Option<u64>)
    ensures
        event_timeout(stall_timeout_ms, elapsed_ms, max_run_ms) == Some(0u64) <==> max_run_ms
            is Some && elapsed_ms >= max_run_ms->0,
        event_timeout(stall_timeout_ms, elapsed_ms, max_run_ms) is None <==> stall_timeout_ms == 0
            && max_run_ms is None,
        event_timeout(stall_timeout_ms, elapsed_ms, max_run_ms) matches Some(ms) ==> (
        stall_timeout_ms > 0 ==> ms <= stall_timeout_ms) && (max_run_ms matches Some(max) ==> ms
            <= max),
{
}

/// A message that reports a total sets the counters to it, whatever they held; one
/// that reports no usage leaves them as they were.
pub proof fn law_totals_win(session: SessionV, msg: JsonV, now: Timestamp)
    ensures
        tokens_in(total_in(msg), "inputTokens"@) matches Some(n) ==> after_message(
            session,
            msg,
            now,
        ).codex_input_tokens == n,
        tokens_in(total_in(msg), "outputTokens"@) matches Some(n) ==> after_message(
            session,
            msg,
            now,
        ).codex_output_tokens == n,
        tokens_in(total_in(msg), "totalTokens"@) matches Some(n) ==> after_message(
            session,
            msg,
            now,
        ).codex_total_tokens == n,
        usage_in(msg) is None && total_in(msg) is None ==> after_message(
            session,
            msg,
            now,
        ).codex_input_tokens == session.codex_input_tokens && after_message(
            session,
            msg,
            now,
        ).codex_output_tokens == session.codex_output_tokens,
{
}

// ── Laws of messages ────────────────────────────────────────────────────────

/// Whether a message reports an event of this kind: its method names it or, where it
/// has no method, the type of its result does.
pub open spec fn reports(msg: JsonV, kind: Seq<char>) -> bool {
    says(msg, seq!["method"@], kind) || (msg.get("method"@) is None && says(
        msg,
        seq!["result"@, "type"@],
        kind,
    ))
}

proof fn lemma_reports(msg: JsonV, kind: Seq<char>)
    ensures
        reports(msg, kind) <==> event_type(msg) == Some(kind),
{
    lemma_at_path(msg, "method"@, "method"@, "method"@, "method"@);
    lemma_at_path(msg, "result"@, "type"@, "type"@, "type"@);
}

/// The names under which a turn is reported to be over.
pub open spec fn is_completion(kind: Seq<char>) -> bool {
    kind == "turn/completed"@ || kind == "turn_completed"@ || kind == "v2/TurnCompleted"@
}

/// A turn that is reported to be over went well unless its status is `failed`: with
/// any other status, and with none, it is done. Where it failed, the reason is what the
/// turn's error says.
pub proof fn law_completed_turns_go_well_unless_failed(msg: JsonV, kind: Seq<char>, why: Seq<char>)
    requires
        reports(msg, kind),
        is_completion(kind),
    ensures
        message_verdict(msg) is TurnDone <==> !says(
            msg,
            seq!["params"@, "turn"@, "status"@],
            "failed"@,
        ),
        says(msg, seq!["params"@, "turn"@, "status"@], "failed"@) && says(
            msg,
            seq!["params"@, "turn"@, "error"@, "message"@],
            why,
        ) ==> message_verdict(msg) == VerdictV::Failed(EventErrorV::TurnFailed(why)),
        says(msg, seq!["params"@, "turn"@, "status"@], "failed"@) && says_nothing(
            msg,
            seq!["params"@, "turn"@, "error"@, "message"@],
        ) ==> message_verdict(msg) == VerdictV::Failed(EventErrorV::TurnFailed("turn failed"@)),
{
    lemma_reports(msg, kind);
    lemma_at_path(msg, "params"@, "turn"@, "status"@, "status"@);
    lemma_at_path(msg, "params"@, "turn"@, "error"@, "message"@);
}

/// A turn that is reported as failed fails for the reason that is given, and a goodbye
/// ends the reading.
pub proof fn law_failures_are_taken_at_their_word(msg: JsonV, why: Seq<char>)
    ensures
        (reports(msg, "turn_failed"@) || reports(msg, "v2/TurnFailed"@)) && says(
            msg,
            seq!["result"@, "error"@, "message"@],
            why,
        ) ==> message_verdict(msg) == VerdictV::Failed(EventErrorV::TurnFailed(why)),
        (reports(msg, "turn_failed"@) || reports(msg, "v2/TurnFailed"@)) && says_nothing(
            msg,
            seq!["result"@, "error"@, "message"@],
        ) ==> message_verdict(msg) == VerdictV::Failed(EventErrorV::TurnFailed("unknown error"@)),
        reports(msg, "exit"@) ==> message_verdict(msg) == VerdictV::Failed(EventErrorV::Exit),
{
    lemma_reports(msg, "turn_failed"@);
    lemma_reports(msg, "v2/TurnFailed"@);
    lemma_reports(msg, "exit"@);
    lemma_at_path(msg, "result"@, "error"@, "message"@, "message"@);
    reveal_strlit("turn_failed");
    reveal_strlit("v2/TurnFailed");
    reveal_strlit("exit");
    reveal_strlit("turn/completed");
    reveal_strlit("turn_completed");
    reveal_strlit("v2/TurnCompleted");
    assert("turn_failed"@.len() == 11 && "v2/TurnFailed"@.len() == 13 && "exit"@.len() == 4);
    assert("turn/completed"@.len() == 14 && "turn_completed"@.len() == 14);
    assert("v2/TurnCompleted"@.len() == 16);
}

/// A message that reports none of these, or nothing at all, leaves the turn going on.
pub proof fn law_other_messages_leave_the_turn(msg: JsonV)
    ensures
        message_verdict(msg) is Continue <==> !(reports(msg, "turn/completed"@) || reports(
            msg,
            "turn_completed"@,
        ) || reports(msg, "v2/TurnCompleted"@) || reports(msg, "turn_failed"@) || reports(
            msg,
            "v2/TurnFailed"@,
        ) || reports(msg, "exit"@)),
{
    lemma_reports(msg, "turn/completed"@);
    lemma_reports(msg, "turn_completed"@);
    lemma_reports(msg, "v2/TurnCompleted"@);
    lemma_reports(msg, "turn_failed"@);
    lemma_reports(msg, "v2/TurnFailed"@);
    lemma_reports(msg, "exit"@);
}

/// A message is an error exactly where it has an `error`; what is said of it is the
/// error's message, with its code where that is a whole number.
pub proof fn law_errors_are_quoted(msg: JsonV, why: Seq<char>, code: i64)
    requires
        0 <= code ==> at_path(msg, seq!["error"@, "code"@]) == Some(
            JsonV::Number(JsonNumberV::Unsigned(code as u64)),
        ),
        code < 0 ==> at_path(msg, seq!["error"@, "code"@]) == Some(
            JsonV::Number(JsonNumberV::Negative(code)),
        ),
    ensures
        says(msg, seq!["error"@, "message"@], why) ==> rpc_error(msg) == Some(
            "JSON-RPC error "@ + signed_decimal(code as int) + ": "@ + why,
        ),
        says_nothing(msg, seq!["error"@, "message"@]) ==> rpc_error(msg) == Some(
            "JSON-RPC error "@ + signed_decimal(code as int) + ": "@ + "JSON-RPC error"@,
        ),
{
    lemma_at_path(msg, "error"@, "message"@, "message"@, "message"@);
    lemma_at_path(msg, "error"@, "code"@, "code"@, "code"@);
}

/// A message without an `error` is none, and an error without a code is quoted without
/// one.
pub proof fn law_only_errors_are_errors(msg: JsonV, why: Seq<char>)
    ensures
        rpc_error(msg) is None <==> msg.get("error"@) is None,
        says(msg, seq!["error"@, "message"@], why) && !(at_path(msg, seq!["error"@, "code"@])
            matches Some(JsonV::Number(_))) ==> rpc_error(msg) == Some("JSON-RPC error: "@ + why),
{
    lemma_at_path(msg, "error"@, "message"@, "message"@, "message"@);
    lemma_at_path(msg, "error"@, "code"@, "code"@, "code"@);
}

/// After a message the session holds the kind of the event, the moment and the words
/// of the message; what the message does not speak of stays.
pub proof fn law_sessions_note_events(session: SessionV, msg: JsonV, now: Timestamp, text: Seq<char>)
    ensures
        reports(msg, text) <==> after_message(session, msg, now).last_codex_event == Some(text),
        after_message(session, msg, now).last_codex_timestamp == Some(now),
        says(msg, seq!["result"@, "message"@], text) ==> after_message(
            session,
            msg,
            now,
        ).last_codex_message == Some(text),
        at_path(msg, seq!["result"@, "message"@]) is None && says(
            msg,
            seq!["params"@, "message"@],
            text,
        ) ==> after_message(session, msg, now).last_codex_message == Some(text),
        at_path(msg, seq!["result"@, "message"@]) is None && says_nothing(
            msg,
            seq!["params"@, "message"@],
        ) ==> after_message(session, msg, now).last_codex_message is None,
        after_message(session, msg, now).turn_count == session.turn_count,
        after_message(session, msg, now).codex_app_server_pid == session.codex_app_server_pid,
{
    lemma_reports(msg, text);
    lemma_at_path(msg, "result"@, "message"@, "message"@, "message"@);
    lemma_at_path(msg, "params"@, "message"@, "message"@, "message"@);
}

/// The thread that a message names, and where it names one.
pub open spec fn names_thread(msg: JsonV, id: Seq<char>) -> bool {
    ||| says(msg, seq!["result"@, "thread"@, "id"@], id)
    ||| at_path(msg, seq!["result"@, "thread"@, "id"@]) is None && says(
        msg,
        seq!["params"@, "threadId"@],
        id,
    )
    ||| at_path(msg, seq!["result"@, "thread"@, "id"@]) is None && at_path(
        msg,
        seq!["params"@, "threadId"@],
    ) is None && says(msg, seq!["params"@, "thread"@, "id"@], id)
}

/// The turn that a message names, and where it names one.
pub open spec fn names_turn(msg: JsonV, id: Seq<char>) -> bool {
    ||| says(msg, seq!["result"@, "turn"@, "id"@], id)
    ||| at_path(msg, seq!["result"@, "turn"@, "id"@]) is None && says(
        msg,
        seq!["params"@, "turn"@, "id"@],
        id,
    )
}

/// A session takes over the thread and the turn that a message names, keeps those that
/// it does not name, and is known by both together, thread first, once a turn is named.
pub proof fn law_sessions_take_names(
    session: SessionV,
    msg: JsonV,
    now: Timestamp,
    thread: Seq<char>,
    turn: Seq<char>,
)
    ensures
        names_thread(msg, thread) ==> after_message(session, msg, now).thread_id == Some(thread),
        (forall|id: Seq<char>| !#[trigger] names_thread(msg, id)) ==> after_message(
            session,
            msg,
            now,
        ).thread_id == session.thread_id,
        names_turn(msg, turn) ==> after_message(session, msg, now).turn_id == Some(turn),
        (forall|id: Seq<char>| !#[trigger] names_turn(msg, id)) ==> after_message(
            session,
            msg,
            now,
        ).turn_id == session.turn_id && after_message(session, msg, now).session_id
            == session.session_id,
        names_turn(msg, turn) && after_message(session, msg, now).thread_id == Some(thread)
            ==> after_message(session, msg, now).session_id == Some(thread + seq!['-'] + turn),
        names_turn(msg, turn) && after_message(session, msg, now).thread_id is None
            ==> after_message(session, msg, now).session_id == session.session_id,
{
    lemma_at_path(msg, "result"@, "thread"@, "id"@, "id"@);
    lemma_at_path(msg, "params"@, "threadId"@, "id"@, "id"@);
    lemma_at_path(msg, "params"@, "thread"@, "id"@, "id"@);
    lemma_at_path(msg, "result"@, "turn"@, "id"@, "id"@);
    lemma_at_path(msg, "params"@, "turn"@, "id"@, "id"@);
    if thread_in(msg) is Some {
        assert(names_thread(msg, thread_in(msg)->0));
    }
    if turn_in(msg) is Some {
        assert(names_turn(msg, turn_in(msg)->0));
    }
}

/// How many tokens a message says were used last: under `result.usage` or, where there
/// is none, under `params.tokenUsage.last`.
pub open spec fn uses(msg: JsonV, key: Seq<char>, n: u64) -> bool {
    counts(msg, seq!["result"@, "usage"@, key], n) || (at_path(msg, seq!["result"@, "usage"@])
        is None && counts(msg, seq!["params"@, "tokenUsage"@, "last"@, key], n))
}

/// What a message says was used last is added to what was counted, unless the message
/// gives a total, which then counts; where it says nothing of it, the count stays.
pub proof fn law_tokens_are_counted(session: SessionV, msg: JsonV, now: Timestamp, n: u64)
    requires
        usage_fits(session, msg),
    ensures
        ({
            let after = after_message(session, msg, now);
            let total = seq!["params"@, "tokenUsage"@, "total"@];
            &&& counts(msg, total.push("inputTokens"@), n) ==> after.codex_input_tokens == n
            &&& counts(msg, total.push("outputTokens"@), n) ==> after.codex_output_tokens == n
            &&& counts(msg, total.push("totalTokens"@), n) ==> after.codex_total_tokens == n
            &&& counts_nothing(msg, total.push("totalTokens"@)) ==> after.codex_total_tokens
                == session.codex_total_tokens
            &&& counts_nothing(msg, total.push("inputTokens"@)) && uses(msg, "inputTokens"@, n)
                ==> after.codex_input_tokens == session.codex_input_tokens + n
            &&& counts_nothing(msg, total.push("outputTokens"@)) && uses(msg, "outputTokens"@, n)
                ==> after.codex_output_tokens == session.codex_output_tokens + n
            &&& counts_nothing(msg, total.push("inputTokens"@)) && (forall|m: u64|
                !#[trigger] uses(msg, "inputTokens"@, m)) ==> after.codex_input_tokens
                == session.codex_input_tokens
            &&& counts_nothing(msg, total.push("outputTokens"@)) && (forall|m: u64|
                !#[trigger] uses(msg, "outputTokens"@, m)) ==> after.codex_output_tokens
                == session.codex_output_tokens
            &&& uses(msg, "inputTokens"@, n) ==> after.last_reported_input_tokens == n
            &&& uses(msg, "outputTokens"@, n) ==> after.last_reported_output_tokens == n
        }),
{
    let total = seq!["params"@, "tokenUsage"@, "total"@];
    lemma_usage_paths(msg, "inputTokens"@);
    lemma_usage_paths(msg, "outputTokens"@);
    lemma_usage_paths(msg, "totalTokens"@);
    assert(total.push("inputTokens"@) =~= seq![
        "params"@,
        "tokenUsage"@,
        "total"@,
        "inputTokens"@,
    ]);
    assert(total.push("outputTokens"@) =~= seq![
        "params"@,
        "tokenUsage"@,
        "total"@,
        "outputTokens"@,
    ]);
    assert(total.push("totalTokens"@) =~= seq![
        "params"@,
        "tokenUsage"@,
        "total"@,
        "totalTokens"@,
    ]);
    if tokens_in(usage_in(msg), "inputTokens"@) is Some {
        assert(uses(msg, "inputTokens"@, tokens_in(usage_in(msg), "inputTokens"@)->0));
    }
    if tokens_in(usage_in(msg), "outputTokens"@) is Some {
        assert(uses(msg, "outputTokens"@, tokens_in(usage_in(msg), "outputTokens"@)->0));
    }
}

proof fn lemma_usage_paths(msg: JsonV, key: Seq<char>)
    ensures
        at_path(msg, seq!["params"@, "tokenUsage"@, "total"@, key]) == within(total_in(msg), key),
        forall|n: u64|
            #[trigger] uses(msg, key, n) <==> tokens_in(usage_in(msg), key) == Some(n),
{
    lemma_at_path(msg, "params"@, "tokenUsage"@, "total"@, key);
    lemma_at_path(msg, "params"@, "tokenUsage"@, "last"@, key);
    lemma_at_path(msg, "result"@, "usage"@, key, key);
}

/// What a message reports fits exactly where no counter passes what it can hold.
pub proof fn law_counters_are_not_passed(session: SessionV, msg: JsonV)
    ensures
        usage_fits(session, msg) <==> (forall|n: u64| #[trigger]
            uses(msg, "inputTokens"@, n) ==> session.codex_input_tokens + n <= u64::MAX) && (
        forall|n: u64| #[trigger]
            uses(msg, "outputTokens"@, n) ==> session.codex_output_tokens + n <= u64::MAX),
{
    lemma_usage_paths(msg, "inputTokens"@);
    lemma_usage_paths(msg, "outputTokens"@);
    if !usage_fits(session, msg) {
        let input = tokens_in(usage_in(msg), "inputTokens"@);
        let output = tokens_in(usage_in(msg), "outputTokens"@);
        if input is Some && session.codex_input_tokens + input->0 > u64::MAX {
            assert(uses(msg, "inputTokens"@, input->0));
        } else {
            assert(uses(msg, "outputTokens"@, output->0));
        }
    }
}

/// Where both limits are set the wait is the smaller one, where one is set it is that
/// one, and the run's limit counts from the run's beginning.
pub proof fn law_the_shorter_wait_counts(stall: u64, elapsed: u64, max_run: u64)
    ensures
        stall > 0 ==> event_timeout(stall, elapsed, None) == Some(stall),
        event_timeout(0, elapsed, None) is None,
        elapsed <= max_run ==> event_timeout(0, elapsed, Some(max_run)) == Some(
            (max_run - elapsed) as u64,
        ),
        stall > 0 && elapsed + stall <= max_run ==> event_timeout(stall, elapsed, Some(max_run))
            == Some(stall),
        stall > 0 && elapsed <= max_run && max_run - elapsed <= stall ==> event_timeout(
            stall,
            elapsed,
            Some(max_run),
        ) == Some((max_run - elapsed) as u64),
        elapsed >= max_run ==> event_timeout(stall, elapsed, Some(max_run)) == Some(0u64),
{
}

/// A session has used the total that was reported or, where none was, what went in and
/// out together, as far as that can be counted.
pub proof fn law_used_tokens(session: SessionV)
    ensures
        session.codex_total_tokens > 0 ==> session_tokens(session) == session.codex_total_tokens,
        session.codex_total_tokens == 0 && session.codex_input_tokens + session.codex_output_tokens
            <= u64::MAX ==> session_tokens(session) == session.codex_input_tokens
            + session.codex_output_tokens,
        session.codex_total_tokens == 0 && session.codex_input_tokens + session.codex_output_tokens
            > u64::MAX ==> session_tokens(session) == u64::MAX,
{
}

/// A run is within its budgets exactly where it has not yet run for its time and has not
/// yet used its tokens; where both are used up, the time is named.
pub proof fn law_budgets(
    session: SessionV,
    elapsed: u64,
    max_run: Option<u64>,
    max_tokens: Option<u64>,
)
    ensures
        limit_violation(session, elapsed, max_run, max_tokens) is None <==> (max_run matches Some(m)
            ==> elapsed < m) && (max_tokens matches Some(t) ==> session_tokens(session) < t),
        max_run matches Some(m) ==> elapsed >= m ==> limit_violation(
            session,
            elapsed,
            max_run,
            max_tokens,
        ) == Some("worker exceeded max_run_ms budget ("@ + decimal(m as nat) + "ms)"@),
        limit_violation(session, elapsed, None, max_tokens) matches Some(text) ==> text
            == "worker exceeded max_tokens_per_run budget ("@ + decimal(
            session_tokens(session) as nat,
        ) + "/"@ + decimal(max_tokens->0 as nat) + " tokens)"@,
{
}

// ── Laws of requests ────────────────────────────────────────────────────────

proof fn lemma_request_members(id: int, method: Seq<char>, params: JsonV)
    ensures
        request(id, method, params).get("id"@) == Some(integer_json(id)),
        request(id, method, params).get("jsonrpc"@) == Some(JsonV::Text("2.0"@)),
        request(id, method, params).get("method"@) == Some(JsonV::Text(method)),
        request(id, method, params).get("params"@) == Some(params),
{
    reveal_strlit("id");
    reveal_strlit("jsonrpc");
    reveal_strlit("method");
    reveal_strlit("params");
    assert("id"@.len() == 2 && "jsonrpc"@.len() == 7 && "method"@.len() == 6 && "params"@.len()
        == 6);
    assert("method"@[0] == 'm' && "params"@[0] == 'p');
    let members = request(id, method, params)->Object_0;
    reveal_with_fuel(crate::json::find_member, 5);
    assert(members.drop_first()[0] == members[1]);
    assert(members.drop_first().drop_first()[0] == members[2]);
    assert(members.drop_first().drop_first().drop_first()[0] == members[3]);
}

/// Every request carries its number, the version of the protocol, its method and its
/// parameters, each under its name.
pub proof fn law_requests_name_their_parts(id: u64, method: Seq<char>, params: JsonV)
    ensures
        counts(request(id as int, method, params), seq!["id"@], id),
        says(request(id as int, method, params), seq!["jsonrpc"@], "2.0"@),
        says(request(id as int, method, params), seq!["method"@], method),
        at_path(request(id as int, method, params), seq!["params"@]) == Some(params),
{
    let r = request(id as int, method, params);
    lemma_request_members(id as int, method, params);
    lemma_at_path(r, "id"@, "id"@, "id"@, "id"@);
    lemma_at_path(r, "jsonrpc"@, "id"@, "id"@, "id"@);
    lemma_at_path(r, "method"@, "id"@, "id"@, "id"@);
    lemma_at_path(r, "params"@, "id"@, "id"@, "id"@);
}

/// A thread is started in the given directory, under the configured policy and in the
/// configured sandbox.
pub proof fn law_threads_start_as_configured(config: AgentConfigV, cwd: Seq<char>)
    ensures
        says(thread_params(config, cwd), seq!["cwd"@], cwd),
        says(
            thread_params(config, cwd),
            seq!["approvalPolicy"@],
            approval_wire(config.approval_policy),
        ),
        says(thread_params(config, cwd), seq!["sandbox"@], sandbox_wire(config.thread_sandbox)),
{
    reveal_strlit("approvalPolicy");
    reveal_strlit("cwd");
    reveal_strlit("sandbox");
    assert("approvalPolicy"@.len() == 14 && "cwd"@.len() == 3 && "sandbox"@.len() == 7);
    let p = thread_params(config, cwd);
    let members = p->Object_0;
    reveal_with_fuel(crate::json::find_member, 4);
    assert(members.drop_first()[0] == members[1]);
    assert(members.drop_first().drop_first()[0] == members[2]);
    lemma_at_path(p, "cwd"@, "cwd"@, "cwd"@, "cwd"@);
    lemma_at_path(p, "approvalPolicy"@, "cwd"@, "cwd"@, "cwd"@);
    lemma_at_path(p, "sandbox"@, "cwd"@, "cwd"@, "cwd"@);
}

/// A turn is started on the given thread with the prompt as its one text, under the
/// configured policy and in the configured sandbox.
pub proof fn law_turns_start_with_the_prompt(
    thread_id: Seq<char>,
    prompt: Seq<char>,
    config: AgentConfigV,
    cwd: Seq<char>,
)
    ensures
        says(turn_params(thread_id, prompt, config, cwd), seq!["threadId"@], thread_id),
        says(
            turn_params(thread_id, prompt, config, cwd),
            seq!["approvalPolicy"@],
            approval_wire(config.approval_policy),
        ),
        at_path(turn_params(thread_id, prompt, config, cwd), seq!["sandboxPolicy"@]) == Some(
            turn_sandbox(config.turn_sandbox_policy, cwd),
        ),
        at_path(turn_params(thread_id, prompt, config, cwd), seq!["input"@]) matches Some(
            JsonV::List(items),
        ) && items.len() == 1 && says(items[0], seq!["text"@], prompt) && says(
            items[0],
            seq!["type"@],
            "text"@,
        ),
{
    reveal_strlit("approvalPolicy");
    reveal_strlit("input");
    reveal_strlit("sandboxPolicy");
    reveal_strlit("threadId");
    reveal_strlit("text");
    reveal_strlit("text_elements");
    reveal_strlit("type");
    assert("approvalPolicy"@.len() == 14 && "input"@.len() == 5 && "sandboxPolicy"@.len() == 13
        && "threadId"@.len() == 8);
    assert("text"@.len() == 4 && "text_elements"@.len() == 13 && "type"@.len() == 4);
    assert("text"@[1] == 'e' && "type"@[1] == 'y');
    let p = turn_params(thread_id, prompt, config, cwd);
    let members = p->Object_0;
    let item = members[1].1->List_0[0];
    let parts = item->Object_0;
    reveal_with_fuel(crate::json::find_member, 5);
    assert(members.drop_first()[0] == members[1]);
    assert(members.drop_first().drop_first()[0] == members[2]);
    assert(members.drop_first().drop_first().drop_first()[0] == members[3]);
    assert(parts.drop_first()[0] == parts[1]);
    assert(parts.drop_first().drop_first()[0] == parts[2]);
    lemma_at_path(p, "threadId"@, "type"@, "type"@, "type"@);
    lemma_at_path(p, "approvalPolicy"@, "type"@, "type"@, "type"@);
    lemma_at_path(p, "sandboxPolicy"@, "type"@, "type"@, "type"@);
    lemma_at_path(p, "input"@, "type"@, "type"@, "type"@);
    lemma_at_path(item, "text"@, "type"@, "type"@, "type"@);
    lemma_at_path(item, "type"@, "type"@, "type"@, "type"@);
}

/// Each kept policy has its own word on the wire, and any other text stands for the
/// default, which asks for nothing and writes only in the workspace.
pub proof fn law_policies_on_the_wire(policy: Seq<char>, sandbox: Seq<char>, cwd: Seq<char>)
    ensures
        approval_wire("on-request"@) == "onRequest"@,
        approval_wire("on-failure"@) == "onFailure"@,
        approval_wire("unless-trusted"@) == "unlessTrusted"@,
        policy != "on-request"@ && policy != "on-failure"@ && policy != "unless-trusted"@
            ==> approval_wire(policy) == "never"@,
        sandbox_wire("read-only"@) == "read-only"@,
        sandbox_wire("danger-full-access"@) == "danger-full-access"@,
        sandbox != "read-only"@ && sandbox != "danger-full-access"@ ==> sandbox_wire(sandbox)
            == "workspace-write"@,
        says(turn_sandbox("read-only"@, cwd), seq!["type"@], "readOnly"@),
        says(turn_sandbox("danger-full-access"@, cwd), seq!["type"@], "dangerFullAccess"@),
        sandbox != "read-only"@ && sandbox != "danger-full-access"@ ==> {
            let p = turn_sandbox(sandbox, cwd);
            &&& says(p, seq!["type"@], "workspaceWrite"@)
            &&& at_path(p, seq!["writableRoots"@]) == Some(JsonV::List(seq![JsonV::Text(cwd)]))
            &&& at_path(p, seq!["networkAccess"@]) == Some(JsonV::Bool(true))
            &&& at_path(p, seq!["excludeSlashTmp"@]) == Some(JsonV::Bool(false))
            &&& at_path(p, seq!["excludeTmpdirEnvVar"@]) == Some(JsonV::Bool(false))
        },
{
    reveal_strlit("on-request");
    reveal_strlit("on-failure");
    reveal_strlit("unless-trusted");
    reveal_strlit("read-only");
    reveal_strlit("danger-full-access");
    assert("on-request"@.len() == 10 && "on-failure"@.len() == 10 && "unless-trusted"@.len()
        == 14);
    assert("on-request"@[3] == 'r' && "on-failure"@[3] == 'f');
    assert("read-only"@.len() == 9 && "danger-full-access"@.len() == 18);
    reveal_strlit("excludeSlashTmp");
    reveal_strlit("excludeTmpdirEnvVar");
    reveal_strlit("networkAccess");
    reveal_strlit("type");
    reveal_strlit("writableRoots");
    assert("excludeSlashTmp"@.len() == 15 && "excludeTmpdirEnvVar"@.len() == 19);
    assert("networkAccess"@.len() == 13 && "type"@.len() == 4 && "writableRoots"@.len() == 13);
    assert("networkAccess"@[0] == 'n' && "writableRoots"@[0] == 'w');
    reveal_with_fuel(crate::json::find_member, 6);
    let p = turn_sandbox(sandbox, cwd);
    let members = p->Object_0;
    if members.len() == 5 {
        assert(members.drop_first()[0] == members[1]);
        assert(members.drop_first().drop_first()[0] == members[2]);
        assert(members.drop_first().drop_first().drop_first()[0] == members[3]);
        assert(members.drop_first().drop_first().drop_first().drop_first()[0] == members[4]);
    }
    lemma_at_path(turn_sandbox("read-only"@, cwd), "type"@, cwd, cwd, cwd);
    lemma_at_path(turn_sandbox("danger-full-access"@, cwd), "type"@, cwd, cwd, cwd);
    lemma_at_path(p, "type"@, cwd, cwd, cwd);
    lemma_at_path(p, "writableRoots"@, cwd, cwd, cwd);
    lemma_at_path(p, "networkAccess"@, cwd, cwd, cwd);
    lemma_at_path(p, "excludeSlashTmp"@, cwd, cwd, cwd);
    lemma_at_path(p, "excludeTmpdirEnvVar"@, cwd, cwd, cwd);
}

/// The program introduces itself by its name and its version.
pub proof fn law_the_program_introduces_itself(version: Seq<char>)
    ensures
        says(initialize_params(version), seq!["clientInfo"@, "name"@], "symphony"@),
        says(initialize_params(version), seq!["clientInfo"@, "title"@], "Symphony"@),
        says(initialize_params(version), seq!["clientInfo"@, "version"@], version),
        at_path(initialize_params(version), seq!["capabilities"@, "experimentalApi"@]) == Some(
            JsonV::Bool(true),
        ),
{
    reveal_strlit("capabilities");
    reveal_strlit("clientInfo");
    reveal_strlit("name");
    reveal_strlit("title");
    reveal_strlit("version");
    assert("capabilities"@.len() == 12 && "clientInfo"@.len() == 10);
    assert("name"@.len() == 4 && "title"@.len() == 5 && "version"@.len() == 7);
    let p = initialize_params(version);
    let members = p->Object_0;
    let client = members[1].1->Object_0;
    reveal_with_fuel(crate::json::find_member, 4);
    assert(members.drop_first()[0] == members[1]);
    assert(client.drop_first()[0] == client[1]);
    assert(client.drop_first().drop_first()[0] == client[2]);
    lemma_at_path(p, "clientInfo"@, "name"@, version, version);
    lemma_at_path(p, "clientInfo"@, "title"@, version, version);
    lemma_at_path(p, "clientInfo"@, "version"@, version, version);
    lemma_at_path(p, "capabilities"@, "experimentalApi"@, version, version);
}

/// What was reported last is kept until something else is reported.
pub proof fn law_last_reports_are_kept(session: SessionV, msg: JsonV, now: Timestamp)
    ensures
        (forall|n: u64| !#[trigger] uses(msg, "inputTokens"@, n)) ==> after_message(
            session,
            msg,
            now,
        ).last_reported_input_tokens == session.last_reported_input_tokens,
        (forall|n: u64| !#[trigger] uses(msg, "outputTokens"@, n)) ==> after_message(
            session,
            msg,
            now,
        ).last_reported_output_tokens == session.last_reported_output_tokens,
{
    lemma_usage_paths(msg, "inputTokens"@);
    lemma_usage_paths(msg, "outputTokens"@);
    if tokens_in(usage_in(msg), "inputTokens"@) is Some {
        assert(uses(msg, "inputTokens"@, tokens_in(usage_in(msg), "inputTokens"@)->0));
    }
    if tokens_in(usage_in(msg), "outputTokens"@) is Some {
        assert(uses(msg, "outputTokens"@, tokens_in(usage_in(msg), "outputTokens"@)->0));
    }
}

/// A message goes out as one line: its rendering and a line feed behind it.
pub proof fn law_messages_are_lines(message: JsonV)
    ensures
        framed(message) == json_rendered(json_stored(message)) + seq!['\n'],
{
}

/// An error of an event is shown by its name and, where it says more, with that quoted.
pub proof fn law_event_errors_are_shown(s: Seq<char>)
    ensures
        event_error_shown(EventErrorV::Exit) == "Exit"@,
        event_error_shown(EventErrorV::TurnFailed(s)) == "TurnFailed("@ + debug_quoted(s) + ")"@,
        event_error_shown(EventErrorV::RunLimitExceeded(s)) == "RunLimitExceeded("@ + debug_quoted(
            s,
        ) + ")"@,
{
}

} // verus!
