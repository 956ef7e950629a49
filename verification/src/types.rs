//! The domain model that all modules share.
use crate::json::{Json, JsonV};
use crate::table::{Table, TextSet};
use crate::text::{
    clone_opt, clone_texts, concat3, is_alphanumeric, is_ascii_alphanumeric, is_listed, listed,
    lowercase, opt_text, texts, to_lowercase,
};
use vstd::prelude::*;
use vstd::string::*;

verus! {

// ── Time ────────────────────────────────────────────────────────────────────

/// A moment in coordinated universal time: whole seconds since the start of 1970
/// and the nanoseconds within the second.
#[derive(Debug, Clone, Copy, PartialEq, Eq, Structural)]
pub struct Timestamp {
    pub seconds: i64,
    pub nanos: u32,
}

/// Nanoseconds since the start of 1970.
pub open spec fn nanos_since_epoch(t: Timestamp) -> int {
    t.seconds * 1_000_000_000 + t.nanos
}

/// A quotient without its fraction.
pub open spec fn truncated_div(a: int, b: int) -> int {
    if a >= 0 {
        a / b
    } else {
        -((-a) / b)
    }
}

/// Whole seconds from one clock reading to another, cut off towards zero.
pub open spec fn whole_seconds(from: Timestamp, to: Timestamp) -> int {
    truncated_div(nanos_since_epoch(to) - nanos_since_epoch(from), 1_000_000_000)
}

impl Timestamp {
    /// Whether this moment comes before another.
    pub fn before(&self, other: &Timestamp) -> (r: bool)
        ensures
            r == (self.seconds < other.seconds || (self.seconds == other.seconds && self.nanos
                < other.nanos)),
    {
        self.seconds < other.seconds || (self.seconds == other.seconds && self.nanos < other.nanos)
    }

    /// Whole seconds from an earlier clock reading to this one, negative where the
    /// clock was set back. Clock readings hold no leap second.
    pub fn seconds_since(&self, earlier: &Timestamp) -> (r: i128)
        ensures
            r == whole_seconds(*earlier, *self),
            -0x2_0000_0000_0000_0000 < r < 0x2_0000_0000_0000_0000,
    {
        let later: i128 = self.seconds as i128 * 1_000_000_000 + self.nanos as i128;
        let start: i128 = earlier.seconds as i128 * 1_000_000_000 + earlier.nanos as i128;
        let d: i128 = later - start;
        if d >= 0 {
            d / 1_000_000_000
        } else {
            -((-d) / 1_000_000_000)
        }
    }
}

// ── Issue ───────────────────────────────────────────────────────────────────

/// An issue that blocks another.
#[derive(Debug)]
pub struct BlockerRef {
    pub id: Option<String>,
    pub identifier: Option<String>,
    pub state: Option<String>,
}

/// A blocker by its contents.
#[verifier::ext_equal]
pub struct BlockerV {
    pub id: Option<Seq<char>>,
    pub identifier: Option<Seq<char>>,
    pub state: Option<Seq<char>>,
}

impl View for BlockerRef {
    type V = BlockerV;

    open spec fn view(&self) -> BlockerV {
        BlockerV {
            id: opt_text(self.id),
            identifier: opt_text(self.identifier),
            state: opt_text(self.state),
        }
    }
}

impl Clone for BlockerRef {
    fn clone(&self) -> (r: BlockerRef)
        ensures
            r@ == self@,
    {
        BlockerRef {
            id: clone_opt(&self.id),
            identifier: clone_opt(&self.identifier),
            state: clone_opt(&self.state),
        }
    }
}

/// The contents of a list of blockers.
pub open spec fn blockers(v: Seq<BlockerRef>) -> Seq<BlockerV> {
    v.map_values(|b: BlockerRef| b@)
}

fn clone_blockers(v: &Vec<BlockerRef>) -> (r: Vec<BlockerRef>)
    ensures
        blockers(r@) == blockers(v@),
{
    let mut r: Vec<BlockerRef> = Vec::new();
    let mut i: usize = 0;
    while i < v.len()
        invariant
            i <= v.len(),
            r.len() == i,
            forall|k: int| 0 <= k < i ==> (#[trigger] r@[k])@ == v@[k]@,
        decreases v.len() - i,
    {
        r.push(v[i].clone());
        i = i + 1;
    }
    assert(blockers(r@) =~= blockers(v@));
    r
}

/// An issue of the tracker.
#[derive(Debug)]
pub struct Issue {
    pub id: String,
    pub identifier: String,
    pub title: String,
    pub description: Option<String>,
    pub priority: Option<i32>,
    pub state: String,
    pub branch_name: Option<String>,
    pub url: Option<String>,
    pub labels: Vec<String>,
    pub blocked_by: Vec<BlockerRef>,
    pub created_at: Option<Timestamp>,
    pub updated_at: Option<Timestamp>,
}

/// An issue by its contents.
#[verifier::ext_equal]
pub struct IssueV {
    pub id: Seq<char>,
    pub identifier: Seq<char>,
    pub title: Seq<char>,
    pub description: Option<Seq<char>>,
    pub priority: Option<i32>,
    pub state: Seq<char>,
    pub branch_name: Option<Seq<char>>,
    pub url: Option<Seq<char>>,
    pub labels: Seq<Seq<char>>,
    pub blocked_by: Seq<BlockerV>,
    pub created_at: Option<Timestamp>,
    pub updated_at: Option<Timestamp>,
}

impl View for Issue {
    type V = IssueV;

    open spec fn view(&self) -> IssueV {
        IssueV {
            id: self.id@,
            identifier: self.identifier@,
            title: self.title@,
            description: opt_text(self.description),
            priority: self.priority,
            state: self.state@,
            branch_name: opt_text(self.branch_name),
            url: opt_text(self.url),
            labels: texts(self.labels@),
            blocked_by: blockers(self.blocked_by@),
            created_at: self.created_at,
            updated_at: self.updated_at,
        }
    }
}

impl Clone for Issue {
    fn clone(&self) -> (r: Issue)
        ensures
            r@ == self@,
    {
        Issue {
            id: self.id.clone(),
            identifier: self.identifier.clone(),
            title: self.title.clone(),
            description: clone_opt(&self.description),
            priority: self.priority,
            state: self.state.clone(),
            branch_name: clone_opt(&self.branch_name),
            url: clone_opt(&self.url),
            labels: clone_texts(&self.labels),
            blocked_by: clone_blockers(&self.blocked_by),
            created_at: self.created_at,
            updated_at: self.updated_at,
        }
    }
}

/// The contents of a list of issues.
pub open spec fn issues(v: Seq<Issue>) -> Seq<IssueV> {
    v.map_values(|i: Issue| i@)
}

impl Issue {
    /// Normalized state (lowercased) for comparisons.
    pub fn state_normalized(&self) -> (r: String)
        ensures
            r@ == lowercase(self@.state),
    {
        to_lowercase(self.state.as_str())
    }

    /// Whether this issue is in an "active" state per the given list.
    pub fn is_active(&self, active_states: &Vec<String>) -> (r: bool)
        ensures
            r == listed(self@.state, texts(active_states@)),
    {
        is_listed(self.state.as_str(), active_states)
    }

    /// Whether this issue is in a "terminal" state per the given list.
    pub fn is_terminal(&self, terminal_states: &Vec<String>) -> (r: bool)
        ensures
            r == listed(self@.state, texts(terminal_states@)),
    {
        is_listed(self.state.as_str(), terminal_states)
    }
}

// ── Workspace ───────────────────────────────────────────────────────────────

/// The directory in which an agent works on an issue.
#[derive(Debug)]
pub struct Workspace {
    pub path: String,
    pub workspace_key: String,
    pub created_now: bool,
}

/// A workspace by its contents.
pub struct WorkspaceV {
    pub path: Seq<char>,
    pub workspace_key: Seq<char>,
    pub created_now: bool,
}

impl View for Workspace {
    type V = WorkspaceV;

    open spec fn view(&self) -> WorkspaceV {
        WorkspaceV {
            path: self.path@,
            workspace_key: self.workspace_key@,
            created_now: self.created_now,
        }
    }
}

impl Clone for Workspace {
    fn clone(&self) -> (r: Workspace)
        ensures
            r@ == self@,
    {
        Workspace {
            path: self.path.clone(),
            workspace_key: self.workspace_key.clone(),
            created_now: self.created_now,
        }
    }
}

// ── Live session ────────────────────────────────────────────────────────────

/// What is known of a running agent session.
#[derive(Debug)]
pub struct LiveSession {
    pub session_id: Option<String>,
    pub thread_id: Option<String>,
    pub turn_id: Option<String>,
    pub codex_app_server_pid: Option<String>,
    pub last_codex_event: Option<String>,
    pub last_codex_timestamp: Option<Timestamp>,
    pub last_codex_message: Option<String>,
    pub codex_input_tokens: u64,
    pub codex_output_tokens: u64,
    pub codex_total_tokens: u64,
    pub last_reported_input_tokens: u64,
    pub last_reported_output_tokens: u64,
    pub turn_count: u64,
}

/// A session by its contents.
#[verifier::ext_equal]
pub struct SessionV {
    pub session_id: Option<Seq<char>>,
    pub thread_id: Option<Seq<char>>,
    pub turn_id: Option<Seq<char>>,
    pub codex_app_server_pid: Option<Seq<char>>,
    pub last_codex_event: Option<Seq<char>>,
    pub last_codex_timestamp: Option<Timestamp>,
    pub last_codex_message: Option<Seq<char>>,
    pub codex_input_tokens: u64,
    pub codex_output_tokens: u64,
    pub codex_total_tokens: u64,
    pub last_reported_input_tokens: u64,
    pub last_reported_output_tokens: u64,
    pub turn_count: u64,
}

impl View for LiveSession {
    type V = SessionV;

    open spec fn view(&self) -> SessionV {
        SessionV {
            session_id: opt_text(self.session_id),
            thread_id: opt_text(self.thread_id),
            turn_id: opt_text(self.turn_id),
            codex_app_server_pid: opt_text(self.codex_app_server_pid),
            last_codex_event: opt_text(self.last_codex_event),
            last_codex_timestamp: self.last_codex_timestamp,
            last_codex_message: opt_text(self.last_codex_message),
            codex_input_tokens: self.codex_input_tokens,
            codex_output_tokens: self.codex_output_tokens,
            codex_total_tokens: self.codex_total_tokens,
            last_reported_input_tokens: self.last_reported_input_tokens,
            last_reported_output_tokens: self.last_reported_output_tokens,
            turn_count: self.turn_count,
        }
    }
}

/// A session that has not begun.
pub open spec fn new_session() -> SessionV {
    SessionV {
        session_id: None,
        thread_id: None,
        turn_id: None,
        codex_app_server_pid: None,
        last_codex_event: None,
        last_codex_timestamp: None,
        last_codex_message: None,
        codex_input_tokens: 0,
        codex_output_tokens: 0,
        codex_total_tokens: 0,
        last_reported_input_tokens: 0,
        last_reported_output_tokens: 0,
        turn_count: 0,
    }
}

impl Default for LiveSession {
    fn default() -> (r: LiveSession)
        ensures
            r@ == new_session(),
    {
        LiveSession {
            session_id: None,
            thread_id: None,
            turn_id: None,
            codex_app_server_pid: None,
            last_codex_event: None,
            last_codex_timestamp: None,
            last_codex_message: None,
            codex_input_tokens: 0,
            codex_output_tokens: 0,
            codex_total_tokens: 0,
            last_reported_input_tokens: 0,
            last_reported_output_tokens: 0,
            turn_count: 0,
        }
    }
}

impl Clone for LiveSession {
    fn clone(&self) -> (r: LiveSession)
        ensures
            r@ == self@,
    {
        LiveSession {
            session_id: clone_opt(&self.session_id),
            thread_id: clone_opt(&self.thread_id),
            turn_id: clone_opt(&self.turn_id),
            codex_app_server_pid: clone_opt(&self.codex_app_server_pid),
            last_codex_event: clone_opt(&self.last_codex_event),
            last_codex_timestamp: self.last_codex_timestamp,
            last_codex_message: clone_opt(&self.last_codex_message),
            codex_input_tokens: self.codex_input_tokens,
            codex_output_tokens: self.codex_output_tokens,
            codex_total_tokens: self.codex_total_tokens,
            last_reported_input_tokens: self.last_reported_input_tokens,
            last_reported_output_tokens: self.last_reported_output_tokens,
            turn_count: self.turn_count,
        }
    }
}

/// An issue that a worker has in hand.
#[derive(Debug)]
pub struct RunningEntry {
    pub issue_id: String,
    pub identifier: String,
    pub issue: Issue,
    pub session: LiveSession,
    pub retry_attempt: Option<u32>,
    pub started_at: Timestamp,
}

/// A running entry by its contents.
#[verifier::ext_equal]
pub struct RunningV {
    pub issue_id: Seq<char>,
    pub identifier: Seq<char>,
    pub issue: IssueV,
    pub session: SessionV,
    pub retry_attempt: Option<u32>,
    pub started_at: Timestamp,
}

impl View for RunningEntry {
    type V = RunningV;

    open spec fn view(&self) -> RunningV {
        RunningV {
            issue_id: self.issue_id@,
            identifier: self.identifier@,
            issue: self.issue@,
            session: self.session@,
            retry_attempt: self.retry_attempt,
            started_at: self.started_at,
        }
    }
}

impl Clone for RunningEntry {
    fn clone(&self) -> (r: RunningEntry)
        ensures
            r@ == self@,
    {
        RunningEntry {
            issue_id: self.issue_id.clone(),
            identifier: self.identifier.clone(),
            issue: self.issue.clone(),
            session: self.session.clone(),
            retry_attempt: self.retry_attempt,
            started_at: self.started_at,
        }
    }
}

// ── Retry entry ─────────────────────────────────────────────────────────────

/// An issue that waits to be taken up again.
#[derive(Debug)]
pub struct RetryEntry {
    pub issue_id: String,
    pub identifier: String,
    pub attempt: u32,
    pub due_at_ms: u64,
    pub error: Option<String>,
}

/// A retry entry by its contents.
#[verifier::ext_equal]
pub struct RetryV {
    pub issue_id: Seq<char>,
    pub identifier: Seq<char>,
    pub attempt: u32,
    pub due_at_ms: u64,
    pub error: Option<Seq<char>>,
}

impl View for RetryEntry {
    type V = RetryV;

    open spec fn view(&self) -> RetryV {
        RetryV {
            issue_id: self.issue_id@,
            identifier: self.identifier@,
            attempt: self.attempt,
            due_at_ms: self.due_at_ms,
            error: opt_text(self.error),
        }
    }
}

impl Clone for RetryEntry {
    fn clone(&self) -> (r: RetryEntry)
        ensures
            r@ == self@,
    {
        RetryEntry {
            issue_id: self.issue_id.clone(),
            identifier: self.identifier.clone(),
            attempt: self.attempt,
            due_at_ms: self.due_at_ms,
            error: clone_opt(&self.error),
        }
    }
}

impl RetryEntry {
    /// Whether the entry follows a run that went well: the issue is then looked at
    /// once more, and not taken up again on the entry's account.
    pub fn is_continuation(&self) -> (r: bool)
        ensures
            r == (self@.error is None),
    {
        self.error.is_none()
    }
}

// ── Orchestrator runtime state ──────────────────────────────────────────────

/// What all finished runs have used together.
#[derive(Debug, Clone, Copy, PartialEq, Eq, Structural)]
pub struct CodexTotals {
    pub input_tokens: u64,
    pub output_tokens: u64,
    pub total_tokens: u64,
    pub nanos_running: i128,
}

impl Default for CodexTotals {
    fn default() -> (r: CodexTotals)
        ensures
            r == (CodexTotals {
                input_tokens: 0,
                output_tokens: 0,
                total_tokens: 0,
                nanos_running: 0,
            }),
    {
        CodexTotals { input_tokens: 0, output_tokens: 0, total_tokens: 0, nanos_running: 0 }
    }
}

/// Which issues are running, claimed, waiting and done.
#[derive(Debug)]
pub struct OrchestratorState {
    pub poll_interval_ms: u64,
    pub max_concurrent_agents: u32,
    pub running: Table<RunningEntry>,
    pub claimed: TextSet,
    pub retry_attempts: Table<RetryEntry>,
    pub completed: TextSet,
    pub codex_totals: CodexTotals,
    pub codex_rate_limits: Option<Json>,
}

/// The runtime state by its contents.
#[verifier::ext_equal]
pub struct StateV {
    pub poll_interval_ms: u64,
    pub max_concurrent_agents: u32,
    pub running: Map<Seq<char>, RunningV>,
    pub claimed: Set<Seq<char>>,
    pub retry_attempts: Map<Seq<char>, RetryV>,
    pub completed: Set<Seq<char>>,
    pub codex_totals: CodexTotals,
    pub codex_rate_limits: Option<JsonV>,
}

impl View for OrchestratorState {
    type V = StateV;

    open spec fn view(&self) -> StateV {
        StateV {
            poll_interval_ms: self.poll_interval_ms,
            max_concurrent_agents: self.max_concurrent_agents,
            running: self.running@,
            claimed: self.claimed@,
            retry_attempts: self.retry_attempts@,
            completed: self.completed@,
            codex_totals: self.codex_totals,
            codex_rate_limits: match self.codex_rate_limits {
                Some(j) => Some(j@),
                None => None,
            },
        }
    }
}

impl StateV {
    /// How many more workers may start.
    pub open spec fn available_slots(self) -> int {
        if self.running.dom().len() >= self.max_concurrent_agents {
            0
        } else {
            self.max_concurrent_agents - self.running.dom().len()
        }
    }
}

impl OrchestratorState {
    /// How many issues are running.
    pub fn running_count(&self) -> (r: usize)
        ensures
            r == self@.running.dom().len(),
    {
        self.running.len()
    }

    /// How many more workers may start.
    pub fn available_slots(&self) -> (r: usize)
        ensures
            r == self@.available_slots(),
    {
        let max: usize = self.max_concurrent_agents as usize;
        let running: usize = self.running_count();
        if max > running {
            max - running
        } else {
            0
        }
    }
}

// ── Workspace key sanitization ──────────────────────────────────────────────

/// What a character becomes in a workspace key.
pub open spec fn sanitized_char(c: char) -> char {
    if is_alphanumeric(c) || c == '.' || c == '_' || c == '-' {
        c
    } else {
        '_'
    }
}

/// The workspace key of an identifier.
pub open spec fn sanitized(identifier: Seq<char>) -> Seq<char> {
    identifier.map_values(|c: char| sanitized_char(c))
}

/// The directory name for an issue: letters, digits, `.`, `_` and `-` stay, and
/// any other character becomes `_`.
pub fn sanitize_workspace_key(identifier: &str) -> (r: String)
    ensures
        r@ == sanitized(identifier@),
{
    let mut r = String::new();
    for c in it: identifier.chars()
        invariant
            r@ == sanitized(identifier@).subrange(0, it.index()),
            it.seq() == identifier@,
    {
        if is_ascii_alphanumeric(c) || c == '.' || c == '_' || c == '-' {
            r.push(c);
        } else {
            r.push('_');
        }
        assert(sanitized(identifier@).subrange(0, it.index() + 1) =~= sanitized(
            identifier@,
        ).subrange(0, it.index()).push(sanitized_char(c)));
    }
    assert(sanitized(identifier@).subrange(0, identifier@.len() as int) =~= sanitized(identifier@));
    r
}

/// A workspace key holds only letters, digits, `.`, `_` and `-`; it is as long as
/// the identifier, names no other directory's entry (it has no `/`), and is its
/// own key. An identifier made of those characters only is its own key.
pub proof fn law_sanitized(identifier: Seq<char>)
    ensures
        sanitized(identifier).len() == identifier.len(),
        forall|i: int|
            0 <= i < identifier.len() ==> {
                let c = #[trigger] sanitized(identifier)[i];
                is_alphanumeric(c) || c == '.' || c == '_' || c == '-'
            },
        !sanitized(identifier).contains('/'),
        sanitized(sanitized(identifier)) == sanitized(identifier),
        (forall|i: int|
            0 <= i < identifier.len() ==> {
                let c = #[trigger] identifier[i];
                is_alphanumeric(c) || c == '.' || c == '_' || c == '-'
            }) <==> sanitized(identifier) == identifier,
{
    assert(sanitized(sanitized(identifier)) =~= sanitized(identifier));
    if sanitized(identifier) == identifier {
        assert forall|i: int| 0 <= i < identifier.len() implies ({
            let c = #[trigger] identifier[i];
            is_alphanumeric(c) || c == '.' || c == '_' || c == '-'
        }) by {
            assert(sanitized(identifier)[i] == identifier[i]);
        }
    } else if forall|i: int|
        0 <= i < identifier.len() ==> {
            let c = #[trigger] identifier[i];
            is_alphanumeric(c) || c == '.' || c == '_' || c == '-'
        } {
        assert(sanitized(identifier) =~= identifier);
    }
}

// ── Session id ──────────────────────────────────────────────────────────────

/// The session id of a thread and a turn.
pub open spec fn session_id(thread_id: Seq<char>, turn_id: Seq<char>) -> Seq<char> {
    thread_id + seq!['-'] + turn_id
}

/// Joins a thread id and a turn id with a hyphen.
pub fn make_session_id(thread_id: &str, turn_id: &str) -> (r: String)
    ensures
        r@ == session_id(thread_id@, turn_id@),
{
    proof {
        reveal_strlit("-");
        assert("-"@ =~= seq!['-']);
    }
    concat3(thread_id, "-", turn_id)
}

/// In a workspace key a letter, a digit, a dot, an underscore or a hyphen stays where it
/// is, and an underscore stands for anything else.
pub proof fn law_other_characters_become_underscores(identifier: Seq<char>, i: int)
    requires
        0 <= i < identifier.len(),
    ensures
        ({
            let c = identifier[i];
            let kept = 'a' <= c <= 'z' || 'A' <= c <= 'Z' || '0' <= c <= '9' || c == '.' || c == '_'
                || c == '-';
            sanitized(identifier)[i] == if kept {
                c
            } else {
                '_'
            }
        }),
{
}

/// A session id begins with the thread, ends with the turn and has a hyphen between
/// them.
pub proof fn law_session_ids(thread_id: Seq<char>, turn_id: Seq<char>)
    ensures
        session_id(thread_id, turn_id).len() == thread_id.len() + 1 + turn_id.len(),
        session_id(thread_id, turn_id).take(thread_id.len() as int) == thread_id,
        session_id(thread_id, turn_id)[thread_id.len() as int] == '-',
        session_id(thread_id, turn_id).skip((thread_id.len() + 1) as int) == turn_id,
{
    assert(session_id(thread_id, turn_id).take(thread_id.len() as int) =~= thread_id);
    assert(session_id(thread_id, turn_id).skip((thread_id.len() + 1) as int) =~= turn_id);
}

/// Between two clock readings as many whole seconds go by as fit in between, and as many
/// less than none where the clock was set back.
pub proof fn law_whole_seconds(from: Timestamp, to: Timestamp)
    ensures
        ({
            let nanos = (to.seconds - from.seconds) * 1_000_000_000 + to.nanos - from.nanos;
            let n = whole_seconds(from, to);
            &&& nanos >= 0 ==> n * 1_000_000_000 <= nanos < (n + 1) * 1_000_000_000
            &&& nanos <= 0 ==> (n - 1) * 1_000_000_000 < nanos <= n * 1_000_000_000
        }),
        whole_seconds(to, from) == -whole_seconds(from, to),
        from.nanos == to.nanos ==> whole_seconds(from, to) == to.seconds - from.seconds,
{
}

/// The slots that are free and the issues that run make up the limit, and none is free
/// where as many run.
pub proof fn law_available_slots(s: StateV)
    ensures
        s.running.dom().len() <= s.max_concurrent_agents ==> s.available_slots()
            + s.running.dom().len() == s.max_concurrent_agents,
        s.running.dom().len() >= s.max_concurrent_agents ==> s.available_slots() == 0,
{
}

/// A session that has not begun has used nothing and knows nothing.
pub proof fn law_new_sessions()
    ensures
        new_session().codex_input_tokens == 0,
        new_session().codex_output_tokens == 0,
        new_session().codex_total_tokens == 0,
        new_session().last_reported_input_tokens == 0,
        new_session().last_reported_output_tokens == 0,
        new_session().turn_count == 0,
        new_session().session_id is None,
        new_session().thread_id is None,
        new_session().turn_id is None,
        new_session().codex_app_server_pid is None,
        new_session().last_codex_event is None,
        new_session().last_codex_timestamp is None,
        new_session().last_codex_message is None,
{
}

} // verus!
