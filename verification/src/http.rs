//! What the HTTP interface reports: the runtime state and the reply to a request
//! for a refresh.
use crate::protocol::{current_session_tokens, session_tokens};
use crate::table::{item_map, keys_distinct, lemma_item_map_domain, lemma_item_map_len};
use crate::text::{clone_opt, concat2, decimal, decimal_text, opt_text};
use crate::types::{
    CodexTotals, OrchestratorState, RetryEntry, RetryV, RunningEntry, RunningV,
    Timestamp,
};
use vstd::prelude::*;
use vstd::string::*;

verus! {

// ── Times ───────────────────────────────────────────────────────────────────

/// The RFC 3339 text that `chrono` gives a moment, if it knows the moment.
pub uninterp spec fn rfc3339_text(t: Timestamp) -> Option<Seq<char>>;

/// Calls `chrono::DateTime::from_timestamp` and `to_rfc3339`. Claimed of them:
/// whether a moment is in their range, and its text, is a function of the moment.
#[verifier::external_body]
fn to_rfc3339(t: Timestamp) -> (r: Option<String>)
    ensures
        opt_text(r) == rfc3339_text(t),
{
    chrono::DateTime::from_timestamp(t.seconds, t.nanos).map(|t| t.to_rfc3339())
}

/// A moment as text; nothing for one beyond the calendar.
pub open spec fn shown_time(t: Timestamp) -> Seq<char> {
    match rfc3339_text(t) {
        Some(s) => s,
        None => Seq::empty(),
    }
}

fn show_time(t: Timestamp) -> (r: String)
    ensures
        r@ == shown_time(t),
{
    match to_rfc3339(t) {
        Some(s) => s,
        None => {
            let none: String = String::new();
            assert(none@ =~= Seq::<char>::empty());
            none
        },
    }
}

// ── Reports ─────────────────────────────────────────────────────────────────

/// What a session has used.
#[derive(Debug, Clone, Copy, PartialEq, Eq, Structural)]
pub struct TokenSummary {
    pub input_tokens: u64,
    pub output_tokens: u64,
    pub total_tokens: u64,
}

/// A running issue in the report.
#[derive(Debug)]
pub struct RunningSummary {
    pub issue_id: String,
    pub issue_identifier: String,
    pub state: String,
    pub session_id: Option<String>,
    pub turn_count: u64,
    pub last_event: Option<String>,
    pub last_message: Option<String>,
    pub started_at: String,
    pub last_event_at: Option<String>,
    pub tokens: TokenSummary,
}

/// A running issue in the report, by its contents.
#[verifier::ext_equal]
pub struct RunningSummaryV {
    pub issue_id: Seq<char>,
    pub issue_identifier: Seq<char>,
    pub state: Seq<char>,
    pub session_id: Option<Seq<char>>,
    pub turn_count: u64,
    pub last_event: Option<Seq<char>>,
    pub last_message: Option<Seq<char>>,
    pub started_at: Seq<char>,
    pub last_event_at: Option<Seq<char>>,
    pub tokens: TokenSummary,
}

impl View for RunningSummary {
    type V = RunningSummaryV;

    open spec fn view(&self) -> RunningSummaryV {
        RunningSummaryV {
            issue_id: self.issue_id@,
            issue_identifier: self.issue_identifier@,
            state: self.state@,
            session_id: opt_text(self.session_id),
            turn_count: self.turn_count,
            last_event: opt_text(self.last_event),
            last_message: opt_text(self.last_message),
            started_at: self.started_at@,
            last_event_at: opt_text(self.last_event_at),
            tokens: self.tokens,
        }
    }
}

/// A waiting issue in the report.
#[derive(Debug)]
pub struct RetryingSummary {
    pub issue_id: String,
    pub issue_identifier: String,
    pub attempt: u32,
    pub due_at: String,
    pub error: Option<String>,
}

/// A waiting issue in the report, by its contents.
#[verifier::ext_equal]
pub struct RetryingSummaryV {
    pub issue_id: Seq<char>,
    pub issue_identifier: Seq<char>,
    pub attempt: u32,
    pub due_at: Seq<char>,
    pub error: Option<Seq<char>>,
}

impl View for RetryingSummary {
    type V = RetryingSummaryV;

    open spec fn view(&self) -> RetryingSummaryV {
        RetryingSummaryV {
            issue_id: self.issue_id@,
            issue_identifier: self.issue_identifier@,
            attempt: self.attempt,
            due_at: self.due_at@,
            error: opt_text(self.error),
        }
    }
}

/// The report on the runtime state.
#[derive(Debug)]
pub struct ApiStateResponse {
    pub generated_at: String,
    pub running_count: usize,
    pub retrying_count: usize,
    pub running: Vec<RunningSummary>,
    pub retrying: Vec<RetryingSummary>,
    pub codex_totals: CodexTotals,
}

/// A running issue as it is reported.
pub open spec fn running_summary(id: Seq<char>, entry: RunningV) -> RunningSummaryV {
    RunningSummaryV {
        issue_id: id,
        issue_identifier: entry.identifier,
        state: entry.issue.state,
        session_id: entry.session.session_id,
        turn_count: entry.session.turn_count,
        last_event: entry.session.last_codex_event,
        last_message: entry.session.last_codex_message,
        started_at: shown_time(entry.started_at),
        last_event_at: match entry.session.last_codex_timestamp {
            Some(t) => Some(shown_time(t)),
            None => None,
        },
        tokens: TokenSummary {
            input_tokens: entry.session.codex_input_tokens,
            output_tokens: entry.session.codex_output_tokens,
            total_tokens: session_tokens(entry.session),
        },
    }
}

/// A waiting issue as it is reported.
pub open spec fn retrying_summary(id: Seq<char>, entry: RetryV) -> RetryingSummaryV {
    RetryingSummaryV {
        issue_id: id,
        issue_identifier: entry.identifier,
        attempt: entry.attempt,
        due_at: decimal(entry.due_at_ms as nat) + "ms"@,
        error: entry.error,
    }
}

fn summarize_running(id: &str, entry: &RunningEntry) -> (r: RunningSummary)
    ensures
        r@ == running_summary(id@, entry@),
{
    RunningSummary {
        issue_id: id.to_owned(),
        issue_identifier: entry.identifier.clone(),
        state: entry.issue.state.clone(),
        session_id: clone_opt(&entry.session.session_id),
        turn_count: entry.session.turn_count,
        last_event: clone_opt(&entry.session.last_codex_event),
        last_message: clone_opt(&entry.session.last_codex_message),
        started_at: show_time(entry.started_at),
        last_event_at: match entry.session.last_codex_timestamp {
            Some(t) => Some(show_time(t)),
            None => None,
        },
        tokens: TokenSummary {
            input_tokens: entry.session.codex_input_tokens,
            output_tokens: entry.session.codex_output_tokens,
            total_tokens: current_session_tokens(&entry.session),
        },
    }
}

fn summarize_retrying(id: &str, entry: &RetryEntry) -> (r: RetryingSummary)
    ensures
        r@ == retrying_summary(id@, entry@),
{
    let ms: String = decimal_text(entry.due_at_ms);
    RetryingSummary {
        issue_id: id.to_owned(),
        issue_identifier: entry.identifier.clone(),
        attempt: entry.attempt,
        due_at: concat2(ms.as_str(), "ms"),
        error: clone_opt(&entry.error),
    }
}

/// The report on the runtime state: every running and every waiting issue once.
pub fn api_state(state: &OrchestratorState, now: Timestamp) -> (r: ApiStateResponse)
    ensures
        r.generated_at@ == shown_time(now),
        r.running@.map_values(|s: RunningSummary| s@) == state.running.items().map_values(
            |e: (Seq<char>, RunningV)| running_summary(e.0, e.1),
        ),
        r.retrying@.map_values(|s: RetryingSummary| s@)
            == state.retry_attempts.items().map_values(
            |e: (Seq<char>, RetryV)| retrying_summary(e.0, e.1),
        ),
        r.running_count == state@.running.dom().len(),
        r.retrying_count == state@.retry_attempts.dom().len(),
        r.codex_totals == state@.codex_totals,
{
    let n: usize = state.running.len();
    let mut running: Vec<RunningSummary> = Vec::new();
    let mut i: usize = 0;
    while i < n
        invariant
            i <= n,
            n == state.running.items().len(),
            running.len() == i,
            forall|k: int|
                0 <= k < i ==> (#[trigger] running@[k])@ == running_summary(
                    state.running.items()[k].0,
                    state.running.items()[k].1,
                ),
        decreases n - i,
    {
        running.push(summarize_running(state.running.key_at(i), state.running.value_at(i)));
        i = i + 1;
    }
    let m: usize = state.retry_attempts.len();
    let mut retrying: Vec<RetryingSummary> = Vec::new();
    let mut k: usize = 0;
    while k < m
        invariant
            k <= m,
            m == state.retry_attempts.items().len(),
            retrying.len() == k,
            forall|h: int|
                0 <= h < k ==> (#[trigger] retrying@[h])@ == retrying_summary(
                    state.retry_attempts.items()[h].0,
                    state.retry_attempts.items()[h].1,
                ),
        decreases m - k,
    {
        retrying.push(
            summarize_retrying(state.retry_attempts.key_at(k), state.retry_attempts.value_at(k)),
        );
        k = k + 1;
    }
    proof {
        assert(running@.map_values(|s: RunningSummary| s@) =~= state.running.items().map_values(
            |e: (Seq<char>, RunningV)| running_summary(e.0, e.1),
        ));
        assert(retrying@.map_values(|s: RetryingSummary| s@)
            =~= state.retry_attempts.items().map_values(
            |e: (Seq<char>, RetryV)| retrying_summary(e.0, e.1),
        ));
    }
    ApiStateResponse {
        generated_at: show_time(now),
        running_count: n,
        retrying_count: m,
        running,
        retrying,
        codex_totals: state.codex_totals,
    }
}

/// The reply to a request for a refresh.
#[derive(Debug)]
pub struct RefreshResponse {
    pub queued: bool,
    pub requested_at: String,
}

/// The reply to a request for a refresh: it is always taken.
pub fn api_refresh(now: Timestamp) -> (r: RefreshResponse)
    ensures
        r.queued,
        r.requested_at@ == shown_time(now),
{
    RefreshResponse { queued: true, requested_at: show_time(now) }
}

/// What the health check answers.
pub fn health() -> (r: &'static str)
    ensures
        r@ == "ok"@,
{
    "ok"
}

// ── Laws of reports ─────────────────────────────────────────────────────────

/// A running issue is reported with its own id, identifier and state, the session's id,
/// turns, last event and last message, and the tokens that the session has used.
pub proof fn law_running_issues_are_reported(id: Seq<char>, entry: RunningV)
    ensures
        ({
            let r = running_summary(id, entry);
            &&& r.issue_id == id
            &&& r.issue_identifier == entry.identifier
            &&& r.state == entry.issue.state
            &&& r.session_id == entry.session.session_id
            &&& r.turn_count == entry.session.turn_count
            &&& r.last_event == entry.session.last_codex_event
            &&& r.last_message == entry.session.last_codex_message
            &&& rfc3339_text(entry.started_at) matches Some(s) ==> r.started_at == s
            &&& match entry.session.last_codex_timestamp {
                Some(t) => r.last_event_at is Some && (rfc3339_text(t) matches Some(s)
                    ==> r.last_event_at == Some(s)),
                None => r.last_event_at is None,
            }
            &&& r.tokens.input_tokens == entry.session.codex_input_tokens
            &&& r.tokens.output_tokens == entry.session.codex_output_tokens
            &&& entry.session.codex_total_tokens > 0 ==> r.tokens.total_tokens
                == entry.session.codex_total_tokens
            &&& entry.session.codex_total_tokens == 0 && entry.session.codex_input_tokens
                + entry.session.codex_output_tokens <= u64::MAX ==> r.tokens.total_tokens
                == entry.session.codex_input_tokens + entry.session.codex_output_tokens
        }),
{
}

/// A waiting issue is reported with its own id and identifier, its attempt, the time it
/// has to wait in milliseconds, and why it waits.
pub proof fn law_waiting_issues_are_reported(id: Seq<char>, entry: RetryV)
    ensures
        retrying_summary(id, entry).issue_id == id,
        retrying_summary(id, entry).issue_identifier == entry.identifier,
        retrying_summary(id, entry).attempt == entry.attempt,
        retrying_summary(id, entry).due_at == decimal(entry.due_at_ms as nat) + "ms"@,
        retrying_summary(id, entry).error == entry.error,
{
}

/// A report that goes through the items of a table names each issue of the table and no
/// other.
pub proof fn law_reports_are_complete(items: Seq<(Seq<char>, RunningV)>, id: Seq<char>)
    requires
        keys_distinct(items),
    ensures
        ({
            let report = items.map_values(
                |e: (Seq<char>, RunningV)| running_summary(e.0, e.1),
            );
            &&& item_map(items).contains_key(id) <==> exists|k: int|
                0 <= k < report.len() && (#[trigger] report[k]).issue_id == id
            &&& report.len() == item_map(items).dom().len()
        }),
{
    let report = items.map_values(|e: (Seq<char>, RunningV)| running_summary(e.0, e.1));
    lemma_item_map_domain(items, id);
    lemma_item_map_len(items);
    if item_map(items).contains_key(id) {
        let i = choose|i: int| 0 <= i < items.len() && (#[trigger] items[i]).0 == id;
        assert(report[i].issue_id == id);
    }
    if exists|k: int| 0 <= k < report.len() && (#[trigger] report[k]).issue_id == id {
        let k = choose|k: int| 0 <= k < report.len() && (#[trigger] report[k]).issue_id == id;
        assert(items[k].0 == id);
    }
}

/// A moment is shown as the calendar has it, and as nothing beyond the calendar.
pub proof fn law_times_are_shown(t: Timestamp)
    ensures
        rfc3339_text(t) matches Some(s) ==> shown_time(t) == s,
        rfc3339_text(t) is None ==> shown_time(t).len() == 0,
{
}

} // verus!
