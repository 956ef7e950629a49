//! What the tracker says of issues in hand: which workers are stopped, which
//! retries are taken up again, and the laws that the state keeps through it all.
use crate::config::{ServiceConfig, ServiceConfigV};
use crate::orchestrator::{
    backoff, due_items, eligible, initial_state, is_among, is_due, retry_entry, same_for, waited,
    WorkerOutcomeV,
};
use crate::table::{item_map, keys_distinct, lemma_item_map_domain, lemma_item_map_value};
use crate::text::{listed, opt_text, text_eq, texts};
use crate::types::{
    issues, whole_seconds, Issue, IssueV, OrchestratorState, RetryEntry, RetryV, RunningV, SessionV,
    StateV, Timestamp,
};
use vstd::prelude::*;
use vstd::string::*;

verus! {

// ── Reconciliation ──────────────────────────────────────────────────────────

/// What is done about a running issue.
#[derive(Debug, Clone, Copy, PartialEq, Eq, Structural)]
pub enum Reconciliation {
    /// It goes on.
    Keep,
    /// Its worker is stopped.
    Stop,
    /// Its worker is stopped and its workspace removed.
    StopAndClean,
}

/// What is done about a running issue: one in a terminal state is stopped and
/// cleaned up after, one that is not active is stopped.
pub open spec fn reconciliation(issue: IssueV, config: ServiceConfigV) -> Reconciliation {
    if listed(issue.state, config.tracker_terminal_states) {
        Reconciliation::StopAndClean
    } else if !listed(issue.state, config.tracker_active_states) {
        Reconciliation::Stop
    } else {
        Reconciliation::Keep
    }
}

/// Why a worker was stopped.
pub open spec fn stop_reason(r: Reconciliation) -> Seq<char> {
    match r {
        Reconciliation::StopAndClean => "terminal state"@,
        _ => "non-active state"@,
    }
}

/// The state after the tracker's word on an issue.
pub open spec fn reconciled(
    state: StateV,
    issue: IssueV,
    config: ServiceConfigV,
    now: Timestamp,
) -> StateV {
    if reconciliation(issue, config) == Reconciliation::Keep {
        state
    } else {
        state.exited(issue.id, stop_reason(reconciliation(issue, config)), false, 0, now)
    }
}

/// The keys of items in their order.
pub open spec fn item_keys<W>(items: Seq<(Seq<char>, W)>) -> Seq<Seq<char>> {
    items.map_values(|e: (Seq<char>, W)| e.0)
}

impl OrchestratorState {
    /// The ids of the running issues.
    pub fn running_ids(&self) -> (r: Vec<String>)
        ensures
            texts(r@) == item_keys(self.running.items()),
            forall|id: Seq<char>|
                texts(r@).contains(id) <==> #[trigger] self@.running.contains_key(id),
    {
        let n: usize = self.running.len();
        let ghost items = self.running.items();
        let mut r: Vec<String> = Vec::new();
        let mut i: usize = 0;
        while i < n
            invariant
                i <= n,
                n == items.len(),
                items == self.running.items(),
                r.len() == i,
                forall|k: int| 0 <= k < i ==> (#[trigger] r@[k])@ == items[k].0,
            decreases n - i,
        {
            r.push(self.running.key_at(i).to_owned());
            i = i + 1;
        }
        assert(texts(r@) =~= item_keys(items));
        assert forall|id: Seq<char>|
            texts(r@).contains(id) <==> #[trigger] self@.running.contains_key(id) by {
            lemma_item_map_domain(items, id);
            if texts(r@).contains(id) {
                let k = choose|k: int| 0 <= k < texts(r@).len() && texts(r@)[k] == id;
                assert(items[k].0 == id);
            }
            if self@.running.contains_key(id) {
                let k = choose|k: int| 0 <= k < items.len() && (#[trigger] items[k]).0 == id;
                assert(texts(r@)[k] == id);
            }
        }
        r
    }

    /// Acts on the tracker's word on an issue, and says what is to be done about
    /// its worker and its workspace.
    pub fn reconcile_issue(&mut self, issue: &Issue, config: &ServiceConfig, now: Timestamp) -> (r:
        Reconciliation)
        requires
            reconciliation(issue@, config@) != Reconciliation::Keep ==> old(self)@.exit_fits(
                issue@.id,
                false,
                now,
            ),
        ensures
            r == reconciliation(issue@, config@),
            final(self)@ == reconciled(old(self)@, issue@, config@, now),
    {
        if issue.is_terminal(&config.tracker_terminal_states) {
            self.handle_worker_exit(issue.id.as_str(), "terminal state", false, 0, now);
            Reconciliation::StopAndClean
        } else if !issue.is_active(&config.tracker_active_states) {
            self.handle_worker_exit(issue.id.as_str(), "non-active state", false, 0, now);
            Reconciliation::Stop
        } else {
            Reconciliation::Keep
        }
    }
}

/// An issue that is terminal or no longer active is not running after the
/// tracker's word, holds no claim, and waits for no retry that it did not wait for
/// before; what it used is in the totals. All other issues are left as they were,
/// and so is an issue that is still active.
pub proof fn law_reconciled(
    state: StateV,
    issue: IssueV,
    config: ServiceConfigV,
    now: Timestamp,
    other: Seq<char>,
)
    ensures
        reconciliation(issue, config) == Reconciliation::Keep ==> reconciled(
            state,
            issue,
            config,
            now,
        ) == state,
        reconciliation(issue, config) != Reconciliation::Keep ==> !reconciled(
            state,
            issue,
            config,
            now,
        ).running.contains_key(issue.id),
        reconciliation(issue, config) != Reconciliation::Keep && state.running.contains_key(
            issue.id,
        ) ==> !reconciled(state, issue, config, now).claimed.contains(issue.id),
        reconciled(state, issue, config, now).retry_attempts == state.retry_attempts,
        reconciled(state, issue, config, now).completed == state.completed,
        other != issue.id ==> (reconciled(state, issue, config, now).running.contains_key(other)
            <==> state.running.contains_key(other)),
        other != issue.id && state.running.contains_key(other) ==> reconciled(
            state,
            issue,
            config,
            now,
        ).running[other] == state.running[other],
        other != issue.id ==> (reconciled(state, issue, config, now).claimed.contains(other)
            <==> state.claimed.contains(other)),
{
}

// ── Retries ─────────────────────────────────────────────────────────────────

/// The workspace to remove after a continuation check: that of an issue which has
/// become terminal.
pub open spec fn finished_workspace(
    refreshed: Option<Seq<IssueV>>,
    terminal_states: Seq<Seq<char>>,
) -> Option<Seq<char>> {
    match refreshed {
        Some(list) => if list.len() > 0 && listed(list[0].state, terminal_states) {
            Some(list[0].identifier)
        } else {
            None
        },
        None => None,
    }
}

/// The first issue with an id.
pub open spec fn find_issue(list: Seq<IssueV>, id: Seq<char>) -> Option<IssueV>
    decreases list.len(),
{
    if list.len() == 0 {
        None
    } else if list[0].id == id {
        Some(list[0])
    } else {
        find_issue(list.skip(1), id)
    }
}

/// What becomes of a retry that is due.
#[derive(Debug)]
pub enum RetryDecision {
    /// It waits again.
    PutBack,
    /// The issue is no longer wanted; the claim is given up.
    Released,
    /// The issue is taken up again.
    TakeUp(Issue),
}

/// What becomes of a retry, by its contents.
#[verifier::ext_equal]
pub enum RetryDecisionV {
    PutBack,
    Released,
    TakeUp(IssueV),
}

impl View for RetryDecision {
    type V = RetryDecisionV;

    open spec fn view(&self) -> RetryDecisionV {
        match self {
            RetryDecision::PutBack => RetryDecisionV::PutBack,
            RetryDecision::Released => RetryDecisionV::Released,
            RetryDecision::TakeUp(issue) => RetryDecisionV::TakeUp(issue@),
        }
    }
}

/// What becomes of a retry that is due, given the candidates or that they could
/// not be had.
pub open spec fn retry_decision(
    state: StateV,
    retry: RetryV,
    candidates: Option<Seq<IssueV>>,
) -> (StateV, RetryDecisionV) {
    match candidates {
        None => (
            state.deferred(retry, 30_000, Some("retry poll failed"@)),
            RetryDecisionV::PutBack,
        ),
        Some(list) => match find_issue(list, retry.issue_id) {
            None => (state.released(retry.issue_id), RetryDecisionV::Released),
            Some(issue) => if state.running.contains_key(retry.issue_id) {
                (state.deferred(retry, 5_000, retry.error), RetryDecisionV::PutBack)
            } else {
                (state, RetryDecisionV::TakeUp(issue))
            },
        },
    }
}

/// A list of issues that could perhaps not be had, by its contents.
pub open spec fn opt_issues(o: Option<&Vec<Issue>>) -> Option<Seq<IssueV>> {
    match o {
        Some(list) => Some(issues(list@)),
        None => None,
    }
}

/// The first issue with an id.
pub fn issue_with_id(list: &Vec<Issue>, id: &str) -> (r: Option<Issue>)
    ensures
        (match r {
            Some(issue) => Some(issue@),
            None => None,
        }) == find_issue(issues(list@), id@),
{
    let mut i: usize = 0;
    assert(issues(list@).skip(0) =~= issues(list@));
    while i < list.len()
        invariant
            i <= list.len(),
            find_issue(issues(list@), id@) == find_issue(issues(list@).skip(i as int), id@),
        decreases list.len() - i,
    {
        assert(issues(list@).skip(i as int)[0] == list@[i as int]@);
        assert(issues(list@).skip(i as int).skip(1) =~= issues(list@).skip(i + 1));
        if text_eq(list[i].id.as_str(), id) {
            return Some(list[i].clone());
        }
        i = i + 1;
    }
    None
}

impl OrchestratorState {
    /// Settles the check that follows a worker's success: the claim is given up,
    /// so that the next poll decides anew, and where the issue has become terminal
    /// its workspace is to be removed. `refreshed` is `None` where the tracker
    /// could not be asked.
    pub fn settle_continuation(
        &mut self,
        retry: &RetryEntry,
        refreshed: Option<&Vec<Issue>>,
        terminal_states: &Vec<String>,
    ) -> (clean: Option<String>)
        ensures
            final(self)@ == old(self)@.released(retry@.issue_id),
            opt_text(clean) == finished_workspace(
                opt_issues(refreshed),
                texts(terminal_states@),
            ),
    {
        self.release(retry.issue_id.as_str());
        match refreshed {
            Some(list) => if list.len() > 0 && list[0].is_terminal(terminal_states) {
                assert(issues(list@)[0] == list@[0]@);
                Some(list[0].identifier.clone())
            } else {
                if list.len() > 0 {
                    assert(issues(list@)[0] == list@[0]@);
                }
                None
            },
            None => None,
        }
    }

    /// Decides about a retry that is due after a failure. `candidates` is `None`
    /// where the tracker could not be asked.
    pub fn decide_retry(&mut self, retry: &RetryEntry, candidates: Option<&Vec<Issue>>) -> (r:
        RetryDecision)
        ensures
            (final(self)@, r@) == retry_decision(old(self)@, retry@, opt_issues(candidates)),
    {
        match candidates {
            None => {
                self.defer_retry(retry, 30_000, Some("retry poll failed".to_owned()));
                RetryDecision::PutBack
            },
            Some(list) => match issue_with_id(list, retry.issue_id.as_str()) {
                None => {
                    self.release(retry.issue_id.as_str());
                    RetryDecision::Released
                },
                Some(issue) => if self.running.contains_key(retry.issue_id.as_str()) {
                    self.defer_retry(retry, 5_000, crate::text::clone_opt(&retry.error));
                    RetryDecision::PutBack
                } else {
                    RetryDecision::TakeUp(issue)
                },
            },
        }
    }
}

// ── What the state keeps ────────────────────────────────────────────────────

/// What holds of the state at every moment: entries stand under their issue's id,
/// a running issue is claimed, and none both runs and waits.
pub open spec fn well_kept(state: StateV) -> bool {
    &&& state.running.dom().finite()
    &&& forall|id: Seq<char>| #[trigger]
        state.running.contains_key(id) ==> state.running[id].issue_id == id
            && state.claimed.contains(id) && !state.retry_attempts.contains_key(id)
    &&& forall|id: Seq<char>| #[trigger]
        state.retry_attempts.contains_key(id) ==> state.retry_attempts[id].issue_id == id
}

/// The state starts out well kept.
pub proof fn law_initial_state_is_well_kept(config: ServiceConfigV)
    ensures
        well_kept(initial_state(config)),
{
}

/// Taking up an issue that does not run, giving it back, and putting a retry to
/// wait keep the state well kept.
pub proof fn law_claims_keep_the_state(
    state: StateV,
    id: Seq<char>,
    identifier: Seq<char>,
    attempt: u32,
    error: Seq<char>,
    max_backoff_ms: u64,
    retry: RetryV,
    due_at_ms: u64,
    why: Option<Seq<char>>,
)
    requires
        well_kept(state),
        !state.running.contains_key(id),
        !state.running.contains_key(retry.issue_id),
    ensures
        well_kept(state.claimed_for(id)),
        well_kept(state.released(id)),
        well_kept(state.scheduled(id, identifier, attempt, error, max_backoff_ms)),
        well_kept(state.deferred(retry, due_at_ms, why)),
{
}

/// A worker's start on a claimed issue that does not wait, news of its session,
/// and its end keep the state well kept.
pub proof fn law_workers_keep_the_state(
    state: StateV,
    entry: RunningV,
    id: Seq<char>,
    identifier: Seq<char>,
    session: SessionV,
    outcome: WorkerOutcomeV,
    attempt: u32,
    max_backoff_ms: u64,
    reason: Seq<char>,
    schedule_retry: bool,
    now: Timestamp,
)
    requires
        well_kept(state),
        !state.retry_attempts.contains_key(entry.issue_id),
    ensures
        well_kept(state.begun(entry, true)),
        state.claimed.contains(entry.issue_id) ==> well_kept(state.begun(entry, false)),
        well_kept(state.session_updated(id, session)),
        well_kept(state.done(id, identifier, outcome, attempt, max_backoff_ms)),
        well_kept(state.exited(id, reason, schedule_retry, max_backoff_ms, now)),
{
}

/// A second gone by keeps the state well kept and loses no retry: each one either
/// waits on, a second less, or is due and claimed, and then it does not run.
pub proof fn law_ticks_lose_nothing(state: StateV, id: Seq<char>)
    requires
        well_kept(state),
    ensures
        well_kept(state.ticked()),
        state.ticked().running == state.running,
        state.retry_attempts.contains_key(id) && !is_due(state.retry_attempts[id])
            ==> state.ticked().retry_attempts.contains_key(id)
            && state.ticked().retry_attempts[id] == waited(state.retry_attempts[id])
            && state.ticked().retry_attempts[id].due_at_ms + 1000
            == state.retry_attempts[id].due_at_ms,
        state.retry_attempts.contains_key(id) && is_due(state.retry_attempts[id])
            ==> !state.ticked().retry_attempts.contains_key(id) && state.ticked().claimed.contains(
            id,
        ) && !state.ticked().running.contains_key(id),
        !state.retry_attempts.contains_key(id) ==> !state.ticked().retry_attempts.contains_key(id)
            && (state.ticked().claimed.contains(id) <==> state.claimed.contains(id)),
{
    if state.retry_attempts.contains_key(id) && is_due(state.retry_attempts[id]) {
        assert(state.retry_attempts[id].issue_id == id);
    }
    assert forall|key: Seq<char>| #[trigger]
        state.ticked().running.contains_key(key) implies state.ticked().running[key].issue_id
        == key && state.ticked().claimed.contains(key)
        && !state.ticked().retry_attempts.contains_key(key) by {
        assert(state.running.contains_key(key));
    }
}

/// What is handed out at a tick is what was due: an entry is among it exactly
/// where it waited and its time is up.
pub proof fn law_due_retries_are_handed_out(items: Seq<(Seq<char>, RetryV)>, retry: RetryV)
    requires
        keys_distinct(items),
    ensures
        due_items(items).contains(retry) <==> is_due(retry) && exists|key: Seq<char>| #[trigger]
            item_map(items).contains_key(key) && item_map(items)[key] == retry,
{
    lemma_due_contains(items, retry);
    if exists|i: int| 0 <= i < items.len() && (#[trigger] items[i]).1 == retry {
        let i = choose|i: int| 0 <= i < items.len() && (#[trigger] items[i]).1 == retry;
        lemma_item_map_value(items, i);
        assert(item_map(items).contains_key(items[i].0));
    }
    if exists|key: Seq<char>| #[trigger]
        item_map(items).contains_key(key) && item_map(items)[key] == retry {
        let key = choose|key: Seq<char>| #[trigger]
            item_map(items).contains_key(key) && item_map(items)[key] == retry;
        lemma_item_map_domain(items, key);
        let i = choose|i: int| 0 <= i < items.len() && (#[trigger] items[i]).0 == key;
        lemma_item_map_value(items, i);
        assert(items[i].1 == retry);
    }
}

proof fn lemma_due_contains(items: Seq<(Seq<char>, RetryV)>, retry: RetryV)
    ensures
        due_items(items).contains(retry) <==> is_due(retry) && exists|i: int|
            0 <= i < items.len() && (#[trigger] items[i]).1 == retry,
    decreases items.len(),
{
    if items.len() > 0 {
        let rest = items.drop_last();
        let d = due_items(items);
        let e = due_items(rest);
        lemma_due_contains(rest, retry);
        if d.contains(retry) {
            let k = choose|k: int| 0 <= k < d.len() && d[k] == retry;
            if k < e.len() {
                assert(e[k] == retry);
                assert(e.contains(retry));
                let i = choose|i: int| 0 <= i < rest.len() && (#[trigger] rest[i]).1 == retry;
                assert(items[i].1 == retry);
            } else {
                assert(items[items.len() - 1].1 == retry);
            }
        }
        if is_due(retry) && exists|i: int| 0 <= i < items.len() && (#[trigger] items[i]).1
            == retry {
            let i = choose|i: int| 0 <= i < items.len() && (#[trigger] items[i]).1 == retry;
            if i < rest.len() {
                assert(rest[i].1 == retry);
                assert(e.contains(retry));
                let k = choose|k: int| 0 <= k < e.len() && e[k] == retry;
                assert(d[k] == retry);
            } else {
                assert(d[d.len() - 1] == retry);
            }
        }
    }
}

/// A worker that succeeded leaves its issue neither running nor claimed, marked as
/// completed, with a check due at the next tick; one that failed leaves another
/// attempt, one higher, with backoff. Until that is settled the issue is not taken
/// up from the tracker.
pub proof fn law_outcomes_are_followed_up(
    state: StateV,
    id: Seq<char>,
    identifier: Seq<char>,
    outcome: WorkerOutcomeV,
    attempt: u32,
    max_backoff_ms: u64,
    issue: IssueV,
    config: ServiceConfigV,
)
    requires
        state.outcome_fits(outcome, attempt),
        issue.id == id,
    ensures
        ({
            let after = state.done(id, identifier, outcome, attempt, max_backoff_ms);
            &&& !after.running.contains_key(id)
            &&& !after.claimed.contains(id)
            &&& !eligible(after, issue, config)
            &&& outcome is Normal ==> after.completed.contains(id) && after.retry_attempts[id]
                == retry_entry(id, identifier, 1, 1000, None) && is_due(after.retry_attempts[id])
            &&& outcome matches WorkerOutcomeV::Error { error, retry_attempt, .. } ==> {
                let last = match retry_attempt {
                    Some(a) => a,
                    None => attempt,
                };
                &&& after.completed == state.completed
                &&& after.retry_attempts[id].attempt == last + 1
                &&& after.retry_attempts[id].due_at_ms == backoff(
                    (last + 1) as nat,
                    max_backoff_ms as int,
                )
                &&& after.retry_attempts[id].error == Some(error)
            }
        }),
{
    crate::orchestrator::law_backoff(
        (match outcome {
            WorkerOutcomeV::Error { retry_attempt, .. } => match retry_attempt {
                Some(a) => a,
                None => attempt,
            },
            _ => attempt,
        }) as nat + 1,
        (match outcome {
            WorkerOutcomeV::Error { retry_attempt, .. } => match retry_attempt {
                Some(a) => a,
                None => attempt,
            },
            _ => attempt,
        }) as nat + 1,
        max_backoff_ms as int,
    );
}

/// A retry after a failure that is due is never dropped without a word: it waits
/// again, or is taken up, or its issue is no longer a candidate.
pub proof fn law_retries_are_not_dropped(
    state: StateV,
    retry: RetryV,
    candidates: Option<Seq<IssueV>>,
)
    ensures
        ({
            let (after, decision) = retry_decision(state, retry, candidates);
            &&& decision == RetryDecisionV::PutBack ==> after.retry_attempts.contains_key(
                retry.issue_id,
            ) && after.retry_attempts[retry.issue_id].attempt == retry.attempt
            &&& decision == RetryDecisionV::Released <==> candidates is Some && find_issue(
                candidates->0,
                retry.issue_id,
            ) is None
            &&& decision matches RetryDecisionV::TakeUp(issue) ==> after == state && issue.id
                == retry.issue_id && !state.running.contains_key(retry.issue_id)
        }),
{
    if candidates is Some {
        lemma_found_issue(candidates->0, retry.issue_id);
    }
}

proof fn lemma_found_issue(list: Seq<IssueV>, id: Seq<char>)
    ensures
        find_issue(list, id) matches Some(issue) ==> issue.id == id,
    decreases list.len(),
{
    if list.len() > 0 && list[0].id != id {
        lemma_found_issue(list.skip(1), id);
    }
}

// ── Laws of what the tracker says ───────────────────────────────────────────

/// A running issue whose state is terminal is stopped and its workspace removed; one
/// whose state is neither terminal nor active is stopped; one that is active goes on. Case
/// makes no difference to a state.
pub proof fn law_over_is_over(issue: IssueV, config: ServiceConfigV)
    ensures
        reconciliation(issue, config) == Reconciliation::StopAndClean <==> is_among(
            issue.state,
            config.tracker_terminal_states,
        ),
        reconciliation(issue, config) == Reconciliation::Stop <==> !is_among(
            issue.state,
            config.tracker_terminal_states,
        ) && !is_among(issue.state, config.tracker_active_states),
        reconciliation(issue, config) == Reconciliation::Keep <==> !is_among(
            issue.state,
            config.tracker_terminal_states,
        ) && is_among(issue.state, config.tracker_active_states),
{
    assert(is_among(issue.state, config.tracker_terminal_states) <==> listed(
        issue.state,
        config.tracker_terminal_states,
    ));
    assert(is_among(issue.state, config.tracker_active_states) <==> listed(
        issue.state,
        config.tracker_active_states,
    ));
}

/// What a stopped worker used is counted, and its issue is not tried again on that
/// account.
pub proof fn law_stopped_issues_are_counted(
    state: StateV,
    issue: IssueV,
    config: ServiceConfigV,
    now: Timestamp,
    other: Seq<char>,
)
    requires
        !is_among(issue.state, config.tracker_active_states) || is_among(
            issue.state,
            config.tracker_terminal_states,
        ),
        state.running.contains_key(issue.id),
        state.exit_fits(issue.id, false, now),
    ensures
        ({
            let after = reconciled(state, issue, config, now);
            let session = state.running[issue.id].session;
            &&& !after.running.contains_key(issue.id)
            &&& !after.claimed.contains(issue.id)
            &&& after.retry_attempts == state.retry_attempts
            &&& after.codex_totals.input_tokens == state.codex_totals.input_tokens
                + session.codex_input_tokens
            &&& after.codex_totals.output_tokens == state.codex_totals.output_tokens
                + session.codex_output_tokens
            &&& after.codex_totals.total_tokens == state.codex_totals.total_tokens
                + session.codex_total_tokens
            &&& after.codex_totals.nanos_running == state.codex_totals.nanos_running
                + whole_seconds(state.running[issue.id].started_at, now) * 1_000_000_000
            &&& other != issue.id ==> same_for(after, state, other)
        }),
{
    law_over_is_over(issue, config);
}

/// An issue is found by its id: the first of the list that has it, and none where none
/// has it.
pub proof fn law_issues_are_found_by_id(list: Seq<IssueV>, id: Seq<char>)
    ensures
        find_issue(list, id) is None <==> forall|i: int|
            0 <= i < list.len() ==> (#[trigger] list[i]).id != id,
        find_issue(list, id) matches Some(issue) ==> issue.id == id && exists|i: int|
            0 <= i < list.len() && #[trigger] list[i] == issue && forall|k: int|
                0 <= k < i ==> (#[trigger] list[k]).id != id,
    decreases list.len(),
{
    if list.len() > 0 {
        let rest = list.skip(1);
        law_issues_are_found_by_id(rest, id);
        if list[0].id == id {
            assert(list[0] == find_issue(list, id)->0);
        } else {
            if find_issue(list, id) is Some {
                let i = choose|i: int|
                    0 <= i < rest.len() && #[trigger] rest[i] == find_issue(rest, id)->0 && forall|
                        k: int,
                    |
                        0 <= k < i ==> (#[trigger] rest[k]).id != id;
                assert(list[i + 1] == rest[i]);
                assert forall|k: int| 0 <= k < i + 1 implies (#[trigger] list[k]).id != id by {
                    if k > 0 {
                        assert(rest[k - 1] == list[k]);
                    }
                }
            } else {
                assert forall|i: int| 0 <= i < list.len() implies (#[trigger] list[i]).id != id by {
                    if i > 0 {
                        assert(rest[i - 1] == list[i]);
                    }
                }
            }
            if forall|i: int| 0 <= i < list.len() ==> (#[trigger] list[i]).id != id {
                assert forall|i: int| 0 <= i < rest.len() implies (#[trigger] rest[i]).id != id by {
                    assert(list[i + 1].id != id);
                }
            }
        }
    }
}

/// A retry that is due waits half a minute more where the tracker cannot be asked; it is
/// given up where its issue is no longer among the candidates; it waits five seconds more,
/// its reason kept, where its issue still runs; and else its issue is taken up.
pub proof fn law_due_retries_are_decided(
    state: StateV,
    retry: RetryV,
    candidates: Seq<IssueV>,
    other: Seq<char>,
)
    ensures
        ({
            let (after, decision) = retry_decision(state, retry, None);
            &&& decision is PutBack
            &&& after.retry_attempts == state.retry_attempts.insert(
                retry.issue_id,
                RetryV { due_at_ms: 30_000, error: Some("retry poll failed"@), ..retry },
            )
            &&& after.claimed == state.claimed && after.running == state.running
        }),
        ({
            let (after, decision) = retry_decision(state, retry, Some(candidates));
            let wanted = exists|i: int|
                0 <= i < candidates.len() && (#[trigger] candidates[i]).id == retry.issue_id;
            &&& !wanted ==> decision is Released && after.claimed == state.claimed.remove(
                retry.issue_id,
            ) && after.running == state.running && after.retry_attempts == state.retry_attempts
            &&& wanted && state.running.contains_key(retry.issue_id) ==> decision is PutBack
                && after.retry_attempts == state.retry_attempts.insert(
                retry.issue_id,
                RetryV { due_at_ms: 5_000, ..retry },
            ) && after.claimed == state.claimed && after.running == state.running
            &&& wanted && !state.running.contains_key(retry.issue_id) ==> after == state && (
            decision matches RetryDecisionV::TakeUp(issue) && issue.id == retry.issue_id
                && candidates.contains(issue))
            &&& other != retry.issue_id ==> same_for(after, state, other)
        }),
{
    law_issues_are_found_by_id(candidates, retry.issue_id);
}

/// The workspace that goes after a continuation check is that of the refreshed issue, and
/// only where its state is terminal.
pub proof fn law_finished_workspaces(list: Seq<IssueV>, terminal_states: Seq<Seq<char>>)
    ensures
        finished_workspace(None, terminal_states) is None,
        list.len() == 0 ==> finished_workspace(Some(list), terminal_states) is None,
        list.len() > 0 && is_among(list[0].state, terminal_states) ==> finished_workspace(
            Some(list),
            terminal_states,
        ) == Some(list[0].identifier),
        list.len() > 0 && !is_among(list[0].state, terminal_states) ==> finished_workspace(
            Some(list),
            terminal_states,
        ) is None,
{
    if list.len() > 0 {
        assert(is_among(list[0].state, terminal_states) <==> listed(list[0].state, terminal_states));
    }
}

} // verus!
