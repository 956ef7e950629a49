//! The orchestrator's state and the decisions that change it: which issue is taken
//! up, how retries wait, what becomes of a worker that is done.
use crate::config::{ServiceConfig, ServiceConfigV};
use crate::table::{item_map, keys_distinct, lemma_item_map_domain, Table, TextSet};
use crate::text::{
    is_listed, lemma_text_le_total, lemma_text_le_transitive, listed, lowercase, opt_text,
    precedes_or_equals, text_eq, text_le, texts,
};
use crate::tracker::picked;
use crate::types::{
    issues, whole_seconds, BlockerRef, BlockerV, CodexTotals, Issue, IssueV, LiveSession,
    OrchestratorState, RetryEntry, RetryV, RunningEntry, RunningV, SessionV, StateV, Timestamp,
};
use vstd::arithmetic::power2::pow2;
use vstd::prelude::*;
use vstd::string::*;

verus! {

// ── Backoff ─────────────────────────────────────────────────────────────────

/// Milliseconds to wait before an attempt: ten seconds for the first, twice as
/// much for each further one, and never more than the maximum.
pub open spec fn backoff(attempt: nat, max_backoff_ms: int) -> int {
    let wait = 10_000 * pow2(if attempt == 0 {
        0
    } else {
        (attempt - 1) as nat
    });
    if wait <= max_backoff_ms {
        wait as int
    } else {
        max_backoff_ms
    }
}

/// Compute exponential backoff in milliseconds.
pub fn compute_backoff(attempt: u32, max_backoff_ms: u64) -> (r: u64)
    ensures
        r == backoff(attempt as nat, max_backoff_ms as int),
{
    let mut wait: u64 = 10_000;
    let mut reached: u32 = 1;
    proof {
        vstd::arithmetic::power2::lemma2_to64();
    }
    while reached < attempt && wait < max_backoff_ms
        invariant
            1 <= reached,
            reached <= attempt || reached == 1,
            wait == 10_000 * pow2((reached - 1) as nat),
        decreases attempt - reached,
    {
        proof {
            vstd::arithmetic::power2::lemma_pow2_unfold(reached as nat);
            lemma_backoff_grows(reached as nat + 1, attempt as nat);
        }
        if wait > u64::MAX / 2 {
            return max_backoff_ms;
        }
        wait = wait * 2;
        reached = reached + 1;
    }
    proof {
        if reached < attempt {
            lemma_backoff_grows(reached as nat, attempt as nat);
        }
    }
    if wait < max_backoff_ms {
        wait
    } else {
        max_backoff_ms
    }
}

proof fn lemma_backoff_grows(a: nat, b: nat)
    requires
        1 <= a <= b,
    ensures
        10_000 * pow2((a - 1) as nat) <= 10_000 * pow2((b - 1) as nat),
{
    if a < b {
        vstd::arithmetic::power2::lemma_pow2_strictly_increases((a - 1) as nat, (b - 1) as nat);
    }
}

/// The wait never exceeds the maximum, never shrinks from one attempt to a later
/// one, and doubles from one attempt to the next until the maximum is reached.
pub proof fn law_backoff(attempt: nat, later: nat, max_backoff_ms: int)
    requires
        attempt <= later,
        0 <= max_backoff_ms,
    ensures
        0 <= backoff(attempt, max_backoff_ms) <= max_backoff_ms,
        backoff(attempt, max_backoff_ms) <= backoff(later, max_backoff_ms),
        backoff(0, max_backoff_ms) == backoff(1, max_backoff_ms),
        1 <= attempt ==> backoff(attempt + 1, max_backoff_ms) == (if 2 * backoff(
            attempt,
            max_backoff_ms,
        ) <= max_backoff_ms {
            2 * backoff(attempt, max_backoff_ms)
        } else {
            max_backoff_ms
        }),
{
    let a = if attempt == 0 {
        1
    } else {
        attempt
    };
    let b = if later == 0 {
        1
    } else {
        later
    };
    lemma_backoff_grows(a, b);
    vstd::arithmetic::power2::lemma_pow2_pos((a - 1) as nat);
    if attempt >= 1 {
        vstd::arithmetic::power2::lemma_pow2_unfold(attempt);
    }
}

// ── Outcome of a worker ─────────────────────────────────────────────────────

/// Outcome reported by a worker task back to the orchestrator.
#[derive(Debug)]
pub enum WorkerOutcome {
    /// Worker completed normally: a continuation check follows.
    Normal { tokens_in: u64, tokens_out: u64, elapsed_nanos: u64 },
    /// Worker failed: a retry with backoff follows.
    Error {
        error: String,
        retry_attempt: Option<u32>,
        tokens_in: u64,
        tokens_out: u64,
        elapsed_nanos: u64,
    },
}

/// A worker's outcome by its contents.
#[verifier::ext_equal]
pub enum WorkerOutcomeV {
    Normal { tokens_in: u64, tokens_out: u64, elapsed_nanos: u64 },
    Error {
        error: Seq<char>,
        retry_attempt: Option<u32>,
        tokens_in: u64,
        tokens_out: u64,
        elapsed_nanos: u64,
    },
}

impl View for WorkerOutcome {
    type V = WorkerOutcomeV;

    open spec fn view(&self) -> WorkerOutcomeV {
        match self {
            WorkerOutcome::Normal { tokens_in, tokens_out, elapsed_nanos } => WorkerOutcomeV::Normal {
                tokens_in: *tokens_in,
                tokens_out: *tokens_out,
                elapsed_nanos: *elapsed_nanos,
            },
            WorkerOutcome::Error { error, retry_attempt, tokens_in, tokens_out, elapsed_nanos } =>
            WorkerOutcomeV::Error {
                error: error@,
                retry_attempt: *retry_attempt,
                tokens_in: *tokens_in,
                tokens_out: *tokens_out,
                elapsed_nanos: *elapsed_nanos,
            },
        }
    }
}

impl WorkerOutcomeV {
    /// What a worker used: tokens in, tokens out, nanoseconds.
    pub open spec fn usage(self) -> (u64, u64, u64) {
        match self {
            WorkerOutcomeV::Normal { tokens_in, tokens_out, elapsed_nanos } => (
                tokens_in,
                tokens_out,
                elapsed_nanos,
            ),
            WorkerOutcomeV::Error { tokens_in, tokens_out, elapsed_nanos, .. } => (
                tokens_in,
                tokens_out,
                elapsed_nanos,
            ),
        }
    }
}

// ── Totals ──────────────────────────────────────────────────────────────────

/// Whether the totals can take more.
pub open spec fn totals_fit(
    totals: CodexTotals,
    input: int,
    output: int,
    total: int,
    nanos: int,
) -> bool {
    &&& totals.input_tokens + input <= u64::MAX
    &&& totals.output_tokens + output <= u64::MAX
    &&& totals.total_tokens + total <= u64::MAX
    &&& i128::MIN <= totals.nanos_running + nanos <= i128::MAX
}

/// The totals with more.
pub open spec fn totals_plus(
    totals: CodexTotals,
    input: int,
    output: int,
    total: int,
    nanos: int,
) -> CodexTotals {
    CodexTotals {
        input_tokens: (totals.input_tokens + input) as u64,
        output_tokens: (totals.output_tokens + output) as u64,
        total_tokens: (totals.total_tokens + total) as u64,
        nanos_running: (totals.nanos_running + nanos) as i128,
    }
}

// ── Changes of the state ────────────────────────────────────────────────────

/// An entry for an issue that waits.
pub open spec fn retry_entry(
    id: Seq<char>,
    identifier: Seq<char>,
    attempt: u32,
    due_at_ms: int,
    error: Option<Seq<char>>,
) -> RetryV {
    RetryV { issue_id: id, identifier, attempt, due_at_ms: due_at_ms as u64, error }
}

/// A retry that has to wait less than a tick longer.
pub open spec fn is_due(retry: RetryV) -> bool {
    retry.due_at_ms <= 1000
}

/// A retry after a tick.
pub open spec fn waited(retry: RetryV) -> RetryV {
    RetryV { due_at_ms: (retry.due_at_ms - 1000) as u64, ..retry }
}

impl StateV {
    /// A claim on an issue that is taken up from the tracker.
    pub open spec fn claimed_for(self, id: Seq<char>) -> StateV {
        StateV {
            claimed: self.claimed.insert(id),
            retry_attempts: self.retry_attempts.remove(id),
            ..self
        }
    }

    /// A claim given up.
    pub open spec fn released(self, id: Seq<char>) -> StateV {
        StateV { claimed: self.claimed.remove(id), ..self }
    }

    /// A claim given up for a later attempt.
    pub open spec fn scheduled(
        self,
        id: Seq<char>,
        identifier: Seq<char>,
        attempt: u32,
        error: Seq<char>,
        max_backoff_ms: u64,
    ) -> StateV {
        StateV {
            retry_attempts: self.retry_attempts.insert(
                id,
                retry_entry(
                    id,
                    identifier,
                    attempt,
                    backoff(attempt as nat, max_backoff_ms as int),
                    Some(error),
                ),
            ),
            claimed: self.claimed.remove(id),
            ..self
        }
    }

    /// A retry put back to wait again.
    pub open spec fn deferred(self, retry: RetryV, due_at_ms: u64, error: Option<Seq<char>>) -> StateV {
        StateV {
            retry_attempts: self.retry_attempts.insert(
                retry.issue_id,
                RetryV { due_at_ms, error, ..retry },
            ),
            ..self
        }
    }

    /// A worker started on an issue.
    pub open spec fn begun(self, entry: RunningV, claim: bool) -> StateV {
        StateV {
            running: self.running.insert(entry.issue_id, entry),
            claimed: if claim {
                self.claimed.insert(entry.issue_id)
            } else {
                self.claimed
            },
            ..self
        }
    }

    /// News of a running session.
    pub open spec fn session_updated(self, id: Seq<char>, session: SessionV) -> StateV {
        if self.running.contains_key(id) {
            StateV {
                running: self.running.insert(id, RunningV { session, ..self.running[id] }),
                ..self
            }
        } else {
            self
        }
    }

    /// Whether the totals can take what a running issue has used so far.
    pub open spec fn exit_fits(self, id: Seq<char>, schedule_retry: bool, now: Timestamp) -> bool {
        self.running.contains_key(id) ==> {
            let entry = self.running[id];
            &&& totals_fit(
                self.codex_totals,
                entry.session.codex_input_tokens as int,
                entry.session.codex_output_tokens as int,
                entry.session.codex_total_tokens as int,
                whole_seconds(entry.started_at, now) * 1_000_000_000,
            )
            &&& schedule_retry ==> (entry.retry_attempt matches Some(a) ==> a < u32::MAX)
        }
    }

    /// A running issue taken out of its worker's hands; what it has used is counted.
    pub open spec fn exited(
        self,
        id: Seq<char>,
        reason: Seq<char>,
        schedule_retry: bool,
        max_backoff_ms: u64,
        now: Timestamp,
    ) -> StateV {
        if !self.running.contains_key(id) {
            self
        } else {
            let entry = self.running[id];
            let next = match entry.retry_attempt {
                Some(a) => (a + 1) as u32,
                None => 1,
            };
            StateV {
                running: self.running.remove(id),
                claimed: self.claimed.remove(id),
                codex_totals: totals_plus(
                    self.codex_totals,
                    entry.session.codex_input_tokens as int,
                    entry.session.codex_output_tokens as int,
                    entry.session.codex_total_tokens as int,
                    whole_seconds(entry.started_at, now) * 1_000_000_000,
                ),
                retry_attempts: if schedule_retry {
                    self.retry_attempts.insert(
                        id,
                        retry_entry(
                            id,
                            entry.identifier,
                            next,
                            backoff(next as nat, max_backoff_ms as int),
                            Some(reason),
                        ),
                    )
                } else {
                    self.retry_attempts
                },
                ..self
            }
        }
    }

    /// Whether the totals and the count of attempts can take a worker's outcome.
    pub open spec fn outcome_fits(self, outcome: WorkerOutcomeV, attempt: u32) -> bool {
        let (input, output, nanos) = outcome.usage();
        &&& totals_fit(
            self.codex_totals,
            input as int,
            output as int,
            input + output,
            nanos as int,
        )
        &&& outcome matches WorkerOutcomeV::Error { retry_attempt, .. } ==> (match retry_attempt {
            Some(a) => a,
            None => attempt,
        }) < u32::MAX
    }

    /// A worker that is done: what it used is counted; after success a check in a
    /// second, after failure another attempt with backoff. `attempt` counts where
    /// the outcome names no attempt.
    pub open spec fn done(
        self,
        id: Seq<char>,
        identifier: Seq<char>,
        outcome: WorkerOutcomeV,
        attempt: u32,
        max_backoff_ms: u64,
    ) -> StateV {
        let (input, output, nanos) = outcome.usage();
        let counted = StateV {
            running: self.running.remove(id),
            claimed: self.claimed.remove(id),
            codex_totals: totals_plus(
                self.codex_totals,
                input as int,
                output as int,
                input + output,
                nanos as int,
            ),
            ..self
        };
        match outcome {
            WorkerOutcomeV::Normal { .. } => StateV {
                completed: self.completed.insert(id),
                retry_attempts: self.retry_attempts.insert(
                    id,
                    retry_entry(id, identifier, 1, 1000, None),
                ),
                ..counted
            },
            WorkerOutcomeV::Error { error, retry_attempt, .. } => {
                let next = ((match retry_attempt {
                    Some(a) => a,
                    None => attempt,
                }) + 1) as u32;
                StateV {
                    retry_attempts: self.retry_attempts.insert(
                        id,
                        retry_entry(
                            id,
                            identifier,
                            next,
                            backoff(next as nat, max_backoff_ms as int),
                            Some(error),
                        ),
                    ),
                    ..counted
                }
            },
        }
    }

    /// A second gone by: retries that are due leave their place and are claimed,
    /// the others have a second less to wait.
    pub open spec fn ticked(self) -> StateV {
        StateV {
            retry_attempts: Map::new(
                |id: Seq<char>|
                    self.retry_attempts.contains_key(id) && !is_due(self.retry_attempts[id]),
                |id: Seq<char>| waited(self.retry_attempts[id]),
            ),
            claimed: self.claimed.union(
                Set::new(
                    |id: Seq<char>|
                        exists|key: Seq<char>| #[trigger]
                            self.retry_attempts.contains_key(key) && is_due(
                                self.retry_attempts[key],
                            ) && self.retry_attempts[key].issue_id == id,
                ),
            ),
            ..self
        }
    }
}

/// A state in which nothing has happened yet.
pub open spec fn initial_state(c: ServiceConfigV) -> StateV {
    StateV {
        poll_interval_ms: c.poll_interval_ms,
        max_concurrent_agents: c.agent_max_concurrent_agents,
        running: Map::empty(),
        claimed: Set::empty(),
        retry_attempts: Map::empty(),
        completed: Set::empty(),
        codex_totals: CodexTotals {
            input_tokens: 0,
            output_tokens: 0,
            total_tokens: 0,
            nanos_running: 0,
        },
        codex_rate_limits: None,
    }
}

fn totals_have_room(
    totals: &CodexTotals,
    input: u64,
    output: u64,
    total: u128,
    nanos: i128,
) -> (r: bool)
    ensures
        r == totals_fit(*totals, input as int, output as int, total as int, nanos as int),
{
    let nanos_fit: bool = if nanos >= 0 {
        totals.nanos_running <= i128::MAX - nanos
    } else {
        totals.nanos_running >= i128::MIN - nanos
    };
    input <= u64::MAX - totals.input_tokens && output <= u64::MAX - totals.output_tokens && total
        <= (u64::MAX - totals.total_tokens) as u128 && nanos_fit
}

fn add_to_totals(totals: &mut CodexTotals, input: u64, output: u64, total: u64, nanos: i128)
    requires
        totals_fit(*old(totals), input as int, output as int, total as int, nanos as int),
    ensures
        *final(totals) == totals_plus(
            *old(totals),
            input as int,
            output as int,
            total as int,
            nanos as int,
        ),
{
    totals.input_tokens = totals.input_tokens + input;
    totals.output_tokens = totals.output_tokens + output;
    totals.total_tokens = totals.total_tokens + total;
    totals.nanos_running = totals.nanos_running + nanos;
}

fn elapsed_seconds_nanos(from: &Timestamp, to: &Timestamp) -> (r: i128)
    ensures
        r == whole_seconds(*from, *to) * 1_000_000_000,
{
    to.seconds_since(from) * 1_000_000_000
}

impl OrchestratorState {
    /// A state in which nothing has happened yet.
    pub fn new(config: &ServiceConfig) -> (r: OrchestratorState)
        ensures
            r@ == initial_state(config@),
    {
        OrchestratorState {
            poll_interval_ms: config.poll_interval_ms,
            max_concurrent_agents: config.agent_max_concurrent_agents,
            running: Table::new(),
            claimed: TextSet::new(),
            retry_attempts: Table::new(),
            completed: TextSet::new(),
            codex_totals: CodexTotals::default(),
            codex_rate_limits: None,
        }
    }

    /// Claims an issue that is taken up from the tracker.
    pub fn claim(&mut self, issue_id: &str)
        ensures
            final(self)@ == old(self)@.claimed_for(issue_id@),
    {
        self.claimed.insert(issue_id);
        let _ = self.retry_attempts.remove(issue_id);
    }

    /// Gives a claim up.
    pub fn release(&mut self, issue_id: &str)
        ensures
            final(self)@ == old(self)@.released(issue_id@),
    {
        let _ = self.claimed.remove(issue_id);
    }

    /// Gives a claim up and schedules another attempt with backoff.
    pub fn schedule_retry(
        &mut self,
        issue_id: &str,
        identifier: &str,
        attempt: u32,
        error: &str,
        max_backoff_ms: u64,
    )
        ensures
            final(self)@ == old(self)@.scheduled(
                issue_id@,
                identifier@,
                attempt,
                error@,
                max_backoff_ms,
            ),
    {
        let entry = RetryEntry {
            issue_id: issue_id.to_owned(),
            identifier: identifier.to_owned(),
            attempt,
            due_at_ms: compute_backoff(attempt, max_backoff_ms),
            error: Some(error.to_owned()),
        };
        self.retry_attempts.insert(issue_id, entry);
        let _ = self.claimed.remove(issue_id);
    }

    /// Puts a retry back to wait again.
    pub fn defer_retry(&mut self, retry: &RetryEntry, due_at_ms: u64, error: Option<String>)
        ensures
            final(self)@ == old(self)@.deferred(retry@, due_at_ms, opt_text(error)),
    {
        let entry = RetryEntry {
            issue_id: retry.issue_id.clone(),
            identifier: retry.identifier.clone(),
            attempt: retry.attempt,
            due_at_ms,
            error,
        };
        self.retry_attempts.insert(retry.issue_id.as_str(), entry);
    }

    /// Notes that a worker starts on an issue; `claim` says whether to claim it too.
    pub fn begin_run(&mut self, entry: RunningEntry, claim: bool)
        ensures
            final(self)@ == old(self)@.begun(entry@, claim),
    {
        let id: String = entry.issue_id.clone();
        if claim {
            self.claimed.insert(id.as_str());
        }
        self.running.insert(id.as_str(), entry);
    }

    /// Takes news of a running session; an issue that is no longer running has none.
    pub fn update_session(&mut self, issue_id: &str, session: LiveSession)
        ensures
            final(self)@ == old(self)@.session_updated(issue_id@, session@),
    {
        let updated: Option<RunningEntry> = match self.running.get(issue_id) {
            Some(entry) => {
                let mut copy: RunningEntry = entry.clone();
                copy.session = session;
                Some(copy)
            },
            None => None,
        };
        match updated {
            Some(entry) => self.running.insert(issue_id, entry),
            None => {},
        }
    }

    /// Whether the counters can take what a running issue has used so far.
    pub fn can_exit(&self, issue_id: &str, schedule_retry: bool, now: Timestamp) -> (r: bool)
        ensures
            r == self@.exit_fits(issue_id@, schedule_retry, now),
    {
        match self.running.get(issue_id) {
            None => true,
            Some(entry) => {
                let attempts_fit: bool = match entry.retry_attempt {
                    Some(a) => a < u32::MAX,
                    None => true,
                };
                totals_have_room(
                    &self.codex_totals,
                    entry.session.codex_input_tokens,
                    entry.session.codex_output_tokens,
                    entry.session.codex_total_tokens as u128,
                    elapsed_seconds_nanos(&entry.started_at, &now),
                ) && (!schedule_retry || attempts_fit)
            },
        }
    }

    /// Takes a running issue out of its worker's hands and counts what it has used.
    /// An issue that is not running is left alone.
    pub fn handle_worker_exit(
        &mut self,
        issue_id: &str,
        reason: &str,
        schedule_retry: bool,
        max_backoff_ms: u64,
        now: Timestamp,
    )
        requires
            old(self)@.exit_fits(issue_id@, schedule_retry, now),
        ensures
            final(self)@ == old(self)@.exited(
                issue_id@,
                reason@,
                schedule_retry,
                max_backoff_ms,
                now,
            ),
    {
        match self.running.remove(issue_id) {
            None => {},
            Some(entry) => {
                let _ = self.claimed.remove(issue_id);
                add_to_totals(
                    &mut self.codex_totals,
                    entry.session.codex_input_tokens,
                    entry.session.codex_output_tokens,
                    entry.session.codex_total_tokens,
                    elapsed_seconds_nanos(&entry.started_at, &now),
                );
                if schedule_retry {
                    let next: u32 = match entry.retry_attempt {
                        Some(a) => a + 1,
                        None => 1,
                    };
                    let retry = RetryEntry {
                        issue_id: issue_id.to_owned(),
                        identifier: entry.identifier.clone(),
                        attempt: next,
                        due_at_ms: compute_backoff(next, max_backoff_ms),
                        error: Some(reason.to_owned()),
                    };
                    self.retry_attempts.insert(issue_id, retry);
                }
            },
        }
    }

    /// Whether the counters can take a worker's outcome.
    pub fn can_finish(&self, outcome: &WorkerOutcome, attempt: u32) -> (r: bool)
        ensures
            r == self@.outcome_fits(outcome@, attempt),
    {
        match outcome {
            WorkerOutcome::Normal { tokens_in, tokens_out, elapsed_nanos } => totals_have_room(
                &self.codex_totals,
                *tokens_in,
                *tokens_out,
                *tokens_in as u128 + *tokens_out as u128,
                *elapsed_nanos as i128,
            ),
            WorkerOutcome::Error {
                error: _,
                retry_attempt,
                tokens_in,
                tokens_out,
                elapsed_nanos,
            } => {
                let last: u32 = match retry_attempt {
                    Some(a) => *a,
                    None => attempt,
                };
                totals_have_room(
                    &self.codex_totals,
                    *tokens_in,
                    *tokens_out,
                    *tokens_in as u128 + *tokens_out as u128,
                    *elapsed_nanos as i128,
                ) && last < u32::MAX
            },
        }
    }

    /// Takes a worker's outcome.
    pub fn finish_worker(
        &mut self,
        issue_id: &str,
        identifier: &str,
        outcome: WorkerOutcome,
        attempt: u32,
        max_backoff_ms: u64,
    )
        requires
            old(self)@.outcome_fits(outcome@, attempt),
        ensures
            final(self)@ == old(self)@.done(
                issue_id@,
                identifier@,
                outcome@,
                attempt,
                max_backoff_ms,
            ),
    {
        let _ = self.running.remove(issue_id);
        let _ = self.claimed.remove(issue_id);
        match outcome {
            WorkerOutcome::Normal { tokens_in, tokens_out, elapsed_nanos } => {
                add_to_totals(
                    &mut self.codex_totals,
                    tokens_in,
                    tokens_out,
                    tokens_in + tokens_out,
                    elapsed_nanos as i128,
                );
                self.completed.insert(issue_id);
                let retry = RetryEntry {
                    issue_id: issue_id.to_owned(),
                    identifier: identifier.to_owned(),
                    attempt: 1,
                    due_at_ms: 1000,
                    error: None,
                };
                self.retry_attempts.insert(issue_id, retry);
            },
            WorkerOutcome::Error { error, retry_attempt, tokens_in, tokens_out, elapsed_nanos } => {
                add_to_totals(
                    &mut self.codex_totals,
                    tokens_in,
                    tokens_out,
                    tokens_in + tokens_out,
                    elapsed_nanos as i128,
                );
                let last: u32 = match retry_attempt {
                    Some(a) => a,
                    None => attempt,
                };
                let next: u32 = last + 1;
                let retry = RetryEntry {
                    issue_id: issue_id.to_owned(),
                    identifier: identifier.to_owned(),
                    attempt: next,
                    due_at_ms: compute_backoff(next, max_backoff_ms),
                    error: Some(error),
                };
                self.retry_attempts.insert(issue_id, retry);
            },
        }
    }
}

// ── Tick ────────────────────────────────────────────────────────────────────

/// The retries that wait on after a tick, in their order.
pub open spec fn waiting_items(items: Seq<(Seq<char>, RetryV)>) -> Seq<(Seq<char>, RetryV)>
    decreases items.len(),
{
    if items.len() == 0 {
        Seq::empty()
    } else if is_due(items.last().1) {
        waiting_items(items.drop_last())
    } else {
        waiting_items(items.drop_last()).push((items.last().0, waited(items.last().1)))
    }
}

/// The retries that are due, in their order.
pub open spec fn due_items(items: Seq<(Seq<char>, RetryV)>) -> Seq<RetryV>
    decreases items.len(),
{
    if items.len() == 0 {
        Seq::empty()
    } else if is_due(items.last().1) {
        due_items(items.drop_last()).push(items.last().1)
    } else {
        due_items(items.drop_last())
    }
}

/// The contents of a list of retries.
pub open spec fn retries(v: Seq<RetryEntry>) -> Seq<RetryV> {
    v.map_values(|r: RetryEntry| r@)
}

proof fn lemma_distinct_prefix<W>(items: Seq<(Seq<char>, W)>)
    requires
        keys_distinct(items),
        items.len() > 0,
    ensures
        keys_distinct(items.drop_last()),
        !item_map(items.drop_last()).contains_key(items.last().0),
{
    let rest = items.drop_last();
    assert forall|i: int, j: int|
        #![trigger rest[i], rest[j]]
        0 <= i < j < rest.len() implies rest[i].0 != rest[j].0 by {
        assert(rest[i] == items[i] && rest[j] == items[j]);
    }
    lemma_item_map_domain(rest, items.last().0);
    if item_map(rest).contains_key(items.last().0) {
        let i = choose|i: int| 0 <= i < rest.len() && (#[trigger] rest[i]).0 == items.last().0;
        assert(items[i].0 == items[items.len() - 1].0);
    }
}

proof fn lemma_waiting(items: Seq<(Seq<char>, RetryV)>, key: Seq<char>)
    requires
        keys_distinct(items),
    ensures
        item_map(waiting_items(items)).contains_key(key) <==> item_map(items).contains_key(key)
            && !is_due(item_map(items)[key]),
        item_map(waiting_items(items)).contains_key(key) ==> item_map(waiting_items(items))[key]
            == waited(item_map(items)[key]),
    decreases items.len(),
{
    if items.len() > 0 {
        lemma_distinct_prefix(items);
        lemma_waiting(items.drop_last(), key);
        let rest = waiting_items(items.drop_last());
        assert(rest.push((items.last().0, waited(items.last().1))).drop_last() =~= rest);
    }
}

proof fn lemma_due(items: Seq<(Seq<char>, RetryV)>, id: Seq<char>)
    requires
        keys_distinct(items),
    ensures
        (exists|i: int| 0 <= i < due_items(items).len() && (#[trigger] due_items(items)[i]).issue_id
            == id) <==> (exists|key: Seq<char>| #[trigger]
            item_map(items).contains_key(key) && is_due(item_map(items)[key]) && item_map(
                items,
            )[key].issue_id == id),
    decreases items.len(),
{
    if items.len() > 0 {
        let rest = items.drop_last();
        let last = items.last();
        lemma_distinct_prefix(items);
        lemma_due(rest, id);
        let m = item_map(items);
        let n = item_map(rest);
        let d = due_items(items);
        let e = due_items(rest);
        if exists|i: int| 0 <= i < d.len() && (#[trigger] d[i]).issue_id == id {
            let i = choose|i: int| 0 <= i < d.len() && (#[trigger] d[i]).issue_id == id;
            if i < e.len() {
                assert(e[i] == d[i]);
                let key = choose|key: Seq<char>| #[trigger]
                    n.contains_key(key) && is_due(n[key]) && n[key].issue_id == id;
                assert(m.contains_key(key) && m[key] == n[key]);
            } else {
                assert(m.contains_key(last.0) && m[last.0] == last.1);
            }
        }
        if exists|key: Seq<char>| #[trigger]
            m.contains_key(key) && is_due(m[key]) && m[key].issue_id == id {
            let key = choose|key: Seq<char>| #[trigger]
                m.contains_key(key) && is_due(m[key]) && m[key].issue_id == id;
            if key == last.0 {
                assert(d[d.len() - 1].issue_id == id);
            } else {
                assert(n.contains_key(key) && n[key] == m[key]);
                let i = choose|i: int| 0 <= i < e.len() && (#[trigger] e[i]).issue_id == id;
                assert(d[i] == e[i]);
            }
        }
    }
}

impl OrchestratorState {
    /// Lets a second go by for the retries, and hands out those that are due, which
    /// are claimed from then on.
    pub fn tick_retries(&mut self) -> (ready: Vec<RetryEntry>)
        ensures
            final(self)@ == old(self)@.ticked(),
            retries(ready@) == due_items(old(self).retry_attempts.items()),
    {
        let mut waiting: Table<RetryEntry> = Table::new();
        let mut ready: Vec<RetryEntry> = Vec::new();
        let n: usize = self.retry_attempts.len();
        let ghost items = self.retry_attempts.items();
        let mut i: usize = 0;
        proof {
            assert(items.take(0) =~= Seq::<(Seq<char>, RetryV)>::empty());
            assert(retries(ready@) =~= Seq::<RetryV>::empty());
        }
        while i < n
            invariant
                i <= n,
                n == items.len(),
                items == self.retry_attempts.items(),
                waiting@ == item_map(waiting_items(items.take(i as int))),
                retries(ready@) == due_items(items.take(i as int)),
            decreases n - i,
        {
            let ghost upto = items.take(i + 1);
            assert(upto.drop_last() =~= items.take(i as int));
            assert(upto.last() == items[i as int]);
            let entry: &RetryEntry = self.retry_attempts.value_at(i);
            if entry.due_at_ms <= 1000 {
                let ghost before = retries(ready@);
                let copy: RetryEntry = entry.clone();
                ready.push(copy);
                assert(retries(ready@) =~= before.push(copy@));
            } else {
                let mut copy: RetryEntry = entry.clone();
                copy.due_at_ms = copy.due_at_ms - 1000;
                let ghost rest = waiting_items(items.take(i as int));
                assert(rest.push((items[i as int].0, copy@)).drop_last() =~= rest);
                waiting.insert(self.retry_attempts.key_at(i), copy);
            }
            i = i + 1;
        }
        assert(items.take(n as int) =~= items);
        let ghost before = old(self)@;
        proof {
            assert forall|key: Seq<char>|
                waiting@.contains_key(key) <==> before.ticked().retry_attempts.contains_key(
                    key,
                ) by {
                lemma_waiting(items, key);
            }
            assert forall|key: Seq<char>| #[trigger] waiting@.contains_key(key) implies waiting@[key]
                == before.ticked().retry_attempts[key] by {
                lemma_waiting(items, key);
            }
            assert(waiting@ =~= before.ticked().retry_attempts);
        }
        self.retry_attempts = waiting;
        let mut k: usize = 0;
        while k < ready.len()
            invariant
                k <= ready.len(),
                retries(ready@) == due_items(items),
                before == old(self)@,
                self@ == (StateV {
                    retry_attempts: before.ticked().retry_attempts,
                    claimed: self.claimed@,
                    ..before
                }),
                forall|id: Seq<char>| #[trigger]
                    self.claimed@.contains(id) <==> before.claimed.contains(id) || exists|j: int|
                        0 <= j < k && (#[trigger] retries(ready@)[j]).issue_id == id,
            decreases ready.len() - k,
        {
            let ghost held = self.claimed@;
            assert(retries(ready@)[k as int] == ready@[k as int]@);
            self.claimed.insert(ready[k].issue_id.as_str());
            assert forall|id: Seq<char>| #[trigger]
                self.claimed@.contains(id) <==> before.claimed.contains(id) || exists|j: int|
                    0 <= j < k + 1 && (#[trigger] retries(ready@)[j]).issue_id == id by {
                if held.contains(id) && !before.claimed.contains(id) {
                    let j = choose|j: int|
                        0 <= j < k && (#[trigger] retries(ready@)[j]).issue_id == id;
                    assert(0 <= j < k + 1);
                }
            }
            k = k + 1;
        }
        proof {
            assert forall|id: Seq<char>| #[trigger]
                self.claimed@.contains(id) <==> before.ticked().claimed.contains(id) by {
                lemma_due(items, id);
            }
            assert(self.claimed@ =~= before.ticked().claimed);
        }
        ready
    }
}

// ── Eligibility ─────────────────────────────────────────────────────────────

/// Whether a blocker still blocks: its state is unknown or not terminal.
pub open spec fn still_blocks(b: BlockerV, terminal_states: Seq<Seq<char>>) -> bool {
    b.state matches Some(s) ==> !listed(s, terminal_states)
}

/// Whether an issue has to wait for another.
pub open spec fn is_blocked(issue: IssueV, terminal_states: Seq<Seq<char>>) -> bool {
    issue.state == "Todo"@ && exists|i: int|
        0 <= i < issue.blocked_by.len() && still_blocks(
            #[trigger] issue.blocked_by[i],
            terminal_states,
        )
}

/// The running issues whose state has these small letters.
pub open spec fn running_in_state(running: Map<Seq<char>, RunningV>, norm: Seq<char>) -> Set<
    Seq<char>,
> {
    running.dom().filter(|id: Seq<char>| lowercase(running[id].issue.state) == norm)
}

/// Whether an issue is to be taken up now.
pub open spec fn eligible(state: StateV, issue: IssueV, config: ServiceConfigV) -> bool {
    let norm = lowercase(issue.state);
    &&& issue.id.len() > 0
    &&& issue.identifier.len() > 0
    &&& issue.title.len() > 0
    &&& issue.state.len() > 0
    &&& listed(issue.state, config.tracker_active_states)
    &&& !listed(issue.state, config.tracker_terminal_states)
    &&& !state.running.contains_key(issue.id)
    &&& !state.claimed.contains(issue.id)
    &&& !state.retry_attempts.contains_key(issue.id)
    &&& !is_blocked(issue, config.tracker_terminal_states)
    &&& state.running.dom().len() < state.max_concurrent_agents
    &&& config.agent_max_concurrent_agents_by_state.contains_key(norm) ==> running_in_state(
        state.running,
        norm,
    ).len() < config.agent_max_concurrent_agents_by_state[norm]
}

/// How many of the items are in a state with these small letters.
pub open spec fn count_in_state(items: Seq<(Seq<char>, RunningV)>, norm: Seq<char>) -> nat
    decreases items.len(),
{
    if items.len() == 0 {
        0
    } else {
        count_in_state(items.drop_last(), norm) + (if lowercase(items.last().1.issue.state)
            == norm {
            1nat
        } else {
            0nat
        })
    }
}

proof fn lemma_count_in_state(items: Seq<(Seq<char>, RunningV)>, norm: Seq<char>)
    requires
        keys_distinct(items),
    ensures
        running_in_state(item_map(items), norm).finite(),
        running_in_state(item_map(items), norm).len() == count_in_state(items, norm),
    decreases items.len(),
{
    let m = item_map(items);
    if items.len() == 0 {
        assert(running_in_state(m, norm) =~= Set::<Seq<char>>::empty());
    } else {
        let rest = items.drop_last();
        let n = item_map(rest);
        lemma_distinct_prefix(items);
        lemma_count_in_state(rest, norm);
        if lowercase(items.last().1.issue.state) == norm {
            assert(running_in_state(m, norm) =~= running_in_state(n, norm).insert(items.last().0));
        } else {
            assert(running_in_state(m, norm) =~= running_in_state(n, norm));
        }
    }
}

fn count_running_in_state(running: &Table<RunningEntry>, norm: &str) -> (r: usize)
    ensures
        r == running_in_state(running@, norm@).len(),
{
    let n: usize = running.len();
    let ghost items = running.items();
    let mut count: usize = 0;
    let mut i: usize = 0;
    assert(items.take(0) =~= Seq::<(Seq<char>, RunningV)>::empty());
    while i < n
        invariant
            i <= n,
            n == items.len(),
            items == running.items(),
            count <= i,
            count == count_in_state(items.take(i as int), norm@),
        decreases n - i,
    {
        assert(items.take(i + 1).drop_last() =~= items.take(i as int));
        assert(items.take(i + 1).last() == items[i as int]);
        let other: String = running.value_at(i).issue.state_normalized();
        if text_eq(other.as_str(), norm) {
            count = count + 1;
        }
        i = i + 1;
    }
    proof {
        assert(items.take(n as int) =~= items);
        lemma_count_in_state(items, norm@);
    }
    count
}

fn waits_for_another(issue: &Issue, terminal_states: &Vec<String>) -> (r: bool)
    ensures
        r == is_blocked(issue@, texts(terminal_states@)),
{
    if !text_eq(issue.state.as_str(), "Todo") {
        return false;
    }
    let mut i: usize = 0;
    while i < issue.blocked_by.len()
        invariant
            i <= issue.blocked_by.len(),
            issue@.state == "Todo"@,
            forall|k: int|
                0 <= k < i ==> !still_blocks(
                    #[trigger] issue@.blocked_by[k],
                    texts(terminal_states@),
                ),
        decreases issue.blocked_by.len() - i,
    {
        let b: &BlockerRef = &issue.blocked_by[i];
        assert(issue@.blocked_by[i as int] == b@);
        let blocks: bool = match &b.state {
            Some(s) => !is_listed(s.as_str(), terminal_states),
            None => true,
        };
        if blocks {
            assert(still_blocks(issue@.blocked_by[i as int], texts(terminal_states@)));
            return true;
        }
        i = i + 1;
    }
    false
}

impl OrchestratorState {
    /// Whether an issue is to be taken up now: it is whole, active, not in hand
    /// already, not blocked, and there is a slot for it.
    pub fn should_dispatch(&self, issue: &Issue, config: &ServiceConfig) -> (r: bool)
        ensures
            r == eligible(self@, issue@, config@),
    {
        if issue.id.as_str().is_empty() || issue.identifier.as_str().is_empty()
            || issue.title.as_str().is_empty() || issue.state.as_str().is_empty() {
            return false;
        }
        if !issue.is_active(&config.tracker_active_states) {
            return false;
        }
        if issue.is_terminal(&config.tracker_terminal_states) {
            return false;
        }
        if self.running.contains_key(issue.id.as_str()) || self.claimed.contains(issue.id.as_str())
            || self.retry_attempts.contains_key(issue.id.as_str()) {
            return false;
        }
        if waits_for_another(issue, &config.tracker_terminal_states) {
            return false;
        }
        if self.available_slots() == 0 {
            return false;
        }
        let norm: String = issue.state_normalized();
        match config.agent_max_concurrent_agents_by_state.get(norm.as_str()) {
            Some(max) => count_running_in_state(&self.running, norm.as_str()) < *max as usize,
            None => true,
        }
    }
}

// ── Order ───────────────────────────────────────────────────────────────────

/// An issue's priority, the lowest where it has none.
pub open spec fn priority_of(issue: IssueV) -> i32 {
    match issue.priority {
        Some(p) => p,
        None => i32::MAX,
    }
}

/// Whether a moment comes before another; an unknown one comes before all.
pub open spec fn time_before(a: Option<Timestamp>, b: Option<Timestamp>) -> bool {
    match (a, b) {
        (None, Some(_)) => true,
        (Some(x), Some(y)) => x.seconds < y.seconds || (x.seconds == y.seconds && x.nanos
            < y.nanos),
        _ => false,
    }
}

/// Whether an issue may come before another: by priority, then by age, then by
/// identifier.
pub open spec fn issue_le(a: IssueV, b: IssueV) -> bool {
    priority_of(a) < priority_of(b) || (priority_of(a) == priority_of(b) && (time_before(
        a.created_at,
        b.created_at,
    ) || (a.created_at == b.created_at && text_le(a.identifier, b.identifier))))
}

/// A list with one issue more, behind all that may come before it.
pub open spec fn insert_issue(list: Seq<IssueV>, issue: IssueV) -> Seq<IssueV>
    decreases list.len(),
{
    if list.len() == 0 || issue_le(list.last(), issue) {
        list.push(issue)
    } else {
        insert_issue(list.drop_last(), issue).push(list.last())
    }
}

/// The issues in the order in which they are taken up.
pub open spec fn in_order(list: Seq<IssueV>) -> Seq<IssueV>
    decreases list.len(),
{
    if list.len() == 0 {
        list
    } else {
        insert_issue(in_order(list.drop_last()), list.last())
    }
}

fn may_precede(a: &Issue, b: &Issue) -> (r: bool)
    ensures
        r == issue_le(a@, b@),
{
    let pa: i32 = match a.priority {
        Some(p) => p,
        None => i32::MAX,
    };
    let pb: i32 = match b.priority {
        Some(p) => p,
        None => i32::MAX,
    };
    if pa != pb {
        return pa < pb;
    }
    match (a.created_at, b.created_at) {
        (None, Some(_)) => true,
        (Some(_), None) => false,
        (None, None) => precedes_or_equals(a.identifier.as_str(), b.identifier.as_str()),
        (Some(x), Some(y)) => if x.before(&y) {
            true
        } else if y.before(&x) {
            false
        } else {
            precedes_or_equals(a.identifier.as_str(), b.identifier.as_str())
        },
    }
}

proof fn lemma_insert_at(list: Seq<IssueV>, issue: IssueV, at: int)
    requires
        0 <= at <= list.len(),
        forall|k: int| at <= k < list.len() ==> !issue_le(#[trigger] list[k], issue),
        at > 0 ==> issue_le(list[at - 1], issue),
    ensures
        insert_issue(list, issue) == list.insert(at, issue),
    decreases list.len(),
{
    if at == list.len() {
        assert(list.insert(at, issue) =~= list.push(issue));
    } else {
        assert(!issue_le(list[list.len() - 1], issue));
        let rest = list.drop_last();
        assert forall|k: int| at <= k < rest.len() implies !issue_le(#[trigger] rest[k], issue) by {
            assert(rest[k] == list[k]);
        }
        lemma_insert_at(rest, issue, at);
        assert(list.insert(at, issue) =~= rest.insert(at, issue).push(list.last()));
    }
}

/// Puts issues into the order in which they are taken up: by priority, then by
/// age, then by identifier. Issues that agree in all three keep their order.
pub fn sort_issues(list: Vec<Issue>) -> (r: Vec<Issue>)
    ensures
        issues(r@) == in_order(issues(list@)),
{
    let mut r: Vec<Issue> = Vec::new();
    let mut i: usize = 0;
    assert(issues(list@).take(0) =~= Seq::<IssueV>::empty());
    assert(issues(r@) =~= Seq::<IssueV>::empty());
    while i < list.len()
        invariant
            i <= list.len(),
            r.len() == i,
            issues(r@) == in_order(issues(list@).take(i as int)),
        decreases list.len() - i,
    {
        let ghost upto = issues(list@).take(i + 1);
        assert(upto.drop_last() =~= issues(list@).take(i as int));
        assert(upto.last() == list@[i as int]@);
        let mut at: usize = r.len();
        while at > 0 && !may_precede(&r[at - 1], &list[i])
            invariant
                at <= r.len(),
                i < list.len(),
                forall|k: int|
                    at <= k < r.len() ==> !issue_le(#[trigger] issues(r@)[k], list@[i as int]@),
            decreases at,
        {
            assert(issues(r@)[at - 1] == r@[at - 1]@);
            at = at - 1;
        }
        proof {
            if at > 0 {
                assert(issues(r@)[at - 1] == r@[at - 1]@);
            }
            lemma_insert_at(issues(r@), list@[i as int]@, at as int);
        }
        let ghost before = issues(r@);
        let copy: Issue = list[i].clone();
        r.insert(at, copy);
        assert(issues(r@) =~= before.insert(at as int, copy@));
        i = i + 1;
    }
    assert(issues(list@).take(list.len() as int) =~= issues(list@));
    r
}

/// Whether two issues agree in all that counts for their order.
pub open spec fn same_rank(a: IssueV, b: IssueV) -> bool {
    priority_of(a) == priority_of(b) && a.created_at == b.created_at && a.identifier
        == b.identifier
}

proof fn lemma_issue_le_total(a: IssueV, b: IssueV)
    ensures
        issue_le(a, b) || issue_le(b, a),
        same_rank(a, b) ==> issue_le(a, b),
{
    lemma_text_le_total(a.identifier, b.identifier);
}

proof fn lemma_issue_le_transitive(a: IssueV, b: IssueV, c: IssueV)
    requires
        issue_le(a, b),
        issue_le(b, c),
    ensures
        issue_le(a, c),
{
    if text_le(a.identifier, b.identifier) && text_le(b.identifier, c.identifier) {
        lemma_text_le_transitive(a.identifier, b.identifier, c.identifier);
    }
}

/// No issue comes before one that has to come before it.
pub open spec fn is_ordered(list: Seq<IssueV>) -> bool {
    forall|i: int, j: int|
        #![trigger list[i], list[j]]
        0 <= i < j < list.len() ==> issue_le(list[i], list[j])
}

proof fn lemma_insert_keeps_order(list: Seq<IssueV>, issue: IssueV)
    requires
        is_ordered(list),
    ensures
        is_ordered(insert_issue(list, issue)),
        insert_issue(list, issue).len() == list.len() + 1,
        insert_issue(list, issue).to_multiset() == list.to_multiset().insert(issue),
        forall|k: int|
            0 <= k < list.len() + 1 ==> (#[trigger] insert_issue(list, issue)[k]) == issue
                || list.contains(insert_issue(list, issue)[k]),
    decreases list.len(),
{
    broadcast use vstd::seq_lib::group_to_multiset_ensures;

    let r = insert_issue(list, issue);
    if list.len() == 0 || issue_le(list.last(), issue) {
        assert forall|i: int, j: int|
            #![trigger r[i], r[j]]
            0 <= i < j < r.len() implies issue_le(r[i], r[j]) by {
            if j == list.len() {
                if i < list.len() - 1 {
                    assert(issue_le(list[i], list[list.len() - 1]));
                    lemma_issue_le_transitive(list[i], list.last(), issue);
                }
            }
        }
        assert forall|k: int| 0 <= k < r.len() implies (#[trigger] r[k]) == issue
            || list.contains(r[k]) by {
            if k < list.len() {
                assert(r[k] == list[k]);
            }
        }
    } else {
        let rest = list.drop_last();
        let last = list.last();
        assert forall|i: int, j: int|
            #![trigger rest[i], rest[j]]
            0 <= i < j < rest.len() implies issue_le(rest[i], rest[j]) by {
            assert(rest[i] == list[i] && rest[j] == list[j]);
        }
        lemma_insert_keeps_order(rest, issue);
        lemma_issue_le_total(last, issue);
        let inner = insert_issue(rest, issue);
        assert(r =~= inner.push(last));
        assert forall|k: int| 0 <= k < inner.len() implies issue_le(#[trigger] inner[k], last) by {
            if inner[k] != issue {
                let h = choose|h: int| 0 <= h < rest.len() && rest[h] == inner[k];
                assert(rest[h] == list[h]);
                assert(issue_le(list[h], list[list.len() - 1]));
            }
        }
        assert forall|k: int| 0 <= k < r.len() implies (#[trigger] r[k]) == issue
            || list.contains(r[k]) by {
            if k < inner.len() {
                assert(r[k] == inner[k]);
                if inner[k] != issue {
                    let h = choose|h: int| 0 <= h < rest.len() && rest[h] == inner[k];
                    assert(list[h] == r[k]);
                }
            } else {
                assert(list[list.len() - 1] == r[k]);
            }
        }
        assert(list =~= rest.push(last));
        assert(r.to_multiset() =~= list.to_multiset().insert(issue));
    }
}

proof fn lemma_insert_keeps_class(list: Seq<IssueV>, issue: IssueV, like: IssueV)
    ensures
        picked(insert_issue(list, issue), |i: IssueV| same_rank(i, like)) == picked(
            list.push(issue),
            |i: IssueV| same_rank(i, like),
        ),
    decreases list.len(),
{
    let keep = |i: IssueV| same_rank(i, like);
    if list.len() == 0 || issue_le(list.last(), issue) {
    } else {
        let rest = list.drop_last();
        let last = list.last();
        lemma_insert_keeps_class(rest, issue, like);
        lemma_issue_le_total(last, issue);
        assert(insert_issue(list, issue).drop_last() =~= insert_issue(rest, issue));
        assert(rest.push(issue).drop_last() =~= rest);
        assert(list.push(issue).drop_last() =~= list);
        if keep(last) && keep(issue) {
            assert(same_rank(last, issue));
        }
        let base = picked(rest, keep);
        assert(picked(list, keep) == (if keep(last) {
            base.push(last)
        } else {
            base
        }));
        assert(picked(rest.push(issue), keep) == (if keep(issue) {
            base.push(issue)
        } else {
            base
        }));
        assert(picked(list.push(issue), keep) == (if keep(issue) {
            picked(list, keep).push(issue)
        } else {
            picked(list, keep)
        }));
        assert(picked(insert_issue(list, issue), keep) == (if keep(last) {
            picked(insert_issue(rest, issue), keep).push(last)
        } else {
            picked(insert_issue(rest, issue), keep)
        }));
    }
}

/// The order in which issues are taken up holds the same issues, none before one
/// that has to come first, and leaves issues that agree in priority, age and
/// identifier in the order in which they were.
pub proof fn law_in_order(list: Seq<IssueV>, like: IssueV)
    ensures
        is_ordered(in_order(list)),
        in_order(list).to_multiset() == list.to_multiset(),
        picked(in_order(list), |i: IssueV| same_rank(i, like)) == picked(
            list,
            |i: IssueV| same_rank(i, like),
        ),
    decreases list.len(),
{
    broadcast use vstd::seq_lib::group_to_multiset_ensures;

    if list.len() > 0 {
        let rest = list.drop_last();
        let keep = |i: IssueV| same_rank(i, like);
        law_in_order(rest, like);
        lemma_insert_keeps_order(in_order(rest), list.last());
        lemma_insert_keeps_class(in_order(rest), list.last(), like);
        assert(list =~= rest.push(list.last()));
        assert(in_order(rest).push(list.last()).drop_last() =~= in_order(rest));
        assert(rest.push(list.last()).drop_last() =~= rest);
    }
}

// ── Laws of eligibility ─────────────────────────────────────────────────────

/// An issue in hand, waiting or claimed is not taken up a second time, and with no
/// slot left none is.
pub proof fn law_eligible(state: StateV, issue: IssueV, config: ServiceConfigV)
    ensures
        state.retry_attempts.contains_key(issue.id) ==> !eligible(state, issue, config),
        state.running.contains_key(issue.id) ==> !eligible(state, issue, config),
        state.claimed.contains(issue.id) ==> !eligible(state, issue, config),
        state.available_slots() == 0 ==> !eligible(state, issue, config),
        listed(issue.state, config.tracker_terminal_states) ==> !eligible(state, issue, config),
        !listed(issue.state, config.tracker_active_states) ==> !eligible(state, issue, config),
        !eligible(state.claimed_for(issue.id), issue, config),
{
}

/// Whether a text is, but for its case, among others.
pub open spec fn is_among(s: Seq<char>, list: Seq<Seq<char>>) -> bool {
    exists|i: int| 0 <= i < list.len() && lowercase(s) == lowercase(#[trigger] list[i])
}

/// An issue is taken up exactly where it is whole, its state is active and not terminal,
/// it is neither running nor claimed nor waiting, every issue that blocks it is over
/// where it is still to do, and there is a slot for it, also among those of its state.
/// `alike` are the running issues whose state is, but for its case, the issue's.
pub proof fn law_who_is_taken_up(
    state: StateV,
    issue: IssueV,
    config: ServiceConfigV,
    alike: Set<Seq<char>>,
)
    requires
        forall|id: Seq<char>| #[trigger]
            alike.contains(id) <==> state.running.contains_key(id) && lowercase(
                state.running[id].issue.state,
            ) == lowercase(issue.state),
    ensures
        eligible(state, issue, config) <==> {
            &&& issue.id.len() > 0
            &&& issue.identifier.len() > 0
            &&& issue.title.len() > 0
            &&& issue.state.len() > 0
            &&& is_among(issue.state, config.tracker_active_states)
            &&& !is_among(issue.state, config.tracker_terminal_states)
            &&& !state.running.contains_key(issue.id)
            &&& !state.claimed.contains(issue.id)
            &&& !state.retry_attempts.contains_key(issue.id)
            &&& issue.state == "Todo"@ ==> forall|i: int|
                0 <= i < issue.blocked_by.len() ==> ((#[trigger] issue.blocked_by[i]).state
                    matches Some(s) && is_among(s, config.tracker_terminal_states))
            &&& state.running.dom().len() < state.max_concurrent_agents
            &&& config.agent_max_concurrent_agents_by_state.contains_key(lowercase(issue.state))
                ==> alike.len() < config.agent_max_concurrent_agents_by_state[lowercase(
                issue.state,
            )]
        },
{
    let terminal = config.tracker_terminal_states;
    assert(running_in_state(state.running, lowercase(issue.state)) =~= alike);
    assert(is_among(issue.state, config.tracker_active_states) <==> listed(
        issue.state,
        config.tracker_active_states,
    ));
    assert(is_among(issue.state, terminal) <==> listed(issue.state, terminal));
    assert forall|i: int| 0 <= i < issue.blocked_by.len() implies (still_blocks(
        #[trigger] issue.blocked_by[i],
        terminal,
    ) <==> !(issue.blocked_by[i].state matches Some(s) && is_among(s, terminal))) by {
        if issue.blocked_by[i].state is Some {
            let s = issue.blocked_by[i].state->0;
            assert(is_among(s, terminal) <==> listed(s, terminal));
        }
    }
}

/// An issue that is still to do waits for every one of its blockers: as long as one of
/// them, wherever it stands among them, is in no terminal state or in none that is known,
/// the issue is not taken up.
pub proof fn law_every_blocker_blocks(
    state: StateV,
    issue: IssueV,
    config: ServiceConfigV,
    k: int,
)
    requires
        issue.state == "Todo"@,
        0 <= k < issue.blocked_by.len(),
        eligible(state, issue, config),
    ensures
        issue.blocked_by[k].state is Some,
        exists|j: int|
            0 <= j < config.tracker_terminal_states.len() && lowercase(
                #[trigger] config.tracker_terminal_states[j],
            ) == lowercase(issue.blocked_by[k].state->0),
{
    assert(!still_blocks(issue.blocked_by[k], config.tracker_terminal_states));
}

/// Among the issues in their order a more urgent one never stands behind a less urgent
/// one, and one without a priority is the least urgent; of issues that are equally urgent
/// the older comes first, one of unknown age before all others; of those of one age the
/// one whose identifier comes first.
pub proof fn law_urgent_and_old_issues_come_first(list: Seq<IssueV>, i: int, j: int)
    requires
        0 <= i < j < in_order(list).len(),
    ensures
        ({
            let a = in_order(list)[i];
            let b = in_order(list)[j];
            &&& a.priority matches Some(p) ==> b.priority matches Some(q) ==> p <= q
            &&& a.priority is None ==> b.priority is None || b.priority == Some(i32::MAX)
            &&& a.priority == b.priority ==> {
                &&& a.created_at matches Some(x) ==> b.created_at matches Some(y) && (x.seconds
                    < y.seconds || (x.seconds == y.seconds && x.nanos <= y.nanos))
                &&& a.created_at == b.created_at ==> text_le(a.identifier, b.identifier)
            }
        }),
{
    law_in_order(list, in_order(list)[i]);
    assert(issue_le(in_order(list)[i], in_order(list)[j]));
}

/// The order drops no issue and brings in none.
pub proof fn law_ordering_keeps_the_issues(list: Seq<IssueV>)
    ensures
        in_order(list).len() == list.len(),
        forall|issue: IssueV| #[trigger] in_order(list).contains(issue) <==> list.contains(issue),
{
    broadcast use vstd::seq_lib::group_to_multiset_ensures;

    if list.len() > 0 {
        law_in_order(list, list[0]);
    }
    assert(in_order(list).to_multiset() == list.to_multiset());
    assert(in_order(list).to_multiset().len() == in_order(list).len());
    assert(list.to_multiset().len() == list.len());
    assert forall|issue: IssueV| #[trigger] in_order(list).contains(issue) <==> list.contains(
        issue,
    ) by {
        assert(in_order(list).to_multiset().count(issue) == list.to_multiset().count(issue));
        assert(in_order(list).contains(issue) <==> in_order(list).to_multiset().count(issue) > 0);
        assert(list.contains(issue) <==> list.to_multiset().count(issue) > 0);
    }
}

// ── Laws of the changes of the state ────────────────────────────────────────

/// The first attempt waits ten seconds, the second twenty, the third forty, each as far
/// as the maximum allows; no attempt waits longer than ten seconds doubled once for each
/// attempt before it.
pub proof fn law_first_waits(max_backoff_ms: int)
    requires
        0 <= max_backoff_ms,
    ensures
        10_000 <= max_backoff_ms ==> backoff(1, max_backoff_ms) == 10_000,
        max_backoff_ms <= 10_000 ==> backoff(1, max_backoff_ms) == max_backoff_ms,
        20_000 <= max_backoff_ms ==> backoff(2, max_backoff_ms) == 20_000,
        40_000 <= max_backoff_ms ==> backoff(3, max_backoff_ms) == 40_000,
{
    vstd::arithmetic::power2::lemma2_to64();
}

/// Whether a state differs from another in nothing that concerns this issue.
pub open spec fn same_for(a: StateV, b: StateV, id: Seq<char>) -> bool {
    &&& a.running.contains_key(id) <==> b.running.contains_key(id)
    &&& a.running.contains_key(id) ==> a.running[id] == b.running[id]
    &&& a.claimed.contains(id) <==> b.claimed.contains(id)
    &&& a.retry_attempts.contains_key(id) <==> b.retry_attempts.contains_key(id)
    &&& a.retry_attempts.contains_key(id) ==> a.retry_attempts[id] == b.retry_attempts[id]
    &&& a.completed.contains(id) <==> b.completed.contains(id)
}

/// Whether a state differs from another in none of its limits.
pub open spec fn same_limits(a: StateV, b: StateV) -> bool {
    a.poll_interval_ms == b.poll_interval_ms && a.max_concurrent_agents == b.max_concurrent_agents
        && a.codex_rate_limits == b.codex_rate_limits
}

/// Whether a retry waits for an issue with these contents.
pub open spec fn waits(
    s: StateV,
    id: Seq<char>,
    identifier: Seq<char>,
    attempt: u32,
    due_at_ms: int,
    error: Option<Seq<char>>,
) -> bool {
    &&& s.retry_attempts.contains_key(id)
    &&& s.retry_attempts[id].issue_id == id
    &&& s.retry_attempts[id].identifier == identifier
    &&& s.retry_attempts[id].attempt == attempt
    &&& s.retry_attempts[id].due_at_ms == due_at_ms
    &&& s.retry_attempts[id].error == error
}

/// A claim holds the issue and ends its wait; giving it up ends the claim and nothing
/// else. Neither touches another issue or what was counted.
pub proof fn law_claims(s: StateV, id: Seq<char>, other: Seq<char>)
    ensures
        s.claimed_for(id).claimed.contains(id),
        !s.claimed_for(id).retry_attempts.contains_key(id),
        s.claimed_for(id).running == s.running,
        s.claimed_for(id).completed == s.completed,
        s.claimed_for(id).codex_totals == s.codex_totals,
        same_limits(s.claimed_for(id), s),
        !s.released(id).claimed.contains(id),
        s.released(id).running == s.running,
        s.released(id).retry_attempts == s.retry_attempts,
        s.released(id).completed == s.completed,
        s.released(id).codex_totals == s.codex_totals,
        same_limits(s.released(id), s),
        other != id ==> same_for(s.claimed_for(id), s, other) && same_for(s.released(id), s, other),
{
}

/// An issue that is put off waits for the given attempt as long as that attempt's
/// backoff, with the reason, and is claimed no more.
pub proof fn law_put_off_issues_back_off(
    s: StateV,
    id: Seq<char>,
    identifier: Seq<char>,
    attempt: u32,
    error: Seq<char>,
    max_backoff_ms: u64,
    other: Seq<char>,
)
    ensures
        ({
            let after = s.scheduled(id, identifier, attempt, error, max_backoff_ms);
            &&& waits(
                after,
                id,
                identifier,
                attempt,
                backoff(attempt as nat, max_backoff_ms as int),
                Some(error),
            )
            &&& attempt <= 1 && max_backoff_ms >= 10_000 ==> after.retry_attempts[id].due_at_ms
                == 10_000
            &&& after.retry_attempts[id].due_at_ms <= max_backoff_ms
            &&& !after.claimed.contains(id)
            &&& after.running == s.running
            &&& after.completed == s.completed
            &&& after.codex_totals == s.codex_totals
            &&& same_limits(after, s)
            &&& other != id ==> same_for(after, s, other)
        }),
{
    law_first_waits(max_backoff_ms as int);
    law_backoff(attempt as nat, attempt as nat, max_backoff_ms as int);
}

/// A retry that is put back keeps its attempt, waits for the given time and says why; it
/// keeps its claim.
pub proof fn law_put_back_retries_keep_their_attempt(
    s: StateV,
    retry: RetryV,
    due_at_ms: u64,
    error: Option<Seq<char>>,
    other: Seq<char>,
)
    ensures
        ({
            let after = s.deferred(retry, due_at_ms, error);
            &&& waits(
                after,
                retry.issue_id,
                retry.identifier,
                retry.attempt,
                due_at_ms as int,
                error,
            )
            &&& after.claimed == s.claimed
            &&& after.running == s.running
            &&& after.completed == s.completed
            &&& after.codex_totals == s.codex_totals
            &&& same_limits(after, s)
            &&& other != retry.issue_id ==> same_for(after, s, other)
        }),
{
}

/// A worker that starts is entered under its issue, and news of its session goes there
/// and nowhere else.
pub proof fn law_running_issues_are_entered(
    s: StateV,
    entry: RunningV,
    claim: bool,
    id: Seq<char>,
    session: SessionV,
    other: Seq<char>,
)
    ensures
        ({
            let after = s.begun(entry, claim);
            &&& after.running.contains_key(entry.issue_id)
            &&& after.running[entry.issue_id] == entry
            &&& claim ==> after.claimed.contains(entry.issue_id)
            &&& !claim ==> after.claimed == s.claimed
            &&& after.retry_attempts == s.retry_attempts
            &&& after.completed == s.completed
            &&& after.codex_totals == s.codex_totals
            &&& same_limits(after, s)
            &&& other != entry.issue_id ==> same_for(after, s, other)
        }),
        ({
            let after = s.session_updated(id, session);
            &&& s.running.contains_key(id) ==> after.running.contains_key(id) && after.running[id]
                == (RunningV { session, ..s.running[id] })
            &&& !s.running.contains_key(id) ==> after == s
            &&& after.claimed == s.claimed
            &&& after.retry_attempts == s.retry_attempts
            &&& after.completed == s.completed
            &&& after.codex_totals == s.codex_totals
            &&& same_limits(after, s)
            &&& other != id ==> same_for(after, s, other)
        }),
{
}

/// What finished work used is added to what was counted: tokens in, tokens out, all
/// tokens, and the time.
pub open spec fn counted_up(
    before: CodexTotals,
    after: CodexTotals,
    input: int,
    output: int,
    total: int,
    nanos: int,
) -> bool {
    &&& after.input_tokens == before.input_tokens + input
    &&& after.output_tokens == before.output_tokens + output
    &&& after.total_tokens == before.total_tokens + total
    &&& after.nanos_running == before.nanos_running + nanos
}

/// An issue that is taken out of its worker's hands runs no more and is claimed no more;
/// what its session used until then is counted, and the whole seconds that it ran. Where
/// a retry is wanted it waits for one attempt more with that attempt's backoff. An issue
/// that does not run is left alone.
pub proof fn law_stopped_workers_are_counted(
    s: StateV,
    id: Seq<char>,
    reason: Seq<char>,
    schedule_retry: bool,
    max_backoff_ms: u64,
    now: Timestamp,
    other: Seq<char>,
)
    requires
        s.exit_fits(id, schedule_retry, now),
    ensures
        ({
            let after = s.exited(id, reason, schedule_retry, max_backoff_ms, now);
            &&& !s.running.contains_key(id) ==> after == s
            &&& s.running.contains_key(id) ==> {
                let entry = s.running[id];
                let next = match entry.retry_attempt {
                    Some(a) => a + 1,
                    None => 1,
                };
                &&& !after.running.contains_key(id)
                &&& !after.claimed.contains(id)
                &&& counted_up(
                    s.codex_totals,
                    after.codex_totals,
                    entry.session.codex_input_tokens as int,
                    entry.session.codex_output_tokens as int,
                    entry.session.codex_total_tokens as int,
                    whole_seconds(entry.started_at, now) * 1_000_000_000,
                )
                &&& schedule_retry ==> waits(
                    after,
                    id,
                    entry.identifier,
                    next as u32,
                    backoff(next as nat, max_backoff_ms as int),
                    Some(reason),
                )
                &&& !schedule_retry ==> after.retry_attempts == s.retry_attempts
            }
            &&& after.completed == s.completed
            &&& same_limits(after, s)
            &&& other != id ==> same_for(after, s, other)
        }),
{
    if s.running.contains_key(id) {
        let next = match s.running[id].retry_attempt {
            Some(a) => a + 1,
            None => 1,
        };
        law_backoff(next as nat, next as nat, max_backoff_ms as int);
    }
}

/// Work that went well marks its issue as completed and has it looked at once more in a
/// second; work that failed has it tried again, one attempt higher, after that attempt's
/// backoff. Either way the issue runs no more, is claimed no more, and what the work used
/// is counted.
pub proof fn law_finished_workers_are_counted(
    s: StateV,
    id: Seq<char>,
    identifier: Seq<char>,
    outcome: WorkerOutcomeV,
    attempt: u32,
    max_backoff_ms: u64,
    other: Seq<char>,
)
    requires
        s.outcome_fits(outcome, attempt),
    ensures
        ({
            let after = s.done(id, identifier, outcome, attempt, max_backoff_ms);
            &&& !after.running.contains_key(id)
            &&& !after.claimed.contains(id)
            &&& outcome matches WorkerOutcomeV::Normal { tokens_in, tokens_out, elapsed_nanos } ==> {
                &&& after.completed == s.completed.insert(id)
                &&& waits(after, id, identifier, 1, 1000, None)
                &&& counted_up(
                    s.codex_totals,
                    after.codex_totals,
                    tokens_in as int,
                    tokens_out as int,
                    tokens_in + tokens_out,
                    elapsed_nanos as int,
                )
            }
            &&& outcome matches WorkerOutcomeV::Error {
                error,
                retry_attempt,
                tokens_in,
                tokens_out,
                elapsed_nanos,
            } ==> {
                let next = match retry_attempt {
                    Some(a) => a + 1,
                    None => attempt + 1,
                };
                &&& after.completed == s.completed
                &&& waits(
                    after,
                    id,
                    identifier,
                    next as u32,
                    backoff(next as nat, max_backoff_ms as int),
                    Some(error),
                )
                &&& counted_up(
                    s.codex_totals,
                    after.codex_totals,
                    tokens_in as int,
                    tokens_out as int,
                    tokens_in + tokens_out,
                    elapsed_nanos as int,
                )
            }
            &&& same_limits(after, s)
            &&& other != id ==> same_for(after, s, other)
        }),
{
    let last = match outcome {
        WorkerOutcomeV::Error { retry_attempt: Some(a), .. } => a,
        _ => attempt,
    };
    law_backoff((last + 1) as nat, (last + 1) as nat, max_backoff_ms as int);
}

/// The counters take what a worker used exactly where none of them passes what it can
/// hold and there is a further attempt to count.
pub proof fn law_what_fits(
    s: StateV,
    id: Seq<char>,
    outcome: WorkerOutcomeV,
    attempt: u32,
    retry: bool,
    now: Timestamp,
)
    ensures
        outcome matches WorkerOutcomeV::Normal { tokens_in, tokens_out, elapsed_nanos } ==> (
        s.outcome_fits(outcome, attempt) <==> s.codex_totals.input_tokens + tokens_in <= u64::MAX
            && s.codex_totals.output_tokens + tokens_out <= u64::MAX && s.codex_totals.total_tokens
            + tokens_in + tokens_out <= u64::MAX && s.codex_totals.nanos_running + elapsed_nanos
            <= i128::MAX),
        outcome matches WorkerOutcomeV::Error {
            retry_attempt,
            tokens_in,
            tokens_out,
            elapsed_nanos,
            ..
        } ==> (s.outcome_fits(outcome, attempt) <==> s.codex_totals.input_tokens + tokens_in
            <= u64::MAX && s.codex_totals.output_tokens + tokens_out <= u64::MAX
            && s.codex_totals.total_tokens + tokens_in + tokens_out <= u64::MAX
            && s.codex_totals.nanos_running + elapsed_nanos <= i128::MAX && (match retry_attempt {
            Some(a) => a < u32::MAX,
            None => attempt < u32::MAX,
        })),
        !s.running.contains_key(id) ==> s.exit_fits(id, retry, now),
{
}

/// A second takes a second off every wait; what had no more than a second to wait is due
/// and claimed, and waits no more.
pub proof fn law_a_second_goes_by(s: StateV, id: Seq<char>)
    ensures
        ({
            let after = s.ticked();
            &&& after.retry_attempts.contains_key(id) <==> s.retry_attempts.contains_key(id)
                && s.retry_attempts[id].due_at_ms > 1000
            &&& after.retry_attempts.contains_key(id) ==> after.retry_attempts[id] == (RetryV {
                due_at_ms: (s.retry_attempts[id].due_at_ms - 1000) as u64,
                ..s.retry_attempts[id]
            })
            &&& s.retry_attempts.contains_key(id) && s.retry_attempts[id].due_at_ms <= 1000
                ==> after.claimed.contains(s.retry_attempts[id].issue_id)
            &&& s.claimed.contains(id) ==> after.claimed.contains(id)
            &&& after.claimed.contains(id) && !s.claimed.contains(id) ==> exists|key: Seq<char>|
                #[trigger]
                s.retry_attempts.contains_key(key) && s.retry_attempts[key].due_at_ms <= 1000
                    && s.retry_attempts[key].issue_id == id
            &&& after.running == s.running
            &&& after.completed == s.completed
            &&& after.codex_totals == s.codex_totals
            &&& same_limits(after, s)
        }),
{
    if s.retry_attempts.contains_key(id) && s.retry_attempts[id].due_at_ms <= 1000 {
        assert(s.retry_attempts.contains_key(id) && is_due(s.retry_attempts[id]));
    }
}

/// What is handed out in a second is all that was due, each as often as it waited, as it
/// was.
pub proof fn law_what_is_due_is_handed_out(items: Seq<(Seq<char>, RetryV)>)
    ensures
        due_items(items).len() <= items.len(),
        forall|k: int|
            0 <= k < due_items(items).len() ==> (#[trigger] due_items(items)[k]).due_at_ms <= 1000
                && exists|i: int| 0 <= i < items.len() && (#[trigger] items[i]).1 == due_items(
                items,
            )[k],
        forall|i: int|
            0 <= i < items.len() && (#[trigger] items[i]).1.due_at_ms <= 1000 ==> due_items(
                items,
            ).contains(items[i].1),
    decreases items.len(),
{
    if items.len() > 0 {
        let rest = items.drop_last();
        let last = items.last();
        law_what_is_due_is_handed_out(rest);
        assert forall|k: int| 0 <= k < due_items(items).len() implies (#[trigger] due_items(
            items,
        )[k]).due_at_ms <= 1000 && exists|i: int|
            0 <= i < items.len() && (#[trigger] items[i]).1 == due_items(items)[k] by {
            if k < due_items(rest).len() {
                assert(due_items(items)[k] == due_items(rest)[k]);
                let i = choose|i: int|
                    0 <= i < rest.len() && (#[trigger] rest[i]).1 == due_items(rest)[k];
                assert(items[i] == rest[i]);
            } else {
                assert(items[items.len() - 1].1 == due_items(items)[k]);
            }
        }
        assert forall|i: int|
            0 <= i < items.len() && (#[trigger] items[i]).1.due_at_ms <= 1000 implies due_items(
            items,
        ).contains(items[i].1) by {
            if i < rest.len() {
                assert(rest[i] == items[i]);
                let k = choose|k: int|
                    0 <= k < due_items(rest).len() && due_items(rest)[k] == items[i].1;
                assert(due_items(items)[k] == items[i].1);
            } else {
                assert(due_items(items)[due_items(items).len() - 1] == last.1);
            }
        }
    }
}

/// At first nothing runs, waits, is claimed or done, and nothing is counted; the limits
/// are the configured ones.
pub proof fn law_the_first_state(c: ServiceConfigV, id: Seq<char>)
    ensures
        ({
            let s = initial_state(c);
            &&& !s.running.contains_key(id)
            &&& !s.claimed.contains(id)
            &&& !s.retry_attempts.contains_key(id)
            &&& !s.completed.contains(id)
            &&& s.running.dom().len() == 0
            &&& s.poll_interval_ms == c.poll_interval_ms
            &&& s.max_concurrent_agents == c.agent_max_concurrent_agents
            &&& s.codex_totals.input_tokens == 0
            &&& s.codex_totals.output_tokens == 0
            &&& s.codex_totals.total_tokens == 0
            &&& s.codex_totals.nanos_running == 0
            &&& s.codex_rate_limits is None
        }),
{
}

} // verus!
