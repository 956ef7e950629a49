//! The work on an issue that was taken up: runs of the agent until the issue is
//! done, then the hook after the run, the move to the completion state, and the
//! report to the orchestrator.
use crate::agent_runner::{continuation, continuation_prompt, AgentOutcome, AgentOutcomeV};
use crate::config::{ServiceConfig, ServiceConfigV};
use crate::orchestrator::{is_among, WorkerOutcome, WorkerOutcomeV};
use crate::protocol::{AgentConfigV, AgentRunnerConfig};
use crate::text::{clone_opt, clone_texts, listed, opt_text, texts};
use crate::types::{issues, Issue, IssueV, SessionV};
use vstd::prelude::*;
use vstd::string::*;

verus! {

// ── Events and actions ──────────────────────────────────────────────────────

/// What happened to a worker.
#[derive(Debug)]
pub enum WorkerEvent {
    /// The work is to begin.
    Start,
    /// The made-up session is over.
    MockDone,
    /// A run of the agent is over.
    AgentDone(AgentOutcome),
    /// The tracker was asked for the issue; `None` where it could not be asked.
    Refreshed(Option<Vec<Issue>>),
    /// The hook after the run is over.
    HookDone,
    /// The move to the completion state was tried.
    MoveTried,
}

/// What happened to a worker, by its contents.
#[verifier::ext_equal]
pub enum WorkerEventV {
    Start,
    MockDone,
    AgentDone(AgentOutcomeV),
    Refreshed(Option<Seq<IssueV>>),
    HookDone,
    MoveTried,
}

impl View for WorkerEvent {
    type V = WorkerEventV;

    open spec fn view(&self) -> WorkerEventV {
        match self {
            WorkerEvent::Start => WorkerEventV::Start,
            WorkerEvent::MockDone => WorkerEventV::MockDone,
            WorkerEvent::AgentDone(outcome) => WorkerEventV::AgentDone(outcome@),
            WorkerEvent::Refreshed(list) => WorkerEventV::Refreshed(
                match list {
                    Some(v) => Some(issues(v@)),
                    None => None,
                },
            ),
            WorkerEvent::HookDone => WorkerEventV::HookDone,
            WorkerEvent::MoveTried => WorkerEventV::MoveTried,
        }
    }
}

/// The circumstances of an event.
#[derive(Debug, Clone, Copy)]
pub struct WorkerMoment {
    /// Nanoseconds since the work began.
    pub elapsed_nanos: u64,
    /// Whether the work was called off.
    pub cancelled: bool,
}

/// What to do next.
#[derive(Debug)]
pub enum WorkerAction {
    /// Leave a made-up session in the workspace.
    RunMock,
    /// Run the agent with this prompt.
    RunAgent { prompt: String, attempt: Option<u32> },
    /// Ask the tracker for the issue.
    Refresh,
    /// Run the hook after the run.
    RunAfterHook,
    /// Move the issue to this state.
    Complete { state_name: String },
    /// Report this outcome.
    Report(WorkerOutcome),
    /// Report nothing: the work was called off.
    Abandon,
    /// The counters cannot take what the agent reports.
    Overflow,
    /// The event does not belong here.
    Ignore,
}

/// What to do next, by its contents.
#[verifier::ext_equal]
pub enum WorkerActionV {
    RunMock,
    RunAgent { prompt: Seq<char>, attempt: Option<u32> },
    Refresh,
    RunAfterHook,
    Complete { state_name: Seq<char> },
    Report(WorkerOutcomeV),
    Abandon,
    Overflow,
    Ignore,
}

impl View for WorkerAction {
    type V = WorkerActionV;

    open spec fn view(&self) -> WorkerActionV {
        match self {
            WorkerAction::RunMock => WorkerActionV::RunMock,
            WorkerAction::RunAgent { prompt, attempt } => WorkerActionV::RunAgent {
                prompt: prompt@,
                attempt: *attempt,
            },
            WorkerAction::Refresh => WorkerActionV::Refresh,
            WorkerAction::RunAfterHook => WorkerActionV::RunAfterHook,
            WorkerAction::Complete { state_name } => WorkerActionV::Complete {
                state_name: state_name@,
            },
            WorkerAction::Report(outcome) => WorkerActionV::Report(outcome@),
            WorkerAction::Abandon => WorkerActionV::Abandon,
            WorkerAction::Overflow => WorkerActionV::Overflow,
            WorkerAction::Ignore => WorkerActionV::Ignore,
        }
    }
}

// ── Worker ──────────────────────────────────────────────────────────────────

/// How far the work has come.
#[derive(Debug, Clone, Copy, PartialEq, Eq, Structural)]
pub enum WorkerPhase {
    Ready,
    MockRunning,
    AgentRunning,
    Refreshing,
    AfterRun,
    Completing,
    Over,
}

/// The work on an issue.
#[derive(Debug)]
pub struct Worker {
    pub prompt: String,
    pub attempt: Option<u32>,
    pub mock: bool,
    pub max_turns: u32,
    pub active_states: Vec<String>,
    pub completion_state: Option<String>,
    pub tokens_in: u64,
    pub tokens_out: u64,
    pub turn_number: u32,
    pub outcome: Option<WorkerOutcome>,
    pub phase: WorkerPhase,
}

/// The work on an issue by its contents.
#[verifier::ext_equal]
pub struct WorkerV {
    pub prompt: Seq<char>,
    pub attempt: Option<u32>,
    pub mock: bool,
    pub max_turns: u32,
    pub active_states: Seq<Seq<char>>,
    pub completion_state: Option<Seq<char>>,
    pub tokens_in: u64,
    pub tokens_out: u64,
    pub turn_number: u32,
    pub outcome: Option<WorkerOutcomeV>,
    pub phase: WorkerPhase,
}

impl View for Worker {
    type V = WorkerV;

    open spec fn view(&self) -> WorkerV {
        WorkerV {
            prompt: self.prompt@,
            attempt: self.attempt,
            mock: self.mock,
            max_turns: self.max_turns,
            active_states: texts(self.active_states@),
            completion_state: opt_text(self.completion_state),
            tokens_in: self.tokens_in,
            tokens_out: self.tokens_out,
            turn_number: self.turn_number,
            outcome: match self.outcome {
                Some(o) => Some(o@),
                None => None,
            },
            phase: self.phase,
        }
    }
}

/// The work that is to begin.
pub open spec fn new_worker(config: ServiceConfigV, prompt: Seq<char>, attempt: Option<u32>) -> WorkerV {
    WorkerV {
        prompt,
        attempt,
        mock: config.mock_agent,
        max_turns: config.agent_max_turns,
        active_states: config.tracker_active_states,
        completion_state: config.tracker_completion_state,
        tokens_in: 0,
        tokens_out: 0,
        turn_number: 1,
        outcome: None,
        phase: WorkerPhase::Ready,
    }
}

/// The outcome of work that failed.
pub open spec fn error_outcome(w: WorkerV, error: Seq<char>, at: WorkerMoment) -> WorkerOutcomeV {
    WorkerOutcomeV::Error {
        error,
        retry_attempt: w.attempt,
        tokens_in: w.tokens_in,
        tokens_out: w.tokens_out,
        elapsed_nanos: at.elapsed_nanos,
    }
}

/// The outcome of work that went well.
pub open spec fn normal_outcome(w: WorkerV, at: WorkerMoment) -> WorkerOutcomeV {
    WorkerOutcomeV::Normal {
        tokens_in: w.tokens_in,
        tokens_out: w.tokens_out,
        elapsed_nanos: at.elapsed_nanos,
    }
}

/// The end of the agent's part: what was called off is abandoned, all else goes on
/// to the hook after the run.
pub open spec fn concluded(w: WorkerV, outcome: WorkerOutcomeV, at: WorkerMoment) -> (
    WorkerV,
    WorkerActionV,
) {
    if at.cancelled {
        (WorkerV { phase: WorkerPhase::Over, ..w }, WorkerActionV::Abandon)
    } else {
        (
            WorkerV { outcome: Some(outcome), phase: WorkerPhase::AfterRun, ..w },
            WorkerActionV::RunAfterHook,
        )
    }
}

/// The next run of the agent, unless the work was called off.
pub open spec fn agent_started(w: WorkerV, at: WorkerMoment) -> (WorkerV, WorkerActionV) {
    if at.cancelled {
        concluded(w, error_outcome(w, "cancelled by reconciliation"@, at), at)
    } else {
        (
            WorkerV { phase: WorkerPhase::AgentRunning, ..w },
            WorkerActionV::RunAgent {
                prompt: if w.turn_number == 1 {
                    w.prompt
                } else {
                    continuation(w.turn_number as nat, w.max_turns as nat)
                },
                attempt: if w.turn_number == 1 {
                    w.attempt
                } else {
                    None
                },
            },
        )
    }
}

/// Whether the counters can take a session.
pub open spec fn session_fits(w: WorkerV, session: SessionV) -> bool {
    w.tokens_in + session.codex_input_tokens <= u64::MAX && w.tokens_out
        + session.codex_output_tokens <= u64::MAX
}

/// The work with a session counted.
pub open spec fn counted(w: WorkerV, session: SessionV) -> WorkerV {
    WorkerV {
        tokens_in: (w.tokens_in + session.codex_input_tokens) as u64,
        tokens_out: (w.tokens_out + session.codex_output_tokens) as u64,
        ..w
    }
}

/// What follows a run of the agent.
pub open spec fn agent_done(w: WorkerV, outcome: AgentOutcomeV, at: WorkerMoment) -> (
    WorkerV,
    WorkerActionV,
) {
    let session = match outcome {
        AgentOutcomeV::Normal { entry, .. } => entry.session,
        AgentOutcomeV::Error { entry, .. } => entry.session,
        AgentOutcomeV::Cancelled { entry, .. } => entry.session,
    };
    let after = counted(w, session);
    if !session_fits(w, session) {
        (w, WorkerActionV::Overflow)
    } else {
        match outcome {
            AgentOutcomeV::Normal { total_turns, .. } => if total_turns == u32::MAX {
                (w, WorkerActionV::Overflow)
            } else {
                (
                    WorkerV {
                        turn_number: (total_turns + 1) as u32,
                        phase: WorkerPhase::Refreshing,
                        ..after
                    },
                    WorkerActionV::Refresh,
                )
            },
            AgentOutcomeV::Error { error, .. } => concluded(
                after,
                error_outcome(after, error, at),
                at,
            ),
            AgentOutcomeV::Cancelled { reason, .. } => concluded(
                after,
                error_outcome(after, reason, at),
                at,
            ),
        }
    }
}

/// Whether the issue is still active as far as is known: where the tracker does not
/// say, it is.
pub open spec fn still_active(refreshed: Option<Seq<IssueV>>, active_states: Seq<Seq<char>>) -> bool {
    match refreshed {
        Some(list) => list.len() > 0 ==> listed(list[0].state, active_states),
        None => true,
    }
}

/// Whether the agent has done its part after a run that went well: a completion
/// state awaits the issue, the issue is no longer active, or the turns are used up.
pub open spec fn has_enough(w: WorkerV, refreshed: Option<Seq<IssueV>>) -> bool {
    w.completion_state is Some || !still_active(refreshed, w.active_states) || w.turn_number
        > w.max_turns
}

/// What follows an event.
pub open spec fn worker_step(w: WorkerV, event: WorkerEventV, at: WorkerMoment) -> (
    WorkerV,
    WorkerActionV,
) {
    let over = WorkerV { phase: WorkerPhase::Over, ..w };
    match event {
        WorkerEventV::Start => if w.phase != WorkerPhase::Ready {
            (w, WorkerActionV::Ignore)
        } else if w.mock {
            (WorkerV { phase: WorkerPhase::MockRunning, ..w }, WorkerActionV::RunMock)
        } else {
            agent_started(w, at)
        },
        WorkerEventV::MockDone => if w.phase != WorkerPhase::MockRunning {
            (w, WorkerActionV::Ignore)
        } else {
            let used = WorkerV { tokens_in: 500, tokens_out: 1200, ..w };
            concluded(used, normal_outcome(used, at), at)
        },
        WorkerEventV::AgentDone(outcome) => if w.phase != WorkerPhase::AgentRunning {
            (w, WorkerActionV::Ignore)
        } else {
            agent_done(w, outcome, at)
        },
        WorkerEventV::Refreshed(list) => if w.phase != WorkerPhase::Refreshing {
            (w, WorkerActionV::Ignore)
        } else if has_enough(w, list) {
            concluded(w, normal_outcome(w, at), at)
        } else {
            agent_started(w, at)
        },
        WorkerEventV::HookDone => if w.phase != WorkerPhase::AfterRun || w.outcome is None {
            (w, WorkerActionV::Ignore)
        } else if at.cancelled {
            (over, WorkerActionV::Abandon)
        } else if w.outcome->0 is Normal && w.completion_state is Some {
            (
                WorkerV { phase: WorkerPhase::Completing, ..w },
                WorkerActionV::Complete { state_name: w.completion_state->0 },
            )
        } else {
            (WorkerV { outcome: None, ..over }, WorkerActionV::Report(w.outcome->0))
        },
        WorkerEventV::MoveTried => if w.phase != WorkerPhase::Completing || w.outcome is None {
            (w, WorkerActionV::Ignore)
        } else {
            (WorkerV { outcome: None, ..over }, WorkerActionV::Report(w.outcome->0))
        },
    }
}

impl Worker {
    /// The work that is to begin.
    pub fn new(config: &ServiceConfig, prompt: String, attempt: Option<u32>) -> (r: Worker)
        ensures
            r@ == new_worker(config@, prompt@, attempt),
    {
        Worker {
            prompt,
            attempt,
            mock: config.mock_agent,
            max_turns: config.agent_max_turns,
            active_states: clone_texts(&config.tracker_active_states),
            completion_state: clone_opt(&config.tracker_completion_state),
            tokens_in: 0,
            tokens_out: 0,
            turn_number: 1,
            outcome: None,
            phase: WorkerPhase::Ready,
        }
    }

    fn conclude(&mut self, outcome: WorkerOutcome, at: WorkerMoment) -> (r: WorkerAction)
        ensures
            (final(self)@, r@) == concluded(old(self)@, outcome@, at),
    {
        if at.cancelled {
            self.phase = WorkerPhase::Over;
            WorkerAction::Abandon
        } else {
            self.outcome = Some(outcome);
            self.phase = WorkerPhase::AfterRun;
            WorkerAction::RunAfterHook
        }
    }

    fn error(&self, error: String, at: WorkerMoment) -> (r: WorkerOutcome)
        ensures
            r@ == error_outcome(self@, error@, at),
    {
        WorkerOutcome::Error {
            error,
            retry_attempt: self.attempt,
            tokens_in: self.tokens_in,
            tokens_out: self.tokens_out,
            elapsed_nanos: at.elapsed_nanos,
        }
    }

    fn normal(&self, at: WorkerMoment) -> (r: WorkerOutcome)
        ensures
            r@ == normal_outcome(self@, at),
    {
        WorkerOutcome::Normal {
            tokens_in: self.tokens_in,
            tokens_out: self.tokens_out,
            elapsed_nanos: at.elapsed_nanos,
        }
    }

    fn start_agent(&mut self, at: WorkerMoment) -> (r: WorkerAction)
        ensures
            (final(self)@, r@) == agent_started(old(self)@, at),
    {
        if at.cancelled {
            let outcome: WorkerOutcome = self.error("cancelled by reconciliation".to_owned(), at);
            self.conclude(outcome, at)
        } else {
            self.phase = WorkerPhase::AgentRunning;
            if self.turn_number == 1 {
                WorkerAction::RunAgent { prompt: self.prompt.clone(), attempt: self.attempt }
            } else {
                WorkerAction::RunAgent {
                    prompt: continuation_prompt(self.turn_number, self.max_turns),
                    attempt: None,
                }
            }
        }
    }

    fn on_agent_done(&mut self, outcome: AgentOutcome, at: WorkerMoment) -> (r: WorkerAction)
        ensures
            (final(self)@, r@) == agent_done(old(self)@, outcome@, at),
    {
        let (used_in, used_out): (u64, u64) = match &outcome {
            AgentOutcome::Normal { entry, total_turns: _ } => (
                entry.session.codex_input_tokens,
                entry.session.codex_output_tokens,
            ),
            AgentOutcome::Error { error: _, entry } => (
                entry.session.codex_input_tokens,
                entry.session.codex_output_tokens,
            ),
            AgentOutcome::Cancelled { reason: _, entry } => (
                entry.session.codex_input_tokens,
                entry.session.codex_output_tokens,
            ),
        };
        if used_in > u64::MAX - self.tokens_in || used_out > u64::MAX - self.tokens_out {
            return WorkerAction::Overflow;
        }
        match outcome {
            AgentOutcome::Normal { entry: _, total_turns } => {
                if total_turns == u32::MAX {
                    return WorkerAction::Overflow;
                }
                self.tokens_in = self.tokens_in + used_in;
                self.tokens_out = self.tokens_out + used_out;
                self.turn_number = total_turns + 1;
                self.phase = WorkerPhase::Refreshing;
                WorkerAction::Refresh
            },
            AgentOutcome::Error { error, entry: _ } => {
                self.tokens_in = self.tokens_in + used_in;
                self.tokens_out = self.tokens_out + used_out;
                let o: WorkerOutcome = self.error(error, at);
                self.conclude(o, at)
            },
            AgentOutcome::Cancelled { reason, entry: _ } => {
                self.tokens_in = self.tokens_in + used_in;
                self.tokens_out = self.tokens_out + used_out;
                let o: WorkerOutcome = self.error(reason, at);
                self.conclude(o, at)
            },
        }
    }

    fn is_still_active(&self, refreshed: &Option<Vec<Issue>>) -> (r: bool)
        ensures
            r == still_active(
                match *refreshed {
                    Some(v) => Some(issues(v@)),
                    None => None,
                },
                self@.active_states,
            ),
    {
        match refreshed {
            Some(list) => if list.len() > 0 {
                assert(issues(list@)[0] == list@[0]@);
                list[0].is_active(&self.active_states)
            } else {
                true
            },
            None => true,
        }
    }

    fn report(&mut self) -> (r: WorkerAction)
        requires
            old(self)@.outcome is Some,
        ensures
            final(self)@ == (WorkerV { outcome: None, phase: WorkerPhase::Over, ..old(self)@ }),
            r@ == WorkerActionV::Report(old(self)@.outcome->0),
    {
        self.phase = WorkerPhase::Over;
        match self.outcome.take() {
            Some(outcome) => WorkerAction::Report(outcome),
            None => WorkerAction::Ignore,
        }
    }

    fn succeeded(&self) -> (r: bool)
        ensures
            r == (self@.outcome is Some && self@.outcome->0 is Normal),
    {
        match &self.outcome {
            Some(outcome) => match outcome {
                WorkerOutcome::Normal { tokens_in: _, tokens_out: _, elapsed_nanos: _ } => true,
                _ => false,
            },
            None => false,
        }
    }

    fn on_hook_done(&mut self, at: WorkerMoment) -> (r: WorkerAction)
        ensures
            (final(self)@, r@) == worker_step(old(self)@, WorkerEventV::HookDone, at),
    {
        if self.phase != WorkerPhase::AfterRun || self.outcome.is_none() {
            return WorkerAction::Ignore;
        }
        if at.cancelled {
            self.phase = WorkerPhase::Over;
            return WorkerAction::Abandon;
        }
        if self.succeeded() {
            let target: Option<String> = clone_opt(&self.completion_state);
            if let Some(state_name) = target {
                self.phase = WorkerPhase::Completing;
                return WorkerAction::Complete { state_name };
            }
        }
        self.report()
    }

    /// Takes an event and says what to do next.
    pub fn step(&mut self, event: WorkerEvent, at: WorkerMoment) -> (r: WorkerAction)
        ensures
            (final(self)@, r@) == worker_step(old(self)@, event@, at),
    {
        match event {
            WorkerEvent::Start => {
                if self.phase != WorkerPhase::Ready {
                    return WorkerAction::Ignore;
                }
                if self.mock {
                    self.phase = WorkerPhase::MockRunning;
                    WorkerAction::RunMock
                } else {
                    self.start_agent(at)
                }
            },
            WorkerEvent::MockDone => {
                if self.phase != WorkerPhase::MockRunning {
                    return WorkerAction::Ignore;
                }
                self.tokens_in = 500;
                self.tokens_out = 1200;
                let outcome: WorkerOutcome = self.normal(at);
                self.conclude(outcome, at)
            },
            WorkerEvent::AgentDone(outcome) => {
                if self.phase != WorkerPhase::AgentRunning {
                    return WorkerAction::Ignore;
                }
                self.on_agent_done(outcome, at)
            },
            WorkerEvent::Refreshed(list) => {
                if self.phase != WorkerPhase::Refreshing {
                    return WorkerAction::Ignore;
                }
                if self.completion_state.is_some() || !self.is_still_active(&list)
                    || self.turn_number > self.max_turns {
                    let outcome: WorkerOutcome = self.normal(at);
                    self.conclude(outcome, at)
                } else {
                    self.start_agent(at)
                }
            },
            WorkerEvent::HookDone => self.on_hook_done(at),
            WorkerEvent::MoveTried => {
                if self.phase != WorkerPhase::Completing || self.outcome.is_none() {
                    return WorkerAction::Ignore;
                }
                self.report()
            },
        }
    }
}

// ── Configuration of the agent's runs ───────────────────────────────────────

/// A policy, or nothing where none is set.
pub open spec fn policy_text(o: Option<Seq<char>>) -> Seq<char> {
    match o {
        Some(s) => s,
        None => Seq::empty(),
    }
}

/// How the agent is run for a worker: as configured, and only for one turn where a
/// completion state follows the work.
pub open spec fn agent_config(
    config: ServiceConfigV,
    workspace_path: Seq<char>,
    version: Seq<char>,
) -> AgentConfigV {
    AgentConfigV {
        command: config.codex_command,
        workspace_path,
        approval_policy: policy_text(config.codex_approval_policy),
        thread_sandbox: policy_text(config.codex_thread_sandbox),
        turn_sandbox_policy: policy_text(config.codex_turn_sandbox_policy),
        turn_timeout_ms: config.codex_turn_timeout_ms,
        read_timeout_ms: config.codex_read_timeout_ms,
        stall_timeout_ms: config.codex_stall_timeout_ms,
        max_turns: config.agent_max_turns,
        max_run_ms: None,
        max_tokens_per_run: None,
        stop_after_first_turn: config.tracker_completion_state is Some,
        client_version: version,
    }
}

fn policy_or_empty(o: &Option<String>) -> (r: String)
    ensures
        r@ == policy_text(opt_text(*o)),
{
    match o {
        Some(s) => s.clone(),
        None => {
            let none: String = String::new();
            assert(none@ =~= Seq::<char>::empty());
            none
        },
    }
}

/// How the agent is run for a worker.
pub fn agent_runner_config(config: &ServiceConfig, workspace_path: &str, version: &str) -> (r:
    AgentRunnerConfig)
    ensures
        r@ == agent_config(config@, workspace_path@, version@),
{
    AgentRunnerConfig {
        command: config.codex_command.clone(),
        workspace_path: workspace_path.to_owned(),
        approval_policy: policy_or_empty(&config.codex_approval_policy),
        thread_sandbox: policy_or_empty(&config.codex_thread_sandbox),
        turn_sandbox_policy: policy_or_empty(&config.codex_turn_sandbox_policy),
        turn_timeout_ms: config.codex_turn_timeout_ms,
        read_timeout_ms: config.codex_read_timeout_ms,
        stall_timeout_ms: config.codex_stall_timeout_ms,
        max_turns: config.agent_max_turns,
        max_run_ms: None,
        max_tokens_per_run: None,
        stop_after_first_turn: config.tracker_completion_state.is_some(),
        client_version: version.to_owned(),
    }
}

/// The issue for which a worker's agent runs, of which only the names count.
pub fn worker_issue(issue_id: &str, identifier: &str) -> (r: Issue)
    ensures
        r@ == (IssueV {
            id: issue_id@,
            identifier: identifier@,
            title: Seq::empty(),
            description: None,
            priority: None,
            state: Seq::empty(),
            branch_name: None,
            url: None,
            labels: Seq::empty(),
            blocked_by: Seq::empty(),
            created_at: None,
            updated_at: None,
        }),
{
    let r = Issue {
        id: issue_id.to_owned(),
        identifier: identifier.to_owned(),
        title: String::new(),
        description: None,
        priority: None,
        state: String::new(),
        branch_name: None,
        url: None,
        labels: Vec::new(),
        blocked_by: Vec::new(),
        created_at: None,
        updated_at: None,
    };
    proof {
        assert(r@.title =~= Seq::<char>::empty());
        assert(r@.labels =~= Seq::<Seq<char>>::empty());
        assert(r@.blocked_by =~= Seq::<crate::types::BlockerV>::empty());
    }
    r
}

// ── Laws ────────────────────────────────────────────────────────────────────

/// Work that was called off reports nothing and moves no issue, whenever the call
/// comes before the hook after the run is over.
pub proof fn law_cancelled_work_is_not_reported(w: WorkerV, event: WorkerEventV, at: WorkerMoment)
    requires
        at.cancelled,
        w.phase != WorkerPhase::Completing,
    ensures
        !(worker_step(w, event, at).1 is Report),
        !(worker_step(w, event, at).1 is Complete),
        !(worker_step(w, event, at).1 is RunAfterHook),
        !(worker_step(w, event, at).1 is RunAgent),
{
}

/// Only work that went well moves its issue to the completion state, and what is
/// reported is the outcome of the agent's part: the move cannot change it.
pub proof fn law_only_success_completes(w: WorkerV, event: WorkerEventV, at: WorkerMoment)
    ensures
        worker_step(w, event, at).1 matches WorkerActionV::Complete { state_name } ==> w.outcome
            is Some && w.outcome->0 is Normal && w.completion_state == Some(state_name),
        worker_step(w, event, at).1 matches WorkerActionV::Report(outcome) ==> w.outcome == Some(
            outcome,
        ),
        worker_step(w, event, at).1 is Complete ==> worker_step(
            worker_step(w, event, at).0,
            WorkerEventV::MoveTried,
            at,
        ).1 == WorkerActionV::Report(w.outcome->0),
{
}

/// The agent is started anew only where no completion state awaits the issue, while
/// the issue is active as far as is known and the maximum of turns is not passed; the
/// tokens of every run are counted once.
pub proof fn law_work_goes_on_while_active(w: WorkerV, refreshed: Option<Seq<IssueV>>, at: WorkerMoment)
    requires
        w.phase == WorkerPhase::Refreshing,
    ensures
        worker_step(w, WorkerEventV::Refreshed(refreshed), at).1 is RunAgent <==> !at.cancelled
            && still_active(refreshed, w.active_states) && w.turn_number <= w.max_turns
            && w.completion_state is None,
        worker_step(w, WorkerEventV::Refreshed(refreshed), at).0.tokens_in == w.tokens_in,
        worker_step(w, WorkerEventV::Refreshed(refreshed), at).0.tokens_out == w.tokens_out,
{
}

/// After a run that went well the issue is moved to its completion state, whatever
/// the tracker says of it, and the success is then reported with all that was used.
pub proof fn law_success_is_followed_by_the_move(
    w: WorkerV,
    outcome: AgentOutcomeV,
    refreshed: Option<Seq<IssueV>>,
    at: WorkerMoment,
    later: WorkerMoment,
)
    requires
        w.phase == WorkerPhase::AgentRunning,
        w.completion_state is Some,
        outcome matches AgentOutcomeV::Normal { entry, total_turns } && session_fits(
            w,
            entry.session,
        ) && total_turns < u32::MAX,
        !at.cancelled,
        !later.cancelled,
    ensures
        ({
            let (ran, asked) = worker_step(w, WorkerEventV::AgentDone(outcome), at);
            let (known, hook) = worker_step(ran, WorkerEventV::Refreshed(refreshed), at);
            let (hooked, moved) = worker_step(known, WorkerEventV::HookDone, later);
            let (over, told) = worker_step(hooked, WorkerEventV::MoveTried, later);
            &&& asked is Refresh
            &&& hook is RunAfterHook
            &&& moved == WorkerActionV::Complete { state_name: w.completion_state->0 }
            &&& told == WorkerActionV::Report(
                normal_outcome(counted(w, outcome->Normal_entry.session), at),
            )
        }),
{
}

/// The work begins as configured, with its prompt and attempt, nothing used and nothing
/// told.
pub proof fn law_new_work(config: ServiceConfigV, prompt: Seq<char>, attempt: Option<u32>)
    ensures
        ({
            let w = new_worker(config, prompt, attempt);
            &&& w.prompt == prompt
            &&& w.attempt == attempt
            &&& w.mock == config.mock_agent
            &&& w.max_turns == config.agent_max_turns
            &&& w.active_states == config.tracker_active_states
            &&& w.completion_state == config.tracker_completion_state
            &&& w.tokens_in == 0
            &&& w.tokens_out == 0
            &&& w.turn_number == 1
            &&& w.outcome is None
            &&& w.phase == WorkerPhase::Ready
        }),
{
}

/// Work starts with the made-up session where that is asked for, and else with the agent:
/// the first run has the prompt and the attempt, each later run the prompt for going on
/// and no attempt. Work that was called off is abandoned.
pub proof fn law_work_starts_the_agent(w: WorkerV, at: WorkerMoment, refreshed: Seq<IssueV>)
    ensures
        w.phase == WorkerPhase::Ready && w.mock ==> worker_step(w, WorkerEventV::Start, at) == (
            WorkerV { phase: WorkerPhase::MockRunning, ..w },
            WorkerActionV::RunMock,
        ),
        w.phase == WorkerPhase::Ready && !w.mock && !at.cancelled && w.turn_number == 1
            ==> worker_step(w, WorkerEventV::Start, at) == (
            WorkerV { phase: WorkerPhase::AgentRunning, ..w },
            WorkerActionV::RunAgent { prompt: w.prompt, attempt: w.attempt },
        ),
        w.phase == WorkerPhase::Ready && !w.mock && at.cancelled ==> worker_step(
            w,
            WorkerEventV::Start,
            at,
        ).1 is Abandon,
        w.phase == WorkerPhase::Refreshing && !at.cancelled && w.completion_state is None
            && w.turn_number <= w.max_turns && w.turn_number != 1 && (refreshed.len() == 0
            || is_among(refreshed[0].state, w.active_states)) ==> {
            let go_on = (
                WorkerV { phase: WorkerPhase::AgentRunning, ..w },
                WorkerActionV::RunAgent {
                    prompt: continuation(w.turn_number as nat, w.max_turns as nat),
                    attempt: None,
                },
            );
            &&& worker_step(w, WorkerEventV::Refreshed(Some(refreshed)), at) == go_on
            &&& worker_step(w, WorkerEventV::Refreshed(None), at) == go_on
        },
{
    if refreshed.len() > 0 {
        assert(is_among(refreshed[0].state, w.active_states) <==> listed(
            refreshed[0].state,
            w.active_states,
        ));
    }
}

/// The agent has done its part where a completion state awaits the issue, where the
/// tracker says that the issue is no longer active, or where the turns are used up: the
/// work then went well, with all that was used, and the hook after the run follows.
pub proof fn law_enough_is_enough(w: WorkerV, at: WorkerMoment, refreshed: Option<Seq<IssueV>>)
    requires
        w.phase == WorkerPhase::Refreshing,
        !at.cancelled,
        w.completion_state is Some || w.turn_number > w.max_turns || (refreshed is Some
            && refreshed->0.len() > 0 && !is_among(refreshed->0[0].state, w.active_states)),
    ensures
        ({
            let (after, action) = worker_step(w, WorkerEventV::Refreshed(refreshed), at);
            &&& action is RunAfterHook
            &&& after.phase == WorkerPhase::AfterRun
            &&& after.outcome == Some(
                WorkerOutcomeV::Normal {
                    tokens_in: w.tokens_in,
                    tokens_out: w.tokens_out,
                    elapsed_nanos: at.elapsed_nanos,
                },
            )
            &&& after.completion_state == w.completion_state
            &&& after.attempt == w.attempt
        }),
{
    if refreshed is Some && refreshed->0.len() > 0 {
        assert(is_among(refreshed->0[0].state, w.active_states) <==> listed(
            refreshed->0[0].state,
            w.active_states,
        ));
    }
}

/// The made-up session uses a fixed number of tokens and goes well.
pub proof fn law_made_up_sessions(w: WorkerV, at: WorkerMoment)
    requires
        w.phase == WorkerPhase::MockRunning,
    ensures
        ({
            let (after, action) = worker_step(w, WorkerEventV::MockDone, at);
            &&& at.cancelled ==> action is Abandon
            &&& !at.cancelled ==> {
                &&& action is RunAfterHook
                &&& after.phase == WorkerPhase::AfterRun
                &&& after.outcome == Some(
                    WorkerOutcomeV::Normal {
                        tokens_in: 500,
                        tokens_out: 1200,
                        elapsed_nanos: at.elapsed_nanos,
                    },
                )
            }
        }),
{
}

/// The tokens of a run are added to those of the runs before it. After a run that went
/// well the tracker is asked, and the next turn counts on from the turns of the run.
pub proof fn law_runs_that_went_well(
    w: WorkerV,
    at: WorkerMoment,
    entry: crate::types::RunningV,
    total_turns: u32,
)
    requires
        w.phase == WorkerPhase::AgentRunning,
        w.tokens_in + entry.session.codex_input_tokens <= u64::MAX,
        w.tokens_out + entry.session.codex_output_tokens <= u64::MAX,
        total_turns < u32::MAX,
    ensures
        ({
            let (after, action) = worker_step(
                w,
                WorkerEventV::AgentDone(AgentOutcomeV::Normal { entry, total_turns }),
                at,
            );
            &&& action is Refresh
            &&& after.phase == WorkerPhase::Refreshing
            &&& after.turn_number == total_turns + 1
            &&& after.tokens_in == w.tokens_in + entry.session.codex_input_tokens
            &&& after.tokens_out == w.tokens_out + entry.session.codex_output_tokens
            &&& after.prompt == w.prompt
            &&& after.attempt == w.attempt
            &&& after.max_turns == w.max_turns
            &&& after.active_states == w.active_states
            &&& after.completion_state == w.completion_state
        }),
{
}

/// After a run that failed or was called off by the agent's side the outcome is that error
/// with the attempt and all that was used, and the hook after the run follows, unless the
/// work itself was called off.
pub proof fn law_runs_that_failed(
    w: WorkerV,
    at: WorkerMoment,
    outcome: AgentOutcomeV,
    why: Seq<char>,
    session: SessionV,
)
    requires
        w.phase == WorkerPhase::AgentRunning,
        ({
            ||| outcome matches AgentOutcomeV::Error { entry, error, .. } && error == why
                && entry.session == session
            ||| outcome matches AgentOutcomeV::Cancelled { entry, reason, .. } && reason == why
                && entry.session == session
        }),
        w.tokens_in + session.codex_input_tokens <= u64::MAX,
        w.tokens_out + session.codex_output_tokens <= u64::MAX,
    ensures
        ({
            let (after, action) = worker_step(w, WorkerEventV::AgentDone(outcome), at);
            &&& at.cancelled ==> action is Abandon && after.phase == WorkerPhase::Over
            &&& !at.cancelled ==> {
                &&& action is RunAfterHook
                &&& after.phase == WorkerPhase::AfterRun
                &&& after.outcome == Some(
                    WorkerOutcomeV::Error {
                        error: why,
                        retry_attempt: w.attempt,
                        tokens_in: (w.tokens_in + session.codex_input_tokens) as u64,
                        tokens_out: (w.tokens_out + session.codex_output_tokens) as u64,
                        elapsed_nanos: at.elapsed_nanos,
                    },
                )
            }
        }),
{
}

/// After the hook an outcome that is no success is reported as it is; a success first
/// moves the issue where a completion state awaits it, and is then reported, however the
/// move went.
pub proof fn law_outcomes_are_reported(w: WorkerV, at: WorkerMoment, outcome: WorkerOutcomeV)
    requires
        w.outcome == Some(outcome),
        !at.cancelled,
    ensures
        w.phase == WorkerPhase::AfterRun && (outcome is Error || w.completion_state is None)
            ==> worker_step(w, WorkerEventV::HookDone, at).1 == WorkerActionV::Report(outcome),
        w.phase == WorkerPhase::AfterRun && outcome is Normal && w.completion_state is Some ==> {
            let (after, action) = worker_step(w, WorkerEventV::HookDone, at);
            &&& action == (WorkerActionV::Complete { state_name: w.completion_state->0 })
            &&& after.phase == WorkerPhase::Completing
            &&& after.outcome == Some(outcome)
        },
        w.phase == WorkerPhase::Completing ==> worker_step(w, WorkerEventV::MoveTried, at).1
            == WorkerActionV::Report(outcome),
{
}

/// The agent is run with the command, the policies, the times and the turns of the
/// configuration, in the workspace; for one turn only where a completion state follows.
pub proof fn law_agents_run_as_configured(
    config: ServiceConfigV,
    workspace_path: Seq<char>,
    version: Seq<char>,
)
    ensures
        ({
            let c = agent_config(config, workspace_path, version);
            &&& c.command == config.codex_command
            &&& c.workspace_path == workspace_path
            &&& config.codex_approval_policy matches Some(p) ==> c.approval_policy == p
            &&& config.codex_approval_policy is None ==> c.approval_policy.len() == 0
            &&& config.codex_thread_sandbox matches Some(p) ==> c.thread_sandbox == p
            &&& config.codex_thread_sandbox is None ==> c.thread_sandbox.len() == 0
            &&& config.codex_turn_sandbox_policy matches Some(p) ==> c.turn_sandbox_policy == p
            &&& config.codex_turn_sandbox_policy is None ==> c.turn_sandbox_policy.len() == 0
            &&& c.turn_timeout_ms == config.codex_turn_timeout_ms
            &&& c.read_timeout_ms == config.codex_read_timeout_ms
            &&& c.stall_timeout_ms == config.codex_stall_timeout_ms
            &&& c.max_turns == config.agent_max_turns
            &&& c.max_run_ms is None
            &&& c.max_tokens_per_run is None
            &&& c.stop_after_first_turn == (config.tracker_completion_state is Some)
            &&& c.client_version == version
        }),
{
}

/// Work whose counters could not take what a run used stays as it was, and an event that
/// does not belong to its phase changes nothing.
pub proof fn law_other_events_change_nothing(w: WorkerV, event: WorkerEventV, at: WorkerMoment)
    ensures
        ({
            let belongs = match event {
                WorkerEventV::Start => w.phase == WorkerPhase::Ready,
                WorkerEventV::MockDone => w.phase == WorkerPhase::MockRunning,
                WorkerEventV::AgentDone(_) => w.phase == WorkerPhase::AgentRunning,
                WorkerEventV::Refreshed(_) => w.phase == WorkerPhase::Refreshing,
                WorkerEventV::HookDone => w.phase == WorkerPhase::AfterRun,
                WorkerEventV::MoveTried => w.phase == WorkerPhase::Completing,
            };
            let (after, action) = worker_step(w, event, at);
            &&& !belongs ==> action is Ignore && after == w
            &&& action is Overflow ==> after == w
        }),
{
}

/// The counters take a session exactly where neither passes what it can hold; where they
/// do not, the run is not counted at all.
pub proof fn law_sessions_that_fit(w: WorkerV, session: SessionV, outcome: AgentOutcomeV, at: WorkerMoment)
    ensures
        session_fits(w, session) <==> w.tokens_in + session.codex_input_tokens <= u64::MAX
            && w.tokens_out + session.codex_output_tokens <= u64::MAX,
        w.phase == WorkerPhase::AgentRunning && (outcome matches AgentOutcomeV::Error { entry, .. }
            && entry.session == session) && !session_fits(w, session) ==> worker_step(
            w,
            WorkerEventV::AgentDone(outcome),
            at,
        ) == (w, WorkerActionV::Overflow),
        session_fits(w, session) ==> counted(w, session).tokens_in == w.tokens_in
            + session.codex_input_tokens && counted(w, session).tokens_out == w.tokens_out
            + session.codex_output_tokens,
{
}

} // verus!
