//! Taking up an issue, step by step: the claim, a slot, the move to the claim
//! state, the workspace, its hook, the prompt, and the worker's start.
//!
//! An issue comes from the tracker's candidates or from a retry that is due; the
//! two differ in what becomes of them when a step fails.
use crate::config::{ServiceConfig, ServiceConfigV};
use crate::orchestrator::{backoff, law_backoff, law_first_waits, same_for};
use crate::reconcile::well_kept;
use crate::text::{
    concat2, concat3, eq_ignore_ascii_case, same_ignoring_ascii_case,
};
use crate::types::{
    new_session, Issue, IssueV, LiveSession, OrchestratorState, RetryEntry, RetryV, RunningEntry,
    RunningV, StateV, Timestamp,
};
use vstd::prelude::*;
use vstd::string::*;

verus! {

/// Where an issue that is taken up comes from.
#[derive(Debug)]
pub enum Origin {
    /// From the tracker's candidates.
    Candidate { attempt: Option<u32> },
    /// From a retry that is due.
    Retry { retry: RetryEntry },
}

/// Where an issue comes from, by its contents.
#[verifier::ext_equal]
pub enum OriginV {
    Candidate { attempt: Option<u32> },
    Retry { retry: RetryV },
}

impl View for Origin {
    type V = OriginV;

    open spec fn view(&self) -> OriginV {
        match self {
            Origin::Candidate { attempt } => OriginV::Candidate { attempt: *attempt },
            Origin::Retry { retry } => OriginV::Retry { retry: retry@ },
        }
    }
}

/// How far the taking up has come.
#[derive(Debug, Clone, Copy, PartialEq, Eq, Structural)]
pub enum DispatchPhase {
    Claiming,
    AwaitingPermit,
    AwaitingTransition,
    AwaitingWorkspace,
    AwaitingHook,
    AwaitingPrompt,
    Over,
}

/// An issue that is being taken up.
#[derive(Debug)]
pub struct Dispatch {
    pub issue: Issue,
    pub origin: Origin,
    pub prompt_template: String,
    pub workspace_path: String,
    pub phase: DispatchPhase,
}

/// An issue that is being taken up, by its contents.
#[verifier::ext_equal]
pub struct DispatchV {
    pub issue: IssueV,
    pub origin: OriginV,
    pub prompt_template: Seq<char>,
    pub workspace_path: Seq<char>,
    pub phase: DispatchPhase,
}

impl View for Dispatch {
    type V = DispatchV;

    open spec fn view(&self) -> DispatchV {
        DispatchV {
            issue: self.issue@,
            origin: self.origin@,
            prompt_template: self.prompt_template@,
            workspace_path: self.workspace_path@,
            phase: self.phase,
        }
    }
}

/// What happened while an issue was being taken up.
#[derive(Debug)]
pub enum DispatchEvent {
    Start,
    PermitGranted,
    PermitRefused,
    Transitioned,
    TransitionFailed(String),
    WorkspaceReady { path: String },
    WorkspaceFailed(String),
    HookDone,
    HookFailed(String),
    Rendered(String),
    RenderFailed(String),
}

/// What happened, by its contents.
#[verifier::ext_equal]
pub enum DispatchEventV {
    Start,
    PermitGranted,
    PermitRefused,
    Transitioned,
    TransitionFailed(Seq<char>),
    WorkspaceReady { path: Seq<char> },
    WorkspaceFailed(Seq<char>),
    HookDone,
    HookFailed(Seq<char>),
    Rendered(Seq<char>),
    RenderFailed(Seq<char>),
}

impl View for DispatchEvent {
    type V = DispatchEventV;

    open spec fn view(&self) -> DispatchEventV {
        match self {
            DispatchEvent::Start => DispatchEventV::Start,
            DispatchEvent::PermitGranted => DispatchEventV::PermitGranted,
            DispatchEvent::PermitRefused => DispatchEventV::PermitRefused,
            DispatchEvent::Transitioned => DispatchEventV::Transitioned,
            DispatchEvent::TransitionFailed(e) => DispatchEventV::TransitionFailed(e@),
            DispatchEvent::WorkspaceReady { path } => DispatchEventV::WorkspaceReady {
                path: path@,
            },
            DispatchEvent::WorkspaceFailed(e) => DispatchEventV::WorkspaceFailed(e@),
            DispatchEvent::HookDone => DispatchEventV::HookDone,
            DispatchEvent::HookFailed(e) => DispatchEventV::HookFailed(e@),
            DispatchEvent::Rendered(p) => DispatchEventV::Rendered(p@),
            DispatchEvent::RenderFailed(e) => DispatchEventV::RenderFailed(e@),
        }
    }
}

/// What to do next.
#[derive(Debug)]
pub enum DispatchAction {
    /// Try to get a slot, and take the configuration as it is then.
    AcquirePermit,
    /// Move the issue to this state.
    Transition { state_name: String },
    /// Create the issue's workspace.
    CreateWorkspace,
    /// Run the hook before a run in this workspace.
    RunHook { path: String },
    /// Render this template for the issue and the attempt.
    RenderPrompt { template: String, attempt: Option<u32> },
    /// Start a worker with this prompt in this workspace.
    StartWorker { prompt: String, path: String, attempt: Option<u32> },
    /// Give the slot back, if there is one: the issue is not taken up now.
    GiveUp,
    /// The event does not belong here.
    Ignore,
}

/// What to do next, by its contents.
#[verifier::ext_equal]
pub enum DispatchActionV {
    AcquirePermit,
    Transition { state_name: Seq<char> },
    CreateWorkspace,
    RunHook { path: Seq<char> },
    RenderPrompt { template: Seq<char>, attempt: Option<u32> },
    StartWorker { prompt: Seq<char>, path: Seq<char>, attempt: Option<u32> },
    GiveUp,
    Ignore,
}

impl View for DispatchAction {
    type V = DispatchActionV;

    open spec fn view(&self) -> DispatchActionV {
        match self {
            DispatchAction::AcquirePermit => DispatchActionV::AcquirePermit,
            DispatchAction::Transition { state_name } => DispatchActionV::Transition {
                state_name: state_name@,
            },
            DispatchAction::CreateWorkspace => DispatchActionV::CreateWorkspace,
            DispatchAction::RunHook { path } => DispatchActionV::RunHook { path: path@ },
            DispatchAction::RenderPrompt { template, attempt } => DispatchActionV::RenderPrompt {
                template: template@,
                attempt: *attempt,
            },
            DispatchAction::StartWorker { prompt, path, attempt } => DispatchActionV::StartWorker {
                prompt: prompt@,
                path: path@,
                attempt: *attempt,
            },
            DispatchAction::GiveUp => DispatchActionV::GiveUp,
            DispatchAction::Ignore => DispatchActionV::Ignore,
        }
    }
}

// ── Model ───────────────────────────────────────────────────────────────────

/// The attempt that this is, where it is counted.
pub open spec fn attempt_of(origin: OriginV) -> Option<u32> {
    match origin {
        OriginV::Candidate { attempt } => attempt,
        OriginV::Retry { retry } => Some(retry.attempt),
    }
}

/// The prompt where no template is configured.
pub open spec fn default_prompt(issue: IssueV) -> Seq<char> {
    "You are working on issue "@ + issue.identifier + ": "@ + issue.title + "."@
}

/// The prompt where no template is configured.
pub fn default_prompt_for(issue: &Issue) -> (r: String)
    ensures
        r@ == default_prompt(issue@),
{
    let head: String = concat3("You are working on issue ", issue.identifier.as_str(), ": ");
    concat3(head.as_str(), issue.title.as_str(), ".")
}

/// The entry with which a worker starts.
pub open spec fn started_entry(d: DispatchV, now: Timestamp) -> RunningV {
    RunningV {
        issue_id: d.issue.id,
        identifier: d.issue.identifier,
        issue: d.issue,
        session: new_session(),
        retry_attempt: attempt_of(d.origin),
        started_at: now,
    }
}

/// The attempt that a candidate gets when a step fails.
pub open spec fn next_attempt(attempt: Option<u32>) -> u32 {
    match attempt {
        Some(a) => (a + 1) as u32,
        None => 1,
    }
}

/// A step further.
pub open spec fn onward(d: DispatchV, s: StateV, phase: DispatchPhase, action: DispatchActionV) -> (
    DispatchV,
    StateV,
    DispatchActionV,
) {
    (DispatchV { phase, ..d }, s, action)
}

/// The end where a step failed: a candidate gives its claim up for a later
/// attempt, a retry goes back to wait for half a minute.
pub open spec fn given_up(
    d: DispatchV,
    s: StateV,
    attempt: u32,
    error: Seq<char>,
    config: ServiceConfigV,
) -> (DispatchV, StateV, DispatchActionV) {
    let after = match d.origin {
        OriginV::Candidate { .. } => s.scheduled(
            d.issue.id,
            d.issue.identifier,
            attempt,
            error,
            config.agent_max_retry_backoff_ms,
        ),
        OriginV::Retry { retry } => s.deferred(retry, 30_000, Some(error)),
    };
    onward(d, after, DispatchPhase::Over, DispatchActionV::GiveUp)
}

/// The end where a step failed, the attempt counted.
pub open spec fn step_failed(d: DispatchV, s: StateV, error: Seq<char>, config: ServiceConfigV) -> (
    DispatchV,
    StateV,
    DispatchActionV,
) {
    let attempt = match d.origin {
        OriginV::Candidate { attempt } => next_attempt(attempt),
        OriginV::Retry { retry } => retry.attempt,
    };
    given_up(d, s, attempt, error, config)
}

/// The start of the worker.
pub open spec fn worker_start(d: DispatchV, s: StateV, prompt: Seq<char>) -> (
    DispatchV,
    StateV,
    DispatchActionV,
) {
    onward(
        d,
        s,
        DispatchPhase::Over,
        DispatchActionV::StartWorker {
            prompt,
            path: d.workspace_path,
            attempt: attempt_of(d.origin),
        },
    )
}

/// What follows the hook: a candidate counts as running before its prompt is
/// rendered, a retry after.
pub open spec fn hook_done(d: DispatchV, s: StateV, now: Timestamp) -> (
    DispatchV,
    StateV,
    DispatchActionV,
) {
    let running = s.begun(started_entry(d, now), d.origin is Retry);
    if d.prompt_template.len() == 0 {
        worker_start(d, running, default_prompt(d.issue))
    } else {
        onward(
            d,
            if d.origin is Retry {
                s
            } else {
                running
            },
            DispatchPhase::AwaitingPrompt,
            DispatchActionV::RenderPrompt {
                template: d.prompt_template,
                attempt: attempt_of(d.origin),
            },
        )
    }
}

/// Whether the issue is to be moved before work on it starts.
pub open spec fn needs_move(state: Seq<char>, claim_state: Option<Seq<char>>) -> bool {
    claim_state matches Some(c) && !same_ignoring_ascii_case(state, c)
}

/// What follows an event.
pub open spec fn dispatch_step(
    d: DispatchV,
    s: StateV,
    event: DispatchEventV,
    config: ServiceConfigV,
    now: Timestamp,
) -> (DispatchV, StateV, DispatchActionV) {
    let ignored = (d, s, DispatchActionV::Ignore);
    match event {
        DispatchEventV::Start => if d.phase == DispatchPhase::Claiming {
            onward(
                d,
                if d.origin is Retry {
                    s
                } else {
                    s.claimed_for(d.issue.id)
                },
                DispatchPhase::AwaitingPermit,
                DispatchActionV::AcquirePermit,
            )
        } else {
            ignored
        },
        DispatchEventV::PermitRefused => if d.phase == DispatchPhase::AwaitingPermit {
            given_up(
                d,
                s,
                match attempt_of(d.origin) {
                    Some(a) => a,
                    None => 1,
                },
                "no available slots"@,
                config,
            )
        } else {
            ignored
        },
        DispatchEventV::PermitGranted => if d.phase == DispatchPhase::AwaitingPermit {
            let taken = DispatchV { prompt_template: config.prompt_template, ..d };
            if needs_move(d.issue.state, config.tracker_claim_state) {
                onward(
                    taken,
                    s,
                    DispatchPhase::AwaitingTransition,
                    DispatchActionV::Transition { state_name: config.tracker_claim_state->0 },
                )
            } else {
                onward(
                    taken,
                    s,
                    DispatchPhase::AwaitingWorkspace,
                    DispatchActionV::CreateWorkspace,
                )
            }
        } else {
            ignored
        },
        DispatchEventV::Transitioned => if d.phase == DispatchPhase::AwaitingTransition {
            onward(d, s, DispatchPhase::AwaitingWorkspace, DispatchActionV::CreateWorkspace)
        } else {
            ignored
        },
        DispatchEventV::TransitionFailed(e) => if d.phase == DispatchPhase::AwaitingTransition {
            step_failed(d, s, "claim transition: "@ + e, config)
        } else {
            ignored
        },
        DispatchEventV::WorkspaceReady { path } => if d.phase == DispatchPhase::AwaitingWorkspace {
            onward(
                DispatchV { workspace_path: path, ..d },
                s,
                DispatchPhase::AwaitingHook,
                DispatchActionV::RunHook { path },
            )
        } else {
            ignored
        },
        DispatchEventV::WorkspaceFailed(e) => if d.phase == DispatchPhase::AwaitingWorkspace {
            step_failed(d, s, "workspace error: "@ + e, config)
        } else {
            ignored
        },
        DispatchEventV::HookDone => if d.phase == DispatchPhase::AwaitingHook {
            hook_done(d, s, now)
        } else {
            ignored
        },
        DispatchEventV::HookFailed(e) => if d.phase == DispatchPhase::AwaitingHook {
            step_failed(d, s, "before_run hook: "@ + e, config)
        } else {
            ignored
        },
        DispatchEventV::Rendered(prompt) => if d.phase == DispatchPhase::AwaitingPrompt {
            worker_start(
                d,
                if d.origin is Retry {
                    s.begun(started_entry(d, now), true)
                } else {
                    s
                },
                prompt,
            )
        } else {
            ignored
        },
        DispatchEventV::RenderFailed(e) => if d.phase == DispatchPhase::AwaitingPrompt {
            match d.origin {
                OriginV::Candidate { .. } => onward(
                    d,
                    s.exited(
                        d.issue.id,
                        "prompt error"@,
                        true,
                        config.agent_max_retry_backoff_ms,
                        now,
                    ),
                    DispatchPhase::Over,
                    DispatchActionV::GiveUp,
                ),
                OriginV::Retry { .. } => step_failed(d, s, "prompt render: "@ + e, config),
            }
        } else {
            ignored
        },
    }
}

/// A step that failed before the worker's entry was made.
pub open spec fn is_failed_step(event: DispatchEventV) -> bool {
    event is TransitionFailed || event is WorkspaceFailed || event is HookFailed
}

/// Whether the counters can take what an event brings.
pub open spec fn dispatch_fits(d: DispatchV, s: StateV, event: DispatchEventV, now: Timestamp) -> bool {
    &&& is_failed_step(event) ==> (d.origin matches OriginV::Candidate { attempt: Some(a) } ==> a
        < u32::MAX)
    &&& d.origin is Candidate && event is RenderFailed ==> s.exit_fits(d.issue.id, true, now)
}

/// An issue that is to be taken up.
pub open spec fn new_dispatch(issue: IssueV, origin: OriginV) -> DispatchV {
    DispatchV {
        issue,
        origin,
        prompt_template: Seq::empty(),
        workspace_path: Seq::empty(),
        phase: DispatchPhase::Claiming,
    }
}

// ── Execution ───────────────────────────────────────────────────────────────

impl Dispatch {
    /// An issue from the tracker's candidates.
    pub fn candidate(issue: Issue, attempt: Option<u32>) -> (r: Dispatch)
        ensures
            r@ == new_dispatch(issue@, OriginV::Candidate { attempt }),
    {
        Dispatch::new(issue, Origin::Candidate { attempt })
    }

    /// An issue from a retry that is due.
    pub fn retry(issue: Issue, retry: RetryEntry) -> (r: Dispatch)
        ensures
            r@ == new_dispatch(issue@, OriginV::Retry { retry: retry@ }),
    {
        Dispatch::new(issue, Origin::Retry { retry })
    }

    fn new(issue: Issue, origin: Origin) -> (r: Dispatch)
        ensures
            r@ == new_dispatch(issue@, origin@),
    {
        let r = Dispatch {
            issue,
            origin,
            prompt_template: String::new(),
            workspace_path: String::new(),
            phase: DispatchPhase::Claiming,
        };
        assert(r@.prompt_template =~= Seq::<char>::empty());
        r
    }

    /// The attempt that this is, where it is counted.
    pub fn attempt(&self) -> (r: Option<u32>)
        ensures
            r == attempt_of(self@.origin),
    {
        match &self.origin {
            Origin::Candidate { attempt } => *attempt,
            Origin::Retry { retry } => Some(retry.attempt),
        }
    }

    fn is_retry(&self) -> (r: bool)
        ensures
            r == (self@.origin is Retry),
    {
        match &self.origin {
            Origin::Candidate { attempt: _ } => false,
            Origin::Retry { retry: _ } => true,
        }
    }

    /// Whether the counters can take what an event brings.
    pub fn can_step(&self, state: &OrchestratorState, event: &DispatchEvent, now: Timestamp) -> (r:
        bool)
        ensures
            r == dispatch_fits(self@, state@, event@, now),
    {
        match &self.origin {
            Origin::Retry { retry: _ } => true,
            Origin::Candidate { attempt } => match event {
                DispatchEvent::TransitionFailed(_) | DispatchEvent::WorkspaceFailed(_)
                | DispatchEvent::HookFailed(_) => match attempt {
                    Some(a) => *a < u32::MAX,
                    None => true,
                },
                DispatchEvent::RenderFailed(_) => state.can_exit(
                    self.issue.id.as_str(),
                    true,
                    now,
                ),
                _ => true,
            },
        }
    }

    fn give_up(
        &mut self,
        state: &mut OrchestratorState,
        attempt: u32,
        error: String,
        config: &ServiceConfig,
    ) -> (r: DispatchAction)
        ensures
            (final(self)@, final(state)@, r@) == given_up(
                old(self)@,
                old(state)@,
                attempt,
                error@,
                config@,
            ),
    {
        self.phase = DispatchPhase::Over;
        match &self.origin {
            Origin::Candidate { attempt: _ } => state.schedule_retry(
                self.issue.id.as_str(),
                self.issue.identifier.as_str(),
                attempt,
                error.as_str(),
                config.agent_max_retry_backoff_ms,
            ),
            Origin::Retry { retry } => state.defer_retry(retry, 30_000, Some(error)),
        }
        DispatchAction::GiveUp
    }

    fn fail_step(
        &mut self,
        state: &mut OrchestratorState,
        what: &str,
        error: &str,
        config: &ServiceConfig,
    ) -> (r: DispatchAction)
        requires
            old(self)@.origin matches OriginV::Candidate { attempt: Some(a) } ==> a < u32::MAX,
        ensures
            (final(self)@, final(state)@, r@) == step_failed(
                old(self)@,
                old(state)@,
                what@ + error@,
                config@,
            ),
    {
        let attempt: u32 = match &self.origin {
            Origin::Candidate { attempt } => match attempt {
                Some(a) => *a + 1,
                None => 1,
            },
            Origin::Retry { retry } => retry.attempt,
        };
        let text: String = concat2(what, error);
        self.give_up(state, attempt, text, config)
    }

    fn entry(&self, now: Timestamp) -> (r: RunningEntry)
        ensures
            r@ == started_entry(self@, now),
    {
        RunningEntry {
            issue_id: self.issue.id.clone(),
            identifier: self.issue.identifier.clone(),
            issue: self.issue.clone(),
            session: LiveSession::default(),
            retry_attempt: self.attempt(),
            started_at: now,
        }
    }

    fn start_worker(&mut self, prompt: String) -> (r: DispatchAction)
        ensures
            forall|s: StateV|
                (final(self)@, s, r@) == #[trigger] worker_start(old(self)@, s, prompt@),
    {
        self.phase = DispatchPhase::Over;
        DispatchAction::StartWorker {
            prompt,
            path: self.workspace_path.clone(),
            attempt: self.attempt(),
        }
    }

    fn on_permit(&mut self, config: &ServiceConfig) -> (r: DispatchAction)
        requires
            old(self)@.phase == DispatchPhase::AwaitingPermit,
        ensures
            forall|s: StateV, now: Timestamp|
                (final(self)@, s, r@) == #[trigger] dispatch_step(
                    old(self)@,
                    s,
                    DispatchEventV::PermitGranted,
                    config@,
                    now,
                ),
    {
        self.prompt_template = config.prompt_template.clone();
        let target: Option<String> = match &config.tracker_claim_state {
            Some(claim_state) => if eq_ignore_ascii_case(
                self.issue.state.as_str(),
                claim_state.as_str(),
            ) {
                None
            } else {
                Some(claim_state.clone())
            },
            None => None,
        };
        match target {
            Some(state_name) => {
                self.phase = DispatchPhase::AwaitingTransition;
                DispatchAction::Transition { state_name }
            },
            None => {
                self.phase = DispatchPhase::AwaitingWorkspace;
                DispatchAction::CreateWorkspace
            },
        }
    }

    fn on_hook_done(&mut self, state: &mut OrchestratorState, now: Timestamp) -> (r: DispatchAction)
        ensures
            (final(self)@, final(state)@, r@) == hook_done(old(self)@, old(state)@, now),
    {
        let retry: bool = self.is_retry();
        let entry: RunningEntry = self.entry(now);
        if self.prompt_template.as_str().is_empty() {
            state.begin_run(entry, retry);
            let prompt: String = default_prompt_for(&self.issue);
            let ghost begun = state@;
            let r: DispatchAction = self.start_worker(prompt);
            assert((self@, begun, r@) == worker_start(old(self)@, begun, prompt@));
            r
        } else {
            if !retry {
                state.begin_run(entry, false);
            }
            self.phase = DispatchPhase::AwaitingPrompt;
            DispatchAction::RenderPrompt {
                template: self.prompt_template.clone(),
                attempt: self.attempt(),
            }
        }
    }

    fn on_rendered(&mut self, state: &mut OrchestratorState, prompt: String, now: Timestamp) -> (r:
        DispatchAction)
        requires
            old(self)@.phase == DispatchPhase::AwaitingPrompt,
        ensures
            forall|config: ServiceConfigV|
                (final(self)@, final(state)@, r@) == #[trigger] dispatch_step(
                    old(self)@,
                    old(state)@,
                    DispatchEventV::Rendered(prompt@),
                    config,
                    now,
                ),
    {
        if self.is_retry() {
            let entry: RunningEntry = self.entry(now);
            state.begin_run(entry, true);
        }
        let ghost begun = state@;
        let r: DispatchAction = self.start_worker(prompt);
        assert((self@, begun, r@) == worker_start(old(self)@, begun, prompt@));
        r
    }

    fn on_render_failed(
        &mut self,
        state: &mut OrchestratorState,
        error: &str,
        config: &ServiceConfig,
        now: Timestamp,
    ) -> (r: DispatchAction)
        requires
            old(self)@.phase == DispatchPhase::AwaitingPrompt,
            dispatch_fits(old(self)@, old(state)@, DispatchEventV::RenderFailed(error@), now),
        ensures
            (final(self)@, final(state)@, r@) == dispatch_step(
                old(self)@,
                old(state)@,
                DispatchEventV::RenderFailed(error@),
                config@,
                now,
            ),
    {
        if self.is_retry() {
            self.fail_step(state, "prompt render: ", error, config)
        } else {
            state.handle_worker_exit(
                self.issue.id.as_str(),
                "prompt error",
                true,
                config.agent_max_retry_backoff_ms,
                now,
            );
            self.phase = DispatchPhase::Over;
            DispatchAction::GiveUp
        }
    }

    /// Takes an event, changes the state accordingly, and says what to do next.
    /// `config` is the configuration as it is now.
    pub fn step(
        &mut self,
        state: &mut OrchestratorState,
        event: DispatchEvent,
        config: &ServiceConfig,
        now: Timestamp,
    ) -> (r: DispatchAction)
        requires
            dispatch_fits(old(self)@, old(state)@, event@, now),
        ensures
            (final(self)@, final(state)@, r@) == dispatch_step(
                old(self)@,
                old(state)@,
                event@,
                config@,
                now,
            ),
    {
        match (event, self.phase) {
            (DispatchEvent::Start, DispatchPhase::Claiming) => {
                if !self.is_retry() {
                    state.claim(self.issue.id.as_str());
                }
                self.phase = DispatchPhase::AwaitingPermit;
                DispatchAction::AcquirePermit
            },
            (DispatchEvent::PermitRefused, DispatchPhase::AwaitingPermit) => {
                let attempt: u32 = match self.attempt() {
                    Some(a) => a,
                    None => 1,
                };
                self.give_up(state, attempt, "no available slots".to_owned(), config)
            },
            (DispatchEvent::PermitGranted, DispatchPhase::AwaitingPermit) => {
                let ghost before = state@;
                let r: DispatchAction = self.on_permit(config);
                assert((self@, before, r@) == dispatch_step(
                    old(self)@,
                    before,
                    DispatchEventV::PermitGranted,
                    config@,
                    now,
                ));
                r
            },
            (DispatchEvent::Transitioned, DispatchPhase::AwaitingTransition) => {
                self.phase = DispatchPhase::AwaitingWorkspace;
                DispatchAction::CreateWorkspace
            },
            (DispatchEvent::TransitionFailed(e), DispatchPhase::AwaitingTransition) => {
                self.fail_step(state, "claim transition: ", e.as_str(), config)
            },
            (DispatchEvent::WorkspaceReady { path }, DispatchPhase::AwaitingWorkspace) => {
                self.workspace_path = path;
                self.phase = DispatchPhase::AwaitingHook;
                DispatchAction::RunHook { path: self.workspace_path.clone() }
            },
            (DispatchEvent::WorkspaceFailed(e), DispatchPhase::AwaitingWorkspace) => {
                self.fail_step(state, "workspace error: ", e.as_str(), config)
            },
            (DispatchEvent::HookDone, DispatchPhase::AwaitingHook) => self.on_hook_done(state, now),
            (DispatchEvent::HookFailed(e), DispatchPhase::AwaitingHook) => {
                self.fail_step(state, "before_run hook: ", e.as_str(), config)
            },
            (DispatchEvent::Rendered(prompt), DispatchPhase::AwaitingPrompt) => {
                self.on_rendered(state, prompt, now)
            },
            (DispatchEvent::RenderFailed(e), DispatchPhase::AwaitingPrompt) => {
                self.on_render_failed(state, e.as_str(), config, now)
            },
            _ => DispatchAction::Ignore,
        }
    }
}

// ── Laws ────────────────────────────────────────────────────────────────────

/// A worker starts only once its issue is entered as running with the attempt that
/// this is; the prompt is the rendered one or, without a template, the default.
pub proof fn law_workers_start_on_running_issues(
    d: DispatchV,
    s: StateV,
    event: DispatchEventV,
    config: ServiceConfigV,
    now: Timestamp,
)
    requires
        d.phase == DispatchPhase::AwaitingPrompt && d.origin is Candidate ==> s.running.contains_key(
            d.issue.id,
        ),
    ensures
        dispatch_step(d, s, event, config, now).2 matches DispatchActionV::StartWorker {
            prompt,
            path,
            attempt,
        } ==> {
            &&& dispatch_step(d, s, event, config, now).1.running.contains_key(d.issue.id)
            &&& path == d.workspace_path
            &&& attempt == attempt_of(d.origin)
            &&& (event == DispatchEventV::Rendered(prompt) && d.phase
                == DispatchPhase::AwaitingPrompt) || (d.prompt_template.len() == 0 && prompt
                == default_prompt(d.issue))
        },
{
}

/// An issue that is not taken up after all is not lost: a candidate holds no claim
/// and waits for its next attempt, a retry waits again with its attempt unchanged.
pub proof fn law_given_up_issues_wait(
    d: DispatchV,
    s: StateV,
    event: DispatchEventV,
    config: ServiceConfigV,
    now: Timestamp,
)
    requires
        well_kept(s),
        dispatch_fits(d, s, event, now),
        d.origin matches OriginV::Retry { retry } ==> retry.issue_id == d.issue.id,
        d.phase == DispatchPhase::AwaitingPrompt && d.origin is Candidate ==> s.running.contains_key(
            d.issue.id,
        ),
    ensures
        dispatch_step(d, s, event, config, now).2 is GiveUp ==> {
            let after = dispatch_step(d, s, event, config, now).1;
            &&& after.retry_attempts.contains_key(d.issue.id)
            &&& after.retry_attempts[d.issue.id].error is Some
            &&& d.origin is Candidate ==> !after.claimed.contains(d.issue.id)
            &&& d.origin matches OriginV::Retry { retry } ==> after.retry_attempts[d.issue.id].attempt
                == retry.attempt && after.retry_attempts[d.issue.id].due_at_ms == 30_000
                && after.claimed == s.claimed
        },
{
}

/// Each step of the taking up keeps the state well kept, as long as nobody else
/// touches the issue meanwhile: it does not wait for a retry, and until its prompt
/// is rendered it does not run.
pub proof fn law_dispatch_keeps_the_state(
    d: DispatchV,
    s: StateV,
    event: DispatchEventV,
    config: ServiceConfigV,
    now: Timestamp,
)
    requires
        well_kept(s),
        d.phase != DispatchPhase::Claiming ==> s.claimed.contains(d.issue.id)
            && !s.retry_attempts.contains_key(d.issue.id),
        d.phase != DispatchPhase::AwaitingPrompt || d.origin is Retry ==> !s.running.contains_key(
            d.issue.id,
        ),
        d.origin matches OriginV::Retry { retry } ==> retry.issue_id == d.issue.id,
    ensures
        well_kept(dispatch_step(d, s, event, config, now).1),
{
}

// ── Laws of the single steps ────────────────────────────────────────────────

/// A candidate that cannot be taken up now, because there is no slot or because its
/// move, its workspace or its hook failed, is claimed no more and waits under its id for
/// the attempt that counts next, as long as that attempt's backoff and with the reason.
/// Nothing else changes.
pub proof fn law_candidates_that_fail_back_off(
    d: DispatchV,
    s: StateV,
    event: DispatchEventV,
    config: ServiceConfigV,
    now: Timestamp,
    e: Seq<char>,
    other: Seq<char>,
)
    requires
        d.origin is Candidate,
        dispatch_fits(d, s, event, now),
        ({
            ||| d.phase == DispatchPhase::AwaitingPermit && event == DispatchEventV::PermitRefused
            ||| d.phase == DispatchPhase::AwaitingTransition && event
                == DispatchEventV::TransitionFailed(e)
            ||| d.phase == DispatchPhase::AwaitingWorkspace && event
                == DispatchEventV::WorkspaceFailed(e)
            ||| d.phase == DispatchPhase::AwaitingHook && event == DispatchEventV::HookFailed(e)
        }),
    ensures
        ({
            let (_, after, action) = dispatch_step(d, s, event, config, now);
            let attempt = match (event, d.origin->attempt) {
                (DispatchEventV::PermitRefused, Some(a)) => a as int,
                (_, Some(a)) => a + 1,
                (_, None) => 1,
            };
            let error = match event {
                DispatchEventV::PermitRefused => "no available slots"@,
                DispatchEventV::TransitionFailed(_) => "claim transition: "@ + e,
                DispatchEventV::WorkspaceFailed(_) => "workspace error: "@ + e,
                _ => "before_run hook: "@ + e,
            };
            &&& action is GiveUp
            &&& after.retry_attempts.contains_key(d.issue.id)
            &&& after.retry_attempts[d.issue.id].issue_id == d.issue.id
            &&& after.retry_attempts[d.issue.id].identifier == d.issue.identifier
            &&& after.retry_attempts[d.issue.id].attempt == attempt
            &&& after.retry_attempts[d.issue.id].due_at_ms == backoff(
                attempt as nat,
                config.agent_max_retry_backoff_ms as int,
            )
            &&& attempt <= 1 && config.agent_max_retry_backoff_ms >= 10_000
                ==> after.retry_attempts[d.issue.id].due_at_ms == 10_000
            &&& attempt == 2 && config.agent_max_retry_backoff_ms >= 20_000
                ==> after.retry_attempts[d.issue.id].due_at_ms == 20_000
            &&& attempt == 3 && config.agent_max_retry_backoff_ms >= 40_000
                ==> after.retry_attempts[d.issue.id].due_at_ms == 40_000
            &&& after.retry_attempts[d.issue.id].error == Some(error)
            &&& !after.claimed.contains(d.issue.id)
            &&& after.running == s.running
            &&& after.completed == s.completed
            &&& after.codex_totals == s.codex_totals
            &&& other != d.issue.id ==> same_for(after, s, other)
        }),
{
    let attempt = match (event, d.origin->attempt) {
        (DispatchEventV::PermitRefused, Some(a)) => a as int,
        (_, Some(a)) => a + 1,
        (_, None) => 1,
    };
    law_backoff(attempt as nat, attempt as nat, config.agent_max_retry_backoff_ms as int);
    law_backoff(0, 1, config.agent_max_retry_backoff_ms as int);
    law_first_waits(config.agent_max_retry_backoff_ms as int);
}

/// A retry that cannot be taken up now waits half a minute more with its attempt as it
/// was and the reason, and stays claimed.
pub proof fn law_retries_that_fail_wait_on(
    d: DispatchV,
    s: StateV,
    event: DispatchEventV,
    config: ServiceConfigV,
    now: Timestamp,
    retry: RetryV,
    e: Seq<char>,
    other: Seq<char>,
)
    requires
        d.origin == (OriginV::Retry { retry }),
        ({
            ||| d.phase == DispatchPhase::AwaitingPermit && event == DispatchEventV::PermitRefused
            ||| d.phase == DispatchPhase::AwaitingTransition && event
                == DispatchEventV::TransitionFailed(e)
            ||| d.phase == DispatchPhase::AwaitingWorkspace && event
                == DispatchEventV::WorkspaceFailed(e)
            ||| d.phase == DispatchPhase::AwaitingHook && event == DispatchEventV::HookFailed(e)
            ||| d.phase == DispatchPhase::AwaitingPrompt && event == DispatchEventV::RenderFailed(
                e,
            )
        }),
    ensures
        ({
            let (_, after, action) = dispatch_step(d, s, event, config, now);
            let error = match event {
                DispatchEventV::PermitRefused => "no available slots"@,
                DispatchEventV::TransitionFailed(_) => "claim transition: "@ + e,
                DispatchEventV::WorkspaceFailed(_) => "workspace error: "@ + e,
                DispatchEventV::HookFailed(_) => "before_run hook: "@ + e,
                _ => "prompt render: "@ + e,
            };
            &&& action is GiveUp
            &&& after.retry_attempts.contains_key(retry.issue_id)
            &&& after.retry_attempts[retry.issue_id].issue_id == retry.issue_id
            &&& after.retry_attempts[retry.issue_id].identifier == retry.identifier
            &&& after.retry_attempts[retry.issue_id].attempt == retry.attempt
            &&& after.retry_attempts[retry.issue_id].due_at_ms == 30_000
            &&& after.retry_attempts[retry.issue_id].error == Some(error)
            &&& after.claimed == s.claimed
            &&& after.running == s.running
            &&& after.completed == s.completed
            &&& after.codex_totals == s.codex_totals
            &&& other != retry.issue_id ==> same_for(after, s, other)
        }),
{
}

/// A candidate whose prompt cannot be rendered is taken off the running issues and waits
/// for its next attempt.
pub proof fn law_candidates_without_a_prompt_back_off(
    d: DispatchV,
    s: StateV,
    config: ServiceConfigV,
    now: Timestamp,
    e: Seq<char>,
    other: Seq<char>,
)
    requires
        d.origin is Candidate,
        d.phase == DispatchPhase::AwaitingPrompt,
        s.running.contains_key(d.issue.id),
        dispatch_fits(d, s, DispatchEventV::RenderFailed(e), now),
    ensures
        ({
            let (_, after, action) = dispatch_step(
                d,
                s,
                DispatchEventV::RenderFailed(e),
                config,
                now,
            );
            let next = match s.running[d.issue.id].retry_attempt {
                Some(a) => a + 1,
                None => 1,
            };
            &&& action is GiveUp
            &&& !after.running.contains_key(d.issue.id)
            &&& !after.claimed.contains(d.issue.id)
            &&& after.retry_attempts.contains_key(d.issue.id)
            &&& after.retry_attempts[d.issue.id].attempt == next
            &&& after.retry_attempts[d.issue.id].due_at_ms == backoff(
                next as nat,
                config.agent_max_retry_backoff_ms as int,
            )
            &&& after.retry_attempts[d.issue.id].error == Some("prompt error"@)
            &&& other != d.issue.id ==> same_for(after, s, other)
        }),
{
    let next = match s.running[d.issue.id].retry_attempt {
        Some(a) => a + 1,
        None => 1,
    };
    law_backoff(next as nat, next as nat, config.agent_max_retry_backoff_ms as int);
}

/// The taking up begins with the claim, which a retry holds already, and asks for a slot.
/// With a slot the issue is moved to the claim state unless it is there already, where
/// case makes no difference; then its workspace is created, then the hook before the run
/// runs in it.
pub proof fn law_the_way_to_the_hook(
    d: DispatchV,
    s: StateV,
    config: ServiceConfigV,
    now: Timestamp,
    path: Seq<char>,
)
    ensures
        d.phase == DispatchPhase::Claiming ==> {
            let (next, after, action) = dispatch_step(d, s, DispatchEventV::Start, config, now);
            &&& action is AcquirePermit
            &&& next == (DispatchV { phase: DispatchPhase::AwaitingPermit, ..d })
            &&& d.origin is Retry ==> after == s
            &&& d.origin is Candidate ==> after.claimed == s.claimed.insert(d.issue.id)
                && after.retry_attempts == s.retry_attempts.remove(d.issue.id) && after.running
                == s.running && after.completed == s.completed && after.codex_totals
                == s.codex_totals
        },
        d.phase == DispatchPhase::AwaitingPermit ==> {
            let (next, after, action) = dispatch_step(
                d,
                s,
                DispatchEventV::PermitGranted,
                config,
                now,
            );
            &&& after == s
            &&& next.prompt_template == config.prompt_template
            &&& next.issue == d.issue && next.origin == d.origin
            &&& config.tracker_claim_state matches Some(c) ==> (!same_ignoring_ascii_case(
                d.issue.state,
                c,
            ) ==> action == (DispatchActionV::Transition { state_name: c }) && next.phase
                == DispatchPhase::AwaitingTransition) && (same_ignoring_ascii_case(
                d.issue.state,
                c,
            ) ==> action is CreateWorkspace && next.phase == DispatchPhase::AwaitingWorkspace)
            &&& config.tracker_claim_state is None ==> action is CreateWorkspace && next.phase
                == DispatchPhase::AwaitingWorkspace
        },
        d.phase == DispatchPhase::AwaitingTransition ==> dispatch_step(
            d,
            s,
            DispatchEventV::Transitioned,
            config,
            now,
        ) == (
            DispatchV { phase: DispatchPhase::AwaitingWorkspace, ..d },
            s,
            DispatchActionV::CreateWorkspace,
        ),
        d.phase == DispatchPhase::AwaitingWorkspace ==> dispatch_step(
            d,
            s,
            DispatchEventV::WorkspaceReady { path },
            config,
            now,
        ) == (
            DispatchV { phase: DispatchPhase::AwaitingHook, workspace_path: path, ..d },
            s,
            DispatchActionV::RunHook { path },
        ),
{
}

/// After the hook the issue gets its prompt: from the template for this attempt or,
/// without a template, the default one, which names the issue. Its worker starts in its
/// workspace with the prompt and the attempt, and is entered as running from this moment
/// with nothing used yet.
pub proof fn law_the_way_to_the_worker(
    d: DispatchV,
    s: StateV,
    config: ServiceConfigV,
    now: Timestamp,
    prompt: Seq<char>,
    other: Seq<char>,
)
    ensures
        ({
            let attempt = match d.origin {
                OriginV::Candidate { attempt } => attempt,
                OriginV::Retry { retry } => Some(retry.attempt),
            };
            let entered = |after: StateV|
                {
                    &&& after.running.contains_key(d.issue.id)
                    &&& after.running[d.issue.id].issue == d.issue
                    &&& after.running[d.issue.id].issue_id == d.issue.id
                    &&& after.running[d.issue.id].identifier == d.issue.identifier
                    &&& after.running[d.issue.id].retry_attempt == attempt
                    &&& after.running[d.issue.id].started_at == now
                    &&& after.running[d.issue.id].session.codex_input_tokens == 0
                    &&& after.running[d.issue.id].session.codex_output_tokens == 0
                    &&& after.running[d.issue.id].session.codex_total_tokens == 0
                    &&& after.running[d.issue.id].session.session_id is None
                    &&& d.origin is Retry ==> after.claimed == s.claimed.insert(d.issue.id)
                    &&& d.origin is Candidate ==> after.claimed == s.claimed
                    &&& after.retry_attempts == s.retry_attempts
                    &&& after.completed == s.completed
                    &&& after.codex_totals == s.codex_totals
                    &&& other != d.issue.id ==> same_for(after, s, other)
                };
            &&& d.phase == DispatchPhase::AwaitingHook ==> {
                let (next, after, action) = dispatch_step(
                    d,
                    s,
                    DispatchEventV::HookDone,
                    config,
                    now,
                );
                &&& d.prompt_template.len() == 0 ==> entered(after) && action == (
                DispatchActionV::StartWorker {
                    prompt: "You are working on issue "@ + d.issue.identifier + ": "@
                        + d.issue.title + "."@,
                    path: d.workspace_path,
                    attempt,
                })
                &&& d.prompt_template.len() > 0 ==> action == (DispatchActionV::RenderPrompt {
                    template: d.prompt_template,
                    attempt,
                }) && (d.origin is Candidate ==> entered(after)) && (d.origin is Retry ==> after
                    == s)
            }
            &&& d.phase == DispatchPhase::AwaitingPrompt ==> {
                let (next, after, action) = dispatch_step(
                    d,
                    s,
                    DispatchEventV::Rendered(prompt),
                    config,
                    now,
                );
                &&& action == (DispatchActionV::StartWorker {
                    prompt,
                    path: d.workspace_path,
                    attempt,
                })
                &&& d.origin is Retry ==> entered(after)
                &&& d.origin is Candidate ==> after == s
            }
        }),
{
}

/// An issue that is taken up starts at the beginning, with its own origin.
pub proof fn law_new_dispatches(issue: IssueV, origin: OriginV)
    ensures
        new_dispatch(issue, origin).issue == issue,
        new_dispatch(issue, origin).origin == origin,
        new_dispatch(issue, origin).phase == DispatchPhase::Claiming,
        new_dispatch(issue, origin).prompt_template.len() == 0,
        new_dispatch(issue, origin).workspace_path.len() == 0,
{
}

/// Giving up and starting the worker are the end of taking up an issue; before that each
/// step leads to the next phase, with the issue and its origin as they were. An event that
/// does not belong to the phase changes nothing.
pub proof fn law_taking_up_goes_step_by_step(
    d: DispatchV,
    s: StateV,
    event: DispatchEventV,
    config: ServiceConfigV,
    now: Timestamp,
)
    ensures
        ({
            let (next, after, action) = dispatch_step(d, s, event, config, now);
            let belongs = match event {
                DispatchEventV::Start => d.phase == DispatchPhase::Claiming,
                DispatchEventV::PermitGranted => d.phase == DispatchPhase::AwaitingPermit,
                DispatchEventV::PermitRefused => d.phase == DispatchPhase::AwaitingPermit,
                DispatchEventV::Transitioned => d.phase == DispatchPhase::AwaitingTransition,
                DispatchEventV::TransitionFailed(_) => d.phase == DispatchPhase::AwaitingTransition,
                DispatchEventV::WorkspaceReady { .. } => d.phase
                    == DispatchPhase::AwaitingWorkspace,
                DispatchEventV::WorkspaceFailed(_) => d.phase == DispatchPhase::AwaitingWorkspace,
                DispatchEventV::HookDone => d.phase == DispatchPhase::AwaitingHook,
                DispatchEventV::HookFailed(_) => d.phase == DispatchPhase::AwaitingHook,
                DispatchEventV::Rendered(_) => d.phase == DispatchPhase::AwaitingPrompt,
                DispatchEventV::RenderFailed(_) => d.phase == DispatchPhase::AwaitingPrompt,
            };
            &&& !belongs ==> next == d && after == s && action is Ignore
            &&& next.issue == d.issue
            &&& next.origin == d.origin
            &&& action is GiveUp || action is StartWorker ==> next.phase == DispatchPhase::Over
            &&& action is AcquirePermit ==> next.phase == DispatchPhase::AwaitingPermit
            &&& action is Transition ==> next.phase == DispatchPhase::AwaitingTransition
            &&& action is CreateWorkspace ==> next.phase == DispatchPhase::AwaitingWorkspace
            &&& action is RunHook ==> next.phase == DispatchPhase::AwaitingHook
            &&& action is RenderPrompt ==> next.phase == DispatchPhase::AwaitingPrompt
                && next.workspace_path == d.workspace_path
        }),
{
}

} // verus!
