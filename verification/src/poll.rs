//! One tick of the polling loop, step by step: the word on the running issues, the
//! look at the configuration, the candidates, and which of them are taken up.
use crate::config::{
    dispatch_check, opt_view, ConfigError, ConfigErrorV, ServiceConfig, ServiceConfigV,
};
use crate::orchestrator::{
    eligible, in_order, is_among, law_ordering_keeps_the_issues, sort_issues,
};
use crate::reconcile::{
    law_over_is_over, law_reconciled, reconciled, reconciliation, Reconciliation,
};
use crate::text::texts;
use crate::types::{issues, Issue, IssueV, OrchestratorState, StateV, Timestamp};
use vstd::prelude::*;
use vstd::string::*;

verus! {

// ── Plan ────────────────────────────────────────────────────────────────────

/// Whether the tracker is asked for candidates: only with a sound configuration.
pub fn may_fetch(config: &ServiceConfig) -> (r: bool)
    ensures
        r == (dispatch_check(config@) is Ok),
{
    match config.validate_dispatch() {
        Ok(_) => true,
        Err(_) => false,
    }
}

/// The candidates in the order in which they are considered; none with a faulty
/// configuration or where the tracker could not be asked.
pub open spec fn planned(config: ServiceConfigV, fetched: Option<Seq<IssueV>>) -> Seq<IssueV> {
    if dispatch_check(config) is Ok && fetched is Some {
        in_order(fetched->0)
    } else {
        Seq::empty()
    }
}

/// A list of issues that could perhaps not be had, by its contents.
pub open spec fn fetched_issues(o: Option<Vec<Issue>>) -> Option<Seq<IssueV>> {
    match o {
        Some(list) => Some(issues(list@)),
        None => None,
    }
}

/// The candidates in the order in which they are considered.
pub fn poll_plan(config: &ServiceConfig, fetched: Option<Vec<Issue>>) -> (r: Vec<Issue>)
    ensures
        issues(r@) == planned(config@, fetched_issues(fetched)),
{
    if may_fetch(config) {
        if let Some(list) = fetched {
            return sort_issues(list);
        }
    }
    let none: Vec<Issue> = Vec::new();
    assert(issues(none@) =~= Seq::<IssueV>::empty());
    none
}

// ── Events and actions ──────────────────────────────────────────────────────

/// How far a tick has come.
#[derive(Debug, Clone, Copy, PartialEq, Eq, Structural)]
pub enum PollPhase {
    Ready,
    AwaitingRunning,
    Reconciling,
    AwaitingCandidates,
    Considering,
    Over,
}

/// What happened during a tick.
#[derive(Debug)]
pub enum PollEvent {
    /// The tick is to begin.
    Start,
    /// The tracker was asked for the running issues; `None` where it could not be.
    RunningKnown(Option<Vec<Issue>>),
    /// The worker was stopped, and its workspace removed if that was asked for.
    WorkerStopped,
    /// The tracker was asked for candidates; `None` where it could not be.
    CandidatesKnown(Option<Vec<Issue>>),
    /// The taking up of the issue is over, one way or the other.
    TakenUp,
}

/// What happened, by its contents.
#[verifier::ext_equal]
pub enum PollEventV {
    Start,
    RunningKnown(Option<Seq<IssueV>>),
    WorkerStopped,
    CandidatesKnown(Option<Seq<IssueV>>),
    TakenUp,
}

impl View for PollEvent {
    type V = PollEventV;

    open spec fn view(&self) -> PollEventV {
        match self {
            PollEvent::Start => PollEventV::Start,
            PollEvent::RunningKnown(list) => PollEventV::RunningKnown(fetched_issues(*list)),
            PollEvent::WorkerStopped => PollEventV::WorkerStopped,
            PollEvent::CandidatesKnown(list) => PollEventV::CandidatesKnown(fetched_issues(*list)),
            PollEvent::TakenUp => PollEventV::TakenUp,
        }
    }
}

/// What to do next.
#[derive(Debug)]
pub enum PollAction {
    /// Ask the tracker for these issues.
    AskRunning { ids: Vec<String> },
    /// Stop the issue's worker, and remove its workspace where `clean` says so.
    StopWorker { issue: Issue, clean: bool },
    /// Ask the tracker for candidates.
    AskCandidates,
    /// Take up this issue.
    TakeUp(Issue),
    /// The tick is over; the fault of the configuration that cut it short, if any.
    Rest { fault: Option<ConfigError> },
    /// The event does not belong here.
    Ignore,
}

/// What to do next, by its contents.
#[verifier::ext_equal]
pub enum PollActionV {
    AskRunning { ids: Set<Seq<char>> },
    StopWorker { issue: IssueV, clean: bool },
    AskCandidates,
    TakeUp(IssueV),
    Rest { fault: Option<ConfigErrorV> },
    Ignore,
}

impl View for PollAction {
    type V = PollActionV;

    open spec fn view(&self) -> PollActionV {
        match self {
            PollAction::AskRunning { ids } => PollActionV::AskRunning {
                ids: texts(ids@).to_set(),
            },
            PollAction::StopWorker { issue, clean } => PollActionV::StopWorker {
                issue: issue@,
                clean: *clean,
            },
            PollAction::AskCandidates => PollActionV::AskCandidates,
            PollAction::TakeUp(issue) => PollActionV::TakeUp(issue@),
            PollAction::Rest { fault } => PollActionV::Rest {
                fault: opt_view(*fault),
            },
            PollAction::Ignore => PollActionV::Ignore,
        }
    }
}

// ── Tick ────────────────────────────────────────────────────────────────────

/// A tick of the polling loop.
#[derive(Debug)]
pub struct Poll {
    pub phase: PollPhase,
    /// The configuration with which candidates are considered.
    pub config: ServiceConfig,
    /// The issues that are gone through, from the last to the next one.
    pub pending: Vec<Issue>,
}

/// A tick by its contents; `rest` holds the issues still to be gone through, in
/// order.
#[verifier::ext_equal]
pub struct PollV {
    pub phase: PollPhase,
    pub config: ServiceConfigV,
    pub rest: Seq<IssueV>,
}

impl View for Poll {
    type V = PollV;

    open spec fn view(&self) -> PollV {
        PollV {
            phase: self.phase,
            config: self.config@,
            rest: issues(self.pending@).reverse(),
        }
    }
}

/// The end of a tick.
pub open spec fn tick_over(p: PollV, s: StateV, fault: Option<ConfigErrorV>) -> (
    PollV,
    StateV,
    PollActionV,
) {
    (
        PollV { phase: PollPhase::Over, rest: Seq::empty(), ..p },
        s,
        PollActionV::Rest { fault },
    )
}

/// The look at the configuration, once the running issues are settled.
pub open spec fn config_checked(p: PollV, s: StateV, config: ServiceConfigV) -> (
    PollV,
    StateV,
    PollActionV,
) {
    match dispatch_check(config) {
        Ok(_) => (
            PollV { phase: PollPhase::AwaitingCandidates, config, rest: Seq::empty() },
            s,
            PollActionV::AskCandidates,
        ),
        Err(e) => tick_over(p, s, Some(e)),
    }
}

/// What follows while the running issues are gone through: the next one whose worker
/// is to be stopped or, where there is none, the look at the configuration.
pub open spec fn reconciling(
    p: PollV,
    s: StateV,
    rest: Seq<IssueV>,
    config: ServiceConfigV,
    now: Timestamp,
) -> (PollV, StateV, PollActionV)
    decreases rest.len(),
{
    if rest.len() == 0 {
        config_checked(p, s, config)
    } else if reconciliation(rest[0], config) == Reconciliation::Keep {
        reconciling(p, s, rest.skip(1), config, now)
    } else {
        (
            PollV { phase: PollPhase::Reconciling, rest: rest.skip(1), ..p },
            reconciled(s, rest[0], config, now),
            PollActionV::StopWorker {
                issue: rest[0],
                clean: reconciliation(rest[0], config) == Reconciliation::StopAndClean,
            },
        )
    }
}

/// What follows while the candidates are gone through: the next one that is to be
/// taken up as things stand.
pub open spec fn considering(p: PollV, s: StateV, rest: Seq<IssueV>) -> (PollV, StateV, PollActionV)
    decreases rest.len(),
{
    if rest.len() == 0 {
        tick_over(p, s, None)
    } else if !eligible(s, rest[0], p.config) {
        considering(p, s, rest.skip(1))
    } else {
        (
            PollV { phase: PollPhase::Considering, rest: rest.skip(1), ..p },
            s,
            PollActionV::TakeUp(rest[0]),
        )
    }
}

/// What follows an event.
pub open spec fn poll_step(
    p: PollV,
    s: StateV,
    event: PollEventV,
    config: ServiceConfigV,
    now: Timestamp,
) -> (PollV, StateV, PollActionV) {
    match (event, p.phase) {
        (PollEventV::Start, PollPhase::Ready) => if s.running.dom() =~= Set::empty() {
            config_checked(p, s, config)
        } else {
            (
                PollV { phase: PollPhase::AwaitingRunning, ..p },
                s,
                PollActionV::AskRunning { ids: s.running.dom() },
            )
        },
        (PollEventV::RunningKnown(None), PollPhase::AwaitingRunning) => config_checked(
            p,
            s,
            config,
        ),
        (PollEventV::RunningKnown(Some(list)), PollPhase::AwaitingRunning) => reconciling(
            p,
            s,
            list,
            config,
            now,
        ),
        (PollEventV::WorkerStopped, PollPhase::Reconciling) => reconciling(
            p,
            s,
            p.rest,
            config,
            now,
        ),
        (PollEventV::CandidatesKnown(fetched), PollPhase::AwaitingCandidates) => considering(
            p,
            s,
            planned(p.config, fetched),
        ),
        (PollEventV::TakenUp, PollPhase::Considering) => considering(p, s, p.rest),
        _ => (p, s, PollActionV::Ignore),
    }
}

/// The next issue whose worker is to be stopped.
pub open spec fn next_to_stop(rest: Seq<IssueV>, config: ServiceConfigV) -> Option<IssueV>
    decreases rest.len(),
{
    if rest.len() == 0 {
        None
    } else if reconciliation(rest[0], config) == Reconciliation::Keep {
        next_to_stop(rest.skip(1), config)
    } else {
        Some(rest[0])
    }
}

/// The running issues that an event leaves to be gone through.
pub open spec fn left_to_reconcile(p: PollV, event: PollEventV) -> Seq<IssueV> {
    match (event, p.phase) {
        (PollEventV::RunningKnown(Some(list)), PollPhase::AwaitingRunning) => list,
        (PollEventV::WorkerStopped, PollPhase::Reconciling) => p.rest,
        _ => Seq::empty(),
    }
}

/// Whether the totals can take what the next worker that is to be stopped has used.
pub open spec fn stop_fits(
    s: StateV,
    rest: Seq<IssueV>,
    config: ServiceConfigV,
    now: Timestamp,
) -> bool {
    next_to_stop(rest, config) matches Some(issue) ==> s.exit_fits(issue.id, false, now)
}

/// Whether the totals can take what an event brings.
pub open spec fn poll_fits(
    p: PollV,
    s: StateV,
    event: PollEventV,
    config: ServiceConfigV,
    now: Timestamp,
) -> bool {
    stop_fits(s, left_to_reconcile(p, event), config, now)
}

/// A tick that is to begin.
pub open spec fn new_poll(config: ServiceConfigV) -> PollV {
    PollV { phase: PollPhase::Ready, config, rest: Seq::empty() }
}

fn reversed(list: Vec<Issue>) -> (r: Vec<Issue>)
    ensures
        issues(r@).reverse() == issues(list@),
{
    let ghost all = list@;
    let mut from: Vec<Issue> = list;
    let mut r: Vec<Issue> = Vec::new();
    while from.len() > 0
        invariant
            r.len() + from.len() == all.len(),
            from@ == all.take(from.len() as int),
            forall|k: int| 0 <= k < r.len() ==> #[trigger] r@[k] == all[all.len() - 1 - k],
        decreases from.len(),
    {
        let last: Option<Issue> = from.pop();
        if let Some(issue) = last {
            r.push(issue);
        }
        assert(from@ =~= all.take(from.len() as int));
    }
    assert(issues(r@).reverse() =~= issues(all));
    r
}

impl Poll {
    /// A tick that is to begin.
    pub fn new(config: ServiceConfig) -> (r: Poll)
        ensures
            r@ == new_poll(config@),
    {
        let r = Poll { phase: PollPhase::Ready, config, pending: Vec::new() };
        assert(r@.rest =~= Seq::<IssueV>::empty());
        r
    }

    fn drop_first(&mut self) -> (r: Option<Issue>)
        ensures
            final(self)@.phase == old(self)@.phase,
            final(self)@.config == old(self)@.config,
            old(self)@.rest.len() == 0 ==> r is None && final(self)@.rest == old(self)@.rest,
            old(self)@.rest.len() > 0 ==> r is Some && r->0@ == old(self)@.rest[0]
                && final(self)@.rest == old(self)@.rest.skip(1),
    {
        let r: Option<Issue> = self.pending.pop();
        assert(old(self)@.rest.len() > 0 ==> self@.rest =~= old(self)@.rest.skip(1));
        r
    }

    fn finish(&mut self, fault: Option<ConfigError>) -> (r: PollAction)
        ensures
            forall|s: StateV|
                (final(self)@, s, r@) == #[trigger] tick_over(
                    old(self)@,
                    s,
                    opt_view(fault),
                ),
    {
        self.phase = PollPhase::Over;
        self.pending = Vec::new();
        assert(self@.rest =~= Seq::<IssueV>::empty());
        PollAction::Rest { fault }
    }

    fn check_config(&mut self, config: &ServiceConfig) -> (r: PollAction)
        ensures
            forall|s: StateV|
                (final(self)@, s, r@) == #[trigger] config_checked(old(self)@, s, config@),
    {
        match config.validate_dispatch() {
            Ok(_) => {
                self.phase = PollPhase::AwaitingCandidates;
                self.config = config.clone();
                self.pending = Vec::new();
                assert(self@.rest =~= Seq::<IssueV>::empty());
                PollAction::AskCandidates
            },
            Err(e) => self.finish(Some(e)),
        }
    }

    fn reconcile(
        &mut self,
        state: &mut OrchestratorState,
        config: &ServiceConfig,
        now: Timestamp,
    ) -> (r: PollAction)
        requires
            stop_fits(old(state)@, old(self)@.rest, config@, now),
        ensures
            (final(self)@, final(state)@, r@) == reconciling(
                old(self)@,
                old(state)@,
                old(self)@.rest,
                config@,
                now,
            ),
    {
        let ghost start = self@;
        let ghost s = state@;
        loop
            invariant
                self@.phase == start.phase,
                self@.config == start.config,
                start == old(self)@,
                s == old(state)@,
                state@ == s,
                stop_fits(s, self@.rest, config@, now),
                reconciling(start, s, start.rest, config@, now) == reconciling(
                    start,
                    s,
                    self@.rest,
                    config@,
                    now,
                ),
            decreases self@.rest.len(),
        {
            let ghost before = self@;
            match self.drop_first() {
                None => {
                    let ghost empty = self@;
                    let r: PollAction = self.check_config(config);
                    assert((self@, s, r@) == config_checked(empty, s, config@));
                    return r;
                },
                Some(issue) => {
                    let verdict: Reconciliation = state.reconcile_issue(&issue, config, now);
                    if verdict != Reconciliation::Keep {
                        self.phase = PollPhase::Reconciling;
                        return PollAction::StopWorker {
                            issue,
                            clean: verdict == Reconciliation::StopAndClean,
                        };
                    }
                },
            }
        }
    }

    fn consider(&mut self, state: &OrchestratorState) -> (r: PollAction)
        ensures
            (final(self)@, state@, r@) == considering(old(self)@, state@, old(self)@.rest),
    {
        let ghost start = self@;
        loop
            invariant
                self@.phase == start.phase,
                self@.config == start.config,
                start == old(self)@,
                considering(start, state@, start.rest) == considering(
                    start,
                    state@,
                    self@.rest,
                ),
            decreases self@.rest.len(),
        {
            let ghost before = self@;
            match self.drop_first() {
                None => {
                    let r: PollAction = self.finish(None);
                    assert((self@, state@, r@) == tick_over(before, state@, None));
                    return r;
                },
                Some(issue) => if state.should_dispatch(&issue, &self.config) {
                    self.phase = PollPhase::Considering;
                    return PollAction::TakeUp(issue);
                },
            }
        }
    }

    /// Whether the totals can take what an event brings.
    pub fn can_step(
        &self,
        state: &OrchestratorState,
        event: &PollEvent,
        config: &ServiceConfig,
        now: Timestamp,
    ) -> (r: bool)
        ensures
            r == poll_fits(self@, state@, event@, config@, now),
    {
        match (event, self.phase) {
            (PollEvent::RunningKnown(Some(list)), PollPhase::AwaitingRunning) => {
                let mut i: usize = 0;
                assert(issues(list@).skip(0) =~= issues(list@));
                while i < list.len()
                    invariant
                        i <= list.len(),
                        poll_fits(self@, state@, event@, config@, now) == stop_fits(
                            state@,
                            issues(list@).skip(i as int),
                            config@,
                            now,
                        ),
                    decreases list.len() - i,
                {
                    assert(issues(list@).skip(i as int)[0] == list@[i as int]@);
                    assert(issues(list@).skip(i as int).skip(1) =~= issues(list@).skip(i + 1));
                    if is_to_stop(&list[i], config) {
                        return state.can_exit(list[i].id.as_str(), false, now);
                    }
                    i = i + 1;
                }
                true
            },
            (PollEvent::WorkerStopped, PollPhase::Reconciling) => {
                let ghost rest = self@.rest;
                let mut i: usize = self.pending.len();
                assert(rest.skip(0) =~= rest);
                while i > 0
                    invariant
                        i <= self.pending.len(),
                        rest == issues(self.pending@).reverse(),
                        poll_fits(self@, state@, event@, config@, now) == stop_fits(
                            state@,
                            rest.skip(self.pending.len() - i),
                            config@,
                            now,
                        ),
                    decreases i,
                {
                    let ghost done = self.pending.len() - i;
                    assert(rest.skip(done)[0] == self.pending@[i - 1]@);
                    assert(rest.skip(done).skip(1) =~= rest.skip(done + 1));
                    if is_to_stop(&self.pending[i - 1], config) {
                        return state.can_exit(self.pending[i - 1].id.as_str(), false, now);
                    }
                    i = i - 1;
                }
                true
            },
            _ => true,
        }
    }

    /// Takes an event, changes the state accordingly, and says what to do next.
    /// `config` is the configuration as it is now.
    pub fn step(
        &mut self,
        state: &mut OrchestratorState,
        event: PollEvent,
        config: &ServiceConfig,
        now: Timestamp,
    ) -> (r: PollAction)
        requires
            poll_fits(old(self)@, old(state)@, event@, config@, now),
        ensures
            (final(self)@, final(state)@, r@) == poll_step(
                old(self)@,
                old(state)@,
                event@,
                config@,
                now,
            ),
    {
        let ghost p = self@;
        let ghost s = state@;
        match (event, self.phase) {
            (PollEvent::Start, PollPhase::Ready) => {
                let ids: Vec<String> = state.running_ids();
                proof {
                    assert(texts(ids@).to_set() =~= s.running.dom());
                    if ids.len() > 0 {
                        assert(texts(ids@).contains(texts(ids@)[0]));
                        assert(s.running.dom().contains(texts(ids@)[0]));
                    }
                }
                if ids.len() == 0 {
                    assert(s.running.dom() =~= Set::empty());
                    let r: PollAction = self.check_config(config);
                    assert((self@, s, r@) == config_checked(p, s, config@));
                    r
                } else {
                    self.phase = PollPhase::AwaitingRunning;
                    PollAction::AskRunning { ids }
                }
            },
            (PollEvent::RunningKnown(None), PollPhase::AwaitingRunning) => {
                let r: PollAction = self.check_config(config);
                assert((self@, s, r@) == config_checked(p, s, config@));
                r
            },
            (PollEvent::RunningKnown(Some(list)), PollPhase::AwaitingRunning) => {
                let ghost known = issues(list@);
                self.pending = reversed(list);
                let ghost filled = self@;
                proof {
                    lemma_rest_is_free(p, filled, s, known, config@, now);
                }
                self.reconcile(state, config, now)
            },
            (PollEvent::WorkerStopped, PollPhase::Reconciling) => self.reconcile(
                state,
                config,
                now,
            ),
            (PollEvent::CandidatesKnown(fetched), PollPhase::AwaitingCandidates) => {
                let plan: Vec<Issue> = poll_plan(&self.config, fetched);
                let ghost ordered = issues(plan@);
                self.pending = reversed(plan);
                let ghost filled = self@;
                proof {
                    lemma_considered_is_free(p, filled, s, ordered);
                }
                self.consider(state)
            },
            (PollEvent::TakenUp, PollPhase::Considering) => self.consider(state),
            _ => PollAction::Ignore,
        }
    }
}

fn is_to_stop(issue: &Issue, config: &ServiceConfig) -> (r: bool)
    ensures
        r == (reconciliation(issue@, config@) != Reconciliation::Keep),
{
    issue.is_terminal(&config.tracker_terminal_states) || !issue.is_active(
        &config.tracker_active_states,
    )
}

proof fn lemma_rest_is_free(
    p: PollV,
    q: PollV,
    s: StateV,
    rest: Seq<IssueV>,
    config: ServiceConfigV,
    now: Timestamp,
)
    requires
        p.config == q.config,
    ensures
        reconciling(p, s, rest, config, now) == reconciling(q, s, rest, config, now),
    decreases rest.len(),
{
    if rest.len() > 0 {
        lemma_rest_is_free(p, q, s, rest.skip(1), config, now);
    }
}

proof fn lemma_considered_is_free(p: PollV, q: PollV, s: StateV, rest: Seq<IssueV>)
    requires
        p.config == q.config,
    ensures
        considering(p, s, rest) == considering(q, s, rest),
    decreases rest.len(),
{
    if rest.len() > 0 {
        lemma_considered_is_free(p, q, s, rest.skip(1));
    }
}

// ── Laws ────────────────────────────────────────────────────────────────────

/// What holds of a tick at every moment: candidates are awaited and considered only
/// with a sound configuration.
pub open spec fn is_sound(p: PollV) -> bool {
    p.phase == PollPhase::AwaitingCandidates || p.phase == PollPhase::Considering ==> dispatch_check(
        p.config,
    ) is Ok
}

/// Whether the issue at a place is the next to be taken up: it is eligible, and none
/// before it is.
pub open spec fn is_next(s: StateV, rest: Seq<IssueV>, config: ServiceConfigV, k: int) -> bool {
    &&& 0 <= k < rest.len()
    &&& eligible(s, rest[k], config)
    &&& forall|i: int| 0 <= i < k ==> !eligible(s, #[trigger] rest[i], config)
}

/// Of the candidates the first that is eligible as things stand is taken up, and only
/// those behind it are considered after it: each one at most once, in order. The tick
/// is over exactly where none is eligible.
pub proof fn law_candidates_are_considered_once(p: PollV, s: StateV, rest: Seq<IssueV>)
    ensures
        considering(p, s, rest).1 == s,
        considering(p, s, rest).2 matches PollActionV::TakeUp(issue) ==> exists|k: int| #[trigger]
            is_next(s, rest, p.config, k) && issue == rest[k] && considering(p, s, rest).0.rest
                == rest.skip(k + 1),
        considering(p, s, rest).2 is TakeUp || considering(p, s, rest).2 == (PollActionV::Rest {
            fault: None,
        }),
        considering(p, s, rest).2 is Rest <==> forall|i: int|
            0 <= i < rest.len() ==> !eligible(s, #[trigger] rest[i], p.config),
    decreases rest.len(),
{
    if rest.len() > 0 {
        let tail = rest.skip(1);
        if eligible(s, rest[0], p.config) {
            assert(is_next(s, rest, p.config, 0));
        } else {
            law_candidates_are_considered_once(p, s, tail);
            if considering(p, s, tail).2 is TakeUp {
                let issue = considering(p, s, tail).2->TakeUp_0;
                let k = choose|k: int| #[trigger]
                    is_next(s, tail, p.config, k) && issue == tail[k] && considering(
                        p,
                        s,
                        tail,
                    ).0.rest == tail.skip(k + 1);
                assert forall|i: int| 0 <= i < k + 1 implies !eligible(
                    s,
                    #[trigger] rest[i],
                    p.config,
                ) by {
                    if i > 0 {
                        assert(rest[i] == tail[i - 1]);
                    }
                }
                assert(tail.skip(k + 1) =~= rest.skip(k + 2));
                assert(is_next(s, rest, p.config, k + 1));
                assert(eligible(s, rest[k + 1], p.config));
            } else {
                assert forall|i: int| 0 <= i < rest.len() implies !eligible(
                    s,
                    #[trigger] rest[i],
                    p.config,
                ) by {
                    if i > 0 {
                        assert(rest[i] == tail[i - 1]);
                    }
                }
            }
        }
    }
}

proof fn lemma_reconciling(
    p: PollV,
    s: StateV,
    rest: Seq<IssueV>,
    config: ServiceConfigV,
    now: Timestamp,
)
    requires
        p.phase != PollPhase::AwaitingCandidates,
        p.phase != PollPhase::Considering,
    ensures
        is_sound(reconciling(p, s, rest, config, now).0),
        reconciling(p, s, rest, config, now).2 is AskCandidates ==> dispatch_check(config) is Ok
            && reconciling(p, s, rest, config, now).1 == s,
        !(reconciling(p, s, rest, config, now).2 is TakeUp),
    decreases rest.len(),
{
    if rest.len() > 0 {
        lemma_reconciling(p, s, rest.skip(1), config, now);
    }
}

proof fn lemma_considering(p: PollV, s: StateV, rest: Seq<IssueV>)
    requires
        dispatch_check(p.config) is Ok,
    ensures
        is_sound(considering(p, s, rest).0),
        considering(p, s, rest).1 == s,
        considering(p, s, rest).2 matches PollActionV::TakeUp(issue) ==> eligible(
            s,
            issue,
            p.config,
        ),
        !(considering(p, s, rest).2 is AskCandidates),
    decreases rest.len(),
{
    if rest.len() > 0 {
        lemma_considering(p, s, rest.skip(1));
    }
}

/// A tick asks for candidates only with a sound configuration, and takes up only what
/// is eligible at that moment; taking up, asking and resting leave the state alone.
/// With a faulty configuration, or where the candidates could not be had, it takes up
/// nothing.
pub proof fn law_ticks_are_sound(
    p: PollV,
    s: StateV,
    event: PollEventV,
    config: ServiceConfigV,
    now: Timestamp,
)
    requires
        is_sound(p),
    ensures
        is_sound(new_poll(config)),
        is_sound(poll_step(p, s, event, config, now).0),
        poll_step(p, s, event, config, now).2 is AskCandidates ==> dispatch_check(config) is Ok,
        poll_step(p, s, event, config, now).2 matches PollActionV::TakeUp(issue) ==> dispatch_check(
            p.config,
        ) is Ok && eligible(s, issue, p.config),
        !(poll_step(p, s, event, config, now).2 is StopWorker) ==> poll_step(
            p,
            s,
            event,
            config,
            now,
        ).1 == s,
        event == PollEventV::CandidatesKnown(None) ==> !(poll_step(p, s, event, config, now).2
            is TakeUp),
{
    match (event, p.phase) {
        (PollEventV::RunningKnown(Some(list)), PollPhase::AwaitingRunning) => {
            lemma_reconciling(p, s, list, config, now);
            lemma_reconciled_state(p, s, list, config, now);
        },
        (PollEventV::WorkerStopped, PollPhase::Reconciling) => {
            lemma_reconciling(p, s, p.rest, config, now);
            lemma_reconciled_state(p, s, p.rest, config, now);
        },
        (PollEventV::CandidatesKnown(fetched), PollPhase::AwaitingCandidates) => {
            lemma_considering(p, s, planned(p.config, fetched));
        },
        (PollEventV::TakenUp, PollPhase::Considering) => {
            lemma_considering(p, s, p.rest);
        },
        _ => {},
    }
}

proof fn lemma_reconciled_state(
    p: PollV,
    s: StateV,
    rest: Seq<IssueV>,
    config: ServiceConfigV,
    now: Timestamp,
)
    ensures
        match reconciling(p, s, rest, config, now).2 {
            PollActionV::StopWorker { issue, .. } => reconciling(p, s, rest, config, now).1
                == reconciled(s, issue, config, now),
            _ => reconciling(p, s, rest, config, now).1 == s,
        },
    decreases rest.len(),
{
    if rest.len() > 0 {
        lemma_reconciled_state(p, s, rest.skip(1), config, now);
    }
}

/// While the running issues are settled, the first worker whose issue is over is
/// stopped, and those behind it are settled after it; where none is left, the
/// configuration is looked at next.
pub proof fn law_running_issues_come_first(
    p: PollV,
    s: StateV,
    rest: Seq<IssueV>,
    config: ServiceConfigV,
    now: Timestamp,
)
    ensures
        next_to_stop(rest, config) is None ==> reconciling(p, s, rest, config, now)
            == config_checked(p, s, config),
        next_to_stop(rest, config) matches Some(issue) ==> {
            let (q, after, action) = reconciling(p, s, rest, config, now);
            &&& q.phase == PollPhase::Reconciling
            &&& q.rest.len() < rest.len()
            &&& after == reconciled(s, issue, config, now)
            &&& action == (PollActionV::StopWorker {
                issue,
                clean: reconciliation(issue, config) == Reconciliation::StopAndClean,
            })
        },
    decreases rest.len(),
{
    if rest.len() > 0 {
        law_running_issues_come_first(p, s, rest.skip(1), config, now);
    }
}

/// The candidates are considered in their order, all of them; none with a faulty
/// configuration or where the tracker could not be asked.
pub proof fn law_all_candidates_are_considered(
    config: ServiceConfigV,
    fetched: Seq<IssueV>,
    issue: IssueV,
)
    ensures
        dispatch_check(config) is Ok ==> planned(config, Some(fetched)).len() == fetched.len() && (
        planned(config, Some(fetched)).contains(issue) <==> fetched.contains(issue)),
        dispatch_check(config) is Ok ==> planned(config, Some(fetched)) == in_order(fetched),
        dispatch_check(config) is Err ==> planned(config, Some(fetched)).len() == 0,
        planned(config, None).len() == 0,
{
    law_ordering_keeps_the_issues(fetched);
}

/// A tick begins with the running issues, all of which the tracker is asked for; where
/// none runs, or the tracker does not know, the configuration is looked at at once. With
/// a sound configuration candidates are asked for, with a faulty one the tick is over and
/// its fault is told.
pub proof fn law_a_tick_begins_with_what_runs(
    p: PollV,
    s: StateV,
    config: ServiceConfigV,
    now: Timestamp,
    id: Seq<char>,
)
    ensures
        p.phase == PollPhase::Ready && s.running.contains_key(id) ==> {
            let (after, state, action) = poll_step(p, s, PollEventV::Start, config, now);
            &&& state == s
            &&& after.phase == PollPhase::AwaitingRunning
            &&& action matches PollActionV::AskRunning { ids } && forall|k: Seq<char>| #[trigger]
                ids.contains(k) <==> s.running.contains_key(k)
        },
        (p.phase == PollPhase::Ready && s.running.dom() =~= Set::<Seq<char>>::empty()) ==> {
            let (after, state, action) = poll_step(p, s, PollEventV::Start, config, now);
            &&& state == s
            &&& dispatch_check(config) is Ok ==> action is AskCandidates && after.phase
                == PollPhase::AwaitingCandidates && after.config == config
            &&& dispatch_check(config) matches Err(e) ==> action == (PollActionV::Rest {
                fault: Some(e),
            }) && after.phase == PollPhase::Over
        },
        p.phase == PollPhase::AwaitingRunning ==> {
            let (after, state, action) = poll_step(
                p,
                s,
                PollEventV::RunningKnown(None),
                config,
                now,
            );
            &&& state == s
            &&& dispatch_check(config) is Ok ==> action is AskCandidates && after.phase
                == PollPhase::AwaitingCandidates && after.config == config
            &&& dispatch_check(config) matches Err(e) ==> action == (PollActionV::Rest {
                fault: Some(e),
            })
        },
{
    if p.phase == PollPhase::Ready && s.running.contains_key(id) {
        assert(s.running.dom().contains(id));
        assert(!(s.running.dom() =~= Set::<Seq<char>>::empty()));
    }
}

/// Of the candidates that were had, the first in their order that may be taken up is
/// taken up, and after it the next one behind it; one that may not be is passed over.
pub proof fn law_the_first_fitting_candidate_is_taken(
    p: PollV,
    s: StateV,
    fetched: Seq<IssueV>,
    config: ServiceConfigV,
    now: Timestamp,
    k: int,
)
    requires
        p.phase == PollPhase::AwaitingCandidates,
        dispatch_check(p.config) is Ok,
        0 <= k < in_order(fetched).len(),
        eligible(s, in_order(fetched)[k], p.config),
        forall|i: int| 0 <= i < k ==> !eligible(s, #[trigger] in_order(fetched)[i], p.config),
    ensures
        ({
            let (after, state, action) = poll_step(
                p,
                s,
                PollEventV::CandidatesKnown(Some(fetched)),
                config,
                now,
            );
            &&& action == PollActionV::TakeUp(in_order(fetched)[k])
            &&& after.phase == PollPhase::Considering
            &&& after.rest == in_order(fetched).skip(k + 1)
            &&& after.config == p.config
            &&& state == s
        }),
{
    lemma_first_taken(p, s, in_order(fetched), k);
}

proof fn lemma_first_taken(p: PollV, s: StateV, rest: Seq<IssueV>, k: int)
    requires
        0 <= k < rest.len(),
        eligible(s, rest[k], p.config),
        forall|i: int| 0 <= i < k ==> !eligible(s, #[trigger] rest[i], p.config),
    ensures
        considering(p, s, rest) == (
            PollV { phase: PollPhase::Considering, rest: rest.skip(k + 1), ..p },
            s,
            PollActionV::TakeUp(rest[k]),
        ),
    decreases rest.len(),
{
    if k > 0 {
        assert(!eligible(s, rest[0], p.config));
        let tail = rest.skip(1);
        assert(tail[k - 1] == rest[k]);
        assert forall|i: int| 0 <= i < k - 1 implies !eligible(s, #[trigger] tail[i], p.config) by {
            assert(tail[i] == rest[i + 1]);
        }
        lemma_first_taken(p, s, tail, k - 1);
        assert(tail.skip(k) =~= rest.skip(k + 1));
    }
}

/// While the tracker's word on the running issues is gone through, the first of them that
/// is no longer active or is terminal has its worker stopped, with its workspace removed
/// where it is terminal; those before it go on, and those behind it are settled next.
pub proof fn law_the_first_issue_that_is_over_is_stopped(
    p: PollV,
    s: StateV,
    list: Seq<IssueV>,
    config: ServiceConfigV,
    now: Timestamp,
    k: int,
)
    requires
        p.phase == PollPhase::AwaitingRunning,
        0 <= k < list.len(),
        is_among(list[k].state, config.tracker_terminal_states) || !is_among(
            list[k].state,
            config.tracker_active_states,
        ),
        forall|i: int|
            0 <= i < k ==> !is_among(
                (#[trigger] list[i]).state,
                config.tracker_terminal_states,
            ) && is_among(list[i].state, config.tracker_active_states),
    ensures
        ({
            let (after, state, action) = poll_step(
                p,
                s,
                PollEventV::RunningKnown(Some(list)),
                config,
                now,
            );
            &&& action == (PollActionV::StopWorker {
                issue: list[k],
                clean: is_among(list[k].state, config.tracker_terminal_states),
            })
            &&& after.phase == PollPhase::Reconciling
            &&& after.rest == list.skip(k + 1)
            &&& !state.running.contains_key(list[k].id)
            &&& state.retry_attempts == s.retry_attempts
        }),
{
    lemma_first_stopped(p, s, list, config, now, k);
    law_over_is_over(list[k], config);
    law_reconciled(s, list[k], config, now, list[k].id);
}

proof fn lemma_first_stopped(
    p: PollV,
    s: StateV,
    rest: Seq<IssueV>,
    config: ServiceConfigV,
    now: Timestamp,
    k: int,
)
    requires
        0 <= k < rest.len(),
        is_among(rest[k].state, config.tracker_terminal_states) || !is_among(
            rest[k].state,
            config.tracker_active_states,
        ),
        forall|i: int|
            0 <= i < k ==> !is_among(
                (#[trigger] rest[i]).state,
                config.tracker_terminal_states,
            ) && is_among(rest[i].state, config.tracker_active_states),
    ensures
        reconciling(p, s, rest, config, now) == (
            PollV { phase: PollPhase::Reconciling, rest: rest.skip(k + 1), ..p },
            reconciled(s, rest[k], config, now),
            PollActionV::StopWorker {
                issue: rest[k],
                clean: reconciliation(rest[k], config) == Reconciliation::StopAndClean,
            },
        ),
    decreases rest.len(),
{
    law_over_is_over(rest[0], config);
    if k > 0 {
        let tail = rest.skip(1);
        assert(tail[k - 1] == rest[k]);
        assert forall|i: int| 0 <= i < k - 1 implies !is_among(
            (#[trigger] tail[i]).state,
            config.tracker_terminal_states,
        ) && is_among(tail[i].state, config.tracker_active_states) by {
            assert(tail[i] == rest[i + 1]);
        }
        lemma_first_stopped(p, s, tail, config, now, k - 1);
        assert(tail.skip(k) =~= rest.skip(k + 1));
    }
}

/// Where all running issues are still active none is stopped, and the configuration is
/// looked at.
pub proof fn law_active_issues_go_on(
    p: PollV,
    s: StateV,
    list: Seq<IssueV>,
    config: ServiceConfigV,
    now: Timestamp,
)
    requires
        p.phase == PollPhase::AwaitingRunning,
        forall|i: int|
            0 <= i < list.len() ==> !is_among(
                (#[trigger] list[i]).state,
                config.tracker_terminal_states,
            ) && is_among(list[i].state, config.tracker_active_states),
    ensures
        ({
            let (after, state, action) = poll_step(
                p,
                s,
                PollEventV::RunningKnown(Some(list)),
                config,
                now,
            );
            &&& state == s
            &&& dispatch_check(config) is Ok ==> action is AskCandidates
            &&& dispatch_check(config) matches Err(e) ==> action == (PollActionV::Rest {
                fault: Some(e),
            })
        }),
{
    lemma_all_kept(p, s, list, config, now);
}

proof fn lemma_all_kept(
    p: PollV,
    s: StateV,
    rest: Seq<IssueV>,
    config: ServiceConfigV,
    now: Timestamp,
)
    requires
        forall|i: int|
            0 <= i < rest.len() ==> !is_among(
                (#[trigger] rest[i]).state,
                config.tracker_terminal_states,
            ) && is_among(rest[i].state, config.tracker_active_states),
    ensures
        reconciling(p, s, rest, config, now) == config_checked(p, s, config),
    decreases rest.len(),
{
    if rest.len() > 0 {
        law_over_is_over(rest[0], config);
        let tail = rest.skip(1);
        assert forall|i: int| 0 <= i < tail.len() implies !is_among(
            (#[trigger] tail[i]).state,
            config.tracker_terminal_states,
        ) && is_among(tail[i].state, config.tracker_active_states) by {
            assert(tail[i] == rest[i + 1]);
        }
        lemma_all_kept(p, s, tail, config, now);
    }
}

/// After a worker was stopped, and after an issue was taken up, the rest is gone through
/// as at first: nothing is passed over and nothing comes twice.
pub proof fn law_the_rest_is_gone_through(
    p: PollV,
    s: StateV,
    config: ServiceConfigV,
    now: Timestamp,
    k: int,
)
    requires
        p.phase == PollPhase::Considering,
        0 <= k < p.rest.len(),
        eligible(s, p.rest[k], p.config),
        forall|i: int| 0 <= i < k ==> !eligible(s, #[trigger] p.rest[i], p.config),
    ensures
        poll_step(p, s, PollEventV::TakenUp, config, now) == (
            PollV { rest: p.rest.skip(k + 1), ..p },
            s,
            PollActionV::TakeUp(p.rest[k]),
        ),
{
    lemma_first_taken(p, s, p.rest, k);
}

/// The rest of the running issues is settled in the same way after each worker that was
/// stopped.
pub proof fn law_the_rest_is_settled(
    p: PollV,
    s: StateV,
    config: ServiceConfigV,
    now: Timestamp,
    k: int,
)
    requires
        p.phase == PollPhase::Reconciling,
        0 <= k < p.rest.len(),
        is_among(p.rest[k].state, config.tracker_terminal_states) || !is_among(
            p.rest[k].state,
            config.tracker_active_states,
        ),
        forall|i: int|
            0 <= i < k ==> !is_among(
                (#[trigger] p.rest[i]).state,
                config.tracker_terminal_states,
            ) && is_among(p.rest[i].state, config.tracker_active_states),
    ensures
        ({
            let (after, state, action) = poll_step(p, s, PollEventV::WorkerStopped, config, now);
            &&& action == (PollActionV::StopWorker {
                issue: p.rest[k],
                clean: is_among(p.rest[k].state, config.tracker_terminal_states),
            })
            &&& after.rest == p.rest.skip(k + 1)
            &&& !state.running.contains_key(p.rest[k].id)
        }),
{
    lemma_first_stopped(p, s, p.rest, config, now, k);
    law_over_is_over(p.rest[k], config);
    law_reconciled(s, p.rest[k], config, now, p.rest[k].id);
}

/// Where none of the candidates may be taken up, or the tracker could not be asked for
/// them, the tick is over without a fault.
pub proof fn law_nothing_to_take_up_ends_the_tick(
    p: PollV,
    s: StateV,
    fetched: Seq<IssueV>,
    config: ServiceConfigV,
    now: Timestamp,
)
    requires
        p.phase == PollPhase::AwaitingCandidates,
    ensures
        (forall|i: int| 0 <= i < fetched.len() ==> !eligible(s, #[trigger] fetched[i], p.config))
            ==> poll_step(p, s, PollEventV::CandidatesKnown(Some(fetched)), config, now) == (
            PollV { phase: PollPhase::Over, rest: Seq::empty(), ..p },
            s,
            PollActionV::Rest { fault: None },
        ),
        poll_step(p, s, PollEventV::CandidatesKnown(None), config, now) == (
            PollV { phase: PollPhase::Over, rest: Seq::empty(), ..p },
            s,
            PollActionV::Rest { fault: None },
        ),
{
    if forall|i: int| 0 <= i < fetched.len() ==> !eligible(s, #[trigger] fetched[i], p.config) {
        let list = planned(p.config, Some(fetched));
        law_ordering_keeps_the_issues(fetched);
        assert forall|i: int| 0 <= i < list.len() implies !eligible(
            s,
            #[trigger] list[i],
            p.config,
        ) by {
            assert(in_order(fetched).contains(list[i]));
            let k = choose|k: int| 0 <= k < fetched.len() && fetched[k] == list[i];
            assert(!eligible(s, fetched[k], p.config));
        }
        lemma_none_taken(p, s, list);
    }
}

proof fn lemma_none_taken(p: PollV, s: StateV, rest: Seq<IssueV>)
    requires
        forall|i: int| 0 <= i < rest.len() ==> !eligible(s, #[trigger] rest[i], p.config),
    ensures
        considering(p, s, rest) == tick_over(p, s, None),
    decreases rest.len(),
{
    if rest.len() > 0 {
        let tail = rest.skip(1);
        assert forall|i: int| 0 <= i < tail.len() implies !eligible(
            s,
            #[trigger] tail[i],
            p.config,
        ) by {
            assert(tail[i] == rest[i + 1]);
        }
        lemma_none_taken(p, s, tail);
    }
}

/// Once all were considered the tick is over; once all that ran were settled the
/// configuration is looked at.
pub proof fn law_the_end_of_the_rest(
    p: PollV,
    s: StateV,
    config: ServiceConfigV,
    now: Timestamp,
)
    requires
        p.rest.len() == 0,
    ensures
        p.phase == PollPhase::Considering ==> poll_step(p, s, PollEventV::TakenUp, config, now).2
            == (PollActionV::Rest { fault: None }),
        p.phase == PollPhase::Reconciling && dispatch_check(config) is Ok ==> poll_step(
            p,
            s,
            PollEventV::WorkerStopped,
            config,
            now,
        ).2 is AskCandidates,
        p.phase == PollPhase::Reconciling ==> (dispatch_check(config) matches Err(e) ==> poll_step(
            p,
            s,
            PollEventV::WorkerStopped,
            config,
            now,
        ).2 == (PollActionV::Rest { fault: Some(e) })),
{
}

/// A tick begins with nothing left over, and an event that does not belong to its phase
/// changes nothing.
pub proof fn law_ticks_begin_anew(
    p: PollV,
    s: StateV,
    event: PollEventV,
    config: ServiceConfigV,
    now: Timestamp,
)
    ensures
        new_poll(config).phase == PollPhase::Ready,
        new_poll(config).rest.len() == 0,
        new_poll(config).config == config,
        ({
            let belongs = match event {
                PollEventV::Start => p.phase == PollPhase::Ready,
                PollEventV::RunningKnown(_) => p.phase == PollPhase::AwaitingRunning,
                PollEventV::WorkerStopped => p.phase == PollPhase::Reconciling,
                PollEventV::CandidatesKnown(_) => p.phase == PollPhase::AwaitingCandidates,
                PollEventV::TakenUp => p.phase == PollPhase::Considering,
            };
            !belongs ==> poll_step(p, s, event, config, now) == (p, s, PollActionV::Ignore)
        }),
{
}

} // verus!
