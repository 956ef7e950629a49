use symphony::config::ServiceConfig;
use symphony::dispatch::{
    default_prompt_for, Dispatch, DispatchAction, DispatchEvent, DispatchPhase,
};
use symphony::http::{api_refresh, api_state, health};
use symphony::orchestrator::{sort_issues, WorkerOutcome};
use symphony::reconcile::{Reconciliation, RetryDecision};
use symphony::types::{
    BlockerRef, Issue, LiveSession, OrchestratorState, RetryEntry, RunningEntry, Timestamp,
};

const NOW: Timestamp = Timestamp {
    seconds: 1_704_067_200,
    nanos: 0,
};

fn later(seconds: i64) -> Timestamp {
    Timestamp {
        seconds: NOW.seconds + seconds,
        nanos: 0,
    }
}

fn sample_issue() -> Issue {
    Issue {
        id: "issue-1".into(),
        identifier: "T-1".into(),
        title: "Retry me".into(),
        description: None,
        priority: Some(1),
        state: "Todo".into(),
        branch_name: None,
        url: None,
        labels: Vec::new(),
        blocked_by: Vec::new(),
        created_at: None,
        updated_at: None,
    }
}

fn issue(id: &str) -> Issue {
    Issue {
        id: id.into(),
        identifier: id.to_uppercase(),
        ..sample_issue()
    }
}

fn mock_config() -> ServiceConfig {
    ServiceConfig {
        mock_mode: true,
        mock_agent: true,
        ..ServiceConfig::default()
    }
}

fn entry(id: &str, state: &str) -> RunningEntry {
    let mut i = issue(id);
    i.state = state.into();
    RunningEntry {
        issue_id: id.into(),
        identifier: id.to_uppercase(),
        issue: i,
        session: LiveSession::default(),
        retry_attempt: None,
        started_at: NOW,
    }
}

fn retry(id: &str, attempt: u32, due_at_ms: u64, error: Option<&str>) -> RetryEntry {
    RetryEntry {
        issue_id: id.into(),
        identifier: id.to_uppercase(),
        attempt,
        due_at_ms,
        error: error.map(String::from),
    }
}

#[test]
fn test_should_dispatch_blocks_retrying_issue() {
    let config = mock_config();
    let mut state = OrchestratorState::new(&config);
    let issue = sample_issue();
    assert!(state.should_dispatch(&issue, &config));

    state.retry_attempts.insert(
        &issue.id,
        RetryEntry {
            issue_id: issue.id.clone(),
            identifier: issue.identifier.clone(),
            attempt: 1,
            due_at_ms: 10_000,
            error: Some("backoff".into()),
        },
    );

    assert!(!state.should_dispatch(&issue, &config));
}

#[test]
fn only_whole_active_issues_are_taken_up() {
    let config = mock_config();
    let state = OrchestratorState::new(&config);
    let refused = |change: &dyn Fn(&mut Issue)| {
        let mut i = sample_issue();
        change(&mut i);
        !state.should_dispatch(&i, &config)
    };
    assert!(refused(&|i| i.id = "".into()));
    assert!(refused(&|i| i.identifier = "".into()));
    assert!(refused(&|i| i.title = "".into()));
    assert!(refused(&|i| i.state = "".into()));
    assert!(refused(&|i| i.state = "In Review".into()));
    assert!(refused(&|i| i.state = "Done".into()));
    assert!(!refused(&|i| i.state = "IN progress".into()));
    let mut both = mock_config();
    both.tracker_terminal_states = vec!["todo".into()];
    assert!(!state.should_dispatch(&sample_issue(), &both));
}

#[test]
fn blockers_hold_back_issues_to_do() {
    let config = mock_config();
    let state = OrchestratorState::new(&config);
    let blocked = |s: Option<&str>, state_name: &str| {
        let mut i = sample_issue();
        i.state = state_name.into();
        i.blocked_by = vec![BlockerRef {
            id: None,
            identifier: None,
            state: s.map(String::from),
        }];
        !state.should_dispatch(&i, &config)
    };
    assert!(blocked(Some("In Progress"), "Todo"));
    assert!(blocked(None, "Todo"));
    assert!(!blocked(Some("DONE"), "Todo"));
    assert!(!blocked(Some("In Progress"), "todo"));
    assert!(!blocked(Some("In Progress"), "In Progress"));
}

#[test]
fn slots_are_limited() {
    let mut config = mock_config();
    config.agent_max_concurrent_agents = 2;
    let mut state = OrchestratorState::new(&config);
    state.begin_run(entry("a", "Todo"), true);
    assert_eq!(state.running_count(), 1);
    assert_eq!(state.available_slots(), 1);
    assert!(state.should_dispatch(&issue("b"), &config));
    config.agent_max_concurrent_agents_by_state.insert("todo", 1);
    assert!(!state.should_dispatch(&issue("b"), &config));
    let mut other = issue("b");
    other.state = "In Progress".into();
    assert!(state.should_dispatch(&other, &config));
    state.begin_run(entry("c", "In Progress"), true);
    assert_eq!(state.available_slots(), 0);
    assert!(!state.should_dispatch(&other, &config));
    state.begin_run(entry("d", "In Progress"), true);
    assert_eq!(state.available_slots(), 0);
}

#[test]
fn issues_in_hand_are_not_taken_up_again() {
    let config = mock_config();
    let mut state = OrchestratorState::new(&config);
    state.claim("a");
    assert!(!state.should_dispatch(&issue("a"), &config));
    state.release("a");
    assert!(state.should_dispatch(&issue("a"), &config));
    state.begin_run(entry("a", "Todo"), false);
    assert!(!state.should_dispatch(&issue("a"), &config));
}

#[test]
fn issues_are_sorted() {
    let make = |id: &str, priority: Option<i32>, seconds: Option<i64>, title: &str| Issue {
        id: id.into(),
        identifier: id.into(),
        title: title.into(),
        priority,
        created_at: seconds.map(|seconds| Timestamp { seconds, nanos: 0 }),
        ..sample_issue()
    };
    let sorted = sort_issues(vec![
        make("e", None, Some(1), "1"),
        make("d", Some(2), Some(5), "2"),
        make("c", Some(2), Some(4), "3"),
        make("b", Some(2), Some(4), "4"),
        make("b", Some(2), Some(4), "5"),
        make("z", Some(2), None, "6"),
        make("a", Some(1), Some(9), "7"),
    ]);
    let titles: Vec<&str> = sorted.iter().map(|i| i.title.as_str()).collect();
    assert_eq!(titles, vec!["7", "6", "4", "5", "3", "2", "1"]);
}

#[test]
fn retries_wait_second_by_second() {
    let config = mock_config();
    let mut state = OrchestratorState::new(&config);
    state.retry_attempts.insert("a", retry("a", 1, 1000, None));
    state
        .retry_attempts
        .insert("b", retry("b", 2, 1001, Some("e")));
    state
        .retry_attempts
        .insert("c", retry("c", 2, 10_000, Some("e")));
    let ready = state.tick_retries();
    assert_eq!(ready.len(), 1);
    assert_eq!(ready[0].issue_id, "a");
    assert!(state.claimed.contains("a"));
    assert!(!state.claimed.contains("b"));
    assert_eq!(state.retry_attempts.get("b").unwrap().due_at_ms, 1);
    assert_eq!(state.retry_attempts.get("c").unwrap().due_at_ms, 9_000);
    let ready = state.tick_retries();
    assert_eq!(ready.len(), 1);
    assert_eq!(ready[0].issue_id, "b");
    assert_eq!(ready[0].attempt, 2);
    assert_eq!(state.retry_attempts.len(), 1);
}

#[test]
fn a_worker_that_succeeds() {
    let config = mock_config();
    let mut state = OrchestratorState::new(&config);
    state.begin_run(entry("a", "Todo"), true);
    let outcome = WorkerOutcome::Normal {
        tokens_in: 5,
        tokens_out: 7,
        elapsed_nanos: 11,
    };
    assert!(state.can_finish(&outcome, 0));
    state.finish_worker("a", "A", outcome, 0, 300_000);
    assert_eq!(state.running_count(), 0);
    assert!(!state.claimed.contains("a"));
    assert!(state.completed.contains("a"));
    let r = state.retry_attempts.get("a").unwrap();
    assert_eq!((r.attempt, r.due_at_ms, r.error.clone()), (1, 1000, None));
    assert!(r.is_continuation());
    assert_eq!(state.codex_totals.input_tokens, 5);
    assert_eq!(state.codex_totals.output_tokens, 7);
    assert_eq!(state.codex_totals.total_tokens, 12);
    assert_eq!(state.codex_totals.nanos_running, 11);
    assert!(!state.should_dispatch(&issue("a"), &config));
}

#[test]
fn a_worker_that_fails() {
    let config = mock_config();
    let mut state = OrchestratorState::new(&config);
    let failure = |retry_attempt: Option<u32>| WorkerOutcome::Error {
        error: "boom".into(),
        retry_attempt,
        tokens_in: 1,
        tokens_out: 1,
        elapsed_nanos: 1,
    };
    state.begin_run(entry("a", "Todo"), true);
    state.finish_worker("a", "A", failure(None), 0, 300_000);
    let r = state.retry_attempts.get("a").unwrap();
    assert_eq!(
        (r.attempt, r.due_at_ms, r.error.as_deref()),
        (1, 10_000, Some("boom"))
    );
    assert!(!state.completed.contains("a"));
    assert!(!r.is_continuation());
    state.finish_worker("a", "A", failure(Some(2)), 9, 300_000);
    assert_eq!(state.retry_attempts.get("a").unwrap().attempt, 3);
    assert_eq!(state.retry_attempts.get("a").unwrap().due_at_ms, 40_000);
    state.finish_worker("a", "A", failure(None), 9, 300_000);
    assert_eq!(state.retry_attempts.get("a").unwrap().attempt, 10);
    assert_eq!(state.retry_attempts.get("a").unwrap().due_at_ms, 300_000);
    assert!(!state.can_finish(&failure(Some(u32::MAX)), 0));
    assert!(!state.can_finish(&failure(None), u32::MAX));
    state.codex_totals.total_tokens = u64::MAX - 1;
    assert!(!state.can_finish(&failure(None), 0));
}

#[test]
fn a_worker_that_is_taken_out() {
    let config = mock_config();
    let mut state = OrchestratorState::new(&config);
    let mut e = entry("a", "Todo");
    e.session.codex_input_tokens = 3;
    e.session.codex_output_tokens = 4;
    e.session.codex_total_tokens = 5;
    e.retry_attempt = Some(1);
    state.begin_run(e, true);
    assert!(state.can_exit("a", true, later(90)));
    state.handle_worker_exit("a", "prompt error", true, 300_000, later(90));
    assert_eq!(state.running_count(), 0);
    assert!(!state.claimed.contains("a"));
    assert_eq!(state.codex_totals.total_tokens, 5);
    assert_eq!(state.codex_totals.nanos_running, 90_000_000_000);
    let r = state.retry_attempts.get("a").unwrap();
    assert_eq!(
        (r.attempt, r.due_at_ms, r.error.as_deref()),
        (2, 20_000, Some("prompt error"))
    );
    state.handle_worker_exit("zzz", "x", true, 1, NOW);
    assert_eq!(state.retry_attempts.len(), 1);
}

#[test]
fn sessions_are_updated_while_they_run() {
    let config = mock_config();
    let mut state = OrchestratorState::new(&config);
    state.begin_run(entry("a", "Todo"), true);
    let session = LiveSession {
        turn_count: 4,
        ..LiveSession::default()
    };
    state.update_session("a", session.clone());
    state.update_session("b", session);
    assert_eq!(state.running.get("a").unwrap().session.turn_count, 4);
    assert_eq!(state.running_count(), 1);
}

#[test]
fn the_tracker_stops_workers() {
    let config = mock_config();
    let mut state = OrchestratorState::new(&config);
    for id in ["a", "b", "c"] {
        state.begin_run(entry(id, "Todo"), true);
    }
    assert_eq!(state.running_ids(), vec!["a", "b", "c"]);
    let seen = |id: &str, name: &str| {
        let mut i = issue(id);
        i.state = name.into();
        i
    };
    assert_eq!(
        state.reconcile_issue(&seen("a", "Done"), &config, later(1)),
        Reconciliation::StopAndClean
    );
    assert_eq!(
        state.reconcile_issue(&seen("b", "Backlog"), &config, later(1)),
        Reconciliation::Stop
    );
    assert_eq!(
        state.reconcile_issue(&seen("c", "In Progress"), &config, later(1)),
        Reconciliation::Keep
    );
    assert_eq!(state.running_ids(), vec!["c"]);
    assert!(!state.claimed.contains("a"));
    assert!(state.claimed.contains("c"));
    assert_eq!(state.retry_attempts.len(), 0);
    assert_eq!(state.codex_totals.nanos_running, 2_000_000_000);
}

#[test]
fn continuation_checks_give_the_claim_back() {
    let config = mock_config();
    let mut state = OrchestratorState::new(&config);
    let r = retry("a", 1, 0, None);
    let mut done = issue("a");
    done.state = "done".into();
    done.identifier = "NEW-1".into();
    for (refreshed, clean) in [
        (None, None),
        (Some(vec![]), None),
        (Some(vec![issue("a")]), None),
        (Some(vec![done.clone(), issue("a")]), Some("NEW-1")),
    ] {
        state.claim("a");
        let got = state.settle_continuation(&r, refreshed.as_ref(), &config.tracker_terminal_states);
        assert_eq!(got.as_deref(), clean);
        assert!(!state.claimed.contains("a"));
    }
}

#[test]
fn due_retries_are_decided_about() {
    let config = mock_config();
    let mut state = OrchestratorState::new(&config);
    let r = retry("a", 3, 0, Some("boom"));
    state.claim("a");
    assert!(matches!(state.decide_retry(&r, None), RetryDecision::PutBack));
    let back = state.retry_attempts.get("a").unwrap();
    assert_eq!(
        (back.attempt, back.due_at_ms, back.error.as_deref()),
        (3, 30_000, Some("retry poll failed"))
    );
    assert!(state.claimed.contains("a"));
    let _ = state.retry_attempts.remove("a");
    match state.decide_retry(&r, Some(&vec![issue("b"), issue("a")])) {
        RetryDecision::TakeUp(i) => assert_eq!(i.id, "a"),
        other => panic!("{other:?}"),
    }
    state.begin_run(entry("a", "Todo"), true);
    assert!(matches!(
        state.decide_retry(&r, Some(&vec![issue("a")])),
        RetryDecision::PutBack
    ));
    let back = state.retry_attempts.get("a").unwrap();
    assert_eq!(
        (back.due_at_ms, back.error.as_deref()),
        (5_000, Some("boom"))
    );
    assert!(matches!(
        state.decide_retry(&r, Some(&vec![issue("b")])),
        RetryDecision::Released
    ));
    assert!(!state.claimed.contains("a"));
}

#[test]
fn a_candidate_is_taken_up() {
    let mut config = mock_config();
    config.tracker_claim_state = Some("In Progress".into());
    config.prompt_template = "T".into();
    let mut state = OrchestratorState::new(&config);
    let mut d = Dispatch::candidate(issue("a"), None);
    assert!(matches!(
        d.step(&mut state, DispatchEvent::Start, &config, NOW),
        DispatchAction::AcquirePermit
    ));
    assert!(state.claimed.contains("a"));
    match d.step(&mut state, DispatchEvent::PermitGranted, &config, NOW) {
        DispatchAction::Transition { state_name } => assert_eq!(state_name, "In Progress"),
        other => panic!("{other:?}"),
    }
    assert!(matches!(
        d.step(&mut state, DispatchEvent::Transitioned, &config, NOW),
        DispatchAction::CreateWorkspace
    ));
    match d.step(
        &mut state,
        DispatchEvent::WorkspaceReady { path: "/p".into() },
        &config,
        NOW,
    ) {
        DispatchAction::RunHook { path } => assert_eq!(path, "/p"),
        other => panic!("{other:?}"),
    }
    assert_eq!(state.running_count(), 0);
    match d.step(&mut state, DispatchEvent::HookDone, &config, later(3)) {
        DispatchAction::RenderPrompt { template, attempt } => {
            assert_eq!(template, "T");
            assert_eq!(attempt, None);
        }
        other => panic!("{other:?}"),
    }
    assert_eq!(state.running.get("a").unwrap().started_at, later(3));
    match d.step(&mut state, DispatchEvent::Rendered("P".into()), &config, NOW) {
        DispatchAction::StartWorker {
            prompt,
            path,
            attempt,
        } => {
            assert_eq!(prompt, "P");
            assert_eq!(path, "/p");
            assert_eq!(attempt, None);
        }
        other => panic!("{other:?}"),
    }
    assert_eq!(d.phase, DispatchPhase::Over);
    assert!(matches!(
        d.step(&mut state, DispatchEvent::HookDone, &config, NOW),
        DispatchAction::Ignore
    ));
}

#[test]
fn a_candidate_without_template_or_claim_state() {
    let config = mock_config();
    let mut state = OrchestratorState::new(&config);
    let mut d = Dispatch::candidate(sample_issue(), None);
    let _ = d.step(&mut state, DispatchEvent::Start, &config, NOW);
    assert!(matches!(
        d.step(&mut state, DispatchEvent::PermitGranted, &config, NOW),
        DispatchAction::CreateWorkspace
    ));
    let ready = DispatchEvent::WorkspaceReady { path: "/p".into() };
    let _ = d.step(&mut state, ready, &config, NOW);
    match d.step(&mut state, DispatchEvent::HookDone, &config, NOW) {
        DispatchAction::StartWorker { prompt, .. } => {
            assert_eq!(prompt, "You are working on issue T-1: Retry me.")
        }
        other => panic!("{other:?}"),
    }
    assert_eq!(
        default_prompt_for(&sample_issue()),
        "You are working on issue T-1: Retry me."
    );
}

fn walk(d: &mut Dispatch, state: &mut OrchestratorState, config: &ServiceConfig, phase: DispatchPhase) {
    let events = vec![
        DispatchEvent::Start,
        DispatchEvent::PermitGranted,
        DispatchEvent::Transitioned,
        DispatchEvent::WorkspaceReady { path: "/p".into() },
        DispatchEvent::HookDone,
    ];
    for event in events {
        if d.phase == phase {
            break;
        }
        let _ = d.step(state, event, config, NOW);
    }
    assert_eq!(d.phase, phase);
}

#[test]
fn candidates_that_fail_are_scheduled() {
    let mut config = mock_config();
    config.tracker_claim_state = Some("In Progress".into());
    config.prompt_template = "T".into();
    for (phase, event, error, attempt) in [
        (
            DispatchPhase::AwaitingPermit,
            DispatchEvent::PermitRefused,
            "no available slots",
            4,
        ),
        (
            DispatchPhase::AwaitingTransition,
            DispatchEvent::TransitionFailed("x".into()),
            "claim transition: x",
            5,
        ),
        (
            DispatchPhase::AwaitingWorkspace,
            DispatchEvent::WorkspaceFailed("x".into()),
            "workspace error: x",
            5,
        ),
        (
            DispatchPhase::AwaitingHook,
            DispatchEvent::HookFailed("x".into()),
            "before_run hook: x",
            5,
        ),
        (
            DispatchPhase::AwaitingPrompt,
            DispatchEvent::RenderFailed("x".into()),
            "prompt error",
            5,
        ),
    ] {
        let mut state = OrchestratorState::new(&config);
        let mut d = Dispatch::candidate(issue("a"), Some(4));
        walk(&mut d, &mut state, &config, phase);
        assert!(d.can_step(&state, &event, NOW));
        assert!(matches!(
            d.step(&mut state, event, &config, NOW),
            DispatchAction::GiveUp
        ));
        let r = state.retry_attempts.get("a").unwrap();
        assert_eq!(r.error.as_deref(), Some(error));
        assert_eq!(r.attempt, attempt);
        assert!(r.due_at_ms >= 80_000);
        assert!(!state.claimed.contains("a"));
        assert_eq!(state.running_count(), 0);
    }
    let state = OrchestratorState::new(&config);
    let d = Dispatch::candidate(issue("a"), Some(u32::MAX));
    assert!(d.can_step(&state, &DispatchEvent::Start, NOW));
    assert!(!d.can_step(&state, &DispatchEvent::HookFailed("x".into()), NOW));
}

#[test]
fn retries_that_fail_wait_again() {
    let mut config = mock_config();
    config.tracker_claim_state = Some("In Progress".into());
    config.prompt_template = "T".into();
    for (phase, event, error) in [
        (
            DispatchPhase::AwaitingPermit,
            DispatchEvent::PermitRefused,
            "no available slots",
        ),
        (
            DispatchPhase::AwaitingTransition,
            DispatchEvent::TransitionFailed("x".into()),
            "claim transition: x",
        ),
        (
            DispatchPhase::AwaitingWorkspace,
            DispatchEvent::WorkspaceFailed("x".into()),
            "workspace error: x",
        ),
        (
            DispatchPhase::AwaitingHook,
            DispatchEvent::HookFailed("x".into()),
            "before_run hook: x",
        ),
        (
            DispatchPhase::AwaitingPrompt,
            DispatchEvent::RenderFailed("x".into()),
            "prompt render: x",
        ),
    ] {
        let mut state = OrchestratorState::new(&config);
        state.claim("a");
        let mut d = Dispatch::retry(issue("a"), retry("a", 7, 0, Some("old")));
        walk(&mut d, &mut state, &config, phase);
        assert!(matches!(
            d.step(&mut state, event, &config, NOW),
            DispatchAction::GiveUp
        ));
        let r = state.retry_attempts.get("a").unwrap();
        assert_eq!(
            (r.attempt, r.due_at_ms, r.error.as_deref()),
            (7, 30_000, Some(error))
        );
        assert!(state.claimed.contains("a"));
        assert_eq!(state.running_count(), 0);
    }
}

#[test]
fn a_retry_runs_once_its_prompt_is_there() {
    let mut config = mock_config();
    config.prompt_template = "T".into();
    let mut state = OrchestratorState::new(&config);
    let mut d = Dispatch::retry(issue("a"), retry("a", 7, 0, Some("old")));
    walk(&mut d, &mut state, &config, DispatchPhase::AwaitingPrompt);
    assert_eq!(state.running_count(), 0);
    match d.step(&mut state, DispatchEvent::Rendered("P".into()), &config, NOW) {
        DispatchAction::StartWorker { attempt, .. } => assert_eq!(attempt, Some(7)),
        other => panic!("{other:?}"),
    }
    assert_eq!(state.running.get("a").unwrap().retry_attempt, Some(7));
    assert!(state.claimed.contains("a"));
}

#[test]
fn the_report_on_the_state() {
    let config = mock_config();
    let mut state = OrchestratorState::new(&config);
    let mut e = entry("a", "Todo");
    e.session.codex_input_tokens = 2;
    e.session.codex_output_tokens = 3;
    e.session.session_id = Some("s".into());
    e.session.last_codex_timestamp = Some(later(1));
    state.begin_run(e, true);
    state
        .retry_attempts
        .insert("b", retry("b", 2, 1500, Some("e")));
    state.codex_totals.input_tokens = 9;
    let report = api_state(&state, later(2));
    assert_eq!(report.generated_at, "2024-01-01T00:00:02+00:00");
    assert_eq!(report.running_count, 1);
    assert_eq!(report.retrying_count, 1);
    let r = &report.running[0];
    assert_eq!(r.issue_id, "a");
    assert_eq!(r.issue_identifier, "A");
    assert_eq!(r.state, "Todo");
    assert_eq!(r.session_id.as_deref(), Some("s"));
    assert_eq!(r.started_at, "2024-01-01T00:00:00+00:00");
    assert_eq!(
        r.last_event_at.as_deref(),
        Some("2024-01-01T00:00:01+00:00")
    );
    assert_eq!(r.tokens.total_tokens, 5);
    let w = &report.retrying[0];
    assert_eq!(w.issue_id, "b");
    assert_eq!(w.due_at, "1500ms");
    assert_eq!(w.attempt, 2);
    assert_eq!(w.error.as_deref(), Some("e"));
    assert_eq!(report.codex_totals.input_tokens, 9);
    let refresh = api_refresh(NOW);
    assert!(refresh.queued);
    assert_eq!(refresh.requested_at, "2024-01-01T00:00:00+00:00");
    assert_eq!(health(), "ok");
    let beyond = api_refresh(Timestamp {
        seconds: i64::MAX,
        nanos: 0,
    });
    assert_eq!(beyond.requested_at, "");
}
