use symphony::config::ServiceConfig;
use symphony::poll::{may_fetch, poll_plan, Poll, PollAction, PollEvent, PollPhase};
use symphony::types::{Issue, LiveSession, OrchestratorState, RunningEntry, Timestamp};

const NOW: Timestamp = Timestamp {
    seconds: 1_704_067_200,
    nanos: 0,
};

fn issue(id: &str, priority: i32, state: &str) -> Issue {
    Issue {
        id: id.into(),
        identifier: id.to_uppercase(),
        title: "t".into(),
        description: None,
        priority: Some(priority),
        state: state.into(),
        branch_name: None,
        url: None,
        labels: vec![],
        blocked_by: vec![],
        created_at: None,
        updated_at: None,
    }
}

fn config() -> ServiceConfig {
    ServiceConfig {
        mock_mode: true,
        ..ServiceConfig::default()
    }
}

fn faulty() -> ServiceConfig {
    ServiceConfig {
        codex_command: "".into(),
        ..config()
    }
}

fn running(id: &str) -> RunningEntry {
    RunningEntry {
        issue_id: id.into(),
        identifier: id.to_uppercase(),
        issue: issue(id, 1, "Todo"),
        session: LiveSession {
            codex_input_tokens: 3,
            ..LiveSession::default()
        },
        retry_attempt: None,
        started_at: NOW,
    }
}

fn state_with(ids: &[&str]) -> OrchestratorState {
    let mut state = OrchestratorState::new(&config());
    for id in ids {
        state.begin_run(running(id), true);
    }
    state
}

fn ids(list: &[Issue]) -> Vec<&str> {
    list.iter().map(|i| i.id.as_str()).collect()
}

#[test]
fn the_plan_of_a_tick() {
    let list = || {
        vec![
            issue("a", 3, "Todo"),
            issue("b", 1, "Todo"),
            issue("c", 2, "Done"),
        ]
    };
    assert!(may_fetch(&config()));
    assert!(!may_fetch(&faulty()));
    assert_eq!(ids(&poll_plan(&config(), Some(list()))), ["b", "c", "a"]);
    assert!(poll_plan(&faulty(), Some(list())).is_empty());
    assert!(poll_plan(&config(), None).is_empty());
}

#[test]
fn a_tick_goes_through_running_issues_and_candidates() {
    let c = config();
    let mut state = state_with(&["x", "y", "z"]);
    let mut poll = Poll::new(config());
    match poll.step(&mut state, PollEvent::Start, &c, NOW) {
        PollAction::AskRunning { mut ids } => {
            ids.sort();
            assert_eq!(ids, ["x", "y", "z"]);
        }
        other => panic!("{other:?}"),
    }
    let known = PollEvent::RunningKnown(Some(vec![
        issue("x", 1, "Todo"),
        issue("y", 1, "Done"),
        issue("z", 1, "Backlog"),
    ]));
    assert!(poll.can_step(&state, &known, &c, NOW));
    match poll.step(&mut state, known, &c, NOW) {
        PollAction::StopWorker { issue, clean } => {
            assert_eq!(issue.id, "y");
            assert!(clean);
        }
        other => panic!("{other:?}"),
    }
    assert!(poll.can_step(&state, &PollEvent::WorkerStopped, &c, NOW));
    match poll.step(&mut state, PollEvent::WorkerStopped, &c, NOW) {
        PollAction::StopWorker { issue, clean } => {
            assert_eq!(issue.id, "z");
            assert!(!clean);
        }
        other => panic!("{other:?}"),
    }
    assert_eq!(state.running_count(), 1);
    assert_eq!(state.codex_totals.input_tokens, 6);
    assert!(matches!(
        poll.step(&mut state, PollEvent::WorkerStopped, &c, NOW),
        PollAction::AskCandidates
    ));
    let found = PollEvent::CandidatesKnown(Some(vec![
        issue("late", 4, "Todo"),
        issue("x", 1, "Todo"),
        issue("done", 1, "Done"),
        issue("first", 2, "Todo"),
    ]));
    match poll.step(&mut state, found, &c, NOW) {
        PollAction::TakeUp(issue) => assert_eq!(issue.id, "first"),
        other => panic!("{other:?}"),
    }
    match poll.step(&mut state, PollEvent::TakenUp, &c, NOW) {
        PollAction::TakeUp(issue) => assert_eq!(issue.id, "late"),
        other => panic!("{other:?}"),
    }
    assert!(matches!(
        poll.step(&mut state, PollEvent::TakenUp, &c, NOW),
        PollAction::Rest { fault: None }
    ));
    assert_eq!(poll.phase, PollPhase::Over);
    assert!(matches!(
        poll.step(&mut state, PollEvent::Start, &c, NOW),
        PollAction::Ignore
    ));
}

#[test]
fn candidates_are_weighed_as_things_stand() {
    let c = config();
    let mut state = OrchestratorState::new(&c);
    state.max_concurrent_agents = 1;
    let mut poll = Poll::new(config());
    assert!(matches!(
        poll.step(&mut state, PollEvent::Start, &c, NOW),
        PollAction::AskCandidates
    ));
    let found = PollEvent::CandidatesKnown(Some(vec![
        issue("a", 1, "Todo"),
        issue("b", 2, "Todo"),
    ]));
    assert!(matches!(
        poll.step(&mut state, found, &c, NOW),
        PollAction::TakeUp(i) if i.id == "a"
    ));
    state.begin_run(running("a"), true);
    assert!(matches!(
        poll.step(&mut state, PollEvent::TakenUp, &c, NOW),
        PollAction::Rest { fault: None }
    ));
}

#[test]
fn ticks_that_are_cut_short() {
    let mut state = OrchestratorState::new(&config());
    let mut poll = Poll::new(config());
    match poll.step(&mut state, PollEvent::Start, &faulty(), NOW) {
        PollAction::Rest { fault: Some(e) } => {
            assert_eq!(Err(e.message()), faulty().validate_dispatch().map_err(|e| e.message()))
        }
        other => panic!("{other:?}"),
    }

    let c = config();
    let mut poll = Poll::new(config());
    let _ = poll.step(&mut state, PollEvent::Start, &c, NOW);
    assert!(matches!(
        poll.step(&mut state, PollEvent::CandidatesKnown(None), &c, NOW),
        PollAction::Rest { fault: None }
    ));

    let mut state = state_with(&["x"]);
    let mut poll = Poll::new(config());
    let _ = poll.step(&mut state, PollEvent::Start, &c, NOW);
    assert!(matches!(
        poll.step(&mut state, PollEvent::RunningKnown(None), &c, NOW),
        PollAction::AskCandidates
    ));
    assert_eq!(state.running_count(), 1);
}

#[test]
fn totals_of_stopped_workers_do_not_overflow() {
    let c = config();
    let mut state = state_with(&["x"]);
    let mut poll = Poll::new(config());
    let _ = poll.step(&mut state, PollEvent::Start, &c, NOW);
    state.codex_totals.input_tokens = u64::MAX;
    let done = PollEvent::RunningKnown(Some(vec![issue("x", 1, "Done")]));
    let active = PollEvent::RunningKnown(Some(vec![issue("x", 1, "Todo")]));
    assert!(!poll.can_step(&state, &done, &c, NOW));
    assert!(poll.can_step(&state, &active, &c, NOW));
}
