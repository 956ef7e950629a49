use symphony::agent_runner::AgentOutcome;
use symphony::config::ServiceConfig;
use symphony::logging::{LogFormat, LogVerbosity};
use symphony::mock_agent::{mock_agent_events, run_mock_agent};
use symphony::orchestrator::WorkerOutcome;
use symphony::setup::{
    apply_overrides, linear_client, logging_config, sample_tracker, workspace_manager, Overrides,
};
use symphony::types::{Issue, LiveSession, RunningEntry, Timestamp};
use symphony::worker::{
    agent_runner_config, worker_issue, Worker, WorkerAction, WorkerEvent, WorkerMoment,
};

const NOW: Timestamp = Timestamp {
    seconds: 0,
    nanos: 0,
};

fn at(elapsed_nanos: u64) -> WorkerMoment {
    WorkerMoment {
        elapsed_nanos,
        cancelled: false,
    }
}

fn called_off() -> WorkerMoment {
    WorkerMoment {
        elapsed_nanos: 0,
        cancelled: true,
    }
}

fn config() -> ServiceConfig {
    ServiceConfig {
        agent_max_turns: 3,
        ..ServiceConfig::default()
    }
}

fn entry(tokens_in: u64, tokens_out: u64) -> RunningEntry {
    RunningEntry {
        issue_id: "a".into(),
        identifier: "A".into(),
        issue: worker_issue("a", "A"),
        session: LiveSession {
            codex_input_tokens: tokens_in,
            codex_output_tokens: tokens_out,
            ..LiveSession::default()
        },
        retry_attempt: None,
        started_at: NOW,
    }
}

fn normal(total_turns: u32) -> WorkerEvent {
    WorkerEvent::AgentDone(AgentOutcome::Normal {
        entry: entry(10, 20),
        total_turns,
    })
}

fn seen(state: &str) -> WorkerEvent {
    let mut i: Issue = worker_issue("a", "A");
    i.state = state.into();
    WorkerEvent::Refreshed(Some(vec![i]))
}

fn reported(action: WorkerAction) -> WorkerOutcome {
    match action {
        WorkerAction::Report(outcome) => outcome,
        other => panic!("{other:?}"),
    }
}

#[test]
fn made_up_work() {
    let mut c = config();
    c.mock_agent = true;
    let mut w = Worker::new(&c, "p".into(), None);
    assert!(matches!(
        w.step(WorkerEvent::Start, at(0)),
        WorkerAction::RunMock
    ));
    assert!(matches!(
        w.step(WorkerEvent::MockDone, at(9)),
        WorkerAction::RunAfterHook
    ));
    match reported(w.step(WorkerEvent::HookDone, at(10))) {
        WorkerOutcome::Normal {
            tokens_in,
            tokens_out,
            elapsed_nanos,
        } => assert_eq!((tokens_in, tokens_out, elapsed_nanos), (500, 1200, 9)),
        other => panic!("{other:?}"),
    }
    assert!(matches!(
        w.step(WorkerEvent::HookDone, at(0)),
        WorkerAction::Ignore
    ));
}

#[test]
fn work_goes_on_until_the_turns_are_used_up() {
    let mut w = Worker::new(&config(), "p".into(), Some(4));
    match w.step(WorkerEvent::Start, at(0)) {
        WorkerAction::RunAgent { prompt, attempt } => {
            assert_eq!(prompt, "p");
            assert_eq!(attempt, Some(4));
        }
        other => panic!("{other:?}"),
    }
    assert!(matches!(w.step(normal(1), at(1)), WorkerAction::Refresh));
    match w.step(seen("todo"), at(2)) {
        WorkerAction::RunAgent { prompt, attempt } => {
            assert_eq!(prompt, "Continue working on the task. Turn 2/3.");
            assert_eq!(attempt, None);
        }
        other => panic!("{other:?}"),
    }
    assert!(matches!(w.step(normal(3), at(3)), WorkerAction::Refresh));
    assert!(matches!(
        w.step(WorkerEvent::Refreshed(None), at(4)),
        WorkerAction::RunAfterHook
    ));
    match reported(w.step(WorkerEvent::HookDone, at(5))) {
        WorkerOutcome::Normal {
            tokens_in,
            tokens_out,
            elapsed_nanos,
        } => assert_eq!((tokens_in, tokens_out, elapsed_nanos), (20, 40, 4)),
        other => panic!("{other:?}"),
    }
}

#[test]
fn work_stops_where_the_issue_is_no_longer_active() {
    let mut w = Worker::new(&config(), "p".into(), None);
    let _ = w.step(WorkerEvent::Start, at(0));
    let _ = w.step(normal(1), at(0));
    assert!(matches!(
        w.step(seen("In Review"), at(0)),
        WorkerAction::RunAfterHook
    ));
    for refreshed in [None, Some(vec![])] {
        let mut w = Worker::new(&config(), "p".into(), None);
        let _ = w.step(WorkerEvent::Start, at(0));
        let _ = w.step(normal(1), at(0));
        assert!(matches!(
            w.step(WorkerEvent::Refreshed(refreshed), at(0)),
            WorkerAction::RunAgent { .. }
        ));
    }
}

#[test]
fn success_moves_the_issue() {
    let mut c = config();
    c.tracker_completion_state = Some("In Review".into());
    let mut w = Worker::new(&c, "p".into(), None);
    let _ = w.step(WorkerEvent::Start, at(0));
    let _ = w.step(normal(1), at(0));
    let _ = w.step(seen("Done"), at(0));
    match w.step(WorkerEvent::HookDone, at(0)) {
        WorkerAction::Complete { state_name } => assert_eq!(state_name, "In Review"),
        other => panic!("{other:?}"),
    }
    assert!(matches!(
        reported(w.step(WorkerEvent::MoveTried, at(0))),
        WorkerOutcome::Normal { .. }
    ));
}

#[test]
fn success_moves_an_issue_that_is_still_active() {
    let mut c = config();
    c.agent_max_turns = 20;
    c.tracker_completion_state = Some("In Review".into());
    for refreshed in [
        seen("In Progress"),
        WorkerEvent::Refreshed(None),
        WorkerEvent::Refreshed(Some(vec![])),
    ] {
        let mut w = Worker::new(&c, "p".into(), None);
        let _ = w.step(WorkerEvent::Start, at(0));
        assert!(matches!(w.step(normal(1), at(1)), WorkerAction::Refresh));
        assert!(matches!(
            w.step(refreshed, at(2)),
            WorkerAction::RunAfterHook
        ));
        assert!(matches!(
            w.step(WorkerEvent::HookDone, at(3)),
            WorkerAction::Complete { .. }
        ));
        match reported(w.step(WorkerEvent::MoveTried, at(4))) {
            WorkerOutcome::Normal {
                tokens_in,
                tokens_out,
                ..
            } => assert_eq!((tokens_in, tokens_out), (10, 20)),
            other => panic!("{other:?}"),
        }
    }
}

#[test]
fn failure_is_reported_with_what_was_used() {
    let mut c = config();
    c.tracker_completion_state = Some("In Review".into());
    for outcome in [
        AgentOutcome::Error {
            error: "boom".into(),
            entry: entry(1, 2),
        },
        AgentOutcome::Cancelled {
            reason: "boom".into(),
            entry: entry(1, 2),
        },
    ] {
        let mut w = Worker::new(&c, "p".into(), Some(6));
        let _ = w.step(WorkerEvent::Start, at(0));
        assert!(matches!(
            w.step(WorkerEvent::AgentDone(outcome), at(5)),
            WorkerAction::RunAfterHook
        ));
        match reported(w.step(WorkerEvent::HookDone, at(6))) {
            WorkerOutcome::Error {
                error,
                retry_attempt,
                tokens_in,
                tokens_out,
                elapsed_nanos,
            } => {
                assert_eq!(error, "boom");
                assert_eq!(retry_attempt, Some(6));
                assert_eq!((tokens_in, tokens_out, elapsed_nanos), (1, 2, 5));
            }
            other => panic!("{other:?}"),
        }
    }
}

#[test]
fn work_that_is_called_off_reports_nothing() {
    let mut w = Worker::new(&config(), "p".into(), None);
    assert!(matches!(
        w.step(WorkerEvent::Start, called_off()),
        WorkerAction::Abandon
    ));
    let mut w = Worker::new(&config(), "p".into(), None);
    let _ = w.step(WorkerEvent::Start, at(0));
    let _ = w.step(normal(9), at(0));
    assert!(matches!(
        w.step(seen("Done"), called_off()),
        WorkerAction::Abandon
    ));
    let mut w = Worker::new(&config(), "p".into(), None);
    let _ = w.step(WorkerEvent::Start, at(0));
    let _ = w.step(normal(9), at(0));
    let _ = w.step(seen("Done"), at(0));
    assert!(matches!(
        w.step(WorkerEvent::HookDone, called_off()),
        WorkerAction::Abandon
    ));
}

#[test]
fn counts_of_a_worker_do_not_overflow() {
    let mut w = Worker::new(&config(), "p".into(), None);
    let _ = w.step(WorkerEvent::Start, at(0));
    w.tokens_in = u64::MAX;
    assert!(matches!(w.step(normal(1), at(0)), WorkerAction::Overflow));
    w.tokens_in = 0;
    assert!(matches!(
        w.step(normal(u32::MAX), at(0)),
        WorkerAction::Overflow
    ));
}

#[test]
fn the_agent_runs_as_configured() {
    let mut c = config();
    c.tracker_completion_state = Some("In Review".into());
    c.codex_thread_sandbox = None;
    let a = agent_runner_config(&c, "/p", "1.0");
    assert_eq!(a.command, "codex app-server");
    assert_eq!(a.workspace_path, "/p");
    assert_eq!(a.approval_policy, "never");
    assert_eq!(a.thread_sandbox, "");
    assert_eq!(a.turn_sandbox_policy, "workspace-write");
    assert_eq!(a.stall_timeout_ms, 300_000);
    assert_eq!(a.max_turns, 3);
    assert_eq!(a.max_run_ms, None);
    assert!(a.stop_after_first_turn);
    assert_eq!(a.client_version, "1.0");
}

#[test]
fn a_made_up_session() {
    let events = mock_agent_events("issue-1");
    let list = events.as_list().unwrap();
    assert_eq!(list.len(), 6);
    assert_eq!(
        list[0]
            .get("params")
            .unwrap()
            .get("message")
            .unwrap()
            .as_text(),
        Some("Starting work on issue-1")
    );
    assert_eq!(list[5].get("id").unwrap().as_u64(), Some(3));
    let file = run_mock_agent("/p", "issue-1");
    assert_eq!(file.path, "/p/.symphony_agent_control");
    assert_eq!(
        symphony::json::parse_json(&file.content),
        Some(events)
    );
    assert!(file.content.starts_with("[\n  {\n    \"method\": \"notification\",\n"));
}

#[test]
fn the_command_line_has_its_say() {
    let overrides = Overrides {
        workspace_root: Some("/root".into()),
        mock_tracker: true,
        mock_agent: true,
    };
    let c = apply_overrides(config(), overrides, "T".into());
    assert_eq!(c.workspace_root, "/root");
    assert!(c.mock_mode && c.mock_agent);
    assert_eq!(c.prompt_template, "T");
    let none = Overrides {
        workspace_root: None,
        mock_tracker: false,
        mock_agent: false,
    };
    let mut base = config();
    base.workspace_root = "/ws".into();
    assert_eq!(apply_overrides(base, none, "".into()).workspace_root, "/ws");
    assert_eq!(logging_config(true, false).format, LogFormat::Json);
    assert_eq!(logging_config(false, true).verbosity, LogVerbosity::Verbose);
}

#[test]
fn logging_as_asked_for() {
    let verbose = logging_config(false, true);
    assert_eq!(verbose.filter().directives, "symphony=trace,info");
    assert!(!verbose.filter().from_environment);
    assert!(!verbose.layout().target);
    let normal = logging_config(true, false);
    assert_eq!(normal.filter().directives, "symphony=info,warn");
    assert!(normal.filter().from_environment);
    assert!(normal.layout().json && normal.layout().thread_ids);
}

#[test]
fn the_parts_are_configured() {
    let mut c = config();
    c.workspace_root = "/ws".into();
    c.hooks_before_run = Some("b".into());
    c.hooks_timeout_ms = 5;
    let m = workspace_manager(&c);
    assert_eq!(m.root, "/ws");
    assert_eq!(m.before_run.as_deref(), Some("b"));
    assert_eq!(m.hook_timeout_ms, 5);
    c.tracker_api_key = Some("k".into());
    let l = linear_client(&c);
    assert_eq!(l.endpoint, "https://api.linear.app/graphql");
    assert_eq!(l.api_key.as_deref(), Some("k"));
    assert_eq!(l.project_slug, "");
    let t = sample_tracker(NOW);
    assert_eq!(t.issues.len(), 3);
    assert_eq!(t.fetch_candidate_issues().len(), 2);
    assert_eq!(t.fetch_terminal_issues()[0].identifier, "DEMO-3");
}
