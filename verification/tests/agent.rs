use symphony::agent_runner::{
    continuation_prompt, AgentAction, AgentEvent, AgentOutcome, AgentPhase, AgentRun, AgentStep,
    Cleanup, Moment, Pipe,
};
use symphony::json::{parse_json, Json};
use symphony::protocol::{
    approval_policy_wire, current_session_tokens, frame_message, initialize_request,
    json_rpc_error_message, max_run_error, max_tokens_error, next_event_timeout_ms,
    run_limit_violation, thread_sandbox_wire, thread_start_request, turn_start_request,
    AgentRunnerConfig, EventError,
};
use symphony::types::{Issue, LiveSession, Timestamp};

fn test_config() -> AgentRunnerConfig {
    AgentRunnerConfig {
        command: "codex app-server".into(),
        workspace_path: "/tmp/symphony-workspace".into(),
        approval_policy: "on-request".into(),
        thread_sandbox: "danger-full-access".into(),
        turn_sandbox_policy: "read-only".into(),
        turn_timeout_ms: 1,
        read_timeout_ms: 1,
        stall_timeout_ms: 1,
        max_turns: 1,
        max_run_ms: None,
        max_tokens_per_run: None,
        stop_after_first_turn: false,
        client_version: "0.1.0".into(),
    }
}

fn test_issue() -> Issue {
    Issue {
        id: "issue-1".into(),
        identifier: "T-1".into(),
        title: "Test issue".into(),
        description: None,
        priority: None,
        state: "In Progress".into(),
        branch_name: None,
        url: None,
        labels: Vec::new(),
        blocked_by: Vec::new(),
        created_at: None,
        updated_at: None,
    }
}

fn pointer<'a>(msg: &'a Json, path: &str) -> Option<&'a Json> {
    let mut at = Some(msg);
    for key in path.split('/').skip(1) {
        at = match key.parse::<usize>() {
            Ok(i) => at.and_then(|j| j.as_list()).and_then(|l| l.get(i)),
            Err(_) => at.and_then(|j| j.get(key)),
        };
    }
    at
}

fn text<'a>(msg: &'a Json, path: &str) -> &'a str {
    pointer(msg, path).unwrap().as_text().unwrap()
}

fn json(s: &str) -> Json {
    parse_json(s).unwrap()
}

const NOW: Timestamp = Timestamp {
    seconds: 1_000,
    nanos: 5,
};

fn at(elapsed_ms: u64) -> Moment {
    Moment {
        now: NOW,
        elapsed_ms,
        cancelled: false,
    }
}

fn run(config: AgentRunnerConfig) -> AgentRun {
    AgentRun::new(config, test_issue(), Some(3), "do work".into(), NOW)
}

fn line(s: &str) -> AgentEvent {
    AgentEvent::Line(s.into())
}

fn sent(step: AgentStep) -> Json {
    match step.action {
        AgentAction::Send(s) => {
            assert!(s.ends_with('\n'));
            assert_eq!(s.matches('\n').count(), 1);
            json(s.trim_end())
        }
        other => panic!("expected a message, got {other:?}"),
    }
}

fn finished(step: AgentStep) -> (AgentOutcome, Cleanup) {
    match step.action {
        AgentAction::Finish { outcome, cleanup } => (outcome, cleanup),
        other => panic!("expected an end, got {other:?}"),
    }
}

fn error(step: AgentStep) -> (String, Cleanup) {
    match finished(step) {
        (AgentOutcome::Error { error, .. }, cleanup) => (error, cleanup),
        other => panic!("expected an error, got {other:?}"),
    }
}

fn in_turn(config: AgentRunnerConfig) -> AgentRun {
    let mut r = run(config);
    assert!(matches!(
        r.step(AgentEvent::Start, at(0)).action,
        AgentAction::Launch { .. }
    ));
    let msg = sent(r.step(
        AgentEvent::Launched {
            cwd: "/real".into(),
        },
        at(0),
    ));
    assert_eq!(text(&msg, "/method"), "initialize");
    assert_eq!(text(&msg, "/params/clientInfo/version"), "0.1.0");
    assert!(matches!(
        r.step(AgentEvent::Written, at(0)).action,
        AgentAction::ReadLine
    ));
    let step = r.step(
        line("{\"jsonrpc\":\"2.0\",\"id\":1,\"result\":{\"userAgent\":\"codex-test\"}}"),
        at(0),
    );
    assert_eq!(step.publish.len(), 1);
    let published = &step.publish[0];
    assert_eq!(published.last_codex_event.as_deref(), Some("initialize"));
    assert_eq!(published.last_codex_timestamp, Some(NOW));
    let msg = sent(step);
    assert_eq!(text(&msg, "/method"), "thread/start");
    assert_eq!(text(&msg, "/params/cwd"), "/real");
    assert!(matches!(
        r.step(AgentEvent::Written, at(0)).action,
        AgentAction::ReadLine
    ));
    let step = r.step(
        line("{\"jsonrpc\":\"2.0\",\"id\":2,\"result\":{\"thread\":{\"id\":\"thread-real\"}}}"),
        at(0),
    );
    assert_eq!(step.publish.len(), 1);
    let published = &step.publish[0];
    assert_eq!(published.thread_id.as_deref(), Some("thread-real"));
    assert_eq!(published.turn_id, None);
    let msg = sent(step);
    assert_eq!(text(&msg, "/method"), "turn/start");
    assert_eq!(pointer(&msg, "/id").unwrap().as_u64(), Some(3));
    assert_eq!(text(&msg, "/params/threadId"), "thread-real");
    assert_eq!(text(&msg, "/params/input/0/text"), "do work");
    assert_eq!(
        r.entry.session.session_id.as_deref(),
        Some("thread-real-pending-1")
    );
    assert_eq!(r.entry.session.turn_count, 1);
    r
}

fn awaiting(config: AgentRunnerConfig) -> AgentRun {
    let mut r = in_turn(config);
    assert!(matches!(
        r.step(AgentEvent::Written, at(0)).action,
        AgentAction::AwaitEvents { .. }
    ));
    r
}

#[test]
fn thread_start_request_includes_configured_runtime_policy() {
    let cwd = "/tmp/symphony-workspace";
    let msg = thread_start_request(2, &test_config(), cwd);

    assert_eq!(text(&msg, "/method"), "thread/start");
    assert_eq!(text(&msg, "/params/approvalPolicy"), "onRequest");
    assert_eq!(text(&msg, "/params/sandbox"), "danger-full-access");
    assert_eq!(text(&msg, "/params/cwd"), "/tmp/symphony-workspace");
    assert!(pointer(&msg, "/params/prompt").is_none());
}

#[test]
fn turn_start_request_includes_configured_runtime_policy() {
    let cwd = "/tmp/symphony-workspace";
    let msg = turn_start_request(3, "thread-1", "prompt", &test_config(), cwd);

    assert_eq!(text(&msg, "/method"), "turn/start");
    assert_eq!(text(&msg, "/params/threadId"), "thread-1");
    assert_eq!(text(&msg, "/params/input/0/text"), "prompt");
    assert_eq!(text(&msg, "/params/approvalPolicy"), "onRequest");
    assert_eq!(
        pointer(&msg, "/params/sandboxPolicy").unwrap(),
        &json("{ \"type\": \"readOnly\" }")
    );
    assert!(pointer(&msg, "/params/turnId").is_none());
}

#[test]
fn workspace_write_turn_sandbox_keeps_network_enabled_default() {
    let mut config = test_config();
    config.turn_sandbox_policy = "workspace-write".into();
    let cwd = "/tmp/symphony-workspace";
    let msg = turn_start_request(3, "thread-1", "prompt", &config, cwd);

    assert_eq!(
        pointer(&msg, "/params/sandboxPolicy").unwrap(),
        &json(
            "{ \"type\": \"workspaceWrite\", \"writableRoots\": [\"/tmp/symphony-workspace\"], \
             \"networkAccess\": true, \"excludeTmpdirEnvVar\": false, \"excludeSlashTmp\": false }"
        )
    );
}

#[test]
fn run_agent_attempt_errors_when_token_budget_is_exceeded() {
    let mut config = test_config();
    config.stall_timeout_ms = 5_000;
    config.max_tokens_per_run = Some(100);
    let mut r = awaiting(config);
    let step = r.step(
        line("{\"jsonrpc\":\"2.0\",\"id\":3,\"result\":{\"turn\":{\"id\":\"turn-real\"}}}"),
        at(1),
    );
    assert!(matches!(
        step.action,
        AgentAction::AwaitEvents {
            timeout_ms: Some(5_000)
        }
    ));
    assert_eq!(step.publish.len(), 1);
    assert_eq!(
        step.publish[0].session_id.as_deref(),
        Some("thread-real-turn-real")
    );
    let step = r.step(
        line("{\"jsonrpc\":\"2.0\",\"method\":\"thread/tokenUsage/updated\",\"params\":{\"threadId\":\"thread-real\",\"turnId\":\"turn-real\",\"tokenUsage\":{\"total\":{\"totalTokens\":150,\"inputTokens\":100,\"outputTokens\":50},\"last\":{\"totalTokens\":150,\"inputTokens\":100,\"outputTokens\":50}}}}"),
        at(2),
    );
    match finished(step) {
        (AgentOutcome::Error { error, entry }, Cleanup::KillAndWait) => {
            assert!(error.contains("max_tokens_per_run"));
            assert_eq!(entry.session.codex_total_tokens, 150);
            assert_eq!(entry.session.codex_input_tokens, 100);
            assert_eq!(entry.session.last_reported_output_tokens, 50);
            assert_eq!(entry.retry_attempt, Some(3));
            assert_eq!(entry.started_at, NOW);
        }
        other => panic!("expected token budget error, got {other:?}"),
    }
}

#[test]
fn run_agent_attempt_errors_when_wall_clock_budget_is_exceeded() {
    let mut config = test_config();
    config.stall_timeout_ms = 5_000;
    config.max_run_ms = Some(50);
    let mut r = awaiting(config.clone());
    let (e, cleanup) = error(r.step(AgentEvent::TimedOut, at(50)));
    assert!(e.contains("max_run_ms"));
    assert_eq!(cleanup, Cleanup::KillAndWait);

    let mut r = in_turn(config.clone());
    let (e, _) = error(r.step(AgentEvent::Written, at(50)));
    assert_eq!(e, "worker exceeded max_run_ms budget (50ms)");

    let mut r = awaiting(config);
    let (e, _) = error(r.step(line("{\"method\":\"note\"}"), at(51)));
    assert_eq!(e, "worker exceeded max_run_ms budget (50ms)");
}

#[test]
fn a_run_of_two_turns() {
    let mut config = test_config();
    config.max_turns = 2;
    config.stall_timeout_ms = 0;
    let mut r = in_turn(config);
    assert!(matches!(
        r.step(AgentEvent::Written, at(0)).action,
        AgentAction::AwaitEvents { timeout_ms: None }
    ));
    assert!(matches!(
        r.step(line("   "), at(1)).action,
        AgentAction::MoreEvents
    ));
    assert!(matches!(
        r.step(line("not json"), at(1)).action,
        AgentAction::MoreEvents
    ));
    let msg = sent(r.step(
        line("{\"result\":{\"type\":\"turn_completed\",\"message\":\"ok\",\"usage\":{\"inputTokens\":7,\"outputTokens\":8}}}"),
        at(2),
    ));
    assert_eq!(pointer(&msg, "/id").unwrap().as_u64(), Some(4));
    assert_eq!(
        text(&msg, "/params/input/0/text"),
        "Continue working on the task. Turn 2/2."
    );
    assert_eq!(r.entry.session.turn_id.as_deref(), Some("pending-2"));
    let _ = r.step(AgentEvent::Written, at(3));
    let step = r.step(
        line("{\"method\":\"turn/completed\",\"params\":{\"turn\":{\"id\":\"t2\",\"status\":\"ok\"},\"tokenUsage\":{\"last\":{\"inputTokens\":1}}}}"),
        at(4),
    );
    match finished(step) {
        (AgentOutcome::Normal { entry, total_turns }, Cleanup::KillAndDrain) => {
            assert_eq!(total_turns, 2);
            assert_eq!(entry.session.codex_input_tokens, 8);
            assert_eq!(entry.session.codex_output_tokens, 8);
            assert_eq!(entry.session.session_id.as_deref(), Some("thread-real-t2"));
        }
        other => panic!("{other:?}"),
    }
    assert_eq!(r.phase, AgentPhase::Finished);
    assert!(matches!(
        r.step(AgentEvent::Closed, at(5)).action,
        AgentAction::Ignore
    ));
}

#[test]
fn one_turn_is_enough_where_a_completion_follows() {
    let mut config = test_config();
    config.max_turns = 9;
    config.stop_after_first_turn = true;
    let mut r = awaiting(config);
    match finished(r.step(line("{\"method\":\"v2/TurnCompleted\"}"), at(1))) {
        (AgentOutcome::Normal { total_turns, .. }, _) => assert_eq!(total_turns, 1),
        other => panic!("{other:?}"),
    }
}

#[test]
fn turns_that_fail() {
    let fails = |l: &str| error(awaiting(test_config()).step(line(l), at(0)));
    assert_eq!(
        fails("{\"method\":\"turn/completed\",\"params\":{\"turn\":{\"status\":\"failed\",\"error\":{\"message\":\"boom\"}}}}"),
        ("turn failed: boom".into(), Cleanup::Release)
    );
    assert_eq!(
        fails("{\"method\":\"turn/completed\",\"params\":{\"turn\":{\"status\":\"failed\"}}}").0,
        "turn failed: turn failed"
    );
    assert_eq!(
        fails("{\"result\":{\"type\":\"turn_failed\",\"error\":{\"message\":\"no\"}}}").0,
        "turn failed: no"
    );
    assert_eq!(
        fails("{\"method\":\"v2/TurnFailed\"}").0,
        "turn failed: unknown error"
    );
    assert_eq!(
        fails("{\"error\":{\"code\":-32600,\"message\":\"bad\"}}").0,
        "turn failed: JSON-RPC error -32600: bad"
    );
    assert_eq!(
        error(awaiting(test_config()).step(AgentEvent::ReadFailed("pipe".into()), at(0))).0,
        "turn failed: pipe"
    );
    assert_eq!(
        error(awaiting(test_config()).step(AgentEvent::TimedOut, at(7))),
        (
            "agent stalled (no events for 1ms)".into(),
            Cleanup::KillAndWait
        )
    );
}

#[test]
fn agents_that_keep_reporting_are_not_stalled() {
    let mut config = test_config();
    config.stall_timeout_ms = 100;
    config.max_run_ms = Some(1_000);
    let mut r = awaiting(config);
    for (elapsed, wait) in [(90, 100), (180, 100), (900, 100), (950, 50), (999, 1)] {
        match r.step(line("{\"method\":\"note\"}"), at(elapsed)).action {
            AgentAction::AwaitEvents { timeout_ms } => assert_eq!(timeout_ms, Some(wait)),
            other => panic!("{other:?}"),
        }
        assert!(matches!(
            r.step(line("no event"), at(elapsed)).action,
            AgentAction::MoreEvents
        ));
    }
    assert_eq!(
        error(r.step(AgentEvent::TimedOut, at(1_000))).0,
        "worker exceeded max_run_ms budget (1000ms)"
    );
}

#[test]
fn agents_that_leave() {
    for event in [AgentEvent::Closed, line("{\"method\":\"exit\"}")] {
        match finished(awaiting(test_config()).step(event, at(0))) {
            (AgentOutcome::Normal { total_turns, .. }, Cleanup::KillAndDrain) => {
                assert_eq!(total_turns, 1)
            }
            other => panic!("{other:?}"),
        }
    }
}

#[test]
fn runs_that_are_called_off() {
    match finished(awaiting(test_config()).step(AgentEvent::CancelRequested, at(0))) {
        (AgentOutcome::Cancelled { reason, .. }, Cleanup::KillAndWait) => {
            assert_eq!(reason, "cancelled by reconciliation")
        }
        other => panic!("{other:?}"),
    }
    let mut config = test_config();
    config.max_turns = 5;
    let mut r = awaiting(config);
    let step = r.step(
        line("{\"method\":\"turn/completed\"}"),
        Moment {
            now: NOW,
            elapsed_ms: 0,
            cancelled: true,
        },
    );
    assert_eq!(step.publish.len(), 1);
    assert!(matches!(
        finished(step),
        (AgentOutcome::Cancelled { .. }, Cleanup::KillAndWait)
    ));
}

#[test]
fn agents_that_do_not_start() {
    let mut config = test_config();
    config.command = " \t".into();
    assert_eq!(
        error(run(config).step(AgentEvent::Start, at(0))),
        (
            "failed to launch agent: codex command must not be empty".into(),
            Cleanup::Release
        )
    );
    assert_eq!(
        error(run(test_config()).step(AgentEvent::LaunchFailed("no bash".into()), at(0))).0,
        "failed to launch agent: no bash"
    );
    for (pipe, text) in [
        (Pipe::Stdin, "agent stdin was not piped"),
        (Pipe::Stdout, "agent stdout was not piped"),
        (Pipe::Stderr, "agent stderr was not piped"),
    ] {
        assert_eq!(
            error(run(test_config()).step(AgentEvent::PipeMissing(pipe), at(0))).0,
            text
        );
    }
    let mut r = run(test_config());
    let _ = r.step(AgentEvent::Launched { cwd: "/".into() }, at(0));
    assert_eq!(
        error(r.step(AgentEvent::WriteFailed, at(0))),
        (
            "failed to write initialize request to agent stdin".into(),
            Cleanup::Kill
        )
    );
    let mut r = run(test_config());
    let _ = r.step(AgentEvent::Launched { cwd: "/".into() }, at(0));
    let _ = r.step(AgentEvent::Written, at(0));
    assert_eq!(
        error(r.step(AgentEvent::Closed, at(0))),
        ("initialize failed: Exit".into(), Cleanup::KillAndWait)
    );
    let mut r = run(test_config());
    let _ = r.step(AgentEvent::Launched { cwd: "/".into() }, at(0));
    let _ = r.step(AgentEvent::Written, at(0));
    assert!(matches!(
        r.step(line("{\"id\":2,\"result\":{}}"), at(0)).action,
        AgentAction::ReadLine
    ));
    assert_eq!(
        error(r.step(line("{\"error\":{\"message\":\"say \\\"please\\\"\"}}"), at(0))).0,
        "initialize failed: TurnFailed(\"JSON-RPC error: say \\\"please\\\"\")"
    );
    let mut r = run(test_config());
    let _ = r.step(AgentEvent::Launched { cwd: "/".into() }, at(0));
    let _ = r.step(AgentEvent::Written, at(0));
    let _ = r.step(line("{\"id\":1,\"result\":{}}"), at(0));
    let _ = r.step(AgentEvent::Written, at(0));
    let step = r.step(line("{\"method\":\"hello\"}"), at(0));
    assert!(matches!(step.action, AgentAction::ReadLine));
    assert_eq!(step.publish.len(), 1);
    assert_eq!(step.publish[0].last_codex_event.as_deref(), Some("hello"));
    assert_eq!(
        error(r.step(AgentEvent::ReadFailed("gone".into()), at(0))).0,
        "thread start failed: TurnFailed(\"gone\")"
    );
}

#[test]
fn counters_do_not_overflow() {
    let mut r = awaiting(test_config());
    r.entry.session.codex_input_tokens = u64::MAX;
    let l = line("{\"result\":{\"usage\":{\"inputTokens\":1}}}");
    assert!(matches!(r.step(l, at(0)).action, AgentAction::Overflow));
    assert_eq!(r.entry.session.codex_input_tokens, u64::MAX);
}

#[test]
fn policies_on_the_wire() {
    assert_eq!(approval_policy_wire("on-failure"), "onFailure");
    assert_eq!(approval_policy_wire("unless-trusted"), "unlessTrusted");
    assert_eq!(approval_policy_wire("never"), "never");
    assert_eq!(approval_policy_wire("anything"), "never");
    assert_eq!(thread_sandbox_wire("read-only"), "read-only");
    assert_eq!(thread_sandbox_wire("anything"), "workspace-write");
}

#[test]
fn the_opening_message() {
    let framed = frame_message(&initialize_request(1, "9"));
    assert_eq!(
        framed,
        "{\"id\":1,\"jsonrpc\":\"2.0\",\"method\":\"initialize\",\"params\":{\"capabilities\":{\"experimentalApi\":true},\"clientInfo\":{\"name\":\"symphony\",\"title\":\"Symphony\",\"version\":\"9\"}}}\n"
    );
    assert_eq!(json(framed.trim_end()), initialize_request(1, "9"));
}

#[test]
fn errors_in_messages() {
    assert_eq!(json_rpc_error_message(&json("{}")), None);
    assert_eq!(
        json_rpc_error_message(&json("{\"error\":null}")).unwrap(),
        "JSON-RPC error: JSON-RPC error"
    );
    assert_eq!(
        json_rpc_error_message(&json("{\"error\":{\"code\":1.5,\"message\":\"m\"}}")).unwrap(),
        "JSON-RPC error: m"
    );
    assert_eq!(EventError::Exit.shown(), "Exit");
    assert_eq!(
        EventError::RunLimitExceeded("a\tb".into()).shown(),
        "RunLimitExceeded(\"a\\tb\")"
    );
}

#[test]
fn budgets_of_time_and_tokens() {
    assert_eq!(next_event_timeout_ms(0, 5, None), None);
    assert_eq!(next_event_timeout_ms(100, 5, None), Some(100));
    assert_eq!(next_event_timeout_ms(100, 5, Some(50)), Some(45));
    assert_eq!(next_event_timeout_ms(10, 5, Some(50)), Some(10));
    assert_eq!(next_event_timeout_ms(0, 60, Some(50)), Some(0));
    assert_eq!(
        max_tokens_error(100, 150),
        "worker exceeded max_tokens_per_run budget (150/100 tokens)"
    );
    assert_eq!(max_run_error(7), "worker exceeded max_run_ms budget (7ms)");
    let mut session = LiveSession::default();
    assert_eq!(run_limit_violation(&session, 9, Some(10), Some(1)), None);
    assert!(run_limit_violation(&session, 10, Some(10), None).is_some());
    session.codex_input_tokens = u64::MAX;
    session.codex_output_tokens = 1;
    assert_eq!(current_session_tokens(&session), u64::MAX);
    session.codex_total_tokens = 3;
    assert_eq!(current_session_tokens(&session), 3);
    assert!(run_limit_violation(&session, 0, None, Some(3)).is_some());
    assert_eq!(run_limit_violation(&session, 0, None, Some(4)), None);
    assert_eq!(
        continuation_prompt(2, 20),
        "Continue working on the task. Turn 2/20."
    );
}

fn awaiting_thread() -> AgentRun {
    let mut r = run(test_config());
    let _ = r.step(AgentEvent::Launched { cwd: "/".into() }, at(0));
    let _ = r.step(AgentEvent::Written, at(0));
    let _ = r.step(line("{\"id\":1,\"result\":{}}"), at(0));
    let _ = r.step(AgentEvent::Written, at(0));
    r
}

#[test]
fn method_and_thread_of_one_message_are_published_in_turn() {
    let mut r = awaiting_thread();
    let step = r.step(
        line("{\"method\":\"thread/started\",\"params\":{\"thread\":{\"id\":\"t-9\"}}}"),
        at(0),
    );
    assert_eq!(step.publish.len(), 2);
    for session in &step.publish {
        assert_eq!(session.last_codex_event.as_deref(), Some("thread/started"));
        assert_eq!(session.last_codex_timestamp, Some(NOW));
        assert_eq!(session.session_id, None);
    }
    assert_eq!(step.publish[0].thread_id, None);
    assert_eq!(step.publish[1].thread_id.as_deref(), Some("t-9"));
    assert_eq!(text(&sent(step), "/params/threadId"), "t-9");
}

#[test]
fn messages_without_method_or_thread_publish_nothing() {
    let mut r = awaiting_thread();
    let step = r.step(line("{\"id\":7,\"result\":{}}"), at(0));
    assert!(matches!(step.action, AgentAction::ReadLine));
    assert!(step.publish.is_empty());
}
