use symphony::config::{
    normalize_codex_approval_policy, normalize_codex_sandbox, ServiceConfig,
};
use symphony::environment::{resolve_env_var, Environment};
use symphony::json::{parse_json, Json};
use symphony::orchestrator::compute_backoff;
use symphony::protocol::{
    frame_message, initialize_request, next_event_timeout_ms, turn_start_request,
    AgentRunnerConfig,
};
use symphony::tracker::{
    format_authorization_header, FetchStep, LinearClient, TransitionPhase, TransitionStep,
};
use symphony::types::sanitize_workspace_key;
use symphony::workspace::{path_file_name, WorkspaceManager};

const ODD: &str = "a\"b\\c\nd\u{0}\u{e9}\u{2028}{{x}}";

fn client() -> LinearClient {
    LinearClient::new(
        "https://example.com".into(),
        Some("key".into()),
        ODD.into(),
        vec![ODD.into(), "".into()],
        vec![],
    )
}

fn variables(body: &str) -> Json {
    match parse_json(body).unwrap() {
        Json::Object(mut members) => {
            assert_eq!(members.len(), 2);
            assert_eq!(members[0].0, "query");
            assert_eq!(members[1].0, "variables");
            members.remove(1).1
        }
        other => panic!("{other:?}"),
    }
}

#[test]
fn policies_are_kept_as_they_are() {
    for policy in ["never", "onRequest", "on_failure", " untrusted "] {
        let kept = normalize_codex_approval_policy(policy).unwrap();
        assert_eq!(normalize_codex_approval_policy(kept), Some(kept));
    }
    for sandbox in ["readonly", "workspaceWrite", "danger_full_access\n"] {
        let kept = normalize_codex_sandbox(sandbox).unwrap();
        assert_eq!(normalize_codex_sandbox(kept), Some(kept));
    }
}

#[test]
fn the_mock_tracker_needs_no_credentials() {
    let mut config = ServiceConfig::default();
    assert!(config.validate_dispatch().is_err());
    config.mock_mode = true;
    assert!(config.validate_dispatch().is_ok());
    config.codex_command = "".into();
    assert_eq!(
        config.validate_dispatch().unwrap_err().message(),
        "missing required field: codex.command"
    );
}

#[test]
fn references_keep_what_follows_them() {
    let env = Environment {
        vars: vec![("A".into(), "x$B".into())],
        home: None,
        temp_dir: "/tmp".into(),
    };
    assert_eq!(resolve_env_var("$A/$A", &env), "x$B/$A");
    assert_eq!(resolve_env_var("${A}}", &env), "x$B}");
    assert_eq!(resolve_env_var("$UNSET/default", &env), "/default");
}

#[test]
fn questions_survive_odd_names() {
    match client().fetch_candidate_issues(None) {
        FetchStep::Send(request) => {
            let v = variables(&request.body);
            assert_eq!(v.get("projectSlug").unwrap().as_text(), Some(ODD));
            let states = v.get("activeStates").unwrap().as_list().unwrap();
            assert_eq!(states[0].as_text(), Some(ODD));
            assert_eq!(states[1].as_text(), Some(""));
        }
        other => panic!("{other:?}"),
    }
    match client().transition_issue_state(ODD, "Done", TransitionPhase::Start, None) {
        TransitionStep::Send { request, phase } => {
            assert!(matches!(phase, TransitionPhase::AskedTeam));
            let v = variables(&request.body);
            assert_eq!(v.get("issueId").unwrap().as_text(), Some(ODD));
        }
        other => panic!("{other:?}"),
    }
}

#[test]
fn messages_are_one_line_and_read_back() {
    let config = AgentRunnerConfig {
        command: "c".into(),
        workspace_path: "/w".into(),
        approval_policy: "never".into(),
        thread_sandbox: "".into(),
        turn_sandbox_policy: "workspace-write".into(),
        turn_timeout_ms: 1,
        read_timeout_ms: 1,
        stall_timeout_ms: 1,
        max_turns: 1,
        max_run_ms: None,
        max_tokens_per_run: None,
        stop_after_first_turn: false,
        client_version: ODD.into(),
    };
    for message in [
        initialize_request(1, ODD),
        turn_start_request(3, ODD, ODD, &config, ODD),
    ] {
        let line = frame_message(&message);
        assert!(line.ends_with('\n'));
        assert_eq!(line.matches('\n').count(), 1);
        assert_eq!(parse_json(&line[..line.len() - 1]), Some(message));
    }
}

#[test]
fn header_values_stay_as_they_are() {
    for key in ["k", "Bearer k", "lin_api_k", ""] {
        let value = format_authorization_header(key);
        assert_eq!(format_authorization_header(&value), value);
    }
}

#[test]
fn the_shorter_time_counts() {
    assert_eq!(next_event_timeout_ms(0, 5, None), None);
    assert_eq!(next_event_timeout_ms(10, 5, None), Some(10));
    assert_eq!(next_event_timeout_ms(10, 5, Some(12)), Some(7));
    assert_eq!(next_event_timeout_ms(10, 5, Some(100)), Some(10));
    assert_eq!(next_event_timeout_ms(10, 5, Some(4)), Some(0));
}

#[test]
fn waiting_times_grow_up_to_the_limit() {
    let mut last = 0;
    for attempt in 0..100 {
        let wait = compute_backoff(attempt, 300_000);
        assert!(last <= wait && wait <= 300_000);
        last = wait;
    }
    assert_eq!(last, 300_000);
}

#[test]
fn workspaces_lie_under_the_root_by_their_keys() {
    let manager = WorkspaceManager::new("/ws".into());
    for identifier in ["ABC-1", "a/b", "\u{e9}"] {
        let key = sanitize_workspace_key(identifier);
        let path = manager.path_for_issue(identifier);
        assert_eq!(path, format!("/ws/{key}"));
        assert_eq!(path_file_name(&path), Some(key));
    }
    assert_eq!(manager.path_for_issue("a/b"), manager.path_for_issue("a_b"));
    assert_ne!(manager.path_for_issue("a-b"), manager.path_for_issue("a_b"));
}
