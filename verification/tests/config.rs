use symphony::config::{
    normalize_codex_approval_policy, normalize_codex_sandbox, ConfigError, RawAgentConfig,
    RawCodexConfig, RawConfig, RawHooksConfig, RawPollingConfig, RawTrackerConfig,
    RawWorkspaceConfig, ServiceConfig,
};
use symphony::environment::{expand_path, join_path, resolve_env_var, Environment};

fn env(vars: &[(&str, &str)]) -> Environment {
    Environment {
        vars: vars
            .iter()
            .map(|(k, v)| (k.to_string(), v.to_string()))
            .collect(),
        home: Some("/home/user".into()),
        temp_dir: "/tmp".into(),
    }
}

#[test]
fn test_default_config() {
    let cfg = ServiceConfig::default();
    assert_eq!(cfg.tracker_kind, "linear");
    assert_eq!(cfg.poll_interval_ms, 30_000);
    assert_eq!(cfg.agent_max_concurrent_agents, 10);
    assert_eq!(cfg.agent_max_turns, 20);
    assert_eq!(cfg.hooks_timeout_ms, 60_000);
    assert_eq!(cfg.codex_stall_timeout_ms, 300_000);
    assert_eq!(cfg.codex_approval_policy.as_deref(), Some("never"));
    assert_eq!(cfg.codex_thread_sandbox.as_deref(), Some("workspace-write"));
    assert_eq!(
        cfg.codex_turn_sandbox_policy.as_deref(),
        Some("workspace-write")
    );
}

#[test]
fn test_resolve_env_var() {
    let env = env(&[("TEST_VAR", "secret123"), ("TEST_HOME", "/home/user")]);
    assert_eq!(resolve_env_var("$TEST_VAR", &env), "secret123");
    assert_eq!(resolve_env_var("plaintext", &env), "plaintext");
    // Suffix preservation
    assert_eq!(
        resolve_env_var("$TEST_HOME/workspaces", &env),
        "/home/user/workspaces"
    );
    // Brace syntax
    assert_eq!(
        resolve_env_var("${TEST_HOME}/workspaces", &env),
        "/home/user/workspaces"
    );
    // Unset var with suffix
    assert_eq!(resolve_env_var("$UNSET_VAR/fallback", &env), "/fallback");
}

#[test]
fn references_at_their_edges() {
    let env = env(&[("A", "x"), ("A_1", "y"), ("a b", "z")]);
    assert_eq!(resolve_env_var("", &env), "");
    assert_eq!(resolve_env_var("$", &env), "");
    assert_eq!(resolve_env_var("$A", &env), "x");
    assert_eq!(resolve_env_var("$A_1-$A", &env), "y-$A");
    assert_eq!(resolve_env_var("${A}_1", &env), "x_1");
    assert_eq!(resolve_env_var("${a b}!", &env), "z!");
    assert_eq!(resolve_env_var("${A", &env), "{A");
    assert_eq!(resolve_env_var("${}tail", &env), "tail");
    assert_eq!(resolve_env_var("pre$A", &env), "pre$A");
    assert_eq!(resolve_env_var("$\u{e9}t", &env), "\u{e9}t");
}

#[test]
fn test_expand_tilde() {
    let env = env(&[]);
    let home = env.home.clone().unwrap();
    let expanded = expand_path("~/workspaces", ".", &env);
    assert!(expanded.starts_with(&home));
    assert_eq!(expanded, "/home/user/workspaces");
}

#[test]
fn paths_are_seen_from_the_workflow_directory() {
    let mut env = env(&[("ROOT", "/srv"), ("REL", "work")]);
    assert_eq!(expand_path("ws", "/etc/symphony", &env), "/etc/symphony/ws");
    assert_eq!(expand_path("/ws", "/etc/symphony", &env), "/ws");
    assert_eq!(expand_path("$ROOT/ws", "/etc/symphony", &env), "/srv/ws");
    assert_eq!(expand_path("$REL/ws", "/etc/symphony", &env), "/etc/symphony/work/ws");
    assert_eq!(expand_path("~x", ".", &env), "/home/userx");
    env.home = None;
    assert_eq!(expand_path("~/ws", "/etc/symphony", &env), "/etc/symphony/~/ws");
}

#[test]
fn joining_agrees_with_the_standard_library() {
    for dir in ["", ".", "/", "/a", "/a/", "a/b", "a//", "\u{e9}"] {
        for path in ["", "b", "/b", "./b", "..", "b/", "//"] {
            let expected = std::path::Path::new(dir).join(path);
            assert_eq!(join_path(dir, path), expected.to_str().unwrap());
        }
    }
}

#[test]
fn test_config_from_yaml_minimal() {
    let raw = RawConfig {
        tracker: Some(RawTrackerConfig {
            kind: Some("linear".into()),
            api_key: Some("$LINEAR_API_KEY".into()),
            project_slug: Some("my-project".into()),
            ..RawTrackerConfig::default()
        }),
        codex: Some(RawCodexConfig {
            command: Some("codex app-server".into()),
            ..RawCodexConfig::default()
        }),
        ..RawConfig::default()
    };
    let env = env(&[("LINEAR_API_KEY", "test-key")]);
    let cfg = ServiceConfig::from_yaml(raw, ".", &env).unwrap();
    assert_eq!(cfg.tracker_api_key.unwrap(), "test-key");
    assert_eq!(cfg.tracker_project_slug.unwrap(), "my-project");
}

#[test]
fn test_config_from_yaml_tracker_handoff_policy() {
    let raw = RawConfig {
        tracker: Some(RawTrackerConfig {
            kind: Some("linear".into()),
            active_states: Some(vec!["Todo".into(), "In Progress".into()]),
            claim_state: Some("In Progress".into()),
            completion_state: Some("In Review".into()),
            ..RawTrackerConfig::default()
        }),
        ..RawConfig::default()
    };
    let mut cfg = ServiceConfig::from_yaml(raw, ".", &env(&[])).unwrap();
    cfg.mock_mode = true;
    assert_eq!(cfg.tracker_claim_state.as_deref(), Some("In Progress"));
    assert_eq!(cfg.tracker_completion_state.as_deref(), Some("In Review"));
    assert!(cfg.validate_dispatch().is_ok());
}

#[test]
fn test_config_accepts_legacy_agent_handoff_aliases() {
    let raw = RawConfig {
        agent: Some(RawAgentConfig {
            claim_state: Some("In Progress".into()),
            completion_state: Some("In Review".into()),
            ..RawAgentConfig::default()
        }),
        ..RawConfig::default()
    };
    let cfg = ServiceConfig::from_yaml(raw, ".", &env(&[])).unwrap();
    assert_eq!(cfg.tracker_claim_state.as_deref(), Some("In Progress"));
    assert_eq!(cfg.tracker_completion_state.as_deref(), Some("In Review"));
}

#[test]
fn test_config_rejects_conflicting_handoff_aliases() {
    let raw = RawConfig {
        tracker: Some(RawTrackerConfig {
            completion_state: Some("In Review".into()),
            ..RawTrackerConfig::default()
        }),
        agent: Some(RawAgentConfig {
            completion_state: Some("Done".into()),
            ..RawAgentConfig::default()
        }),
        ..RawConfig::default()
    };
    let err = ServiceConfig::from_yaml(raw, ".", &env(&[])).unwrap_err();
    assert!(
        matches!(err, ConfigError::InvalidConfig(message) if message.contains("agent.completion_state conflicts with tracker.completion_state"))
    );
}

#[test]
fn test_config_normalizes_codex_runtime_policy() {
    let raw = RawConfig {
        codex: Some(RawCodexConfig {
            approval_policy: Some("onRequest".into()),
            thread_sandbox: Some("dangerFullAccess".into()),
            turn_sandbox_policy: Some("readOnly".into()),
            ..RawCodexConfig::default()
        }),
        ..RawConfig::default()
    };
    let cfg = ServiceConfig::from_yaml(raw, ".", &env(&[])).unwrap();
    assert_eq!(cfg.codex_approval_policy.as_deref(), Some("on-request"));
    assert_eq!(
        cfg.codex_thread_sandbox.as_deref(),
        Some("danger-full-access")
    );
    assert_eq!(cfg.codex_turn_sandbox_policy.as_deref(), Some("read-only"));
}

#[test]
fn test_config_rejects_invalid_codex_runtime_policy() {
    let raw = RawConfig {
        codex: Some(RawCodexConfig {
            approval_policy: Some("always".into()),
            ..RawCodexConfig::default()
        }),
        ..RawConfig::default()
    };
    let err = ServiceConfig::from_yaml(raw, ".", &env(&[])).unwrap_err();
    assert!(
        matches!(err, ConfigError::InvalidValue { field, .. } if field == "codex.approval_policy")
    );
}

#[test]
fn every_section_is_taken_over() {
    let raw = RawConfig {
        tracker: Some(RawTrackerConfig {
            kind: Some("other".into()),
            endpoint: Some("http://localhost".into()),
            terminal_states: Some(vec!["Gone".into()]),
            ..RawTrackerConfig::default()
        }),
        polling: Some(RawPollingConfig {
            interval_ms: Some(7),
        }),
        workspace: Some(RawWorkspaceConfig {
            root: Some("ws".into()),
        }),
        hooks: Some(RawHooksConfig {
            after_create: Some("a".into()),
            before_run: Some("b".into()),
            after_run: Some("c".into()),
            before_remove: Some("d".into()),
            timeout_ms: Some(9),
        }),
        agent: Some(RawAgentConfig {
            max_concurrent_agents: Some(3),
            max_turns: Some(4),
            max_retry_backoff_ms: Some(5),
            max_concurrent_agents_by_state: Some(vec![
                ("Todo".into(), 2),
                ("In Progress".into(), 0),
            ]),
            ..RawAgentConfig::default()
        }),
        codex: Some(RawCodexConfig {
            command: Some("run".into()),
            turn_timeout_ms: Some(11),
            read_timeout_ms: Some(12),
            stall_timeout_ms: Some(13),
            ..RawCodexConfig::default()
        }),
    };
    let cfg = ServiceConfig::from_yaml(raw, "/etc", &env(&[])).unwrap();
    assert_eq!(cfg.tracker_kind, "other");
    assert_eq!(cfg.tracker_endpoint, "http://localhost");
    assert_eq!(cfg.tracker_terminal_states, vec!["Gone".to_string()]);
    assert_eq!(
        cfg.tracker_active_states,
        vec!["Todo".to_string(), "In Progress".to_string()]
    );
    assert_eq!(cfg.poll_interval_ms, 7);
    assert_eq!(cfg.workspace_root, "/etc/ws");
    assert_eq!(cfg.hooks_after_create.as_deref(), Some("a"));
    assert_eq!(cfg.hooks_before_run.as_deref(), Some("b"));
    assert_eq!(cfg.hooks_after_run.as_deref(), Some("c"));
    assert_eq!(cfg.hooks_before_remove.as_deref(), Some("d"));
    assert_eq!(cfg.hooks_timeout_ms, 9);
    assert_eq!(cfg.agent_max_concurrent_agents, 3);
    assert_eq!(cfg.agent_max_turns, 4);
    assert_eq!(cfg.agent_max_retry_backoff_ms, 5);
    assert_eq!(cfg.agent_max_concurrent_agents_by_state.len(), 1);
    assert_eq!(
        cfg.agent_max_concurrent_agents_by_state.get("todo").copied(),
        Some(2)
    );
    assert_eq!(cfg.codex_command, "run");
    assert_eq!(cfg.codex_turn_timeout_ms, 11);
    assert_eq!(cfg.codex_read_timeout_ms, 12);
    assert_eq!(cfg.codex_stall_timeout_ms, 13);
    let copy = cfg.clone();
    assert_eq!(copy.workspace_root, "/etc/ws");
    assert_eq!(
        copy.agent_max_concurrent_agents_by_state.get("todo").copied(),
        Some(2)
    );
}

#[test]
fn nothing_written_gives_the_defaults() {
    let cfg = ServiceConfig::from_yaml(RawConfig::default(), ".", &env(&[])).unwrap();
    assert_eq!(cfg.workspace_root, "/tmp/symphony_workspaces");
    assert_eq!(cfg.tracker_api_key, None);
    assert_eq!(cfg.codex_command, "codex app-server");
    assert!(cfg.validate_codex_runtime_policy().is_ok());
}

#[test]
fn policies_have_aliases() {
    assert_eq!(normalize_codex_approval_policy(" never\n"), Some("never"));
    assert_eq!(
        normalize_codex_approval_policy("untrusted"),
        Some("unless-trusted")
    );
    assert_eq!(
        normalize_codex_approval_policy("on_failure"),
        Some("on-failure")
    );
    assert_eq!(normalize_codex_approval_policy("Never"), None);
    assert_eq!(normalize_codex_sandbox("readonly"), Some("read-only"));
    assert_eq!(
        normalize_codex_sandbox("workspace_write"),
        Some("workspace-write")
    );
    assert_eq!(normalize_codex_sandbox(""), None);
}

#[test]
fn test_validate_dispatch_missing_key() {
    let cfg = ServiceConfig {
        tracker_api_key: None,
        ..ServiceConfig::default()
    };
    assert!(cfg.validate_dispatch().is_err());
    assert!(matches!(
        cfg.validate_dispatch(),
        Err(ConfigError::MissingCredentials)
    ));
}

#[test]
fn test_validate_dispatch_rejects_empty_handoff_state() {
    let cfg = ServiceConfig {
        mock_mode: true,
        tracker_completion_state: Some(" ".into()),
        ..ServiceConfig::default()
    };

    assert!(
        matches!(cfg.validate_dispatch(), Err(ConfigError::MissingField(field)) if field == "tracker.completion_state")
    );
}

#[test]
fn test_validate_dispatch_rejects_claim_state_outside_active_states() {
    let cfg = ServiceConfig {
        mock_mode: true,
        tracker_active_states: vec!["Todo".into()],
        tracker_claim_state: Some("In Progress".into()),
        ..ServiceConfig::default()
    };

    assert!(matches!(
        cfg.validate_dispatch(),
        Err(ConfigError::InvalidConfig(message))
            if message.contains("tracker.claim_state must be listed in tracker.active_states")
    ));
}

#[test]
fn test_validate_dispatch_rejects_completion_state_inside_active_states() {
    let cfg = ServiceConfig {
        mock_mode: true,
        tracker_active_states: vec!["Todo".into(), "In Review".into()],
        tracker_completion_state: Some("In Review".into()),
        ..ServiceConfig::default()
    };

    assert!(matches!(
        cfg.validate_dispatch(),
        Err(ConfigError::InvalidConfig(message))
            if message.contains("tracker.completion_state must not be listed in tracker.active_states")
    ));
}

#[test]
fn dispatch_needs_tracker_project_and_command() {
    let mut cfg = ServiceConfig {
        tracker_kind: "".into(),
        ..ServiceConfig::default()
    };
    assert!(
        matches!(cfg.validate_dispatch(), Err(ConfigError::MissingField(f)) if f == "tracker.kind")
    );
    cfg.tracker_kind = "jira".into();
    let err = cfg.validate_dispatch().unwrap_err();
    assert_eq!(err.message(), "unsupported tracker kind: jira");
    cfg.tracker_kind = "linear".into();
    cfg.tracker_api_key = Some("".into());
    let err = cfg.validate_dispatch().unwrap_err();
    assert_eq!(err.message(), "missing tracker credentials");
    cfg.tracker_api_key = Some("k".into());
    let err = cfg.validate_dispatch().unwrap_err();
    assert_eq!(err.message(), "missing required field: tracker.project_slug");
    cfg.tracker_project_slug = Some("p".into());
    assert!(cfg.validate_dispatch().is_ok());
    cfg.codex_command = "".into();
    let err = cfg.validate_dispatch().unwrap_err();
    assert_eq!(err.message(), "missing required field: codex.command");
    cfg.codex_thread_sandbox = Some("none".into());
    let err = cfg.validate_dispatch().unwrap_err();
    assert_eq!(
        err.message(),
        "invalid value for codex.thread_sandbox: none; allowed values: read-only, workspace-write, danger-full-access"
    );
}

#[test]
fn config_errors_speak() {
    assert_eq!(
        ConfigError::MissingWorkflowFile("x".into()).message(),
        "missing_workflow_file: x"
    );
    assert_eq!(
        ConfigError::WorkflowParseError("x".into()).message(),
        "workflow_parse_error: x"
    );
    assert_eq!(
        ConfigError::WorkflowFrontMatterNotAMap.message(),
        "workflow_front_matter_not_a_map"
    );
    assert_eq!(
        ConfigError::TemplateParseError("x".into()).message(),
        "template_parse_error: x"
    );
    assert_eq!(
        ConfigError::TemplateRenderError("x".into()).message(),
        "template_render_error: x"
    );
    assert_eq!(
        ConfigError::InvalidConfig("x".into()).message(),
        "invalid config: x"
    );
}
