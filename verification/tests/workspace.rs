use symphony::workspace::{
    hook_report_outcome, path_file_name, CreateEvent, CreateStep, HookCommand, HookKind,
    HookReport, HookStep, RemoveEvent, RemoveStep, WorkspaceError, WorkspaceManager,
};

fn manager() -> WorkspaceManager {
    WorkspaceManager::new("/ws".into())
}

fn run_of(step: CreateStep) -> HookCommand {
    match step {
        CreateStep::RunHook(command) => command,
        other => panic!("{other:?}"),
    }
}

#[test]
fn test_create_workspace() {
    let mgr = manager();
    let fresh = CreateEvent::Probed {
        exists: false,
        is_dir: false,
    };
    match mgr.create_for_issue("ABC-123", fresh) {
        CreateStep::MakeDir(path) => assert_eq!(path, "/ws/ABC-123"),
        other => panic!("{other:?}"),
    }
    match mgr.create_for_issue("ABC-123", CreateEvent::DirMade) {
        CreateStep::Ready(ws) => {
            assert_eq!(ws.path, "/ws/ABC-123");
            assert!(ws.created_now);
            assert_eq!(ws.workspace_key, "ABC-123");
        }
        other => panic!("{other:?}"),
    }
    let again = CreateEvent::Probed {
        exists: true,
        is_dir: true,
    };
    match mgr.create_for_issue("ABC-123", again) {
        CreateStep::Ready(ws2) => assert!(!ws2.created_now),
        other => panic!("{other:?}"),
    }
}

#[test]
fn test_workspace_key_sanitization() {
    match manager().create_for_issue("TEAM/ISSUE:1", CreateEvent::DirMade) {
        CreateStep::Ready(ws) => {
            assert_eq!(ws.workspace_key, "TEAM_ISSUE_1");
            assert_eq!(ws.path, "/ws/TEAM_ISSUE_1");
        }
        other => panic!("{other:?}"),
    }
}

#[test]
fn test_hooks_receive_workspace_environment() {
    let mut mgr = manager();
    let script = "printf '%s|%s|%s' \"$SYMPHONY_ISSUE_IDENTIFIER\" \"$SYMPHONY_WORKSPACE_KEY\" \"$SYMPHONY_WORKSPACE\" > hook-env.txt";
    mgr.after_create = Some(script.into());
    let command = run_of(mgr.create_for_issue("TEAM/ISSUE:1", CreateEvent::DirMade));
    assert_eq!(command.program, "bash");
    assert_eq!(command.option, "-lc");
    assert_eq!(command.script, script);
    assert_eq!(command.current_dir, "/ws/TEAM_ISSUE_1");
    assert_eq!(command.timeout_ms, 60_000);
    assert_eq!(
        command.env,
        vec![
            ("SYMPHONY_WORKSPACE", "/ws/TEAM_ISSUE_1".to_string()),
            ("SYMPHONY_WORKSPACE_KEY", "TEAM_ISSUE_1".to_string()),
            ("SYMPHONY_ISSUE_IDENTIFIER", "TEAM/ISSUE:1".to_string()),
        ]
    );
    let command = mgr.run_hook("x", "/", "ID");
    assert_eq!(command.env[1].1, "ID");
}

#[test]
fn test_remove_workspace() {
    let mgr = manager();
    match mgr.remove_workspace("T-99", RemoveEvent::Probed { exists: true }) {
        RemoveStep::RemoveDir(path) => assert_eq!(path, "/ws/T-99"),
        other => panic!("{other:?}"),
    }
    assert!(matches!(
        mgr.remove_workspace("T-99", RemoveEvent::Probed { exists: false }),
        RemoveStep::Nothing
    ));
}

#[test]
fn test_before_remove_hook_timeout_preserves_workspace() {
    let mut mgr = manager();
    mgr.before_remove = Some("sleep 2".into());
    mgr.hook_timeout_ms = 50;
    match mgr.remove_workspace("T-100", RemoveEvent::Probed { exists: true }) {
        RemoveStep::RunHook(command) => assert_eq!(command.timeout_ms, 50),
        other => panic!("{other:?}"),
    }
    match mgr.remove_workspace("T-100", RemoveEvent::HookDone(HookReport::TimedOut)) {
        RemoveStep::Keep(e) => assert_eq!(e.message(), "hook timed out after 50ms"),
        other => panic!("{other:?}"),
    }
    let ok = HookReport::Exited {
        success: true,
        stderr: "noise".into(),
    };
    assert!(matches!(
        mgr.remove_workspace("T-100", RemoveEvent::HookDone(ok)),
        RemoveStep::RemoveDir(_)
    ));
    let bad = HookReport::NotRun("no bash".into());
    match mgr.remove_workspace("T-100", RemoveEvent::HookDone(bad)) {
        RemoveStep::Keep(e) => {
            assert_eq!(e.message(), "before_remove hook failed: hook failed: no bash")
        }
        other => panic!("{other:?}"),
    }
}

#[test]
fn creations_that_fail() {
    let mgr = manager();
    let file = CreateEvent::Probed {
        exists: true,
        is_dir: false,
    };
    match mgr.create_for_issue("A", file) {
        CreateStep::Failed(e) => {
            assert_eq!(e.message(), "workspace path is not a directory: /ws/A")
        }
        other => panic!("{other:?}"),
    }
    match mgr.create_for_issue("A", CreateEvent::DirFailed("denied".into())) {
        CreateStep::Failed(e) => assert_eq!(
            e.message(),
            "failed to create workspace directory /ws/A: denied"
        ),
        other => panic!("{other:?}"),
    }
    let bad = HookReport::Exited {
        success: false,
        stderr: "\u{e9}".repeat(501),
    };
    match mgr.create_for_issue("A", CreateEvent::HookDone(bad)) {
        CreateStep::Failed(e) => assert_eq!(
            e.message(),
            format!(
                "after_create hook failed: hook failed: {}",
                "\u{e9}".repeat(500)
            )
        ),
        other => panic!("{other:?}"),
    }
    match mgr.create_for_issue("A", CreateEvent::HookDone(HookReport::TimedOut)) {
        CreateStep::Failed(WorkspaceError::HookTimeout(ms)) => assert_eq!(ms, 60_000),
        other => panic!("{other:?}"),
    }
}

#[test]
fn hooks_around_a_run() {
    let mut mgr = manager();
    assert!(matches!(
        mgr.run_before_run("/ws/A", "A", None),
        HookStep::Done
    ));
    assert!(mgr.run_after_run("/ws/A", "A").is_none());
    mgr.before_run = Some("b".into());
    mgr.after_run = Some("a".into());
    match mgr.run_before_run("/ws/A", "A", None) {
        HookStep::Run(command) => assert_eq!(command.script, "b"),
        other => panic!("{other:?}"),
    }
    assert_eq!(mgr.run_after_run("/ws/A", "A").unwrap().script, "a");
    let bad = HookReport::Exited {
        success: false,
        stderr: "oops".into(),
    };
    match mgr.run_before_run("/ws/A", "A", Some(bad)) {
        HookStep::Failed(e) => {
            assert_eq!(e.message(), "before_run hook failed: hook failed: oops")
        }
        other => panic!("{other:?}"),
    }
    let ok = HookReport::Exited {
        success: true,
        stderr: "".into(),
    };
    assert!(hook_report_outcome(HookKind::BeforeRun, ok, 1).is_ok());
}

#[test]
fn file_names_agree_with_the_standard_library() {
    for path in [
        "", "/", ".", "..", "a", "/a", "a/", "a/b", "a/.", "a/./", "./.", "/.", "a/..", "..a", "a//b//", ".a/.",
        "/ws/TEAM_1", "/ws/..", "//", "a/./b/.", "\u{e9}/\u{e8}",
    ] {
        let expected = std::path::Path::new(path)
            .file_name()
            .map(|n| n.to_str().unwrap().to_string());
        assert_eq!(path_file_name(path), expected, "{path:?}");
    }
}
