use symphony::config::{ConfigError, RawConfig, RawPollingConfig, RawTrackerConfig, RawAgentConfig, ServiceConfig};
use symphony::environment::Environment;
use symphony::workflow::{
    join_lines, missing_workflow_file, parse_workflow_content, reload_config, split_lines,
    split_workflow, workflow_from_parts, WorkflowParts, YamlShape,
};

#[test]
fn test_parse_workflow_no_front_matter() {
    let wf = parse_workflow_content("Just a prompt body").unwrap();
    assert_eq!(wf.prompt_template, "Just a prompt body");
    assert!(wf.config.is_null());
}

#[test]
fn test_parse_workflow_with_front_matter() {
    let wf = parse_workflow_content(
        r#"---
tracker:
  kind: linear
  project_slug: test
---

You are working on {{ issue.identifier }}
"#,
    )
    .unwrap();
    assert!(wf.config.is_mapping());
    assert!(wf.prompt_template.contains("{{ issue.identifier }}"));
    assert_eq!(wf.config["tracker"]["kind"].as_str(), Some("linear"));
}

#[test]
fn test_parse_workflow_missing_front_matter_returns_error() {
    let result = parse_workflow_content(
        r#"---
incomplete front matter
"#,
    );
    assert!(result.is_err());
    assert_eq!(
        result.err().unwrap().message(),
        "workflow_parse_error: unclosed YAML front matter"
    );
}

#[test]
fn test_parse_workflow_non_map_front_matter() {
    let result = parse_workflow_content(
        r#"---
- list item
- not a map
---

body
"#,
    );
    assert!(result.is_err());
    assert!(matches!(
        result.err().unwrap(),
        ConfigError::WorkflowFrontMatterNotAMap
    ));
}

#[test]
fn front_matter_that_is_no_yaml() {
    let result = parse_workflow_content("---\na: [1\n---\nbody");
    assert!(matches!(
        result.err().unwrap(),
        ConfigError::WorkflowParseError(_)
    ));
}

#[test]
fn front_matter_with_nothing_in_it() {
    let wf = parse_workflow_content("---\n  --- \nbody").unwrap();
    assert!(wf.config.is_null());
    assert_eq!(wf.prompt_template, "body");
}

#[test]
fn the_first_delimiter_ends_the_front_matter() {
    match split_workflow("\n ---  \r\na: 1\r\n --- \r\nbody\n---\nmore\n") {
        WorkflowParts::FrontMatter { yaml, body } => {
            assert_eq!(yaml, "a: 1");
            assert_eq!(body, "body\n---\nmore");
        }
        other => panic!("{other:?}"),
    }
    assert!(matches!(split_workflow("---"), WorkflowParts::Unclosed));
    assert!(matches!(
        split_workflow("---\n----\n--- x"),
        WorkflowParts::Unclosed
    ));
}

#[test]
fn only_a_full_delimiter_line_opens_the_front_matter() {
    for text in [
        "----\nhello",
        "--- first\na: 1\n---\nbody",
        "---x",
        "prompt\n---",
        "- - -\n---",
        "",
    ] {
        match split_workflow(text) {
            WorkflowParts::PromptOnly { body } => assert_eq!(body, text),
            other => panic!("{other:?}"),
        }
        let wf = parse_workflow_content(text).ok().unwrap();
        assert!(wf.config.is_null());
        assert_eq!(wf.prompt_template, text);
    }
}

#[test]
fn lines_agree_with_the_standard_library() {
    for s in ["", "\n", "a", "a\n", "a\nb", "a\r\nb\r", "\r\n\r\n", "a\r\r\nb\n\n", "\u{e9}\n\u{2028}x"] {
        let expected: Vec<&str> = s.lines().collect();
        assert_eq!(split_lines(s), expected, "{s:?}");
        let lines = split_lines(s);
        assert_eq!(join_lines(&lines, 0, lines.len()), expected.join("\n"));
    }
}

#[test]
fn judging_what_was_read() {
    assert!(matches!(
        workflow_from_parts(Err("bad".into()), YamlShape::Null, "b".into())
            .err()
            .unwrap(),
        ConfigError::WorkflowParseError(e) if e == "bad"
    ));
    assert!(workflow_from_parts(Ok(serde_yaml::Value::Null), YamlShape::Null, "b".into()).is_ok());
    assert!(workflow_from_parts(Ok(serde_yaml::Value::Null), YamlShape::Other, "b".into()).is_err());
    assert_eq!(
        missing_workflow_file("W.md", "not found").message(),
        "missing_workflow_file: W.md: not found"
    );
}

fn env() -> Environment {
    Environment {
        vars: vec![],
        home: None,
        temp_dir: "/tmp".into(),
    }
}

#[test]
fn a_reload_keeps_the_last_good_configuration() {
    let current = ServiceConfig {
        poll_interval_ms: 1,
        prompt_template: "old".into(),
        ..ServiceConfig::default()
    };
    let (kept, error) = reload_config(
        current.clone(),
        Err(ConfigError::WorkflowFrontMatterNotAMap),
        "new".into(),
        ".",
        &env(),
    );
    assert_eq!(kept.poll_interval_ms, 1);
    assert_eq!(kept.prompt_template, "old");
    assert!(error.is_some());

    let conflicting = RawConfig {
        tracker: Some(RawTrackerConfig {
            claim_state: Some("a".into()),
            ..RawTrackerConfig::default()
        }),
        agent: Some(RawAgentConfig {
            claim_state: Some("b".into()),
            ..RawAgentConfig::default()
        }),
        ..RawConfig::default()
    };
    let (kept, error) = reload_config(current.clone(), Ok(conflicting), "new".into(), ".", &env());
    assert_eq!(kept.prompt_template, "old");
    assert_eq!(
        error.unwrap().message(),
        "invalid config: agent.claim_state conflicts with tracker.claim_state"
    );

    let good = RawConfig {
        polling: Some(RawPollingConfig {
            interval_ms: Some(2),
        }),
        ..RawConfig::default()
    };
    let (next, error) = reload_config(current, Ok(good), "new".into(), ".", &env());
    assert!(error.is_none());
    assert_eq!(next.poll_interval_ms, 2);
    assert_eq!(next.prompt_template, "new");
}
