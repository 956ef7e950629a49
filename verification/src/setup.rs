//! Putting the program together: the command line's say over the configuration,
//! the workspaces, the tracker.
use crate::config::{ServiceConfig, ServiceConfigV};
use crate::logging::{LogFormat, LogVerbosity, LoggingConfig};
use crate::text::{clone_opt, clone_texts, opt_text, texts};
use crate::tracker::{LinearClient, LinearV, MockTracker};
use crate::types::{issues, Issue, IssueV, Timestamp};
use crate::workspace::{ManagerV, WorkspaceManager};
use vstd::prelude::*;
use vstd::string::*;

verus! {

/// What the command line says.
#[derive(Debug)]
pub struct Overrides {
    pub workspace_root: Option<String>,
    pub mock_tracker: bool,
    pub mock_agent: bool,
}

/// The configuration with which the program starts: the workflow file's, with the
/// command line's say and the prompt.
pub open spec fn overridden(
    config: ServiceConfigV,
    workspace_root: Option<Seq<char>>,
    mock_tracker: bool,
    mock_agent: bool,
    prompt_template: Seq<char>,
) -> ServiceConfigV {
    ServiceConfigV {
        workspace_root: match workspace_root {
            Some(root) => root,
            None => config.workspace_root,
        },
        mock_mode: mock_tracker,
        mock_agent,
        prompt_template,
        ..config
    }
}

/// The configuration with which the program starts.
pub fn apply_overrides(config: ServiceConfig, overrides: Overrides, prompt_template: String) -> (r:
    ServiceConfig)
    ensures
        r@ == overridden(
            config@,
            opt_text(overrides.workspace_root),
            overrides.mock_tracker,
            overrides.mock_agent,
            prompt_template@,
        ),
{
    let mut r: ServiceConfig = config;
    if let Some(root) = overrides.workspace_root {
        r.workspace_root = root;
    }
    r.mock_mode = overrides.mock_tracker;
    r.mock_agent = overrides.mock_agent;
    r.prompt_template = prompt_template;
    r
}

/// The workspaces as they are configured.
pub open spec fn configured_manager(config: ServiceConfigV) -> ManagerV {
    ManagerV {
        root: config.workspace_root,
        after_create: config.hooks_after_create,
        before_run: config.hooks_before_run,
        after_run: config.hooks_after_run,
        before_remove: config.hooks_before_remove,
        hook_timeout_ms: config.hooks_timeout_ms,
    }
}

/// The workspaces as they are configured.
pub fn workspace_manager(config: &ServiceConfig) -> (r: WorkspaceManager)
    ensures
        r@ == configured_manager(config@),
{
    let mut r: WorkspaceManager = WorkspaceManager::new(config.workspace_root.clone());
    r.after_create = clone_opt(&config.hooks_after_create);
    r.before_run = clone_opt(&config.hooks_before_run);
    r.after_run = clone_opt(&config.hooks_after_run);
    r.before_remove = clone_opt(&config.hooks_before_remove);
    r.hook_timeout_ms = config.hooks_timeout_ms;
    r
}

/// The Linear client as it is configured.
pub open spec fn configured_client(config: ServiceConfigV) -> LinearV {
    LinearV {
        endpoint: config.tracker_endpoint,
        api_key: config.tracker_api_key,
        project_slug: match config.tracker_project_slug {
            Some(slug) => slug,
            None => Seq::empty(),
        },
        active_states: config.tracker_active_states,
        terminal_states: config.tracker_terminal_states,
    }
}

/// The Linear client as it is configured.
pub fn linear_client(config: &ServiceConfig) -> (r: LinearClient)
    ensures
        r@ == configured_client(config@),
{
    let project_slug: String = match &config.tracker_project_slug {
        Some(slug) => slug.clone(),
        None => {
            let none: String = String::new();
            assert(none@ =~= Seq::<char>::empty());
            none
        },
    };
    LinearClient::new(
        config.tracker_endpoint.clone(),
        clone_opt(&config.tracker_api_key),
        project_slug,
        clone_texts(&config.tracker_active_states),
        clone_texts(&config.tracker_terminal_states),
    )
}

/// How the program logs, by the command line.
pub fn logging_config(json_logs: bool, verbose: bool) -> (r: LoggingConfig)
    ensures
        r.format == (if json_logs {
            LogFormat::Json
        } else {
            LogFormat::Text
        }),
        r.verbosity == (if verbose {
            LogVerbosity::Verbose
        } else {
            LogVerbosity::Normal
        }),
{
    LoggingConfig {
        format: if json_logs {
            LogFormat::Json
        } else {
            LogFormat::Text
        },
        verbosity: if verbose {
            LogVerbosity::Verbose
        } else {
            LogVerbosity::Normal
        },
    }
}

/// An issue for trying the program out.
pub open spec fn sample_issue(
    id: Seq<char>,
    identifier: Seq<char>,
    title: Seq<char>,
    description: Option<Seq<char>>,
    priority: i32,
    state: Seq<char>,
    url: Option<Seq<char>>,
    labels: Seq<Seq<char>>,
    now: Timestamp,
) -> IssueV {
    IssueV {
        id,
        identifier,
        title,
        description,
        priority: Some(priority),
        state,
        branch_name: None,
        url,
        labels,
        blocked_by: Seq::empty(),
        created_at: Some(now),
        updated_at: None,
    }
}

/// The issues for trying the program out.
pub open spec fn sample_issues(now: Timestamp) -> Seq<IssueV> {
    seq![
        sample_issue(
            "mock-1"@,
            "DEMO-1"@,
            "Fix login timeout bug"@,
            Some("Users report intermittent timeouts during SSO login"@),
            2,
            "Todo"@,
            Some("https://linear.app/issue/DEMO-1"@),
            seq!["bug"@, "p1"@],
            now,
        ),
        sample_issue(
            "mock-2"@,
            "DEMO-2"@,
            "Add rate limiting to API"@,
            Some("Implement token bucket rate limiter"@),
            1,
            "Todo"@,
            Some("https://linear.app/issue/DEMO-2"@),
            seq!["feature"@],
            now,
        ),
        sample_issue(
            "mock-3"@,
            "DEMO-3"@,
            "Update CI pipeline"@,
            None,
            3,
            "Done"@,
            None,
            Seq::empty(),
            now,
        ),
    ]
}

fn make_sample(
    id: &str,
    identifier: &str,
    title: &str,
    description: Option<String>,
    priority: i32,
    state: &str,
    url: Option<String>,
    labels: Vec<String>,
    now: Timestamp,
) -> (r: Issue)
    ensures
        r@ == sample_issue(
            id@,
            identifier@,
            title@,
            opt_text(description),
            priority,
            state@,
            opt_text(url),
            texts(labels@),
            now,
        ),
{
    let r = Issue {
        id: id.to_owned(),
        identifier: identifier.to_owned(),
        title: title.to_owned(),
        description,
        priority: Some(priority),
        state: state.to_owned(),
        branch_name: None,
        url,
        labels,
        blocked_by: Vec::new(),
        created_at: Some(now),
        updated_at: None,
    };
    assert(r@.blocked_by =~= Seq::<crate::types::BlockerV>::empty());
    r
}

/// A tracker in memory with issues for trying the program out.
pub fn sample_tracker(now: Timestamp) -> (r: MockTracker)
    ensures
        issues(r.issues@) == sample_issues(now),
{
    let bug: Vec<String> = vec!["bug".to_owned(), "p1".to_owned()];
    let feature: Vec<String> = vec!["feature".to_owned()];
    let none: Vec<String> = Vec::new();
    proof {
        assert(texts(bug@) =~= seq!["bug"@, "p1"@]);
        assert(texts(feature@) =~= seq!["feature"@]);
        assert(texts(none@) =~= Seq::<Seq<char>>::empty());
    }
    let list: Vec<Issue> = vec![
        make_sample(
            "mock-1",
            "DEMO-1",
            "Fix login timeout bug",
            Some("Users report intermittent timeouts during SSO login".to_owned()),
            2,
            "Todo",
            Some("https://linear.app/issue/DEMO-1".to_owned()),
            bug,
            now,
        ),
        make_sample(
            "mock-2",
            "DEMO-2",
            "Add rate limiting to API",
            Some("Implement token bucket rate limiter".to_owned()),
            1,
            "Todo",
            Some("https://linear.app/issue/DEMO-2".to_owned()),
            feature,
            now,
        ),
        make_sample("mock-3", "DEMO-3", "Update CI pipeline", None, 3, "Done", None, none, now),
    ];
    assert(issues(list@) =~= sample_issues(now));
    MockTracker::new(list)
}

// ── Laws of the setup ───────────────────────────────────────────────────────

/// The command line has its say over the place of the workspaces and over what is made
/// up; all else is the configuration's.
pub proof fn law_overrides(
    config: ServiceConfigV,
    root: Seq<char>,
    mock_tracker: bool,
    mock_agent: bool,
    prompt: Seq<char>,
)
    ensures
        ({
            let with_root = overridden(config, Some(root), mock_tracker, mock_agent, prompt);
            let without = overridden(config, None, mock_tracker, mock_agent, prompt);
            &&& with_root.workspace_root == root
            &&& without.workspace_root == config.workspace_root
            &&& without.mock_mode == mock_tracker
            &&& without.mock_agent == mock_agent
            &&& without.prompt_template == prompt
            &&& with_root == (ServiceConfigV { workspace_root: root, ..without })
            &&& without == (ServiceConfigV {
                mock_mode: mock_tracker,
                mock_agent,
                prompt_template: prompt,
                ..config
            })
        }),
{
}

/// Workspaces and tracker are what the configuration says, each part from its own field.
pub proof fn law_parts_are_configured(config: ServiceConfigV)
    ensures
        configured_manager(config).root == config.workspace_root,
        configured_manager(config).after_create == config.hooks_after_create,
        configured_manager(config).before_run == config.hooks_before_run,
        configured_manager(config).after_run == config.hooks_after_run,
        configured_manager(config).before_remove == config.hooks_before_remove,
        configured_manager(config).hook_timeout_ms == config.hooks_timeout_ms,
        configured_client(config).endpoint == config.tracker_endpoint,
        configured_client(config).api_key == config.tracker_api_key,
        config.tracker_project_slug matches Some(slug) ==> configured_client(config).project_slug
            == slug,
        config.tracker_project_slug is None ==> configured_client(config).project_slug.len() == 0,
        configured_client(config).active_states == config.tracker_active_states,
        configured_client(config).terminal_states == config.tracker_terminal_states,
{
}

/// Of the issues for trying the program out two wait to be done, the more urgent one
/// second, and one is done; all were created now and none is blocked.
pub proof fn law_sample_issues(now: Timestamp, k: int)
    ensures
        sample_issues(now).len() == 3,
        0 <= k < 3 ==> sample_issues(now)[k].created_at == Some(now) && sample_issues(
            now,
        )[k].blocked_by.len() == 0 && sample_issues(now)[k].updated_at is None && sample_issues(
            now,
        )[k].branch_name is None && sample_issues(now)[k].priority is Some,
        sample_issues(now)[0].id == "mock-1"@ && sample_issues(now)[0].identifier == "DEMO-1"@,
        sample_issues(now)[1].id == "mock-2"@ && sample_issues(now)[1].identifier == "DEMO-2"@,
        sample_issues(now)[2].id == "mock-3"@ && sample_issues(now)[2].identifier == "DEMO-3"@,
        sample_issues(now)[0].state == "Todo"@ && sample_issues(now)[1].state == "Todo"@,
        sample_issues(now)[2].state == "Done"@,
        sample_issues(now)[0].priority == Some(2i32) && sample_issues(now)[1].priority == Some(
            1i32,
        ) && sample_issues(now)[2].priority == Some(3i32),
{
}

} // verus!
