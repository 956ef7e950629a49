//! Runtime configuration: defaults, environment references, validation.
use crate::environment::{
    default_root, default_workspace_root, expand_path, expanded_path, resolve_env_var, resolved,
    Environment, EnvironmentV,
};
use crate::json::opt_str;
use crate::table::{item_map, Table};
use crate::text::{
    clone_opt, clone_texts, concat2, concat3, eq_ignore_ascii_case, is_blank, is_blank_text,
    lowercase, opt_text, same_ignoring_ascii_case, text_eq, texts, to_lowercase, trim, trimmed,
};
use vstd::prelude::*;
use vstd::string::*;

verus! {

pub const DEFAULT_CODEX_APPROVAL_POLICY: &'static str = "never";

pub const DEFAULT_CODEX_THREAD_SANDBOX: &'static str = "workspace-write";

pub const DEFAULT_CODEX_TURN_SANDBOX_POLICY: &'static str = "workspace-write";

pub const CODEX_APPROVAL_POLICY_VALUES: &'static str =
    "never, on-request, on-failure, unless-trusted";

pub const CODEX_SANDBOX_VALUES: &'static str = "read-only, workspace-write, danger-full-access";

// ── Errors ──────────────────────────────────────────────────────────────────

/// What can be wrong with a workflow file, its configuration or its template.
#[derive(Debug)]
pub enum ConfigError {
    MissingWorkflowFile(String),
    WorkflowParseError(String),
    WorkflowFrontMatterNotAMap,
    MissingField(String),
    UnsupportedTracker(String),
    MissingCredentials,
    TemplateParseError(String),
    TemplateRenderError(String),
    InvalidConfig(String),
    InvalidValue { field: String, value: String, allowed: &'static str },
}

/// A configuration error by its contents.
#[verifier::ext_equal]
pub enum ConfigErrorV {
    MissingWorkflowFile(Seq<char>),
    WorkflowParseError(Seq<char>),
    WorkflowFrontMatterNotAMap,
    MissingField(Seq<char>),
    UnsupportedTracker(Seq<char>),
    MissingCredentials,
    TemplateParseError(Seq<char>),
    TemplateRenderError(Seq<char>),
    InvalidConfig(Seq<char>),
    InvalidValue { field: Seq<char>, value: Seq<char>, allowed: Seq<char> },
}

impl View for ConfigError {
    type V = ConfigErrorV;

    open spec fn view(&self) -> ConfigErrorV {
        match self {
            ConfigError::MissingWorkflowFile(s) => ConfigErrorV::MissingWorkflowFile(s@),
            ConfigError::WorkflowParseError(s) => ConfigErrorV::WorkflowParseError(s@),
            ConfigError::WorkflowFrontMatterNotAMap => ConfigErrorV::WorkflowFrontMatterNotAMap,
            ConfigError::MissingField(s) => ConfigErrorV::MissingField(s@),
            ConfigError::UnsupportedTracker(s) => ConfigErrorV::UnsupportedTracker(s@),
            ConfigError::MissingCredentials => ConfigErrorV::MissingCredentials,
            ConfigError::TemplateParseError(s) => ConfigErrorV::TemplateParseError(s@),
            ConfigError::TemplateRenderError(s) => ConfigErrorV::TemplateRenderError(s@),
            ConfigError::InvalidConfig(s) => ConfigErrorV::InvalidConfig(s@),
            ConfigError::InvalidValue { field, value, allowed } => ConfigErrorV::InvalidValue {
                field: field@,
                value: value@,
                allowed: allowed@,
            },
        }
    }
}

/// What a configuration error says.
pub open spec fn config_error_text(e: ConfigErrorV) -> Seq<char> {
    match e {
        ConfigErrorV::MissingWorkflowFile(s) => "missing_workflow_file: "@ + s,
        ConfigErrorV::WorkflowParseError(s) => "workflow_parse_error: "@ + s,
        ConfigErrorV::WorkflowFrontMatterNotAMap => "workflow_front_matter_not_a_map"@,
        ConfigErrorV::MissingField(s) => "missing required field: "@ + s,
        ConfigErrorV::UnsupportedTracker(s) => "unsupported tracker kind: "@ + s,
        ConfigErrorV::MissingCredentials => "missing tracker credentials"@,
        ConfigErrorV::TemplateParseError(s) => "template_parse_error: "@ + s,
        ConfigErrorV::TemplateRenderError(s) => "template_render_error: "@ + s,
        ConfigErrorV::InvalidConfig(s) => "invalid config: "@ + s,
        ConfigErrorV::InvalidValue { field, value, allowed } => "invalid value for "@ + field
            + ": "@ + value + "; allowed values: "@ + allowed,
    }
}

impl ConfigError {
    /// What the error says.
    pub fn message(&self) -> (r: String)
        ensures
            r@ == config_error_text(self@),
    {
        match self {
            ConfigError::MissingWorkflowFile(s) => concat2("missing_workflow_file: ", s.as_str()),
            ConfigError::WorkflowParseError(s) => concat2("workflow_parse_error: ", s.as_str()),
            ConfigError::WorkflowFrontMatterNotAMap => "workflow_front_matter_not_a_map".to_owned(),
            ConfigError::MissingField(s) => concat2("missing required field: ", s.as_str()),
            ConfigError::UnsupportedTracker(s) => concat2("unsupported tracker kind: ", s.as_str()),
            ConfigError::MissingCredentials => "missing tracker credentials".to_owned(),
            ConfigError::TemplateParseError(s) => concat2("template_parse_error: ", s.as_str()),
            ConfigError::TemplateRenderError(s) => concat2("template_render_error: ", s.as_str()),
            ConfigError::InvalidConfig(s) => concat2("invalid config: ", s.as_str()),
            ConfigError::InvalidValue { field, value, allowed } => {
                let head: String = concat3("invalid value for ", field.as_str(), ": ");
                let body: String = concat3(head.as_str(), value.as_str(), "; allowed values: ");
                concat2(body.as_str(), allowed)
            },
        }
    }
}

/// The outcome of a check by its contents.
pub open spec fn check_view(r: Result<(), ConfigError>) -> Result<(), ConfigErrorV> {
    match r {
        Ok(_) => Ok(()),
        Err(e) => Err(e@),
    }
}

// ── Codex policies ──────────────────────────────────────────────────────────

/// The approval policy that a text names, in the form that is kept.
pub open spec fn approval_policy(value: Seq<char>) -> Option<Seq<char>> {
    let v = trimmed(value);
    if v == "never"@ {
        Some("never"@)
    } else if v == "on-request"@ || v == "on_request"@ || v == "onRequest"@ {
        Some("on-request"@)
    } else if v == "on-failure"@ || v == "on_failure"@ || v == "onFailure"@ {
        Some("on-failure"@)
    } else if v == "unless-trusted"@ || v == "unless_trusted"@ || v == "unlessTrusted"@ || v
        == "untrusted"@ {
        Some("unless-trusted"@)
    } else {
        None
    }
}

/// The kept form of an approval policy; `None` where the text names none.
pub fn normalize_codex_approval_policy(value: &str) -> (r: Option<&'static str>)
    ensures
        opt_str(r) == approval_policy(value@),
{
    let trimmed_value: String = trim(value);
    let v: &str = trimmed_value.as_str();
    if text_eq(v, "never") {
        Some("never")
    } else if text_eq(v, "on-request") || text_eq(v, "on_request") || text_eq(v, "onRequest") {
        Some("on-request")
    } else if text_eq(v, "on-failure") || text_eq(v, "on_failure") || text_eq(v, "onFailure") {
        Some("on-failure")
    } else if text_eq(v, "unless-trusted") || text_eq(v, "unless_trusted") || text_eq(
        v,
        "unlessTrusted",
    ) || text_eq(v, "untrusted") {
        Some("unless-trusted")
    } else {
        None
    }
}

/// The sandbox that a text names, in the form that is kept.
pub open spec fn sandbox(value: Seq<char>) -> Option<Seq<char>> {
    let v = trimmed(value);
    if v == "read-only"@ || v == "read_only"@ || v == "readOnly"@ || v == "readonly"@ {
        Some("read-only"@)
    } else if v == "workspace-write"@ || v == "workspace_write"@ || v == "workspaceWrite"@ {
        Some("workspace-write"@)
    } else if v == "danger-full-access"@ || v == "danger_full_access"@ || v
        == "dangerFullAccess"@ {
        Some("danger-full-access"@)
    } else {
        None
    }
}

/// The kept form of a sandbox; `None` where the text names none.
pub fn normalize_codex_sandbox(value: &str) -> (r: Option<&'static str>)
    ensures
        opt_str(r) == sandbox(value@),
{
    let trimmed_value: String = trim(value);
    let v: &str = trimmed_value.as_str();
    if text_eq(v, "read-only") || text_eq(v, "read_only") || text_eq(v, "readOnly") || text_eq(
        v,
        "readonly",
    ) {
        Some("read-only")
    } else if text_eq(v, "workspace-write") || text_eq(v, "workspace_write") || text_eq(
        v,
        "workspaceWrite",
    ) {
        Some("workspace-write")
    } else if text_eq(v, "danger-full-access") || text_eq(v, "danger_full_access") || text_eq(
        v,
        "dangerFullAccess",
    ) {
        Some("danger-full-access")
    } else {
        None
    }
}

/// A kept form is kept as it is.
pub proof fn law_policies_stay_normal(value: Seq<char>)
    ensures
        approval_policy(value) matches Some(p) ==> approval_policy(p) == Some(p),
        sandbox(value) matches Some(p) ==> sandbox(p) == Some(p),
{
    reveal_strlit("never");
    reveal_strlit("on-request");
    reveal_strlit("on_request");
    reveal_strlit("onRequest");
    reveal_strlit("on-failure");
    reveal_strlit("on_failure");
    reveal_strlit("onFailure");
    reveal_strlit("unless-trusted");
    reveal_strlit("unless_trusted");
    reveal_strlit("unlessTrusted");
    reveal_strlit("untrusted");
    reveal_strlit("read-only");
    reveal_strlit("read_only");
    reveal_strlit("readOnly");
    reveal_strlit("readonly");
    reveal_strlit("workspace-write");
    reveal_strlit("workspace_write");
    reveal_strlit("workspaceWrite");
    reveal_strlit("danger-full-access");
    lemma_trimmed_word("never"@);
    lemma_trimmed_word("on-request"@);
    lemma_trimmed_word("on-failure"@);
    lemma_trimmed_word("unless-trusted"@);
    lemma_trimmed_word("read-only"@);
    lemma_trimmed_word("workspace-write"@);
    lemma_trimmed_word("danger-full-access"@);
    assert("on-failure"@[3] == 'f');
    assert("on-request"@[3] == 'r');
}

/// A text that neither starts nor ends with white space is trimmed already.
pub proof fn lemma_trimmed_word(s: Seq<char>)
    requires
        s.len() > 0 ==> !crate::text::is_space(s[0]) && !crate::text::is_space(s.last()),
    ensures
        trimmed(s) == s,
{
}

/// The policies that a field of the configuration can hold.
#[derive(Debug, Clone, Copy, PartialEq, Eq, Structural)]
pub enum CodexPolicy {
    Approval,
    Sandbox,
}

/// The kept form under a policy.
pub open spec fn normalized(policy: CodexPolicy, value: Seq<char>) -> Option<Seq<char>> {
    match policy {
        CodexPolicy::Approval => approval_policy(value),
        CodexPolicy::Sandbox => sandbox(value),
    }
}

impl CodexPolicy {
    /// The kept form under this policy.
    pub fn normalize(&self, value: &str) -> (r: Option<&'static str>)
        ensures
            opt_str(r) == normalized(*self, value@),
    {
        match self {
            CodexPolicy::Approval => normalize_codex_approval_policy(value),
            CodexPolicy::Sandbox => normalize_codex_sandbox(value),
        }
    }
}

/// The error for a value that a field does not take.
pub fn invalid_value(field: &str, value: &str, allowed: &'static str) -> (r: ConfigError)
    ensures
        r@ == (ConfigErrorV::InvalidValue { field: field@, value: value@, allowed: allowed@ }),
{
    ConfigError::InvalidValue { field: field.to_owned(), value: value.to_owned(), allowed }
}

/// What is wrong with an optional value, if anything.
pub open spec fn optional_value_check(
    field: Seq<char>,
    value: Option<Seq<char>>,
    allowed: Seq<char>,
    policy: CodexPolicy,
) -> Result<(), ConfigErrorV> {
    match value {
        Some(v) => if normalized(policy, v) is None {
            Err(ConfigErrorV::InvalidValue { field, value: v, allowed })
        } else {
            Ok(())
        },
        None => Ok(()),
    }
}

/// Refuses a value that the policy does not know.
pub fn validate_optional_value(
    field: &str,
    value: Option<&str>,
    allowed: &'static str,
    policy: CodexPolicy,
) -> (r: Result<(), ConfigError>)
    ensures
        check_view(r) == optional_value_check(field@, opt_str(value), allowed@, policy),
{
    match value {
        Some(v) => match policy.normalize(v) {
            Some(_) => Ok(()),
            None => Err(invalid_value(field, v, allowed)),
        },
        None => Ok(()),
    }
}

/// What is wrong with an optional name, if anything.
pub open spec fn optional_non_empty_check(field: Seq<char>, value: Option<Seq<char>>) -> Result<
    (),
    ConfigErrorV,
> {
    if value is Some && is_blank(value->0) {
        Err(ConfigErrorV::MissingField(field))
    } else {
        Ok(())
    }
}

/// Refuses a name that is there but blank.
pub fn validate_optional_non_empty(field: &str, value: Option<&str>) -> (r: Result<
    (),
    ConfigError,
>)
    ensures
        check_view(r) == optional_non_empty_check(field@, opt_str(value)),
{
    match value {
        Some(v) => if is_blank_text(v) {
            Err(ConfigError::MissingField(field.to_owned()))
        } else {
            Ok(())
        },
        None => Ok(()),
    }
}

/// Whether two fields for the same state disagree.
pub open spec fn handoff_conflict(
    preferred: Option<Seq<char>>,
    alias: Option<Seq<char>>,
) -> bool {
    preferred is Some && alias is Some && preferred->0 != alias->0
}

/// The state that both fields together name.
pub open spec fn handoff_state(
    preferred: Option<Seq<char>>,
    alias: Option<Seq<char>>,
) -> Option<Seq<char>> {
    match alias {
        Some(a) => Some(a),
        None => preferred,
    }
}

/// The text of a conflict between two fields.
pub open spec fn conflict_text(preferred_field: Seq<char>, alias_field: Seq<char>) -> Seq<char> {
    alias_field + " conflicts with "@ + preferred_field
}

/// Takes over what the alias field names; refuses where the preferred field names
/// something else.
pub fn merge_tracker_handoff_state(
    preferred_field: &str,
    alias_field: &str,
    preferred_value: &mut Option<String>,
    alias_value: Option<String>,
) -> (r: Result<(), ConfigError>)
    ensures
        handoff_conflict(opt_text(*old(preferred_value)), opt_text(alias_value)) ==> check_view(r)
            == Err::<(), ConfigErrorV>(
            ConfigErrorV::InvalidConfig(conflict_text(preferred_field@, alias_field@)),
        ) && *final(preferred_value) == *old(preferred_value),
        !handoff_conflict(opt_text(*old(preferred_value)), opt_text(alias_value)) ==> r is Ok
            && opt_text(*final(preferred_value)) == handoff_state(
            opt_text(*old(preferred_value)),
            opt_text(alias_value),
        ),
{
    match alias_value {
        None => Ok(()),
        Some(alias) => {
            let conflict = match &*preferred_value {
                Some(existing) => !text_eq(existing.as_str(), alias.as_str()),
                None => false,
            };
            if conflict {
                return Err(
                    ConfigError::InvalidConfig(
                        concat3(alias_field, " conflicts with ", preferred_field),
                    ),
                );
            }
            *preferred_value = Some(alias);
            Ok(())
        },
    }
}

// ── Typed service config ────────────────────────────────────────────────────

/// Typed runtime values derived from the front matter of the workflow file, with
/// defaults and environment references resolved.
#[derive(Debug)]
pub struct ServiceConfig {
    pub tracker_kind: String,
    pub tracker_endpoint: String,
    pub tracker_api_key: Option<String>,
    pub tracker_project_slug: Option<String>,
    pub tracker_active_states: Vec<String>,
    pub tracker_terminal_states: Vec<String>,
    pub tracker_claim_state: Option<String>,
    pub tracker_completion_state: Option<String>,
    pub poll_interval_ms: u64,
    pub workspace_root: String,
    pub hooks_after_create: Option<String>,
    pub hooks_before_run: Option<String>,
    pub hooks_after_run: Option<String>,
    pub hooks_before_remove: Option<String>,
    pub hooks_timeout_ms: u64,
    pub agent_max_concurrent_agents: u32,
    pub agent_max_turns: u32,
    pub agent_max_retry_backoff_ms: u64,
    pub agent_max_concurrent_agents_by_state: Table<u32>,
    pub codex_command: String,
    pub codex_approval_policy: Option<String>,
    pub codex_thread_sandbox: Option<String>,
    pub codex_turn_sandbox_policy: Option<String>,
    pub codex_turn_timeout_ms: u64,
    pub codex_read_timeout_ms: u64,
    pub codex_stall_timeout_ms: u64,
    pub mock_mode: bool,
    pub mock_agent: bool,
    pub prompt_template: String,
}

/// The runtime values by their contents.
#[verifier::ext_equal]
pub struct ServiceConfigV {
    pub tracker_kind: Seq<char>,
    pub tracker_endpoint: Seq<char>,
    pub tracker_api_key: Option<Seq<char>>,
    pub tracker_project_slug: Option<Seq<char>>,
    pub tracker_active_states: Seq<Seq<char>>,
    pub tracker_terminal_states: Seq<Seq<char>>,
    pub tracker_claim_state: Option<Seq<char>>,
    pub tracker_completion_state: Option<Seq<char>>,
    pub poll_interval_ms: u64,
    pub workspace_root: Seq<char>,
    pub hooks_after_create: Option<Seq<char>>,
    pub hooks_before_run: Option<Seq<char>>,
    pub hooks_after_run: Option<Seq<char>>,
    pub hooks_before_remove: Option<Seq<char>>,
    pub hooks_timeout_ms: u64,
    pub agent_max_concurrent_agents: u32,
    pub agent_max_turns: u32,
    pub agent_max_retry_backoff_ms: u64,
    pub agent_max_concurrent_agents_by_state: Map<Seq<char>, u32>,
    pub codex_command: Seq<char>,
    pub codex_approval_policy: Option<Seq<char>>,
    pub codex_thread_sandbox: Option<Seq<char>>,
    pub codex_turn_sandbox_policy: Option<Seq<char>>,
    pub codex_turn_timeout_ms: u64,
    pub codex_read_timeout_ms: u64,
    pub codex_stall_timeout_ms: u64,
    pub mock_mode: bool,
    pub mock_agent: bool,
    pub prompt_template: Seq<char>,
}

impl View for ServiceConfig {
    type V = ServiceConfigV;

    open spec fn view(&self) -> ServiceConfigV {
        ServiceConfigV {
            tracker_kind: self.tracker_kind@,
            tracker_endpoint: self.tracker_endpoint@,
            tracker_api_key: opt_text(self.tracker_api_key),
            tracker_project_slug: opt_text(self.tracker_project_slug),
            tracker_active_states: texts(self.tracker_active_states@),
            tracker_terminal_states: texts(self.tracker_terminal_states@),
            tracker_claim_state: opt_text(self.tracker_claim_state),
            tracker_completion_state: opt_text(self.tracker_completion_state),
            poll_interval_ms: self.poll_interval_ms,
            workspace_root: self.workspace_root@,
            hooks_after_create: opt_text(self.hooks_after_create),
            hooks_before_run: opt_text(self.hooks_before_run),
            hooks_after_run: opt_text(self.hooks_after_run),
            hooks_before_remove: opt_text(self.hooks_before_remove),
            hooks_timeout_ms: self.hooks_timeout_ms,
            agent_max_concurrent_agents: self.agent_max_concurrent_agents,
            agent_max_turns: self.agent_max_turns,
            agent_max_retry_backoff_ms: self.agent_max_retry_backoff_ms,
            agent_max_concurrent_agents_by_state: self.agent_max_concurrent_agents_by_state@,
            codex_command: self.codex_command@,
            codex_approval_policy: opt_text(self.codex_approval_policy),
            codex_thread_sandbox: opt_text(self.codex_thread_sandbox),
            codex_turn_sandbox_policy: opt_text(self.codex_turn_sandbox_policy),
            codex_turn_timeout_ms: self.codex_turn_timeout_ms,
            codex_read_timeout_ms: self.codex_read_timeout_ms,
            codex_stall_timeout_ms: self.codex_stall_timeout_ms,
            mock_mode: self.mock_mode,
            mock_agent: self.mock_agent,
            prompt_template: self.prompt_template@,
        }
    }
}

/// The runtime values when nothing is configured.
pub open spec fn default_config() -> ServiceConfigV {
    ServiceConfigV {
        tracker_kind: "linear"@,
        tracker_endpoint: "https://api.linear.app/graphql"@,
        tracker_api_key: None,
        tracker_project_slug: None,
        tracker_active_states: seq!["Todo"@, "In Progress"@],
        tracker_terminal_states: seq!["Closed"@, "Cancelled"@, "Canceled"@, "Duplicate"@, "Done"@],
        tracker_claim_state: None,
        tracker_completion_state: None,
        poll_interval_ms: 30_000,
        workspace_root: Seq::empty(),
        hooks_after_create: None,
        hooks_before_run: None,
        hooks_after_run: None,
        hooks_before_remove: None,
        hooks_timeout_ms: 60_000,
        agent_max_concurrent_agents: 10,
        agent_max_turns: 20,
        agent_max_retry_backoff_ms: 300_000,
        agent_max_concurrent_agents_by_state: Map::empty(),
        codex_command: "codex app-server"@,
        codex_approval_policy: Some(DEFAULT_CODEX_APPROVAL_POLICY@),
        codex_thread_sandbox: Some(DEFAULT_CODEX_THREAD_SANDBOX@),
        codex_turn_sandbox_policy: Some(DEFAULT_CODEX_TURN_SANDBOX_POLICY@),
        codex_turn_timeout_ms: 3_600_000,
        codex_read_timeout_ms: 5_000,
        codex_stall_timeout_ms: 300_000,
        mock_mode: false,
        mock_agent: false,
        prompt_template: Seq::empty(),
    }
}

impl Default for ServiceConfig {
    fn default() -> (r: ServiceConfig)
        ensures
            r@ == default_config(),
    {
        let active: Vec<String> = vec!["Todo".to_owned(), "In Progress".to_owned()];
        let terminal: Vec<String> = vec![
            "Closed".to_owned(),
            "Cancelled".to_owned(),
            "Canceled".to_owned(),
            "Duplicate".to_owned(),
            "Done".to_owned(),
        ];
        assert(texts(active@) =~= default_config().tracker_active_states);
        assert(texts(terminal@) =~= default_config().tracker_terminal_states);
        ServiceConfig {
            tracker_kind: "linear".to_owned(),
            tracker_endpoint: "https://api.linear.app/graphql".to_owned(),
            tracker_api_key: None,
            tracker_project_slug: None,
            tracker_active_states: active,
            tracker_terminal_states: terminal,
            tracker_claim_state: None,
            tracker_completion_state: None,
            poll_interval_ms: 30_000,
            workspace_root: String::new(),
            hooks_after_create: None,
            hooks_before_run: None,
            hooks_after_run: None,
            hooks_before_remove: None,
            hooks_timeout_ms: 60_000,
            agent_max_concurrent_agents: 10,
            agent_max_turns: 20,
            agent_max_retry_backoff_ms: 300_000,
            agent_max_concurrent_agents_by_state: Table::new(),
            codex_command: "codex app-server".to_owned(),
            codex_approval_policy: Some(DEFAULT_CODEX_APPROVAL_POLICY.to_owned()),
            codex_thread_sandbox: Some(DEFAULT_CODEX_THREAD_SANDBOX.to_owned()),
            codex_turn_sandbox_policy: Some(DEFAULT_CODEX_TURN_SANDBOX_POLICY.to_owned()),
            codex_turn_timeout_ms: 3_600_000,
            codex_read_timeout_ms: 5_000,
            codex_stall_timeout_ms: 300_000,
            mock_mode: false,
            mock_agent: false,
            prompt_template: String::new(),
        }
    }
}

/// A copy of the limits for single states.
pub fn clone_limits(t: &Table<u32>) -> (r: Table<u32>)
    ensures
        r@ == t@,
{
    let mut r: Table<u32> = Table::new();
    let n: usize = t.len();
    let mut i: usize = 0;
    assert(t.items().take(0) =~= Seq::<(Seq<char>, u32)>::empty());
    while i < n
        invariant
            i <= n,
            n == t.items().len(),
            r@ == item_map(t.items().take(i as int)),
        decreases n - i,
    {
        r.insert(t.key_at(i), *t.value_at(i));
        assert(t.items().take(i + 1).drop_last() =~= t.items().take(i as int));
        i = i + 1;
    }
    assert(t.items().take(n as int) =~= t.items());
    r
}

impl Clone for ServiceConfig {
    fn clone(&self) -> (r: ServiceConfig)
        ensures
            r@ == self@,
    {
        ServiceConfig {
            tracker_kind: self.tracker_kind.clone(),
            tracker_endpoint: self.tracker_endpoint.clone(),
            tracker_api_key: clone_opt(&self.tracker_api_key),
            tracker_project_slug: clone_opt(&self.tracker_project_slug),
            tracker_active_states: clone_texts(&self.tracker_active_states),
            tracker_terminal_states: clone_texts(&self.tracker_terminal_states),
            tracker_claim_state: clone_opt(&self.tracker_claim_state),
            tracker_completion_state: clone_opt(&self.tracker_completion_state),
            poll_interval_ms: self.poll_interval_ms,
            workspace_root: self.workspace_root.clone(),
            hooks_after_create: clone_opt(&self.hooks_after_create),
            hooks_before_run: clone_opt(&self.hooks_before_run),
            hooks_after_run: clone_opt(&self.hooks_after_run),
            hooks_before_remove: clone_opt(&self.hooks_before_remove),
            hooks_timeout_ms: self.hooks_timeout_ms,
            agent_max_concurrent_agents: self.agent_max_concurrent_agents,
            agent_max_turns: self.agent_max_turns,
            agent_max_retry_backoff_ms: self.agent_max_retry_backoff_ms,
            agent_max_concurrent_agents_by_state: clone_limits(&self.agent_max_concurrent_agents_by_state),
            codex_command: self.codex_command.clone(),
            codex_approval_policy: clone_opt(&self.codex_approval_policy),
            codex_thread_sandbox: clone_opt(&self.codex_thread_sandbox),
            codex_turn_sandbox_policy: clone_opt(&self.codex_turn_sandbox_policy),
            codex_turn_timeout_ms: self.codex_turn_timeout_ms,
            codex_read_timeout_ms: self.codex_read_timeout_ms,
            codex_stall_timeout_ms: self.codex_stall_timeout_ms,
            mock_mode: self.mock_mode,
            mock_agent: self.mock_agent,
            prompt_template: self.prompt_template.clone(),
        }
    }
}

// ── Raw configuration ───────────────────────────────────────────────────────

/// An optional list of texts by its contents.
pub open spec fn opt_texts(o: Option<Vec<String>>) -> Option<Seq<Seq<char>>> {
    match o {
        Some(v) => Some(texts(v@)),
        None => None,
    }
}

/// A list of limits by its contents.
pub open spec fn limits(v: Seq<(String, u32)>) -> Seq<(Seq<char>, u32)> {
    v.map_values(|e: (String, u32)| (e.0@, e.1))
}

/// An optional list of limits by its contents.
pub open spec fn opt_limits(o: Option<Vec<(String, u32)>>) -> Option<Seq<(Seq<char>, u32)>> {
    match o {
        Some(v) => Some(limits(v@)),
        None => None,
    }
}

/// The `tracker` section as it was written.
#[derive(Debug)]
pub struct RawTrackerConfig {
    pub kind: Option<String>,
    pub endpoint: Option<String>,
    pub api_key: Option<String>,
    pub project_slug: Option<String>,
    pub active_states: Option<Vec<String>>,
    pub terminal_states: Option<Vec<String>>,
    pub claim_state: Option<String>,
    pub completion_state: Option<String>,
}

/// A section by its contents.
#[verifier::ext_equal]
pub struct RawTrackerV {
    pub kind: Option<Seq<char>>,
    pub endpoint: Option<Seq<char>>,
    pub api_key: Option<Seq<char>>,
    pub project_slug: Option<Seq<char>>,
    pub active_states: Option<Seq<Seq<char>>>,
    pub terminal_states: Option<Seq<Seq<char>>>,
    pub claim_state: Option<Seq<char>>,
    pub completion_state: Option<Seq<char>>,
}

impl View for RawTrackerConfig {
    type V = RawTrackerV;

    open spec fn view(&self) -> RawTrackerV {
        RawTrackerV {
            kind: opt_text(self.kind),
            endpoint: opt_text(self.endpoint),
            api_key: opt_text(self.api_key),
            project_slug: opt_text(self.project_slug),
            active_states: opt_texts(self.active_states),
            terminal_states: opt_texts(self.terminal_states),
            claim_state: opt_text(self.claim_state),
            completion_state: opt_text(self.completion_state),
        }
    }
}

impl Default for RawTrackerConfig {
    fn default() -> (r: RawTrackerConfig)
        ensures
            r@ == (RawTrackerV { kind: None, endpoint: None, api_key: None, project_slug: None, active_states: None, terminal_states: None, claim_state: None, completion_state: None }),
    {
        RawTrackerConfig { kind: None, endpoint: None, api_key: None, project_slug: None, active_states: None, terminal_states: None, claim_state: None, completion_state: None }
    }
}

/// The `polling` section as it was written.
#[derive(Debug)]
pub struct RawPollingConfig {
    pub interval_ms: Option<u64>,
}

/// A section by its contents.
#[verifier::ext_equal]
pub struct RawPollingV {
    pub interval_ms: Option<u64>,
}

impl View for RawPollingConfig {
    type V = RawPollingV;

    open spec fn view(&self) -> RawPollingV {
        RawPollingV {
            interval_ms: self.interval_ms,
        }
    }
}

impl Default for RawPollingConfig {
    fn default() -> (r: RawPollingConfig)
        ensures
            r@ == (RawPollingV { interval_ms: None }),
    {
        RawPollingConfig { interval_ms: None }
    }
}

/// The `workspace` section as it was written.
#[derive(Debug)]
pub struct RawWorkspaceConfig {
    pub root: Option<String>,
}

/// A section by its contents.
#[verifier::ext_equal]
pub struct RawWorkspaceV {
    pub root: Option<Seq<char>>,
}

impl View for RawWorkspaceConfig {
    type V = RawWorkspaceV;

    open spec fn view(&self) -> RawWorkspaceV {
        RawWorkspaceV {
            root: opt_text(self.root),
        }
    }
}

impl Default for RawWorkspaceConfig {
    fn default() -> (r: RawWorkspaceConfig)
        ensures
            r@ == (RawWorkspaceV { root: None }),
    {
        RawWorkspaceConfig { root: None }
    }
}

/// The `hooks` section as it was written.
#[derive(Debug)]
pub struct RawHooksConfig {
    pub after_create: Option<String>,
    pub before_run: Option<String>,
    pub after_run: Option<String>,
    pub before_remove: Option<String>,
    pub timeout_ms: Option<u64>,
}

/// A section by its contents.
#[verifier::ext_equal]
pub struct RawHooksV {
    pub after_create: Option<Seq<char>>,
    pub before_run: Option<Seq<char>>,
    pub after_run: Option<Seq<char>>,
    pub before_remove: Option<Seq<char>>,
    pub timeout_ms: Option<u64>,
}

impl View for RawHooksConfig {
    type V = RawHooksV;

    open spec fn view(&self) -> RawHooksV {
        RawHooksV {
            after_create: opt_text(self.after_create),
            before_run: opt_text(self.before_run),
            after_run: opt_text(self.after_run),
            before_remove: opt_text(self.before_remove),
            timeout_ms: self.timeout_ms,
        }
    }
}

impl Default for RawHooksConfig {
    fn default() -> (r: RawHooksConfig)
        ensures
            r@ == (RawHooksV { after_create: None, before_run: None, after_run: None, before_remove: None, timeout_ms: None }),
    {
        RawHooksConfig { after_create: None, before_run: None, after_run: None, before_remove: None, timeout_ms: None }
    }
}

/// The `agent` section as it was written.
#[derive(Debug)]
pub struct RawAgentConfig {
    pub max_concurrent_agents: Option<u32>,
    pub max_turns: Option<u32>,
    pub max_retry_backoff_ms: Option<u64>,
    pub max_concurrent_agents_by_state: Option<Vec<(String, u32)>>,
    pub claim_state: Option<String>,
    pub completion_state: Option<String>,
}

/// A section by its contents.
#[verifier::ext_equal]
pub struct RawAgentV {
    pub max_concurrent_agents: Option<u32>,
    pub max_turns: Option<u32>,
    pub max_retry_backoff_ms: Option<u64>,
    pub max_concurrent_agents_by_state: Option<Seq<(Seq<char>, u32)>>,
    pub claim_state: Option<Seq<char>>,
    pub completion_state: Option<Seq<char>>,
}

impl View for RawAgentConfig {
    type V = RawAgentV;

    open spec fn view(&self) -> RawAgentV {
        RawAgentV {
            max_concurrent_agents: self.max_concurrent_agents,
            max_turns: self.max_turns,
            max_retry_backoff_ms: self.max_retry_backoff_ms,
            max_concurrent_agents_by_state: opt_limits(self.max_concurrent_agents_by_state),
            claim_state: opt_text(self.claim_state),
            completion_state: opt_text(self.completion_state),
        }
    }
}

impl Default for RawAgentConfig {
    fn default() -> (r: RawAgentConfig)
        ensures
            r@ == (RawAgentV { max_concurrent_agents: None, max_turns: None, max_retry_backoff_ms: None, max_concurrent_agents_by_state: None, claim_state: None, completion_state: None }),
    {
        RawAgentConfig { max_concurrent_agents: None, max_turns: None, max_retry_backoff_ms: None, max_concurrent_agents_by_state: None, claim_state: None, completion_state: None }
    }
}

/// The `codex` section as it was written.
#[derive(Debug)]
pub struct RawCodexConfig {
    pub command: Option<String>,
    pub approval_policy: Option<String>,
    pub thread_sandbox: Option<String>,
    pub turn_sandbox_policy: Option<String>,
    pub turn_timeout_ms: Option<u64>,
    pub read_timeout_ms: Option<u64>,
    pub stall_timeout_ms: Option<u64>,
}

/// A section by its contents.
#[verifier::ext_equal]
pub struct RawCodexV {
    pub command: Option<Seq<char>>,
    pub approval_policy: Option<Seq<char>>,
    pub thread_sandbox: Option<Seq<char>>,
    pub turn_sandbox_policy: Option<Seq<char>>,
    pub turn_timeout_ms: Option<u64>,
    pub read_timeout_ms: Option<u64>,
    pub stall_timeout_ms: Option<u64>,
}

impl View for RawCodexConfig {
    type V = RawCodexV;

    open spec fn view(&self) -> RawCodexV {
        RawCodexV {
            command: opt_text(self.command),
            approval_policy: opt_text(self.approval_policy),
            thread_sandbox: opt_text(self.thread_sandbox),
            turn_sandbox_policy: opt_text(self.turn_sandbox_policy),
            turn_timeout_ms: self.turn_timeout_ms,
            read_timeout_ms: self.read_timeout_ms,
            stall_timeout_ms: self.stall_timeout_ms,
        }
    }
}

impl Default for RawCodexConfig {
    fn default() -> (r: RawCodexConfig)
        ensures
            r@ == (RawCodexV { command: None, approval_policy: None, thread_sandbox: None, turn_sandbox_policy: None, turn_timeout_ms: None, read_timeout_ms: None, stall_timeout_ms: None }),
    {
        RawCodexConfig { command: None, approval_policy: None, thread_sandbox: None, turn_sandbox_policy: None, turn_timeout_ms: None, read_timeout_ms: None, stall_timeout_ms: None }
    }
}

/// The configuration as it was written, section by section.
#[derive(Debug)]
pub struct RawConfig {
    pub tracker: Option<RawTrackerConfig>,
    pub polling: Option<RawPollingConfig>,
    pub workspace: Option<RawWorkspaceConfig>,
    pub hooks: Option<RawHooksConfig>,
    pub agent: Option<RawAgentConfig>,
    pub codex: Option<RawCodexConfig>,
}

/// The written configuration by its contents.
#[verifier::ext_equal]
pub struct RawConfigV {
    pub tracker: Option<RawTrackerV>,
    pub polling: Option<RawPollingV>,
    pub workspace: Option<RawWorkspaceV>,
    pub hooks: Option<RawHooksV>,
    pub agent: Option<RawAgentV>,
    pub codex: Option<RawCodexV>,
}

/// An optional section by its contents.
pub open spec fn opt_view<T: View>(o: Option<T>) -> Option<T::V> {
    match o {
        Some(v) => Some(v@),
        None => None,
    }
}

impl View for RawConfig {
    type V = RawConfigV;

    open spec fn view(&self) -> RawConfigV {
        RawConfigV {
            tracker: opt_view(self.tracker),
            polling: opt_view(self.polling),
            workspace: opt_view(self.workspace),
            hooks: opt_view(self.hooks),
            agent: opt_view(self.agent),
            codex: opt_view(self.codex),
        }
    }
}

impl Default for RawConfig {
    fn default() -> (r: RawConfig)
        ensures
            r@ == (RawConfigV { tracker: None, polling: None, workspace: None, hooks: None, agent: None, codex: None }),
    {
        RawConfig { tracker: None, polling: None, workspace: None, hooks: None, agent: None, codex: None }
    }
}

// ── From the written configuration ──────────────────────────────────────────

/// What is written, or else the default.
pub open spec fn or_default<T>(o: Option<T>, default: T) -> T {
    match o {
        Some(v) => v,
        None => default,
    }
}

/// The limits for single states: a limit of nothing is no limit, the state is
/// taken in small letters, and of two limits for one state the later counts.
pub open spec fn state_limits(list: Seq<(Seq<char>, u32)>) -> Map<Seq<char>, u32>
    decreases list.len(),
{
    if list.len() == 0 {
        Map::empty()
    } else if list.last().1 > 0 {
        state_limits(list.drop_last()).insert(lowercase(list.last().0), list.last().1)
    } else {
        state_limits(list.drop_last())
    }
}

/// Collects the limits for single states.
pub fn limits_by_state(list: &Vec<(String, u32)>) -> (r: Table<u32>)
    ensures
        r@ == state_limits(limits(list@)),
{
    let mut r: Table<u32> = Table::new();
    let mut i: usize = 0;
    assert(limits(list@).take(0) =~= Seq::<(Seq<char>, u32)>::empty());
    while i < list.len()
        invariant
            i <= list.len(),
            r@ == state_limits(limits(list@).take(i as int)),
        decreases list.len() - i,
    {
        assert(limits(list@).take(i + 1).drop_last() =~= limits(list@).take(i as int));
        assert(limits(list@).take(i + 1).last() == limits(list@)[i as int]);
        if list[i].1 > 0 {
            let state: String = to_lowercase(list[i].0.as_str());
            r.insert(state.as_str(), list[i].1);
        }
        i = i + 1;
    }
    assert(limits(list@).take(list.len() as int) =~= limits(list@));
    r
}

/// The tracker section, or one in which nothing is written.
pub open spec fn tracker_section(raw: RawConfigV) -> RawTrackerV {
    or_default(
        raw.tracker,
        RawTrackerV {
            kind: None,
            endpoint: None,
            api_key: None,
            project_slug: None,
            active_states: None,
            terminal_states: None,
            claim_state: None,
            completion_state: None,
        },
    )
}

/// The agent section, or one in which nothing is written.
pub open spec fn agent_section(raw: RawConfigV) -> RawAgentV {
    or_default(
        raw.agent,
        RawAgentV {
            max_concurrent_agents: None,
            max_turns: None,
            max_retry_backoff_ms: None,
            max_concurrent_agents_by_state: None,
            claim_state: None,
            completion_state: None,
        },
    )
}

/// The hooks section, or one in which nothing is written.
pub open spec fn hooks_section(raw: RawConfigV) -> RawHooksV {
    or_default(
        raw.hooks,
        RawHooksV {
            after_create: None,
            before_run: None,
            after_run: None,
            before_remove: None,
            timeout_ms: None,
        },
    )
}

/// The codex section, or one in which nothing is written.
pub open spec fn codex_section(raw: RawConfigV) -> RawCodexV {
    or_default(
        raw.codex,
        RawCodexV {
            command: None,
            approval_policy: None,
            thread_sandbox: None,
            turn_sandbox_policy: None,
            turn_timeout_ms: None,
            read_timeout_ms: None,
            stall_timeout_ms: None,
        },
    )
}

/// The first thing that is wrong with a written configuration, if anything.
pub open spec fn raw_check(raw: RawConfigV) -> Result<(), ConfigErrorV> {
    let tracker = tracker_section(raw);
    let agent = agent_section(raw);
    let codex = codex_section(raw);
    if handoff_conflict(tracker.claim_state, agent.claim_state) {
        Err(
            ConfigErrorV::InvalidConfig(
                conflict_text("tracker.claim_state"@, "agent.claim_state"@),
            ),
        )
    } else if handoff_conflict(tracker.completion_state, agent.completion_state) {
        Err(
            ConfigErrorV::InvalidConfig(
                conflict_text("tracker.completion_state"@, "agent.completion_state"@),
            ),
        )
    } else if optional_value_check(
        "codex.approval_policy"@,
        codex.approval_policy,
        CODEX_APPROVAL_POLICY_VALUES@,
        CodexPolicy::Approval,
    ) is Err {
        optional_value_check(
            "codex.approval_policy"@,
            codex.approval_policy,
            CODEX_APPROVAL_POLICY_VALUES@,
            CodexPolicy::Approval,
        )
    } else if optional_value_check(
        "codex.thread_sandbox"@,
        codex.thread_sandbox,
        CODEX_SANDBOX_VALUES@,
        CodexPolicy::Sandbox,
    ) is Err {
        optional_value_check(
            "codex.thread_sandbox"@,
            codex.thread_sandbox,
            CODEX_SANDBOX_VALUES@,
            CodexPolicy::Sandbox,
        )
    } else {
        optional_value_check(
            "codex.turn_sandbox_policy"@,
            codex.turn_sandbox_policy,
            CODEX_SANDBOX_VALUES@,
            CodexPolicy::Sandbox,
        )
    }
}

/// A written policy in its kept form, or the default.
pub open spec fn policy_or_default(
    policy: CodexPolicy,
    written: Option<Seq<char>>,
    default: Option<Seq<char>>,
) -> Option<Seq<char>> {
    match written {
        Some(v) => normalized(policy, v),
        None => default,
    }
}

/// The runtime values that a written configuration without faults stands for.
pub open spec fn config_of_raw(
    raw: RawConfigV,
    workflow_dir: Seq<char>,
    env: EnvironmentV,
) -> ServiceConfigV {
    let base = default_config();
    let tracker = tracker_section(raw);
    let hooks = hooks_section(raw);
    let agent = agent_section(raw);
    let codex = codex_section(raw);
    ServiceConfigV {
        tracker_kind: or_default(tracker.kind, base.tracker_kind),
        tracker_endpoint: or_default(tracker.endpoint, base.tracker_endpoint),
        tracker_api_key: match tracker.api_key {
            Some(key) => Some(resolved(key, env.vars)),
            None => None,
        },
        tracker_project_slug: tracker.project_slug,
        tracker_active_states: or_default(tracker.active_states, base.tracker_active_states),
        tracker_terminal_states: or_default(tracker.terminal_states, base.tracker_terminal_states),
        tracker_claim_state: handoff_state(tracker.claim_state, agent.claim_state),
        tracker_completion_state: handoff_state(tracker.completion_state, agent.completion_state),
        poll_interval_ms: match raw.polling {
            Some(polling) => or_default(polling.interval_ms, base.poll_interval_ms),
            None => base.poll_interval_ms,
        },
        workspace_root: if raw.workspace is Some && raw.workspace->0.root is Some {
            expanded_path(raw.workspace->0.root->0, workflow_dir, env)
        } else {
            default_root(env)
        },
        hooks_after_create: hooks.after_create,
        hooks_before_run: hooks.before_run,
        hooks_after_run: hooks.after_run,
        hooks_before_remove: hooks.before_remove,
        hooks_timeout_ms: or_default(hooks.timeout_ms, base.hooks_timeout_ms),
        agent_max_concurrent_agents: or_default(
            agent.max_concurrent_agents,
            base.agent_max_concurrent_agents,
        ),
        agent_max_turns: or_default(agent.max_turns, base.agent_max_turns),
        agent_max_retry_backoff_ms: or_default(
            agent.max_retry_backoff_ms,
            base.agent_max_retry_backoff_ms,
        ),
        agent_max_concurrent_agents_by_state: match agent.max_concurrent_agents_by_state {
            Some(list) => state_limits(list),
            None => Map::empty(),
        },
        codex_command: or_default(codex.command, base.codex_command),
        codex_approval_policy: policy_or_default(
            CodexPolicy::Approval,
            codex.approval_policy,
            base.codex_approval_policy,
        ),
        codex_thread_sandbox: policy_or_default(
            CodexPolicy::Sandbox,
            codex.thread_sandbox,
            base.codex_thread_sandbox,
        ),
        codex_turn_sandbox_policy: policy_or_default(
            CodexPolicy::Sandbox,
            codex.turn_sandbox_policy,
            base.codex_turn_sandbox_policy,
        ),
        codex_turn_timeout_ms: or_default(codex.turn_timeout_ms, base.codex_turn_timeout_ms),
        codex_read_timeout_ms: or_default(codex.read_timeout_ms, base.codex_read_timeout_ms),
        codex_stall_timeout_ms: or_default(codex.stall_timeout_ms, base.codex_stall_timeout_ms),
        mock_mode: false,
        mock_agent: false,
        prompt_template: Seq::empty(),
    }
}

/// The kept form of a written policy, or the error that names the field.
fn kept_policy(
    field: &str,
    written: &str,
    allowed: &'static str,
    policy: CodexPolicy,
) -> (r: Result<String, ConfigError>)
    ensures
        match r {
            Ok(s) => normalized(policy, written@) == Some(s@),
            Err(e) => normalized(policy, written@) is None && e@ == (ConfigErrorV::InvalidValue {
                field: field@,
                value: written@,
                allowed: allowed@,
            }),
        },
{
    match policy.normalize(written) {
        Some(kept) => Ok(kept.to_owned()),
        None => Err(invalid_value(field, written, allowed)),
    }
}

impl ServiceConfig {
    fn apply_tracker(&mut self, tracker: RawTrackerConfig, env: &Environment)
        ensures
            final(self)@ == (ServiceConfigV {
                tracker_kind: or_default(tracker@.kind, old(self)@.tracker_kind),
                tracker_endpoint: or_default(tracker@.endpoint, old(self)@.tracker_endpoint),
                tracker_api_key: match tracker@.api_key {
                    Some(key) => Some(resolved(key, env@.vars)),
                    None => None,
                },
                tracker_project_slug: tracker@.project_slug,
                tracker_active_states: or_default(
                    tracker@.active_states,
                    old(self)@.tracker_active_states,
                ),
                tracker_terminal_states: or_default(
                    tracker@.terminal_states,
                    old(self)@.tracker_terminal_states,
                ),
                tracker_claim_state: tracker@.claim_state,
                tracker_completion_state: tracker@.completion_state,
                ..old(self)@
            }),
    {
        if let Some(kind) = tracker.kind {
            self.tracker_kind = kind;
        }
        if let Some(endpoint) = tracker.endpoint {
            self.tracker_endpoint = endpoint;
        }
        self.tracker_api_key = match tracker.api_key {
            Some(key) => Some(resolve_env_var(key.as_str(), env)),
            None => None,
        };
        self.tracker_project_slug = tracker.project_slug;
        if let Some(states) = tracker.active_states {
            self.tracker_active_states = states;
        }
        if let Some(states) = tracker.terminal_states {
            self.tracker_terminal_states = states;
        }
        self.tracker_claim_state = tracker.claim_state;
        self.tracker_completion_state = tracker.completion_state;
    }

    fn apply_hooks(&mut self, hooks: RawHooksConfig)
        ensures
            final(self)@ == (ServiceConfigV {
                hooks_after_create: hooks@.after_create,
                hooks_before_run: hooks@.before_run,
                hooks_after_run: hooks@.after_run,
                hooks_before_remove: hooks@.before_remove,
                hooks_timeout_ms: or_default(hooks@.timeout_ms, old(self)@.hooks_timeout_ms),
                ..old(self)@
            }),
    {
        self.hooks_after_create = hooks.after_create;
        self.hooks_before_run = hooks.before_run;
        self.hooks_after_run = hooks.after_run;
        self.hooks_before_remove = hooks.before_remove;
        if let Some(timeout_ms) = hooks.timeout_ms {
            self.hooks_timeout_ms = timeout_ms;
        }
    }

    fn apply_agent(&mut self, agent: RawAgentConfig) -> (r: Result<(), ConfigError>)
        ensures
            handoff_conflict(old(self)@.tracker_claim_state, agent@.claim_state) ==> check_view(r)
                == Err::<(), ConfigErrorV>(
                ConfigErrorV::InvalidConfig(
                    conflict_text("tracker.claim_state"@, "agent.claim_state"@),
                ),
            ),
            !handoff_conflict(old(self)@.tracker_claim_state, agent@.claim_state)
                && handoff_conflict(old(self)@.tracker_completion_state, agent@.completion_state)
                ==> check_view(r) == Err::<(), ConfigErrorV>(
                ConfigErrorV::InvalidConfig(
                    conflict_text("tracker.completion_state"@, "agent.completion_state"@),
                ),
            ),
            !handoff_conflict(old(self)@.tracker_claim_state, agent@.claim_state)
                && !handoff_conflict(old(self)@.tracker_completion_state, agent@.completion_state)
                ==> r is Ok && final(self)@ == (ServiceConfigV {
                agent_max_concurrent_agents: or_default(
                    agent@.max_concurrent_agents,
                    old(self)@.agent_max_concurrent_agents,
                ),
                agent_max_turns: or_default(agent@.max_turns, old(self)@.agent_max_turns),
                agent_max_retry_backoff_ms: or_default(
                    agent@.max_retry_backoff_ms,
                    old(self)@.agent_max_retry_backoff_ms,
                ),
                agent_max_concurrent_agents_by_state: match agent@.max_concurrent_agents_by_state {
                    Some(list) => state_limits(list),
                    None => old(self)@.agent_max_concurrent_agents_by_state,
                },
                tracker_claim_state: handoff_state(
                    old(self)@.tracker_claim_state,
                    agent@.claim_state,
                ),
                tracker_completion_state: handoff_state(
                    old(self)@.tracker_completion_state,
                    agent@.completion_state,
                ),
                ..old(self)@
            }),
    {
        if let Some(max_concurrent_agents) = agent.max_concurrent_agents {
            self.agent_max_concurrent_agents = max_concurrent_agents;
        }
        if let Some(max_turns) = agent.max_turns {
            self.agent_max_turns = max_turns;
        }
        if let Some(max_retry_backoff_ms) = agent.max_retry_backoff_ms {
            self.agent_max_retry_backoff_ms = max_retry_backoff_ms;
        }
        if let Some(by_state) = agent.max_concurrent_agents_by_state {
            self.agent_max_concurrent_agents_by_state = limits_by_state(&by_state);
        }
        let mut claim_state: Option<String> = clone_opt(&self.tracker_claim_state);
        match merge_tracker_handoff_state(
            "tracker.claim_state",
            "agent.claim_state",
            &mut claim_state,
            agent.claim_state,
        ) {
            Ok(_) => {},
            Err(e) => return Err(e),
        }
        let mut completion_state: Option<String> = clone_opt(&self.tracker_completion_state);
        match merge_tracker_handoff_state(
            "tracker.completion_state",
            "agent.completion_state",
            &mut completion_state,
            agent.completion_state,
        ) {
            Ok(_) => {},
            Err(e) => return Err(e),
        }
        self.tracker_claim_state = claim_state;
        self.tracker_completion_state = completion_state;
        Ok(())
    }

    fn apply_codex(&mut self, codex: RawCodexConfig) -> (r: Result<(), ConfigError>)
        ensures
            match r {
                Ok(_) => {
                    &&& codex@.approval_policy matches Some(v) ==> approval_policy(v) is Some
                    &&& codex@.thread_sandbox matches Some(v) ==> sandbox(v) is Some
                    &&& codex@.turn_sandbox_policy matches Some(v) ==> sandbox(v) is Some
                    &&& final(self)@ == (ServiceConfigV {
                        codex_command: or_default(codex@.command, old(self)@.codex_command),
                        codex_approval_policy: policy_or_default(
                            CodexPolicy::Approval,
                            codex@.approval_policy,
                            old(self)@.codex_approval_policy,
                        ),
                        codex_thread_sandbox: policy_or_default(
                            CodexPolicy::Sandbox,
                            codex@.thread_sandbox,
                            old(self)@.codex_thread_sandbox,
                        ),
                        codex_turn_sandbox_policy: policy_or_default(
                            CodexPolicy::Sandbox,
                            codex@.turn_sandbox_policy,
                            old(self)@.codex_turn_sandbox_policy,
                        ),
                        codex_turn_timeout_ms: or_default(
                            codex@.turn_timeout_ms,
                            old(self)@.codex_turn_timeout_ms,
                        ),
                        codex_read_timeout_ms: or_default(
                            codex@.read_timeout_ms,
                            old(self)@.codex_read_timeout_ms,
                        ),
                        codex_stall_timeout_ms: or_default(
                            codex@.stall_timeout_ms,
                            old(self)@.codex_stall_timeout_ms,
                        ),
                        ..old(self)@
                    })
                },
                Err(e) => {
                    let approval = optional_value_check(
                        "codex.approval_policy"@,
                        codex@.approval_policy,
                        CODEX_APPROVAL_POLICY_VALUES@,
                        CodexPolicy::Approval,
                    );
                    let thread = optional_value_check(
                        "codex.thread_sandbox"@,
                        codex@.thread_sandbox,
                        CODEX_SANDBOX_VALUES@,
                        CodexPolicy::Sandbox,
                    );
                    let turn = optional_value_check(
                        "codex.turn_sandbox_policy"@,
                        codex@.turn_sandbox_policy,
                        CODEX_SANDBOX_VALUES@,
                        CodexPolicy::Sandbox,
                    );
                    Err::<(), ConfigErrorV>(e@) == (if approval is Err {
                        approval
                    } else if thread is Err {
                        thread
                    } else {
                        turn
                    })
                },
            },
    {
        if let Some(command) = codex.command {
            self.codex_command = command;
        }
        if let Some(written) = codex.approval_policy {
            match kept_policy(
                "codex.approval_policy",
                written.as_str(),
                CODEX_APPROVAL_POLICY_VALUES,
                CodexPolicy::Approval,
            ) {
                Ok(kept) => {
                    self.codex_approval_policy = Some(kept);
                },
                Err(e) => return Err(e),
            }
        }
        if let Some(written) = codex.thread_sandbox {
            match kept_policy(
                "codex.thread_sandbox",
                written.as_str(),
                CODEX_SANDBOX_VALUES,
                CodexPolicy::Sandbox,
            ) {
                Ok(kept) => {
                    self.codex_thread_sandbox = Some(kept);
                },
                Err(e) => return Err(e),
            }
        }
        if let Some(written) = codex.turn_sandbox_policy {
            match kept_policy(
                "codex.turn_sandbox_policy",
                written.as_str(),
                CODEX_SANDBOX_VALUES,
                CodexPolicy::Sandbox,
            ) {
                Ok(kept) => {
                    self.codex_turn_sandbox_policy = Some(kept);
                },
                Err(e) => return Err(e),
            }
        }
        if let Some(turn_timeout_ms) = codex.turn_timeout_ms {
            self.codex_turn_timeout_ms = turn_timeout_ms;
        }
        if let Some(read_timeout_ms) = codex.read_timeout_ms {
            self.codex_read_timeout_ms = read_timeout_ms;
        }
        if let Some(stall_timeout_ms) = codex.stall_timeout_ms {
            self.codex_stall_timeout_ms = stall_timeout_ms;
        }
        Ok(())
    }

    /// Builds the runtime values from the front matter as it was written, applying
    /// defaults and resolving `$VAR` references.
    pub fn from_yaml(raw: RawConfig, workflow_dir: &str, env: &Environment) -> (r: Result<
        ServiceConfig,
        ConfigError,
    >)
        ensures
            match r {
                Ok(config) => raw_check(raw@) is Ok && config@ == config_of_raw(
                    raw@,
                    workflow_dir@,
                    env@,
                ),
                Err(e) => raw_check(raw@) == Err::<(), ConfigErrorV>(e@),
            },
    {
        let mut sc: ServiceConfig = ServiceConfig::default();
        if let Some(tracker) = raw.tracker {
            sc.apply_tracker(tracker, env);
        }
        if let Some(polling) = raw.polling {
            if let Some(interval_ms) = polling.interval_ms {
                sc.poll_interval_ms = interval_ms;
            }
        }
        let root: Option<String> = match raw.workspace {
            Some(workspace) => workspace.root,
            None => None,
        };
        sc.workspace_root = match root {
            Some(written) => expand_path(written.as_str(), workflow_dir, env),
            None => default_workspace_root(env),
        };
        if let Some(hooks) = raw.hooks {
            sc.apply_hooks(hooks);
        }
        if let Some(agent) = raw.agent {
            match sc.apply_agent(agent) {
                Ok(_) => {},
                Err(e) => return Err(e),
            }
        }
        if let Some(codex) = raw.codex {
            match sc.apply_codex(codex) {
                Ok(_) => {},
                Err(e) => return Err(e),
            }
        }
        Ok(sc)
    }
}

// ── Validation ──────────────────────────────────────────────────────────────

/// The first fault among the codex policies, if any.
pub open spec fn codex_policy_check(c: ServiceConfigV) -> Result<(), ConfigErrorV> {
    let approval = optional_value_check(
        "codex.approval_policy"@,
        c.codex_approval_policy,
        CODEX_APPROVAL_POLICY_VALUES@,
        CodexPolicy::Approval,
    );
    let thread = optional_value_check(
        "codex.thread_sandbox"@,
        c.codex_thread_sandbox,
        CODEX_SANDBOX_VALUES@,
        CodexPolicy::Sandbox,
    );
    if approval is Err {
        approval
    } else if thread is Err {
        thread
    } else {
        optional_value_check(
            "codex.turn_sandbox_policy"@,
            c.codex_turn_sandbox_policy,
            CODEX_SANDBOX_VALUES@,
            CodexPolicy::Sandbox,
        )
    }
}

/// Whether some text of a list equals another but for the case of ASCII letters.
pub open spec fn lists_ignoring_case(list: Seq<Seq<char>>, s: Seq<char>) -> bool {
    exists|i: int| 0 <= i < list.len() && same_ignoring_ascii_case(#[trigger] list[i], s)
}

fn is_in_ignoring_case(list: &Vec<String>, s: &str) -> (r: bool)
    ensures
        r == lists_ignoring_case(texts(list@), s@),
{
    let mut i: usize = 0;
    while i < list.len()
        invariant
            i <= list.len(),
            forall|k: int|
                0 <= k < i ==> !same_ignoring_ascii_case(#[trigger] texts(list@)[k], s@),
        decreases list.len() - i,
    {
        assert(texts(list@)[i as int] == list@[i as int]@);
        if eq_ignore_ascii_case(list[i].as_str(), s) {
            return true;
        }
        i = i + 1;
    }
    false
}

/// The first fault among the states to which issues are handed over, if any.
pub open spec fn handoff_check(c: ServiceConfigV) -> Result<(), ConfigErrorV> {
    let claim = optional_non_empty_check("tracker.claim_state"@, c.tracker_claim_state);
    let completion = optional_non_empty_check(
        "tracker.completion_state"@,
        c.tracker_completion_state,
    );
    if claim is Err {
        claim
    } else if completion is Err {
        completion
    } else if c.tracker_claim_state is Some && !lists_ignoring_case(
        c.tracker_active_states,
        c.tracker_claim_state->0,
    ) {
        Err(
            ConfigErrorV::InvalidConfig(
                "tracker.claim_state must be listed in tracker.active_states: "@
                    + c.tracker_claim_state->0,
            ),
        )
    } else if c.tracker_completion_state is Some && lists_ignoring_case(
        c.tracker_active_states,
        c.tracker_completion_state->0,
    ) {
        Err(
            ConfigErrorV::InvalidConfig(
                "tracker.completion_state must not be listed in tracker.active_states: "@
                    + c.tracker_completion_state->0,
            ),
        )
    } else {
        Ok(())
    }
}

/// Whether an optional text is missing or empty.
pub open spec fn absent(o: Option<Seq<char>>) -> bool {
    o is None || o->0.len() == 0
}

fn is_absent(o: &Option<String>) -> (r: bool)
    ensures
        r == absent(opt_text(*o)),
{
    match o {
        Some(s) => s.as_str().is_empty(),
        None => true,
    }
}

/// The first fault that keeps work from being dispatched, if any.
pub open spec fn dispatch_check(c: ServiceConfigV) -> Result<(), ConfigErrorV> {
    if codex_policy_check(c) is Err {
        codex_policy_check(c)
    } else if handoff_check(c) is Err {
        handoff_check(c)
    } else if !c.mock_mode && c.tracker_kind.len() == 0 {
        Err(ConfigErrorV::MissingField("tracker.kind"@))
    } else if !c.mock_mode && c.tracker_kind != "linear"@ {
        Err(ConfigErrorV::UnsupportedTracker(c.tracker_kind))
    } else if !c.mock_mode && absent(c.tracker_api_key) {
        Err(ConfigErrorV::MissingCredentials)
    } else if !c.mock_mode && absent(c.tracker_project_slug) {
        Err(ConfigErrorV::MissingField("tracker.project_slug"@))
    } else if c.codex_command.len() == 0 {
        Err(ConfigErrorV::MissingField("codex.command"@))
    } else {
        Ok(())
    }
}

/// An optional text as a borrowed one.
pub fn as_str_opt<'a>(o: &'a Option<String>) -> (r: Option<&'a str>)
    ensures
        opt_str(r) == opt_text(*o),
{
    match o {
        Some(s) => Some(s.as_str()),
        None => None,
    }
}

impl ServiceConfig {
    /// Validates what dispatch depends on. `Ok` means that work can safely be
    /// dispatched.
    pub fn validate_dispatch(&self) -> (r: Result<(), ConfigError>)
        ensures
            check_view(r) == dispatch_check(self@),
    {
        match self.validate_codex_runtime_policy() {
            Ok(_) => {},
            Err(e) => return Err(e),
        }
        match self.validate_tracker_handoff_policy() {
            Ok(_) => {},
            Err(e) => return Err(e),
        }
        if self.mock_mode {
            if self.codex_command.as_str().is_empty() {
                return Err(ConfigError::MissingField("codex.command".to_owned()));
            }
            return Ok(());
        }
        if self.tracker_kind.as_str().is_empty() {
            return Err(ConfigError::MissingField("tracker.kind".to_owned()));
        }
        if !text_eq(self.tracker_kind.as_str(), "linear") {
            return Err(ConfigError::UnsupportedTracker(self.tracker_kind.clone()));
        }
        if is_absent(&self.tracker_api_key) {
            return Err(ConfigError::MissingCredentials);
        }
        if is_absent(&self.tracker_project_slug) {
            return Err(ConfigError::MissingField("tracker.project_slug".to_owned()));
        }
        if self.codex_command.as_str().is_empty() {
            return Err(ConfigError::MissingField("codex.command".to_owned()));
        }
        Ok(())
    }

    /// Validates the codex policies.
    pub fn validate_codex_runtime_policy(&self) -> (r: Result<(), ConfigError>)
        ensures
            check_view(r) == codex_policy_check(self@),
    {
        match validate_optional_value(
            "codex.approval_policy",
            as_str_opt(&self.codex_approval_policy),
            CODEX_APPROVAL_POLICY_VALUES,
            CodexPolicy::Approval,
        ) {
            Ok(_) => {},
            Err(e) => return Err(e),
        }
        match validate_optional_value(
            "codex.thread_sandbox",
            as_str_opt(&self.codex_thread_sandbox),
            CODEX_SANDBOX_VALUES,
            CodexPolicy::Sandbox,
        ) {
            Ok(_) => {},
            Err(e) => return Err(e),
        }
        validate_optional_value(
            "codex.turn_sandbox_policy",
            as_str_opt(&self.codex_turn_sandbox_policy),
            CODEX_SANDBOX_VALUES,
            CodexPolicy::Sandbox,
        )
    }

    /// Validates the states to which issues are handed over.
    pub fn validate_tracker_handoff_policy(&self) -> (r: Result<(), ConfigError>)
        ensures
            check_view(r) == handoff_check(self@),
    {
        match validate_optional_non_empty(
            "tracker.claim_state",
            as_str_opt(&self.tracker_claim_state),
        ) {
            Ok(_) => {},
            Err(e) => return Err(e),
        }
        match validate_optional_non_empty(
            "tracker.completion_state",
            as_str_opt(&self.tracker_completion_state),
        ) {
            Ok(_) => {},
            Err(e) => return Err(e),
        }
        if let Some(claim_state) = &self.tracker_claim_state {
            if !is_in_ignoring_case(&self.tracker_active_states, claim_state.as_str()) {
                return Err(
                    ConfigError::InvalidConfig(
                        concat2(
                            "tracker.claim_state must be listed in tracker.active_states: ",
                            claim_state.as_str(),
                        ),
                    ),
                );
            }
        }
        if let Some(completion_state) = &self.tracker_completion_state {
            if is_in_ignoring_case(&self.tracker_active_states, completion_state.as_str()) {
                return Err(
                    ConfigError::InvalidConfig(
                        concat2(
                            "tracker.completion_state must not be listed in tracker.active_states: ",
                            completion_state.as_str(),
                        ),
                    ),
                );
            }
        }
        Ok(())
    }
}

/// The policies of a configuration that was read without a fault pass
/// validation, whatever else is wrong with it.
pub proof fn law_read_policies_are_valid(
    raw: RawConfigV,
    workflow_dir: Seq<char>,
    env: EnvironmentV,
)
    requires
        raw_check(raw) is Ok,
    ensures
        codex_policy_check(config_of_raw(raw, workflow_dir, env)) is Ok,
{
    let codex = codex_section(raw);
    if codex.approval_policy is Some {
        law_policies_stay_normal(codex.approval_policy->0);
    }
    if codex.thread_sandbox is Some {
        law_policies_stay_normal(codex.thread_sandbox->0);
    }
    if codex.turn_sandbox_policy is Some {
        law_policies_stay_normal(codex.turn_sandbox_policy->0);
    }
    lemma_default_policies();
}

proof fn lemma_default_policies()
    ensures
        approval_policy(DEFAULT_CODEX_APPROVAL_POLICY@) is Some,
        sandbox(DEFAULT_CODEX_THREAD_SANDBOX@) is Some,
        sandbox(DEFAULT_CODEX_TURN_SANDBOX_POLICY@) is Some,
{
    reveal_strlit("never");
    reveal_strlit("workspace-write");
    lemma_trimmed_word("never"@);
    lemma_trimmed_word("workspace-write"@);
}

/// With the mock tracker neither credentials nor a project are needed: what is
/// wrong with the configuration is then wrong with the policies, the states or the
/// command.
pub proof fn law_mock_mode_needs_no_credentials(c: ServiceConfigV)
    requires
        c.mock_mode,
        codex_policy_check(c) is Ok,
        handoff_check(c) is Ok,
        c.codex_command.len() > 0,
    ensures
        dispatch_check(c) is Ok,
{
}

/// Where dispatch is allowed, a claim moves an issue to an active state and a
/// completion moves it to one that is not active.
pub proof fn law_handoff_states(c: ServiceConfigV)
    requires
        dispatch_check(c) is Ok,
    ensures
        c.tracker_claim_state matches Some(s) ==> !is_blank(s) && lists_ignoring_case(
            c.tracker_active_states,
            s,
        ),
        c.tracker_completion_state matches Some(s) ==> !is_blank(s) && !lists_ignoring_case(
            c.tracker_active_states,
            s,
        ),
        c.codex_command.len() > 0,
        !c.mock_mode ==> c.tracker_kind == "linear"@ && !absent(c.tracker_api_key) && !absent(
            c.tracker_project_slug,
        ),
{
}

// ── Laws of the written configuration ───────────────────────────────────────

/// The texts that name an approval policy, white space around them aside, and no others.
pub proof fn law_approval_policies(value: Seq<char>)
    ensures
        ({
            let v = trimmed(value);
            let kept = approval_policy(value);
            &&& kept == Some("never"@) <==> v == "never"@
            &&& kept == Some("on-request"@) <==> v == "on-request"@ || v == "on_request"@ || v
                == "onRequest"@
            &&& kept == Some("on-failure"@) <==> v == "on-failure"@ || v == "on_failure"@ || v
                == "onFailure"@
            &&& kept == Some("unless-trusted"@) <==> v == "unless-trusted"@ || v
                == "unless_trusted"@ || v == "unlessTrusted"@ || v == "untrusted"@
            &&& kept is Some ==> kept == Some("never"@) || kept == Some("on-request"@) || kept
                == Some("on-failure"@) || kept == Some("unless-trusted"@)
        }),
{
    reveal_strlit("never");
    reveal_strlit("on-request");
    reveal_strlit("on_request");
    reveal_strlit("onRequest");
    reveal_strlit("on-failure");
    reveal_strlit("on_failure");
    reveal_strlit("onFailure");
    reveal_strlit("unless-trusted");
    reveal_strlit("unless_trusted");
    reveal_strlit("unlessTrusted");
    reveal_strlit("untrusted");
    assert("never"@.len() == 5 && "never"@[0] == 'n');
    assert("on-request"@.len() == 10 && "on-request"@[3] == 'r' && "on-request"@[0] == 'o');
    assert("on_request"@.len() == 10 && "on_request"@[3] == 'r' && "on_request"@[0] == 'o');
    assert("onRequest"@.len() == 9 && "onRequest"@[2] == 'R' && "onRequest"@[0] == 'o');
    assert("on-failure"@.len() == 10 && "on-failure"@[3] == 'f' && "on-failure"@[0] == 'o');
    assert("on_failure"@.len() == 10 && "on_failure"@[3] == 'f' && "on_failure"@[0] == 'o');
    assert("onFailure"@.len() == 9 && "onFailure"@[2] == 'F' && "onFailure"@[0] == 'o');
    assert("unless-trusted"@.len() == 14 && "unless-trusted"@[0] == 'u');
    assert("unless_trusted"@[0] == 'u' && "unlessTrusted"@[0] == 'u' && "untrusted"@[0] == 'u');
}

/// The texts that name a sandbox, white space around them aside, and no others.
pub proof fn law_sandboxes(value: Seq<char>)
    ensures
        ({
            let v = trimmed(value);
            let kept = sandbox(value);
            &&& kept == Some("read-only"@) <==> v == "read-only"@ || v == "read_only"@ || v
                == "readOnly"@ || v == "readonly"@
            &&& kept == Some("workspace-write"@) <==> v == "workspace-write"@ || v
                == "workspace_write"@ || v == "workspaceWrite"@
            &&& kept == Some("danger-full-access"@) <==> v == "danger-full-access"@ || v
                == "danger_full_access"@ || v == "dangerFullAccess"@
            &&& kept is Some ==> kept == Some("read-only"@) || kept == Some("workspace-write"@)
                || kept == Some("danger-full-access"@)
        }),
{
    reveal_strlit("read-only");
    reveal_strlit("read_only");
    reveal_strlit("readOnly");
    reveal_strlit("readonly");
    reveal_strlit("workspace-write");
    reveal_strlit("workspace_write");
    reveal_strlit("workspaceWrite");
    reveal_strlit("danger-full-access");
    reveal_strlit("danger_full_access");
    reveal_strlit("dangerFullAccess");
    assert("read-only"@.len() == 9 && "read-only"@[0] == 'r');
    assert("read_only"@[0] == 'r' && "readOnly"@[0] == 'r' && "readonly"@[0] == 'r');
    assert("workspace-write"@.len() == 15 && "workspace-write"@[0] == 'w');
    assert("workspace_write"@[0] == 'w' && "workspaceWrite"@[0] == 'w');
    assert("danger-full-access"@.len() == 18 && "danger-full-access"@[0] == 'd');
    assert("danger_full_access"@[0] == 'd' && "dangerFullAccess"@[0] == 'd');
}

/// Of the limits that are written for a state, in whatever case, the last one that is not
/// nothing counts, and a state for which none is written has none.
pub proof fn law_limits_of_states(list: Seq<(Seq<char>, u32)>, k: int, state: Seq<char>)
    ensures
        0 <= k < list.len() && list[k].1 > 0 && (forall|i: int|
            k < i < list.len() && lowercase((#[trigger] list[i]).0) == lowercase(list[k].0)
                ==> list[i].1 == 0) ==> state_limits(list).contains_key(lowercase(list[k].0))
            && state_limits(list)[lowercase(list[k].0)] == list[k].1,
        state_limits(list).contains_key(state) ==> exists|i: int|
            0 <= i < list.len() && lowercase((#[trigger] list[i]).0) == state && list[i].1 > 0,
    decreases list.len(),
{
    if list.len() > 0 {
        let before = list.drop_last();
        law_limits_of_states(before, k, state);
        if state_limits(before).contains_key(state) {
            let i = choose|i: int|
                0 <= i < before.len() && lowercase((#[trigger] before[i]).0) == state
                    && before[i].1 > 0;
            assert(list[i] == before[i]);
        }
        if list.last().1 > 0 && lowercase(list.last().0) == state {
            assert(list[list.len() - 1] == list.last());
        }
        if 0 <= k < before.len() && list[k].1 > 0 && (forall|i: int|
            k < i < list.len() && lowercase((#[trigger] list[i]).0) == lowercase(list[k].0)
                ==> list[i].1 == 0) {
            assert(before[k] == list[k]);
            assert forall|i: int|
                k < i < before.len() && lowercase((#[trigger] before[i]).0) == lowercase(
                    before[k].0,
                ) implies before[i].1 == 0 by {
                assert(list[i] == before[i]);
            }
            assert(list[list.len() - 1] == list.last());
        }
    }
}

/// What is written in the tracker section is taken as it is, but that the key may be a
/// reference; what is not written has its default.
pub proof fn law_the_tracker_section(raw: RawConfigV, dir: Seq<char>, env: EnvironmentV)
    ensures
        raw.tracker matches Some(t) ==> {
            let c = config_of_raw(raw, dir, env);
            &&& c.tracker_kind == (match t.kind {
                Some(s) => s,
                None => "linear"@,
            })
            &&& c.tracker_endpoint == (match t.endpoint {
                Some(s) => s,
                None => "https://api.linear.app/graphql"@,
            })
            &&& t.api_key matches Some(key) ==> c.tracker_api_key == Some(resolved(key, env.vars))
            &&& t.api_key is None ==> c.tracker_api_key is None
            &&& c.tracker_project_slug == t.project_slug
            &&& t.active_states matches Some(list) ==> c.tracker_active_states == list
            &&& t.active_states is None ==> c.tracker_active_states == seq![
                "Todo"@,
                "In Progress"@,
            ]
            &&& t.terminal_states matches Some(list) ==> c.tracker_terminal_states == list
            &&& t.terminal_states is None ==> c.tracker_terminal_states == seq![
                "Closed"@,
                "Cancelled"@,
                "Canceled"@,
                "Duplicate"@,
                "Done"@,
            ]
        },
        raw.tracker is None ==> {
            let c = config_of_raw(raw, dir, env);
            &&& c.tracker_kind == "linear"@
            &&& c.tracker_endpoint == "https://api.linear.app/graphql"@
            &&& c.tracker_api_key is None
            &&& c.tracker_project_slug is None
            &&& c.tracker_active_states == seq!["Todo"@, "In Progress"@]
            &&& c.tracker_terminal_states == seq![
                "Closed"@,
                "Cancelled"@,
                "Canceled"@,
                "Duplicate"@,
                "Done"@,
            ]
        },
{
}

/// The states of the handover can be written in the tracker section or in the agent
/// section; where both are written they must agree, and else either alone counts.
pub proof fn law_handover_states(
    raw: RawConfigV,
    t: RawTrackerV,
    a: RawAgentV,
    dir: Seq<char>,
    env: EnvironmentV,
)
    requires
        raw.tracker == Some(t),
        raw.agent == Some(a),
    ensures
        ({
            let c = config_of_raw(raw, dir, env);
            &&& t.claim_state is Some && a.claim_state is Some && t.claim_state != a.claim_state
                ==> raw_check(raw) == Err::<(), ConfigErrorV>(
                ConfigErrorV::InvalidConfig(
                    "agent.claim_state"@ + " conflicts with "@ + "tracker.claim_state"@,
                ),
            )
            &&& t.completion_state is Some && a.completion_state is Some && t.completion_state
                != a.completion_state ==> raw_check(raw) is Err
            &&& (t.claim_state is None || t.claim_state == a.claim_state) && t.completion_state
                is Some && a.completion_state is Some && t.completion_state != a.completion_state
                ==> raw_check(raw) == Err::<(), ConfigErrorV>(
                ConfigErrorV::InvalidConfig(
                    "agent.completion_state"@ + " conflicts with "@ + "tracker.completion_state"@,
                ),
            )
            &&& a.claim_state is Some ==> c.tracker_claim_state == a.claim_state
            &&& a.claim_state is None ==> c.tracker_claim_state == t.claim_state
            &&& a.completion_state is Some ==> c.tracker_completion_state == a.completion_state
            &&& a.completion_state is None ==> c.tracker_completion_state == t.completion_state
        }),
{
}

/// Without an agent section the tracker section alone names the states of the handover,
/// and without a tracker section the agent section.
pub proof fn law_handover_states_of_one_section(raw: RawConfigV, dir: Seq<char>, env: EnvironmentV)
    ensures
        ({
            let c = config_of_raw(raw, dir, env);
            &&& raw.agent is None && raw.tracker is Some ==> c.tracker_claim_state
                == raw.tracker->0.claim_state && c.tracker_completion_state
                == raw.tracker->0.completion_state
            &&& raw.tracker is None && raw.agent is Some ==> c.tracker_claim_state
                == raw.agent->0.claim_state && c.tracker_completion_state
                == raw.agent->0.completion_state
            &&& raw.tracker is None && raw.agent is None ==> c.tracker_claim_state is None
                && c.tracker_completion_state is None
        }),
{
}

/// What is written of the polling, the workspaces, the hooks and the agents is taken as
/// it is, but that the place of the workspaces may hold references; what is not written
/// has its default.
pub proof fn law_the_other_sections(raw: RawConfigV, dir: Seq<char>, env: EnvironmentV)
    ensures
        ({
            let c = config_of_raw(raw, dir, env);
            &&& c.poll_interval_ms == (match raw.polling {
                Some(RawPollingV { interval_ms: Some(n) }) => n,
                _ => 30_000,
            })
            &&& c.workspace_root == (match raw.workspace {
                Some(RawWorkspaceV { root: Some(root) }) => expanded_path(root, dir, env),
                _ => default_root(env),
            })
            &&& raw.hooks matches Some(h) ==> {
                &&& c.hooks_after_create == h.after_create
                &&& c.hooks_before_run == h.before_run
                &&& c.hooks_after_run == h.after_run
                &&& c.hooks_before_remove == h.before_remove
                &&& h.timeout_ms matches Some(n) ==> c.hooks_timeout_ms == n
                &&& h.timeout_ms is None ==> c.hooks_timeout_ms == 60_000
            }
            &&& raw.hooks is None ==> {
                &&& c.hooks_after_create is None
                &&& c.hooks_before_run is None
                &&& c.hooks_after_run is None
                &&& c.hooks_before_remove is None
                &&& c.hooks_timeout_ms == 60_000
            }
            &&& raw.agent matches Some(a) ==> {
                &&& a.max_concurrent_agents matches Some(n) ==> c.agent_max_concurrent_agents == n
                &&& a.max_concurrent_agents is None ==> c.agent_max_concurrent_agents == 10
                &&& a.max_turns matches Some(n) ==> c.agent_max_turns == n
                &&& a.max_turns is None ==> c.agent_max_turns == 20
                &&& a.max_retry_backoff_ms matches Some(n) ==> c.agent_max_retry_backoff_ms == n
                &&& a.max_retry_backoff_ms is None ==> c.agent_max_retry_backoff_ms == 300_000
                &&& a.max_concurrent_agents_by_state matches Some(list)
                    ==> c.agent_max_concurrent_agents_by_state == state_limits(list)
                &&& a.max_concurrent_agents_by_state is None
                    ==> c.agent_max_concurrent_agents_by_state == Map::<Seq<char>, u32>::empty()
            }
            &&& raw.agent is None ==> {
                &&& c.agent_max_concurrent_agents == 10
                &&& c.agent_max_turns == 20
                &&& c.agent_max_retry_backoff_ms == 300_000
                &&& c.agent_max_concurrent_agents_by_state == Map::<Seq<char>, u32>::empty()
            }
            &&& !c.mock_mode
            &&& !c.mock_agent
            &&& c.prompt_template.len() == 0
        }),
{
}

/// What is written of the agent program is taken as it is, the policies in their kept
/// form; what is not written has its default.
pub proof fn law_the_codex_section(raw: RawConfigV, dir: Seq<char>, env: EnvironmentV)
    ensures
        ({
            let c = config_of_raw(raw, dir, env);
            &&& raw.codex matches Some(x) ==> {
                &&& x.command matches Some(s) ==> c.codex_command == s
                &&& x.command is None ==> c.codex_command == "codex app-server"@
                &&& x.approval_policy matches Some(s) ==> c.codex_approval_policy
                    == approval_policy(s)
                &&& x.approval_policy is None ==> c.codex_approval_policy == Some("never"@)
                &&& x.thread_sandbox matches Some(s) ==> c.codex_thread_sandbox == sandbox(s)
                &&& x.thread_sandbox is None ==> c.codex_thread_sandbox == Some("workspace-write"@)
                &&& x.turn_sandbox_policy matches Some(s) ==> c.codex_turn_sandbox_policy
                    == sandbox(s)
                &&& x.turn_sandbox_policy is None ==> c.codex_turn_sandbox_policy == Some(
                    "workspace-write"@,
                )
                &&& x.turn_timeout_ms matches Some(n) ==> c.codex_turn_timeout_ms == n
                &&& x.turn_timeout_ms is None ==> c.codex_turn_timeout_ms == 3_600_000
                &&& x.read_timeout_ms matches Some(n) ==> c.codex_read_timeout_ms == n
                &&& x.read_timeout_ms is None ==> c.codex_read_timeout_ms == 5_000
                &&& x.stall_timeout_ms matches Some(n) ==> c.codex_stall_timeout_ms == n
                &&& x.stall_timeout_ms is None ==> c.codex_stall_timeout_ms == 300_000
            }
            &&& raw.codex is None ==> {
                &&& c.codex_command == "codex app-server"@
                &&& c.codex_approval_policy == Some("never"@)
                &&& c.codex_thread_sandbox == Some("workspace-write"@)
                &&& c.codex_turn_sandbox_policy == Some("workspace-write"@)
                &&& c.codex_turn_timeout_ms == 3_600_000
                &&& c.codex_read_timeout_ms == 5_000
                &&& c.codex_stall_timeout_ms == 300_000
            }
        }),
{
}

/// Whether the tracker section and the agent section name the same states wherever both
/// name one.
pub open spec fn sections_agree(raw: RawConfigV) -> bool {
    raw.tracker is Some && raw.agent is Some ==> {
        let t = raw.tracker->0;
        let a = raw.agent->0;
        &&& t.claim_state is None || a.claim_state is None || t.claim_state == a.claim_state
        &&& t.completion_state is None || a.completion_state is None || t.completion_state
            == a.completion_state
    }
}

/// A configuration that is written without a conflict between the sections is faulty
/// exactly where a policy that it names is none, and the first such is named with its
/// field and what it may be.
pub proof fn law_written_policies_are_checked(raw: RawConfigV, x: RawCodexV)
    requires
        raw.codex == Some(x),
        sections_agree(raw),
    ensures
        ({
            let approval = x.approval_policy is Some && approval_policy(x.approval_policy->0)
                is None;
            let thread = x.thread_sandbox is Some && sandbox(x.thread_sandbox->0) is None;
            let turn = x.turn_sandbox_policy is Some && sandbox(x.turn_sandbox_policy->0) is None;
            &&& raw_check(raw) is Ok <==> !approval && !thread && !turn
            &&& approval ==> raw_check(raw) == Err::<(), ConfigErrorV>(
                ConfigErrorV::InvalidValue {
                    field: "codex.approval_policy"@,
                    value: x.approval_policy->0,
                    allowed: "never, on-request, on-failure, unless-trusted"@,
                },
            )
            &&& !approval && thread ==> raw_check(raw) == Err::<(), ConfigErrorV>(
                ConfigErrorV::InvalidValue {
                    field: "codex.thread_sandbox"@,
                    value: x.thread_sandbox->0,
                    allowed: "read-only, workspace-write, danger-full-access"@,
                },
            )
            &&& !approval && !thread && turn ==> raw_check(raw) == Err::<(), ConfigErrorV>(
                ConfigErrorV::InvalidValue {
                    field: "codex.turn_sandbox_policy"@,
                    value: x.turn_sandbox_policy->0,
                    allowed: "read-only, workspace-write, danger-full-access"@,
                },
            )
        }),
{
}

/// A configuration in which nothing is written of the agent program and no section
/// conflicts with another is without fault.
pub proof fn law_unwritten_policies_are_sound(raw: RawConfigV)
    requires
        raw.codex is None,
        sections_agree(raw),
    ensures
        raw_check(raw) is Ok,
{
}

/// Whether one of these states is this one, but for the case of ASCII letters.
pub open spec fn names_state_of(states: Seq<Seq<char>>, state: Seq<char>) -> bool {
    exists|i: int| 0 <= i < states.len() && same_ignoring_ascii_case(#[trigger] states[i], state)
}

/// Work can be dispatched exactly where the policies are policies; the state for claims,
/// if there is one, is not blank and is active; the state for completion, if there is one,
/// is not blank and is not active; a command is there; and, unless the tracker is made up,
/// the tracker is the known one, with a key and a project.
pub proof fn law_what_dispatch_needs(c: ServiceConfigV)
    ensures
        dispatch_check(c) is Ok <==> {
            &&& c.codex_approval_policy matches Some(p) ==> approval_policy(p) is Some
            &&& c.codex_thread_sandbox matches Some(p) ==> sandbox(p) is Some
            &&& c.codex_turn_sandbox_policy matches Some(p) ==> sandbox(p) is Some
            &&& c.tracker_claim_state matches Some(s) ==> trimmed(s).len() > 0 && names_state_of(
                c.tracker_active_states,
                s,
            )
            &&& c.tracker_completion_state matches Some(s) ==> trimmed(s).len() > 0
                && !names_state_of(c.tracker_active_states, s)
            &&& c.codex_command.len() > 0
            &&& !c.mock_mode ==> c.tracker_kind == "linear"@ && c.tracker_api_key is Some
                && c.tracker_api_key->0.len() > 0 && c.tracker_project_slug is Some
                && c.tracker_project_slug->0.len() > 0
        },
{
    reveal_strlit("linear");
    if c.tracker_claim_state is Some {
        crate::text::law_trimmed(c.tracker_claim_state->0);
        assert(names_state_of(c.tracker_active_states, c.tracker_claim_state->0)
            == lists_ignoring_case(c.tracker_active_states, c.tracker_claim_state->0));
    }
    if c.tracker_completion_state is Some {
        crate::text::law_trimmed(c.tracker_completion_state->0);
        assert(names_state_of(c.tracker_active_states, c.tracker_completion_state->0)
            == lists_ignoring_case(c.tracker_active_states, c.tracker_completion_state->0));
    }
}

/// Faults of the handover are told one at a time: a blank state by its field, a state
/// for claims that is not active and one for completion that is active by their names.
pub proof fn law_faults_of_the_handover(c: ServiceConfigV, claim: Seq<char>, completion: Seq<char>)
    requires
        codex_policy_check(c) is Ok,
    ensures
        c.tracker_claim_state == Some(claim) && trimmed(claim).len() == 0 ==> dispatch_check(c)
            == Err::<(), ConfigErrorV>(ConfigErrorV::MissingField("tracker.claim_state"@)),
        c.tracker_claim_state is None && c.tracker_completion_state == Some(completion)
            && trimmed(completion).len() == 0 ==> dispatch_check(c) == Err::<(), ConfigErrorV>(
            ConfigErrorV::MissingField("tracker.completion_state"@),
        ),
        c.tracker_claim_state == Some(claim) && trimmed(claim).len() > 0 && c.tracker_completion_state
            is None && !names_state_of(c.tracker_active_states, claim) ==> dispatch_check(c)
            == Err::<(), ConfigErrorV>(
            ConfigErrorV::InvalidConfig(
                "tracker.claim_state must be listed in tracker.active_states: "@ + claim,
            ),
        ),
        c.tracker_claim_state is None && c.tracker_completion_state == Some(completion)
            && trimmed(completion).len() > 0 && names_state_of(c.tracker_active_states, completion)
            ==> dispatch_check(c) == Err::<(), ConfigErrorV>(
            ConfigErrorV::InvalidConfig(
                "tracker.completion_state must not be listed in tracker.active_states: "@
                    + completion,
            ),
        ),
{
    crate::text::law_trimmed(claim);
    crate::text::law_trimmed(completion);
    assert(names_state_of(c.tracker_active_states, claim) == lists_ignoring_case(
        c.tracker_active_states,
        claim,
    ));
    assert(names_state_of(c.tracker_active_states, completion) == lists_ignoring_case(
        c.tracker_active_states,
        completion,
    ));
}

/// Faults of the tracker are told in their order: no kind, an unknown kind, no key, no
/// project; and last a missing command.
pub proof fn law_faults_of_the_tracker(c: ServiceConfigV)
    requires
        codex_policy_check(c) is Ok,
        handoff_check(c) is Ok,
    ensures
        !c.mock_mode && c.tracker_kind.len() == 0 ==> dispatch_check(c) == Err::<(), ConfigErrorV>(
            ConfigErrorV::MissingField("tracker.kind"@),
        ),
        !c.mock_mode && c.tracker_kind.len() > 0 && c.tracker_kind != "linear"@ ==> dispatch_check(
            c,
        ) == Err::<(), ConfigErrorV>(ConfigErrorV::UnsupportedTracker(c.tracker_kind)),
        !c.mock_mode && c.tracker_kind == "linear"@ && (c.tracker_api_key is None
            || c.tracker_api_key->0.len() == 0) ==> dispatch_check(c) == Err::<(), ConfigErrorV>(
            ConfigErrorV::MissingCredentials,
        ),
        !c.mock_mode && c.tracker_kind == "linear"@ && c.tracker_api_key is Some
            && c.tracker_api_key->0.len() > 0 && (c.tracker_project_slug is None
            || c.tracker_project_slug->0.len() == 0) ==> dispatch_check(c) == Err::<
            (),
            ConfigErrorV,
        >(ConfigErrorV::MissingField("tracker.project_slug"@)),
        c.mock_mode && c.codex_command.len() == 0 ==> dispatch_check(c) == Err::<(), ConfigErrorV>(
            ConfigErrorV::MissingField("codex.command"@),
        ),
{
    reveal_strlit("linear");
}

/// What the errors say.
pub proof fn law_faults_speak(s: Seq<char>, field: Seq<char>, allowed: Seq<char>)
    ensures
        config_error_text(ConfigErrorV::MissingWorkflowFile(s)) == "missing_workflow_file: "@ + s,
        config_error_text(ConfigErrorV::WorkflowParseError(s)) == "workflow_parse_error: "@ + s,
        config_error_text(ConfigErrorV::WorkflowFrontMatterNotAMap)
            == "workflow_front_matter_not_a_map"@,
        config_error_text(ConfigErrorV::MissingField(s)) == "missing required field: "@ + s,
        config_error_text(ConfigErrorV::UnsupportedTracker(s)) == "unsupported tracker kind: "@ + s,
        config_error_text(ConfigErrorV::MissingCredentials) == "missing tracker credentials"@,
        config_error_text(ConfigErrorV::TemplateParseError(s)) == "template_parse_error: "@ + s,
        config_error_text(ConfigErrorV::TemplateRenderError(s)) == "template_render_error: "@ + s,
        config_error_text(ConfigErrorV::InvalidConfig(s)) == "invalid config: "@ + s,
        config_error_text(ConfigErrorV::InvalidValue { field, value: s, allowed })
            == "invalid value for "@ + field + ": "@ + s + "; allowed values: "@ + allowed,
{
}

/// The values when nothing is configured.
pub proof fn law_defaults()
    ensures
        default_config().tracker_kind == "linear"@,
        default_config().tracker_endpoint == "https://api.linear.app/graphql"@,
        default_config().tracker_api_key is None,
        default_config().tracker_project_slug is None,
        default_config().tracker_active_states == seq!["Todo"@, "In Progress"@],
        default_config().tracker_terminal_states == seq![
            "Closed"@,
            "Cancelled"@,
            "Canceled"@,
            "Duplicate"@,
            "Done"@,
        ],
        default_config().tracker_claim_state is None,
        default_config().tracker_completion_state is None,
        default_config().poll_interval_ms == 30_000,
        default_config().hooks_timeout_ms == 60_000,
        default_config().agent_max_concurrent_agents == 10,
        default_config().agent_max_turns == 20,
        default_config().agent_max_retry_backoff_ms == 300_000,
        default_config().codex_command == "codex app-server"@,
        default_config().codex_approval_policy == Some("never"@),
        default_config().codex_thread_sandbox == Some("workspace-write"@),
        default_config().codex_turn_sandbox_policy == Some("workspace-write"@),
        default_config().codex_turn_timeout_ms == 3_600_000,
        default_config().codex_read_timeout_ms == 5_000,
        default_config().codex_stall_timeout_ms == 300_000,
        !default_config().mock_mode,
        !default_config().mock_agent,
{
}

} // verus!
