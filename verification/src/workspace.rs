//! Workspaces: one directory per issue, with hooks run around its life.
//!
//! The manager decides what is to be done next; whoever drives it touches the
//! file system, runs the hooks, and hands back what came of it.
use crate::config::{as_str_opt, opt_view};
use crate::environment::{join_path, joined};
use crate::json::opt_str;
use crate::text::{
    chars_of, clone_opt, concat2, concat3, decimal, decimal_text, first_chars, opt_text,
    string_of_range, take_chars,
};
use crate::types::{sanitize_workspace_key, sanitized, Workspace, WorkspaceV};
use vstd::prelude::*;
use vstd::string::*;

verus! {

// ── Errors ──────────────────────────────────────────────────────────────────

/// Errors that can occur during workspace operations.
#[derive(Debug)]
pub enum WorkspaceError {
    CreateDir { path: String, source: String },
    AfterCreateHook(String),
    BeforeRunHook(String),
    BeforeRemoveHook(String),
    HookTimeout(u64),
    HookFailed(String),
    NotADirectory(String),
}

/// A workspace error by its contents.
#[verifier::ext_equal]
pub enum WorkspaceErrorV {
    CreateDir { path: Seq<char>, source: Seq<char> },
    AfterCreateHook(Seq<char>),
    BeforeRunHook(Seq<char>),
    BeforeRemoveHook(Seq<char>),
    HookTimeout(u64),
    HookFailed(Seq<char>),
    NotADirectory(Seq<char>),
}

impl View for WorkspaceError {
    type V = WorkspaceErrorV;

    open spec fn view(&self) -> WorkspaceErrorV {
        match self {
            WorkspaceError::CreateDir { path, source } => WorkspaceErrorV::CreateDir {
                path: path@,
                source: source@,
            },
            WorkspaceError::AfterCreateHook(s) => WorkspaceErrorV::AfterCreateHook(s@),
            WorkspaceError::BeforeRunHook(s) => WorkspaceErrorV::BeforeRunHook(s@),
            WorkspaceError::BeforeRemoveHook(s) => WorkspaceErrorV::BeforeRemoveHook(s@),
            WorkspaceError::HookTimeout(ms) => WorkspaceErrorV::HookTimeout(*ms),
            WorkspaceError::HookFailed(s) => WorkspaceErrorV::HookFailed(s@),
            WorkspaceError::NotADirectory(s) => WorkspaceErrorV::NotADirectory(s@),
        }
    }
}

/// What a workspace error says.
pub open spec fn workspace_error_text(e: WorkspaceErrorV) -> Seq<char> {
    match e {
        WorkspaceErrorV::CreateDir { path, source } => "failed to create workspace directory "@
            + path + ": "@ + source,
        WorkspaceErrorV::AfterCreateHook(s) => "after_create hook failed: "@ + s,
        WorkspaceErrorV::BeforeRunHook(s) => "before_run hook failed: "@ + s,
        WorkspaceErrorV::BeforeRemoveHook(s) => "before_remove hook failed: "@ + s,
        WorkspaceErrorV::HookTimeout(ms) => "hook timed out after "@ + decimal(ms as nat) + "ms"@,
        WorkspaceErrorV::HookFailed(s) => "hook failed: "@ + s,
        WorkspaceErrorV::NotADirectory(s) => "workspace path is not a directory: "@ + s,
    }
}

impl WorkspaceError {
    /// What the error says.
    pub fn message(&self) -> (r: String)
        ensures
            r@ == workspace_error_text(self@),
    {
        match self {
            WorkspaceError::CreateDir { path, source } => {
                let head: String = concat3(
                    "failed to create workspace directory ",
                    path.as_str(),
                    ": ",
                );
                concat2(head.as_str(), source.as_str())
            },
            WorkspaceError::AfterCreateHook(s) => concat2("after_create hook failed: ", s.as_str()),
            WorkspaceError::BeforeRunHook(s) => concat2("before_run hook failed: ", s.as_str()),
            WorkspaceError::BeforeRemoveHook(s) => concat2(
                "before_remove hook failed: ",
                s.as_str(),
            ),
            WorkspaceError::HookTimeout(ms) => {
                let ms_text: String = decimal_text(*ms);
                concat3("hook timed out after ", ms_text.as_str(), "ms")
            },
            WorkspaceError::HookFailed(s) => concat2("hook failed: ", s.as_str()),
            WorkspaceError::NotADirectory(s) => concat2(
                "workspace path is not a directory: ",
                s.as_str(),
            ),
        }
    }
}

/// The outcome of a step by its contents.
pub open spec fn done_view(r: Result<(), WorkspaceError>) -> Result<(), WorkspaceErrorV> {
    match r {
        Ok(_) => Ok(()),
        Err(e) => Err(e@),
    }
}

// ── Hooks ───────────────────────────────────────────────────────────────────

/// What came of a hook that was run.
#[derive(Debug)]
pub enum HookReport {
    /// The shell could not be started or waited for; why.
    NotRun(String),
    /// The shell ended; whether well, and what it wrote to standard error.
    Exited { success: bool, stderr: String },
    /// The time was up before the shell ended.
    TimedOut,
}

/// What came of a hook, by its contents.
#[verifier::ext_equal]
pub enum HookReportV {
    NotRun(Seq<char>),
    Exited { success: bool, stderr: Seq<char> },
    TimedOut,
}

impl View for HookReport {
    type V = HookReportV;

    open spec fn view(&self) -> HookReportV {
        match self {
            HookReport::NotRun(s) => HookReportV::NotRun(s@),
            HookReport::Exited { success, stderr } => HookReportV::Exited {
                success: *success,
                stderr: stderr@,
            },
            HookReport::TimedOut => HookReportV::TimedOut,
        }
    }
}

/// What a hook's report means.
pub open spec fn hook_result(report: HookReportV, timeout_ms: u64) -> Result<(), WorkspaceErrorV> {
    match report {
        HookReportV::NotRun(why) => Err(WorkspaceErrorV::HookFailed(why)),
        HookReportV::Exited { success, stderr } => if success {
            Ok(())
        } else {
            Err(WorkspaceErrorV::HookFailed(first_chars(stderr, 500)))
        },
        HookReportV::TimedOut => Err(WorkspaceErrorV::HookTimeout(timeout_ms)),
    }
}

/// A shell command with which a hook is run.
#[derive(Debug)]
pub struct HookCommand {
    pub program: &'static str,
    pub option: &'static str,
    pub script: String,
    pub current_dir: String,
    pub env: Vec<(&'static str, String)>,
    pub timeout_ms: u64,
}

/// A hook's command by its contents.
#[verifier::ext_equal]
pub struct HookCommandV {
    pub program: Seq<char>,
    pub option: Seq<char>,
    pub script: Seq<char>,
    pub current_dir: Seq<char>,
    pub env: Seq<(Seq<char>, Seq<char>)>,
    pub timeout_ms: u64,
}

impl View for HookCommand {
    type V = HookCommandV;

    open spec fn view(&self) -> HookCommandV {
        HookCommandV {
            program: self.program@,
            option: self.option@,
            script: self.script@,
            current_dir: self.current_dir@,
            env: self.env@.map_values(|e: (&'static str, String)| (e.0@, e.1@)),
            timeout_ms: self.timeout_ms,
        }
    }
}

/// The last stretch without a `/` before `end` that is not empty; a lone `.` counts
/// only where the path starts with it.
pub open spec fn last_segment(path: Seq<char>, end: nat) -> Option<Seq<char>>
    recommends
        end <= path.len(),
    decreases end,
{
    if end == 0 {
        None
    } else if path[end - 1] == '/' {
        last_segment(path, (end - 1) as nat)
    } else if path[end - 1] == '.' && end > 1 && path[end - 2] == '/' {
        last_segment(path, (end - 1) as nat)
    } else {
        Some(path.subrange(segment_start(path, end) as int, end as int))
    }
}

/// Where the stretch without a `/` that ends at `end` starts.
pub open spec fn segment_start(path: Seq<char>, end: nat) -> nat
    recommends
        end <= path.len(),
    decreases end,
{
    if end == 0 || path[end - 1] == '/' {
        end
    } else {
        segment_start(path, (end - 1) as nat)
    }
}

/// The final component of a path, if it is the name of an entry.
pub open spec fn file_name(path: Seq<char>) -> Option<Seq<char>> {
    match last_segment(path, path.len()) {
        Some(segment) => if segment == seq!['.', '.'] || segment == seq!['.'] {
            None
        } else {
            Some(segment)
        },
        None => None,
    }
}

/// The final component of a path; `None` where it is not the name of an entry.
pub fn path_file_name(path: &str) -> (r: Option<String>)
    ensures
        opt_text(r) == file_name(path@),
{
    let chars: Vec<char> = chars_of(path);
    let mut end: usize = chars.len();
    while end > 0
        invariant
            end <= chars.len(),
            chars@ == path@,
            last_segment(path@, path@.len()) == last_segment(path@, end as nat),
        decreases end,
    {
        if chars[end - 1] == '/' {
            end = end - 1;
        } else {
            let mut start: usize = end;
            while start > 0 && chars[start - 1] != '/'
                invariant
                    start <= end <= chars.len(),
                    chars@ == path@,
                    segment_start(path@, end as nat) == segment_start(path@, start as nat),
                    forall|k: int| start <= k < end ==> #[trigger] path@[k] != '/',
                decreases start,
            {
                start = start - 1;
            }
            let ghost segment = path@.subrange(start as int, end as int);
            proof {
                assert(segment_start(path@, end as nat) == start);
                if segment == seq!['.'] {
                    assert(segment.len() == 1 && segment[0] == '.');
                }
                if end - start == 1 && path@[start as int] == '.' {
                    assert(segment =~= seq!['.']);
                }
                if segment == seq!['.', '.'] {
                    assert(segment.len() == 2 && segment[0] == '.' && segment[1] == '.');
                }
                if end - start == 2 && path@[start as int] == '.' && path@[start + 1] == '.' {
                    assert(segment =~= seq!['.', '.']);
                }
            }
            if start < end && end - start == 1 && chars[start] == '.' {
                if start == 0 {
                    return None;
                }
                end = start;
            } else if start < end && end - start == 2 && chars[start] == '.' && chars[start + 1]
                == '.' {
                return None;
            } else {
                return Some(string_of_range(&chars, start, end));
            }
        }
    }
    None
}

proof fn lemma_segment_start(path: Seq<char>, start: nat, end: nat)
    requires
        start <= end <= path.len(),
        forall|i: int| start <= i < end ==> #[trigger] path[i] != '/',
        start == 0 || path[start - 1] == '/',
    ensures
        segment_start(path, end) == start,
    decreases end,
{
    if end > start {
        assert(path[end - 1] != '/');
        lemma_segment_start(path, start, (end - 1) as nat);
    }
}

/// The name of an entry that was put behind a directory is the file name of the
/// whole path.
pub proof fn law_file_name_of_joined(dir: Seq<char>, name: Seq<char>)
    requires
        name.len() > 0,
        !name.contains('/'),
        name != seq!['.'],
        name != seq!['.', '.'],
    ensures
        file_name(joined(dir, name)) == Some(name),
{
    assert forall|i: int| 0 <= i < name.len() implies #[trigger] name[i] != '/' by {
        if name[i] == '/' {
            assert(name.contains('/'));
        }
    }
    let path = joined(dir, name);
    let start = (path.len() - name.len()) as nat;
    assert(path.subrange(start as int, path.len() as int) =~= name);
    lemma_last_segment(path, start);
}

proof fn lemma_last_segment(path: Seq<char>, start: nat)
    requires
        start < path.len(),
        forall|i: int|
            0 <= i < path.len() - start ==> #[trigger] path.subrange(
                start as int,
                path.len() as int,
            )[i] != '/',
        start == 0 || path[start - 1] == '/',
        path.subrange(start as int, path.len() as int) != seq!['.'],
    ensures
        last_segment(path, path.len()) == Some(path.subrange(start as int, path.len() as int)),
{
    let name = path.subrange(start as int, path.len() as int);
    assert forall|i: int| start <= i < path.len() implies #[trigger] path[i] != '/' by {
        assert(name[i - start] != '/');
    }
    lemma_segment_start(path, start, path.len());
    let end = path.len();
    if path[end - 1] == '.' && end > 1 && path[end - 2] == '/' {
        assert(start == end - 1);
        assert(name =~= seq!['.']);
    }
}

// ── Manager ─────────────────────────────────────────────────────────────────

/// Workspace manager holding root path and hooks config.
#[derive(Debug)]
pub struct WorkspaceManager {
    pub root: String,
    pub after_create: Option<String>,
    pub before_run: Option<String>,
    pub after_run: Option<String>,
    pub before_remove: Option<String>,
    pub hook_timeout_ms: u64,
}

/// A workspace manager by its contents.
#[verifier::ext_equal]
pub struct ManagerV {
    pub root: Seq<char>,
    pub after_create: Option<Seq<char>>,
    pub before_run: Option<Seq<char>>,
    pub after_run: Option<Seq<char>>,
    pub before_remove: Option<Seq<char>>,
    pub hook_timeout_ms: u64,
}

impl View for WorkspaceManager {
    type V = ManagerV;

    open spec fn view(&self) -> ManagerV {
        ManagerV {
            root: self.root@,
            after_create: opt_text(self.after_create),
            before_run: opt_text(self.before_run),
            after_run: opt_text(self.after_run),
            before_remove: opt_text(self.before_remove),
            hook_timeout_ms: self.hook_timeout_ms,
        }
    }
}

impl Clone for WorkspaceManager {
    fn clone(&self) -> (r: WorkspaceManager)
        ensures
            r@ == self@,
    {
        WorkspaceManager {
            root: self.root.clone(),
            after_create: clone_opt(&self.after_create),
            before_run: clone_opt(&self.before_run),
            after_run: clone_opt(&self.after_run),
            before_remove: clone_opt(&self.before_remove),
            hook_timeout_ms: self.hook_timeout_ms,
        }
    }
}

/// The command with which a hook is run in a workspace.
pub open spec fn hook_command(
    m: ManagerV,
    script: Seq<char>,
    path: Seq<char>,
    identifier: Seq<char>,
) -> HookCommandV {
    HookCommandV {
        program: "bash"@,
        option: "-lc"@,
        script,
        current_dir: path,
        env: seq![
            ("SYMPHONY_WORKSPACE"@, path),
            (
                "SYMPHONY_WORKSPACE_KEY"@,
                match file_name(path) {
                    Some(key) => key,
                    None => identifier,
                },
            ),
            ("SYMPHONY_ISSUE_IDENTIFIER"@, identifier),
        ],
        timeout_ms: m.hook_timeout_ms,
    }
}

/// The hooks around the life of a workspace.
#[derive(Debug, Clone, Copy, PartialEq, Eq, Structural)]
pub enum HookKind {
    AfterCreate,
    BeforeRun,
    BeforeRemove,
}

/// What a hook's failure counts as.
pub open spec fn hook_error(kind: HookKind, e: WorkspaceErrorV) -> WorkspaceErrorV {
    match e {
        WorkspaceErrorV::HookTimeout(ms) => WorkspaceErrorV::HookTimeout(ms),
        other => match kind {
            HookKind::AfterCreate => WorkspaceErrorV::AfterCreateHook(workspace_error_text(other)),
            HookKind::BeforeRun => WorkspaceErrorV::BeforeRunHook(workspace_error_text(other)),
            HookKind::BeforeRemove => WorkspaceErrorV::BeforeRemoveHook(
                workspace_error_text(other),
            ),
        },
    }
}

/// What a hook's report means for the operation that ran it.
pub open spec fn hook_outcome(kind: HookKind, report: HookReportV, timeout_ms: u64) -> Result<
    (),
    WorkspaceErrorV,
> {
    match hook_result(report, timeout_ms) {
        Ok(_) => Ok(()),
        Err(e) => Err(hook_error(kind, e)),
    }
}

/// What to do next for a hook.
#[derive(Debug)]
pub enum HookStep {
    /// Run this command and report.
    Run(HookCommand),
    /// The hook is out of the way.
    Done,
    /// The hook failed.
    Failed(WorkspaceError),
}

/// A hook's step by its contents.
#[verifier::ext_equal]
pub enum HookStepV {
    Run(HookCommandV),
    Done,
    Failed(WorkspaceErrorV),
}

impl View for HookStep {
    type V = HookStepV;

    open spec fn view(&self) -> HookStepV {
        match self {
            HookStep::Run(c) => HookStepV::Run(c@),
            HookStep::Done => HookStepV::Done,
            HookStep::Failed(e) => HookStepV::Failed(e@),
        }
    }
}

/// The step for a hook: nothing where none is configured, else to run it, else
/// what its report means.
pub open spec fn hook_step(
    m: ManagerV,
    kind: HookKind,
    hook: Option<Seq<char>>,
    path: Seq<char>,
    identifier: Seq<char>,
    report: Option<HookReportV>,
) -> HookStepV {
    match hook {
        None => HookStepV::Done,
        Some(script) => match report {
            None => HookStepV::Run(hook_command(m, script, path, identifier)),
            Some(r) => match hook_outcome(kind, r, m.hook_timeout_ms) {
                Ok(_) => HookStepV::Done,
                Err(e) => HookStepV::Failed(e),
            },
        },
    }
}

/// What happened while a workspace was being created.
#[derive(Debug)]
pub enum CreateEvent {
    /// What is at the workspace's path.
    Probed { exists: bool, is_dir: bool },
    /// The directory was created.
    DirMade,
    /// The directory could not be created; why.
    DirFailed(String),
    /// The hook for new workspaces was run.
    HookDone(HookReport),
}

/// An event of a workspace's creation by its contents.
#[verifier::ext_equal]
pub enum CreateEventV {
    Probed { exists: bool, is_dir: bool },
    DirMade,
    DirFailed(Seq<char>),
    HookDone(HookReportV),
}

impl View for CreateEvent {
    type V = CreateEventV;

    open spec fn view(&self) -> CreateEventV {
        match self {
            CreateEvent::Probed { exists, is_dir } => CreateEventV::Probed {
                exists: *exists,
                is_dir: *is_dir,
            },
            CreateEvent::DirMade => CreateEventV::DirMade,
            CreateEvent::DirFailed(s) => CreateEventV::DirFailed(s@),
            CreateEvent::HookDone(r) => CreateEventV::HookDone(r@),
        }
    }
}

/// What to do next for a workspace that is being created.
#[derive(Debug)]
pub enum CreateStep {
    /// Create this directory and those above it.
    MakeDir(String),
    /// Run this command and report.
    RunHook(HookCommand),
    /// The workspace is ready.
    Ready(Workspace),
    /// There is no workspace.
    Failed(WorkspaceError),
}

/// A step of a workspace's creation by its contents.
#[verifier::ext_equal]
pub enum CreateStepV {
    MakeDir(Seq<char>),
    RunHook(HookCommandV),
    Ready(WorkspaceV),
    Failed(WorkspaceErrorV),
}

impl View for CreateStep {
    type V = CreateStepV;

    open spec fn view(&self) -> CreateStepV {
        match self {
            CreateStep::MakeDir(p) => CreateStepV::MakeDir(p@),
            CreateStep::RunHook(c) => CreateStepV::RunHook(c@),
            CreateStep::Ready(w) => CreateStepV::Ready(w@),
            CreateStep::Failed(e) => CreateStepV::Failed(e@),
        }
    }
}

/// The path of an issue's workspace.
pub open spec fn workspace_path(m: ManagerV, identifier: Seq<char>) -> Seq<char> {
    joined(m.root, sanitized(identifier))
}

/// The workspace of an issue.
pub open spec fn workspace_of(m: ManagerV, identifier: Seq<char>, created_now: bool) -> WorkspaceV {
    WorkspaceV {
        path: workspace_path(m, identifier),
        workspace_key: sanitized(identifier),
        created_now,
    }
}

/// The step that follows an event of a workspace's creation.
pub open spec fn create_step(m: ManagerV, identifier: Seq<char>, event: CreateEventV) -> CreateStepV {
    let path = workspace_path(m, identifier);
    match event {
        CreateEventV::Probed { exists, is_dir } => if !exists {
            CreateStepV::MakeDir(path)
        } else if is_dir {
            CreateStepV::Ready(workspace_of(m, identifier, false))
        } else {
            CreateStepV::Failed(WorkspaceErrorV::NotADirectory(path))
        },
        CreateEventV::DirMade => match m.after_create {
            Some(script) => CreateStepV::RunHook(hook_command(m, script, path, identifier)),
            None => CreateStepV::Ready(workspace_of(m, identifier, true)),
        },
        CreateEventV::DirFailed(source) => CreateStepV::Failed(
            WorkspaceErrorV::CreateDir { path, source },
        ),
        CreateEventV::HookDone(report) => match hook_outcome(
            HookKind::AfterCreate,
            report,
            m.hook_timeout_ms,
        ) {
            Ok(_) => CreateStepV::Ready(workspace_of(m, identifier, true)),
            Err(e) => CreateStepV::Failed(e),
        },
    }
}

/// What happened while a workspace was being removed.
#[derive(Debug)]
pub enum RemoveEvent {
    /// Whether there is anything at the workspace's path.
    Probed { exists: bool },
    /// The hook for workspaces that go was run.
    HookDone(HookReport),
}

/// An event of a workspace's removal by its contents.
#[verifier::ext_equal]
pub enum RemoveEventV {
    Probed { exists: bool },
    HookDone(HookReportV),
}

impl View for RemoveEvent {
    type V = RemoveEventV;

    open spec fn view(&self) -> RemoveEventV {
        match self {
            RemoveEvent::Probed { exists } => RemoveEventV::Probed { exists: *exists },
            RemoveEvent::HookDone(r) => RemoveEventV::HookDone(r@),
        }
    }
}

/// What to do next for a workspace that is being removed.
#[derive(Debug)]
pub enum RemoveStep {
    /// There is nothing to remove.
    Nothing,
    /// Run this command and report.
    RunHook(HookCommand),
    /// Remove this directory with all that it holds.
    RemoveDir(String),
    /// Leave the workspace where it is.
    Keep(WorkspaceError),
}

/// A step of a workspace's removal by its contents.
#[verifier::ext_equal]
pub enum RemoveStepV {
    Nothing,
    RunHook(HookCommandV),
    RemoveDir(Seq<char>),
    Keep(WorkspaceErrorV),
}

impl View for RemoveStep {
    type V = RemoveStepV;

    open spec fn view(&self) -> RemoveStepV {
        match self {
            RemoveStep::Nothing => RemoveStepV::Nothing,
            RemoveStep::RunHook(c) => RemoveStepV::RunHook(c@),
            RemoveStep::RemoveDir(p) => RemoveStepV::RemoveDir(p@),
            RemoveStep::Keep(e) => RemoveStepV::Keep(e@),
        }
    }
}

/// The step that follows an event of a workspace's removal.
pub open spec fn remove_step(m: ManagerV, identifier: Seq<char>, event: RemoveEventV) -> RemoveStepV {
    let path = workspace_path(m, identifier);
    let report = match event {
        RemoveEventV::Probed { .. } => None,
        RemoveEventV::HookDone(r) => Some(r),
    };
    if event == (RemoveEventV::Probed { exists: false }) {
        RemoveStepV::Nothing
    } else {
        match hook_step(m, HookKind::BeforeRemove, m.before_remove, path, identifier, report) {
            HookStepV::Run(c) => RemoveStepV::RunHook(c),
            HookStepV::Done => RemoveStepV::RemoveDir(path),
            HookStepV::Failed(e) => RemoveStepV::Keep(e),
        }
    }
}

/// What a hook's report means.
pub fn hook_report_result(report: HookReport, timeout_ms: u64) -> (r: Result<(), WorkspaceError>)
    ensures
        done_view(r) == hook_result(report@, timeout_ms),
{
    match report {
        HookReport::NotRun(why) => Err(WorkspaceError::HookFailed(why)),
        HookReport::Exited { success, stderr } => if success {
            Ok(())
        } else {
            Err(WorkspaceError::HookFailed(take_chars(stderr.as_str(), 500)))
        },
        HookReport::TimedOut => Err(WorkspaceError::HookTimeout(timeout_ms)),
    }
}

/// What a hook's report means for the operation that ran it.
pub fn hook_report_outcome(kind: HookKind, report: HookReport, timeout_ms: u64) -> (r: Result<
    (),
    WorkspaceError,
>)
    ensures
        done_view(r) == hook_outcome(kind, report@, timeout_ms),
{
    match hook_report_result(report, timeout_ms) {
        Ok(_) => Ok(()),
        Err(e) => match e {
            WorkspaceError::HookTimeout(ms) => Err(WorkspaceError::HookTimeout(ms)),
            other => {
                let text: String = other.message();
                match kind {
                    HookKind::AfterCreate => Err(WorkspaceError::AfterCreateHook(text)),
                    HookKind::BeforeRun => Err(WorkspaceError::BeforeRunHook(text)),
                    HookKind::BeforeRemove => Err(WorkspaceError::BeforeRemoveHook(text)),
                }
            },
        },
    }
}

impl WorkspaceManager {
    /// A manager without hooks.
    pub fn new(root: String) -> (r: WorkspaceManager)
        ensures
            r@ == (ManagerV {
                root: root@,
                after_create: None,
                before_run: None,
                after_run: None,
                before_remove: None,
                hook_timeout_ms: 60_000,
            }),
    {
        WorkspaceManager {
            root,
            after_create: None,
            before_run: None,
            after_run: None,
            before_remove: None,
            hook_timeout_ms: 60_000,
        }
    }

    /// The path of an issue's workspace.
    pub fn path_for_issue(&self, identifier: &str) -> (r: String)
        ensures
            r@ == workspace_path(self@, identifier@),
    {
        let key: String = sanitize_workspace_key(identifier);
        join_path(self.root.as_str(), key.as_str())
    }

    fn workspace(&self, identifier: &str, created_now: bool) -> (r: Workspace)
        ensures
            r@ == workspace_of(self@, identifier@, created_now),
    {
        Workspace {
            path: self.path_for_issue(identifier),
            workspace_key: sanitize_workspace_key(identifier),
            created_now,
        }
    }

    /// The shell command for a hook: it runs in the workspace, which it also finds
    /// in its environment with the key and the issue's identifier.
    pub fn run_hook(&self, script: &str, workspace_path: &str, identifier: &str) -> (r: HookCommand)
        ensures
            r@ == hook_command(self@, script@, workspace_path@, identifier@),
    {
        let key: String = match path_file_name(workspace_path) {
            Some(name) => name,
            None => identifier.to_owned(),
        };
        let env: Vec<(&'static str, String)> = vec![
            ("SYMPHONY_WORKSPACE", workspace_path.to_owned()),
            ("SYMPHONY_WORKSPACE_KEY", key),
            ("SYMPHONY_ISSUE_IDENTIFIER", identifier.to_owned()),
        ];
        let command = HookCommand {
            program: "bash",
            option: "-lc",
            script: script.to_owned(),
            current_dir: workspace_path.to_owned(),
            env,
            timeout_ms: self.hook_timeout_ms,
        };
        assert(command@.env =~= hook_command(self@, script@, workspace_path@, identifier@).env);
        command
    }

    /// Creates, or finds again, the workspace of an issue, one step at a time. It
    /// is `created_now` only where its directory was made for this call, and only
    /// then the hook for new workspaces runs.
    pub fn create_for_issue(&self, identifier: &str, event: CreateEvent) -> (r: CreateStep)
        ensures
            r@ == create_step(self@, identifier@, event@),
    {
        match event {
            CreateEvent::Probed { exists, is_dir } => if !exists {
                CreateStep::MakeDir(self.path_for_issue(identifier))
            } else if is_dir {
                CreateStep::Ready(self.workspace(identifier, false))
            } else {
                CreateStep::Failed(WorkspaceError::NotADirectory(self.path_for_issue(identifier)))
            },
            CreateEvent::DirMade => match &self.after_create {
                Some(script) => {
                    let path: String = self.path_for_issue(identifier);
                    CreateStep::RunHook(self.run_hook(script.as_str(), path.as_str(), identifier))
                },
                None => CreateStep::Ready(self.workspace(identifier, true)),
            },
            CreateEvent::DirFailed(source) => CreateStep::Failed(
                WorkspaceError::CreateDir { path: self.path_for_issue(identifier), source },
            ),
            CreateEvent::HookDone(report) => match hook_report_outcome(
                HookKind::AfterCreate,
                report,
                self.hook_timeout_ms,
            ) {
                Ok(_) => CreateStep::Ready(self.workspace(identifier, true)),
                Err(e) => CreateStep::Failed(e),
            },
        }
    }

    fn step_hook(
        &self,
        kind: HookKind,
        hook: Option<&str>,
        workspace_path: &str,
        identifier: &str,
        report: Option<HookReport>,
    ) -> (r: HookStep)
        ensures
            r@ == hook_step(
                self@,
                kind,
                opt_str(hook),
                workspace_path@,
                identifier@,
                opt_view(report),
            ),
    {
        match hook {
            None => HookStep::Done,
            Some(script) => match report {
                None => HookStep::Run(self.run_hook(script, workspace_path, identifier)),
                Some(r) => match hook_report_outcome(kind, r, self.hook_timeout_ms) {
                    Ok(_) => HookStep::Done,
                    Err(e) => HookStep::Failed(e),
                },
            },
        }
    }

    /// Runs the before_run hook. Failure aborts the current attempt.
    pub fn run_before_run(
        &self,
        workspace_path: &str,
        identifier: &str,
        report: Option<HookReport>,
    ) -> (r: HookStep)
        ensures
            r@ == hook_step(
                self@,
                HookKind::BeforeRun,
                self@.before_run,
                workspace_path@,
                identifier@,
                opt_view(report),
            ),
            self@.before_run is None ==> r is Done,
            self@.before_run matches Some(script) ==> report is None ==> r@ == HookStepV::Run(
                hook_command(self@, script, workspace_path@, identifier@),
            ),
            self@.before_run is Some && report is Some ==> (r is Done <==> (report->0
                matches HookReport::Exited { success, .. } && success)),
    {
        self.step_hook(
            HookKind::BeforeRun,
            as_str_opt(&self.before_run),
            workspace_path,
            identifier,
            report,
        )
    }

    /// The command of the after_run hook, where there is one. What comes of it
    /// changes nothing.
    pub fn run_after_run(&self, workspace_path: &str, identifier: &str) -> (r: Option<HookCommand>)
        ensures
            opt_view(r) == (match self@.after_run {
                Some(script) => Some(hook_command(self@, script, workspace_path@, identifier@)),
                None => None,
            }),
    {
        match &self.after_run {
            Some(script) => Some(self.run_hook(script.as_str(), workspace_path, identifier)),
            None => None,
        }
    }

    /// Runs the before_remove hook. Failure aborts workspace removal.
    pub fn run_before_remove(
        &self,
        workspace_path: &str,
        identifier: &str,
        report: Option<HookReport>,
    ) -> (r: HookStep)
        ensures
            r@ == hook_step(
                self@,
                HookKind::BeforeRemove,
                self@.before_remove,
                workspace_path@,
                identifier@,
                opt_view(report),
            ),
            self@.before_remove is None ==> r is Done,
            self@.before_remove matches Some(script) ==> report is None ==> r@ == HookStepV::Run(
                hook_command(self@, script, workspace_path@, identifier@),
            ),
            self@.before_remove is Some && report is Some ==> (r is Done <==> (report->0
                matches HookReport::Exited { success, .. } && success)),
    {
        self.step_hook(
            HookKind::BeforeRemove,
            as_str_opt(&self.before_remove),
            workspace_path,
            identifier,
            report,
        )
    }

    /// Removes a workspace directory, after its hook, one step at a time.
    pub fn remove_workspace(&self, identifier: &str, event: RemoveEvent) -> (r: RemoveStep)
        ensures
            r@ == remove_step(self@, identifier@, event@),
    {
        let report: Option<HookReport> = match event {
            RemoveEvent::Probed { exists } => if exists {
                None
            } else {
                return RemoveStep::Nothing;
            },
            RemoveEvent::HookDone(r) => Some(r),
        };
        let path: String = self.path_for_issue(identifier);
        match self.run_before_remove(path.as_str(), identifier, report) {
            HookStep::Run(c) => RemoveStep::RunHook(c),
            HookStep::Done => RemoveStep::RemoveDir(path),
            HookStep::Failed(e) => RemoveStep::Keep(e),
        }
    }
}

// ── Laws ────────────────────────────────────────────────────────────────────

/// A workspace lies directly under the root: its path is the root, a `/`, and the
/// key, which holds no further `/`.
pub proof fn law_workspace_under_root(m: ManagerV, identifier: Seq<char>)
    requires
        m.root.len() > 0,
    ensures
        workspace_path(m, identifier) == (if m.root.last() == '/' {
            m.root + sanitized(identifier)
        } else {
            m.root + seq!['/'] + sanitized(identifier)
        }),
        !sanitized(identifier).contains('/'),
{
    crate::types::law_sanitized(identifier);
    if sanitized(identifier).len() > 0 {
        assert(sanitized(identifier).contains(sanitized(identifier)[0]));
    }
}

/// Identifiers whose keys agree share a workspace, and with one root no others do.
pub proof fn law_workspaces_are_per_key(m: ManagerV, a: Seq<char>, b: Seq<char>)
    requires
        m.root.len() > 0,
    ensures
        (workspace_path(m, a) == workspace_path(m, b)) <==> (sanitized(a) == sanitized(b)),
{
    law_workspace_under_root(m, a);
    law_workspace_under_root(m, b);
    let lead = if m.root.last() == '/' {
        m.root
    } else {
        m.root + seq!['/']
    };
    assert(workspace_path(m, a).skip(lead.len() as int) =~= sanitized(a));
    assert(workspace_path(m, b).skip(lead.len() as int) =~= sanitized(b));
}

/// A hook finds in its environment the workspace's path, the workspace's key and
/// the identifier as it was given, whatever characters the identifier holds.
pub proof fn law_hook_environment(m: ManagerV, script: Seq<char>, identifier: Seq<char>)
    requires
        sanitized(identifier).len() > 0,
        sanitized(identifier) != seq!['.'],
        sanitized(identifier) != seq!['.', '.'],
    ensures
        hook_command(m, script, workspace_path(m, identifier), identifier).env == seq![
            ("SYMPHONY_WORKSPACE"@, workspace_path(m, identifier)),
            ("SYMPHONY_WORKSPACE_KEY"@, sanitized(identifier)),
            ("SYMPHONY_ISSUE_IDENTIFIER"@, identifier),
        ],
        hook_command(m, script, workspace_path(m, identifier), identifier).current_dir
            == workspace_path(m, identifier),
{
    crate::types::law_sanitized(identifier);
    law_file_name_of_joined(m.root, sanitized(identifier));
}

/// A workspace counts as created now only where its directory was made, and where
/// its directory was there already no hook runs for it. A workspace goes only
/// where the hook before it had nothing against it.
pub proof fn law_workspace_life(m: ManagerV, identifier: Seq<char>, report: HookReportV)
    ensures
        create_step(m, identifier, CreateEventV::Probed { exists: true, is_dir: true })
            == CreateStepV::Ready(workspace_of(m, identifier, false)),
        create_step(m, identifier, CreateEventV::Probed { exists: false, is_dir: false })
            == CreateStepV::MakeDir(workspace_path(m, identifier)),
        create_step(m, identifier, CreateEventV::HookDone(report)) is Ready <==> hook_result(
            report,
            m.hook_timeout_ms,
        ) is Ok,
        m.before_remove is Some ==> (remove_step(m, identifier, RemoveEventV::HookDone(report))
            is RemoveDir <==> hook_result(report, m.hook_timeout_ms) is Ok),
        m.before_remove is Some ==> remove_step(
            m,
            identifier,
            RemoveEventV::Probed { exists: true },
        ) is RunHook,
        remove_step(m, identifier, RemoveEventV::Probed { exists: false }) is Nothing,
{
}

/// A hook that ended well is out of the way; one that did not is told with the beginning
/// of what it wrote, one that could not be run with the reason, and one whose time was up
/// with the time. Where none is configured nothing is run.
pub proof fn law_hooks(
    m: ManagerV,
    kind: HookKind,
    script: Seq<char>,
    path: Seq<char>,
    identifier: Seq<char>,
    stderr: Seq<char>,
    why: Seq<char>,
    report: Option<HookReportV>,
)
    ensures
        hook_step(m, kind, None, path, identifier, report) is Done,
        hook_step(m, kind, Some(script), path, identifier, None) == HookStepV::Run(
            hook_command(m, script, path, identifier),
        ),
        hook_step(
            m,
            kind,
            Some(script),
            path,
            identifier,
            Some(HookReportV::Exited { success: true, stderr }),
        ) is Done,
        hook_step(m, kind, Some(script), path, identifier, Some(HookReportV::TimedOut))
            == HookStepV::Failed(WorkspaceErrorV::HookTimeout(m.hook_timeout_ms)),
        ({
            let bad_exit = hook_step(
                m,
                kind,
                Some(script),
                path,
                identifier,
                Some(HookReportV::Exited { success: false, stderr }),
            );
            let not_run = hook_step(
                m,
                kind,
                Some(script),
                path,
                identifier,
                Some(HookReportV::NotRun(why)),
            );
            let told = "hook failed: "@ + if stderr.len() <= 500 {
                stderr
            } else {
                stderr.take(500)
            };
            let reason = "hook failed: "@ + why;
            match kind {
                HookKind::AfterCreate => bad_exit == HookStepV::Failed(
                    WorkspaceErrorV::AfterCreateHook(told),
                ) && not_run == HookStepV::Failed(WorkspaceErrorV::AfterCreateHook(reason)),
                HookKind::BeforeRun => bad_exit == HookStepV::Failed(
                    WorkspaceErrorV::BeforeRunHook(told),
                ) && not_run == HookStepV::Failed(WorkspaceErrorV::BeforeRunHook(reason)),
                HookKind::BeforeRemove => bad_exit == HookStepV::Failed(
                    WorkspaceErrorV::BeforeRemoveHook(told),
                ) && not_run == HookStepV::Failed(WorkspaceErrorV::BeforeRemoveHook(reason)),
            }
        }),
{
}

/// A hook is run by a login shell in its workspace, with the time that hooks have, and
/// finds the path, the key and the identifier in its environment.
pub proof fn law_hook_commands(
    m: ManagerV,
    script: Seq<char>,
    path: Seq<char>,
    identifier: Seq<char>,
)
    ensures
        ({
            let c = hook_command(m, script, path, identifier);
            &&& c.program == "bash"@
            &&& c.option == "-lc"@
            &&& c.script == script
            &&& c.current_dir == path
            &&& c.timeout_ms == m.hook_timeout_ms
            &&& c.env.len() == 3
            &&& c.env[0] == ("SYMPHONY_WORKSPACE"@, path)
            &&& c.env[1].0 == "SYMPHONY_WORKSPACE_KEY"@
            &&& file_name(path) matches Some(key) ==> c.env[1].1 == key
            &&& file_name(path) is None ==> c.env[1].1 == identifier
            &&& c.env[2] == ("SYMPHONY_ISSUE_IDENTIFIER"@, identifier)
        }),
{
}

/// A workspace is created step by step: a directory that is there is taken as it is, what
/// is no directory is refused, and one that is not there is made and gets the hook for new
/// workspaces, where there is one.
pub proof fn law_workspaces_are_created(
    m: ManagerV,
    identifier: Seq<char>,
    is_dir: bool,
    why: Seq<char>,
    script: Seq<char>,
    stderr: Seq<char>,
)
    ensures
        ({
            let path = workspace_path(m, identifier);
            let found = create_step(
                m,
                identifier,
                CreateEventV::Probed { exists: true, is_dir: true },
            );
            let made = create_step(m, identifier, CreateEventV::DirMade);
            let hooked = create_step(
                m,
                identifier,
                CreateEventV::HookDone(HookReportV::Exited { success: true, stderr }),
            );
            &&& create_step(m, identifier, CreateEventV::Probed { exists: false, is_dir })
                == CreateStepV::MakeDir(path)
            &&& found is Ready
            &&& found->Ready_0.path == path
            &&& found->Ready_0.workspace_key == sanitized(identifier)
            &&& !found->Ready_0.created_now
            &&& create_step(m, identifier, CreateEventV::Probed { exists: true, is_dir: false })
                == CreateStepV::Failed(WorkspaceErrorV::NotADirectory(path))
            &&& create_step(m, identifier, CreateEventV::DirFailed(why)) == CreateStepV::Failed(
                WorkspaceErrorV::CreateDir { path, source: why },
            )
            &&& m.after_create is None ==> made is Ready && made->Ready_0.path == path
                && made->Ready_0.workspace_key == sanitized(identifier)
                && made->Ready_0.created_now
            &&& m.after_create == Some(script) ==> made == CreateStepV::RunHook(
                hook_command(m, script, path, identifier),
            )
            &&& hooked is Ready
            &&& hooked->Ready_0.path == path
            &&& hooked->Ready_0.workspace_key == sanitized(identifier)
            &&& hooked->Ready_0.created_now
            &&& create_step(m, identifier, CreateEventV::HookDone(HookReportV::TimedOut))
                == CreateStepV::Failed(WorkspaceErrorV::HookTimeout(m.hook_timeout_ms))
            &&& create_step(m, identifier, CreateEventV::HookDone(HookReportV::NotRun(why)))
                == CreateStepV::Failed(
                WorkspaceErrorV::AfterCreateHook("hook failed: "@ + why),
            )
        }),
{
}

/// A workspace is removed step by step: nothing where none is there; first the hook, where
/// there is one, in the workspace; then the directory, unless the hook failed, in which
/// case the workspace stays.
pub proof fn law_workspaces_are_removed(
    m: ManagerV,
    identifier: Seq<char>,
    script: Seq<char>,
    stderr: Seq<char>,
    why: Seq<char>,
)
    ensures
        ({
            let path = workspace_path(m, identifier);
            &&& remove_step(m, identifier, RemoveEventV::Probed { exists: false }) is Nothing
            &&& m.before_remove is None ==> remove_step(
                m,
                identifier,
                RemoveEventV::Probed { exists: true },
            ) == RemoveStepV::RemoveDir(path)
            &&& m.before_remove == Some(script) ==> {
                &&& remove_step(m, identifier, RemoveEventV::Probed { exists: true })
                    == RemoveStepV::RunHook(hook_command(m, script, path, identifier))
                &&& remove_step(
                    m,
                    identifier,
                    RemoveEventV::HookDone(HookReportV::Exited { success: true, stderr }),
                ) == RemoveStepV::RemoveDir(path)
                &&& remove_step(
                    m,
                    identifier,
                    RemoveEventV::HookDone(HookReportV::Exited { success: false, stderr }),
                ) is Keep
                &&& remove_step(m, identifier, RemoveEventV::HookDone(HookReportV::TimedOut))
                    == RemoveStepV::Keep(WorkspaceErrorV::HookTimeout(m.hook_timeout_ms))
                &&& remove_step(m, identifier, RemoveEventV::HookDone(HookReportV::NotRun(why)))
                    == RemoveStepV::Keep(WorkspaceErrorV::BeforeRemoveHook("hook failed: "@ + why))
            }
        }),
{
}

/// A slash at the end, and a lone dot behind one, change nothing about the final component
/// of a path; two dots behind a slash are no name, and neither is nothing.
pub proof fn law_file_names(path: Seq<char>, name: Seq<char>)
    ensures
        file_name(path + seq!['/']) == file_name(path),
        file_name(path + seq!['/', '.']) == file_name(path),
        file_name(path + seq!['/', '.', '.']) is None,
        file_name(Seq::empty()) is None,
        file_name(seq!['.', '.']) is None,
        name.len() > 0 && !name.contains('/') && name != seq!['.'] && name != seq!['.', '.']
            ==> file_name(name) == Some(name) && file_name(path + seq!['/'] + name) == Some(name),
{
    let n = path.len();
    let slash = path + seq!['/'];
    let dot = path + seq!['/', '.'];
    let dots = path + seq!['/', '.', '.'];
    reveal_with_fuel(last_segment, 3);
    reveal_with_fuel(segment_start, 3);
    lemma_segments_of_beginning(path, slash, n);
    lemma_segments_of_beginning(path, dot, n);
    assert(last_segment(slash, slash.len()) == last_segment(slash, n));
    assert(dot[n as int + 1] == '.' && dot[n as int] == '/');
    assert(last_segment(dot, dot.len()) == last_segment(dot, (n + 1) as nat));
    assert(last_segment(dot, (n + 1) as nat) == last_segment(dot, n));
    assert(dots[n as int + 2] == '.' && dots[n as int + 1] == '.' && dots[n as int] == '/');
    assert(dots.subrange((n + 1) as int, dots.len() as int) =~= seq!['.', '.']);
    lemma_segment_start(dots, (n + 1) as nat, dots.len());
    let two = seq!['.', '.'];
    lemma_segment_start(two, 0, 2);
    assert(two.subrange(0, 2) =~= two);
    if name.len() > 0 && !name.contains('/') && name != seq!['.'] && name != seq!['.', '.'] {
        law_file_name_of_joined(Seq::empty(), name);
        law_file_name_of_joined(slash, name);
        assert forall|i: int| 0 <= i < name.len() implies #[trigger] name[i] != '/' by {
            assert(name.contains(name[i]));
        }
        assert(joined(slash, name) == slash + name);
        assert(joined(Seq::empty(), name) == name);
    }
}

proof fn lemma_segments_of_beginning(path: Seq<char>, longer: Seq<char>, end: nat)
    requires
        end <= path.len(),
        path.is_prefix_of(longer),
    ensures
        last_segment(longer, end) == last_segment(path, end),
        segment_start(longer, end) == segment_start(path, end),
        segment_start(path, end) <= end,
    decreases end,
{
    if end > 0 {
        lemma_segments_of_beginning(path, longer, (end - 1) as nat);
        assert(longer[end - 1] == path[end - 1]);
        if end > 1 {
            assert(longer[end - 2] == path[end - 2]);
        }
        assert(longer.subrange(segment_start(path, end) as int, end as int) =~= path.subrange(
            segment_start(path, end) as int,
            end as int,
        ));
    }
}

/// What the errors say.
pub proof fn law_workspace_errors_speak(s: Seq<char>, t: Seq<char>, ms: u64)
    ensures
        workspace_error_text(WorkspaceErrorV::CreateDir { path: s, source: t })
            == "failed to create workspace directory "@ + s + ": "@ + t,
        workspace_error_text(WorkspaceErrorV::AfterCreateHook(s)) == "after_create hook failed: "@
            + s,
        workspace_error_text(WorkspaceErrorV::BeforeRunHook(s)) == "before_run hook failed: "@ + s,
        workspace_error_text(WorkspaceErrorV::BeforeRemoveHook(s)) == "before_remove hook failed: "@
            + s,
        workspace_error_text(WorkspaceErrorV::HookTimeout(ms)) == "hook timed out after "@
            + decimal(ms as nat) + "ms"@,
        workspace_error_text(WorkspaceErrorV::HookFailed(s)) == "hook failed: "@ + s,
        workspace_error_text(WorkspaceErrorV::NotADirectory(s))
            == "workspace path is not a directory: "@ + s,
{
}

} // verus!
