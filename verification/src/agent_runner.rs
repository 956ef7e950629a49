//! One run of a coding agent: launch, the opening of the conversation, and turns
//! until the agent is done, fails, runs out of its budget or is called off.
//!
//! The run decides what is to be done next; whoever drives it owns the process,
//! writes and reads its pipes, watches the clock, and hands back what happened.
use crate::json::{
    either, json_parsed, member, or_else, parse_json, text_of, text_within,
    u64_of, u64_within, Json, JsonV,
};
use crate::json::{at_path, counts, lemma_at_path, says, says_nothing};
use crate::protocol::{
    debug_quoted, is_completion, law_budgets, law_completed_turns_go_well_unless_failed,
    law_failures_are_taken_at_their_word, law_only_errors_are_errors, reports, session_tokens,
};
use crate::protocol::{
    after_message, at3, event_error_shown, event_timeout, frame_message, framed, initialize_params,
    initialize_request, json_rpc_error_message, judge_message, limit_violation, max_run_error,
    max_run_text, message_fits, message_verdict, next_event_timeout_ms, note_message, request,
    rpc_error, run_limit_violation, thread_params, thread_start_request, turn_params,
    turn_start_request, usage_fits, AgentConfigV, AgentRunnerConfig, EventError, EventErrorV,
    Verdict, VerdictV,
};
use crate::text::{concat2, concat3, decimal, decimal_text, is_blank, is_blank_text};
use crate::types::{
    make_session_id, new_session, session_id, Issue, IssueV, LiveSession, RunningEntry, RunningV,
    SessionV, Timestamp,
};
use vstd::prelude::*;
use vstd::string::*;

verus! {

// ── Outcome ─────────────────────────────────────────────────────────────────

/// Outcome of an agent run attempt.
#[derive(Debug)]
pub enum AgentOutcome {
    /// Worker finished normally (agent completed).
    Normal { entry: RunningEntry, total_turns: u32 },
    /// Worker failed (agent error, timeout, crash).
    Error { error: String, entry: RunningEntry },
    /// Worker was cancelled (reconciliation).
    Cancelled { reason: String, entry: RunningEntry },
}

/// An outcome by its contents.
#[verifier::ext_equal]
pub enum AgentOutcomeV {
    Normal { entry: RunningV, total_turns: u32 },
    Error { error: Seq<char>, entry: RunningV },
    Cancelled { reason: Seq<char>, entry: RunningV },
}

impl View for AgentOutcome {
    type V = AgentOutcomeV;

    open spec fn view(&self) -> AgentOutcomeV {
        match self {
            AgentOutcome::Normal { entry, total_turns } => AgentOutcomeV::Normal {
                entry: entry@,
                total_turns: *total_turns,
            },
            AgentOutcome::Error { error, entry } => AgentOutcomeV::Error {
                error: error@,
                entry: entry@,
            },
            AgentOutcome::Cancelled { reason, entry } => AgentOutcomeV::Cancelled {
                reason: reason@,
                entry: entry@,
            },
        }
    }
}

// ── Events and actions ──────────────────────────────────────────────────────

/// A pipe to the agent's process.
#[derive(Debug, Clone, Copy, PartialEq, Eq, Structural)]
pub enum Pipe {
    Stdin,
    Stdout,
    Stderr,
}

/// What happened to the agent's process.
#[derive(Debug)]
pub enum AgentEvent {
    /// The run is to begin.
    Start,
    /// The process could not be launched; why.
    LaunchFailed(String),
    /// The process was launched without one of its pipes.
    PipeMissing(Pipe),
    /// The process runs; this is its directory with all links resolved.
    Launched { cwd: String },
    /// What was to be sent was written.
    Written,
    /// What was to be sent could not be written.
    WriteFailed,
    /// The agent wrote a line.
    Line(String),
    /// The agent closed its output.
    Closed,
    /// The agent's output could not be read; why.
    ReadFailed(String),
    /// The time for the next event is up.
    TimedOut,
    /// The run was called off while events were awaited.
    CancelRequested,
}

/// What happened, by its contents.
#[verifier::ext_equal]
pub enum AgentEventV {
    Start,
    LaunchFailed(Seq<char>),
    PipeMissing(Pipe),
    Launched { cwd: Seq<char> },
    Written,
    WriteFailed,
    Line(Seq<char>),
    Closed,
    ReadFailed(Seq<char>),
    TimedOut,
    CancelRequested,
}

impl View for AgentEvent {
    type V = AgentEventV;

    open spec fn view(&self) -> AgentEventV {
        match self {
            AgentEvent::Start => AgentEventV::Start,
            AgentEvent::LaunchFailed(s) => AgentEventV::LaunchFailed(s@),
            AgentEvent::PipeMissing(p) => AgentEventV::PipeMissing(*p),
            AgentEvent::Launched { cwd } => AgentEventV::Launched { cwd: cwd@ },
            AgentEvent::Written => AgentEventV::Written,
            AgentEvent::WriteFailed => AgentEventV::WriteFailed,
            AgentEvent::Line(s) => AgentEventV::Line(s@),
            AgentEvent::Closed => AgentEventV::Closed,
            AgentEvent::ReadFailed(s) => AgentEventV::ReadFailed(s@),
            AgentEvent::TimedOut => AgentEventV::TimedOut,
            AgentEvent::CancelRequested => AgentEventV::CancelRequested,
        }
    }
}

/// The circumstances of an event.
#[derive(Debug, Clone, Copy)]
pub struct Moment {
    /// The clock's reading.
    pub now: Timestamp,
    /// Milliseconds since the run began.
    pub elapsed_ms: u64,
    /// Whether the run was called off.
    pub cancelled: bool,
}

/// What becomes of the process when a run ends.
#[derive(Debug, Clone, Copy, PartialEq, Eq, Structural)]
pub enum Cleanup {
    /// Let go of it.
    Release,
    /// Kill it.
    Kill,
    /// Kill it, wait for it, and stop listening to its diagnostics.
    KillAndWait,
    /// Kill it and wait for the rest of its diagnostics.
    KillAndDrain,
}

/// What to do next.
#[derive(Debug)]
pub enum AgentAction {
    /// Launch this command with pipes in this directory, through `bash -lc`.
    Launch { command: String, current_dir: String },
    /// Write this to the agent.
    Send(String),
    /// Read a line from the agent, however long it takes.
    ReadLine,
    /// Read a line, watch for the call to stop, and start the clock for the next event.
    AwaitEvents { timeout_ms: Option<u64> },
    /// Read a further line on the same clock: what came was no event.
    MoreEvents,
    /// The run is over.
    Finish { outcome: AgentOutcome, cleanup: Cleanup },
    /// The counters cannot take what the agent reports.
    Overflow,
    /// The event does not belong here.
    Ignore,
}

/// What to do next, by its contents.
#[verifier::ext_equal]
pub enum AgentActionV {
    Launch { command: Seq<char>, current_dir: Seq<char> },
    Send(Seq<char>),
    ReadLine,
    AwaitEvents { timeout_ms: Option<u64> },
    MoreEvents,
    Finish { outcome: AgentOutcomeV, cleanup: Cleanup },
    Overflow,
    Ignore,
}

impl View for AgentAction {
    type V = AgentActionV;

    open spec fn view(&self) -> AgentActionV {
        match self {
            AgentAction::Launch { command, current_dir } => AgentActionV::Launch {
                command: command@,
                current_dir: current_dir@,
            },
            AgentAction::Send(s) => AgentActionV::Send(s@),
            AgentAction::ReadLine => AgentActionV::ReadLine,
            AgentAction::AwaitEvents { timeout_ms } => AgentActionV::AwaitEvents {
                timeout_ms: *timeout_ms,
            },
            AgentAction::MoreEvents => AgentActionV::MoreEvents,
            AgentAction::Finish { outcome, cleanup } => AgentActionV::Finish {
                outcome: outcome@,
                cleanup: *cleanup,
            },
            AgentAction::Overflow => AgentActionV::Overflow,
            AgentAction::Ignore => AgentActionV::Ignore,
        }
    }
}

/// What to do next, and the states of the session to make known first, in order.
#[derive(Debug)]
pub struct AgentStep {
    pub action: AgentAction,
    pub publish: Vec<LiveSession>,
}

/// States of the session by their contents.
pub open spec fn session_views(sessions: Seq<LiveSession>) -> Seq<SessionV> {
    sessions.map_values(|session: LiveSession| session@)
}

/// A step by its contents.
#[verifier::ext_equal]
pub struct AgentStepV {
    pub action: AgentActionV,
    pub publish: Seq<SessionV>,
}

impl View for AgentStep {
    type V = AgentStepV;

    open spec fn view(&self) -> AgentStepV {
        AgentStepV { action: self.action@, publish: session_views(self.publish@) }
    }
}

// ── Run ─────────────────────────────────────────────────────────────────────

/// How far a run has come.
#[derive(Debug, Clone, Copy, PartialEq, Eq, Structural)]
pub enum AgentPhase {
    Launching,
    WritingInitialize,
    ReadingInitialize,
    WritingThread,
    ReadingThread,
    WritingTurn,
    ReadingTurn,
    Finished,
}

/// A run of an agent.
#[derive(Debug)]
pub struct AgentRun {
    pub config: AgentRunnerConfig,
    pub entry: RunningEntry,
    pub prompt: String,
    pub cwd: String,
    pub thread_id: String,
    pub turn_number: u32,
    pub phase: AgentPhase,
}

/// A run by its contents.
#[verifier::ext_equal]
pub struct AgentRunV {
    pub config: AgentConfigV,
    pub entry: RunningV,
    pub prompt: Seq<char>,
    pub cwd: Seq<char>,
    pub thread_id: Seq<char>,
    pub turn_number: u32,
    pub phase: AgentPhase,
}

impl View for AgentRun {
    type V = AgentRunV;

    open spec fn view(&self) -> AgentRunV {
        AgentRunV {
            config: self.config@,
            entry: self.entry@,
            prompt: self.prompt@,
            cwd: self.cwd@,
            thread_id: self.thread_id@,
            turn_number: self.turn_number,
            phase: self.phase,
        }
    }
}

/// A step without news of the session.
pub open spec fn quiet(action: AgentActionV) -> AgentStepV {
    AgentStepV { action, publish: Seq::empty() }
}

/// The end of a run.
pub open spec fn finished(
    run: AgentRunV,
    outcome: AgentOutcomeV,
    cleanup: Cleanup,
    publish: Seq<SessionV>,
) -> (AgentRunV, AgentStepV) {
    (
        AgentRunV { phase: AgentPhase::Finished, ..run },
        AgentStepV { action: AgentActionV::Finish { outcome, cleanup }, publish },
    )
}

/// The end of a run that failed.
pub open spec fn failed(
    run: AgentRunV,
    error: Seq<char>,
    cleanup: Cleanup,
    publish: Seq<SessionV>,
) -> (AgentRunV, AgentStepV) {
    finished(run, AgentOutcomeV::Error { error, entry: run.entry }, cleanup, publish)
}

/// The end of a run that was called off.
pub open spec fn called_off(run: AgentRunV, publish: Seq<SessionV>) -> (AgentRunV, AgentStepV) {
    finished(
        run,
        AgentOutcomeV::Cancelled { reason: "cancelled by reconciliation"@, entry: run.entry },
        Cleanup::KillAndWait,
        publish,
    )
}

/// The end of a run that went well.
pub open spec fn completed(run: AgentRunV, publish: Seq<SessionV>) -> (AgentRunV, AgentStepV) {
    finished(
        run,
        AgentOutcomeV::Normal { entry: run.entry, total_turns: run.turn_number },
        Cleanup::KillAndDrain,
        publish,
    )
}

/// The prompt for a turn after the first.
pub open spec fn continuation(turn: nat, max_turns: nat) -> Seq<char> {
    "Continue working on the task. Turn "@ + decimal(turn) + "/"@ + decimal(max_turns) + "."@
}

/// The prompt for a turn after the first.
pub fn continuation_prompt(turn: u32, max_turns: u32) -> (r: String)
    ensures
        r@ == continuation(turn as nat, max_turns as nat),
{
    let turn_text: String = decimal_text(turn as u64);
    let max_text: String = decimal_text(max_turns as u64);
    let head: String = concat3("Continue working on the task. Turn ", turn_text.as_str(), "/");
    concat3(head.as_str(), max_text.as_str(), ".")
}

/// The name of a turn before the agent gives it one.
pub open spec fn pending_turn(turn_number: u32) -> Seq<char> {
    "pending-"@ + decimal(turn_number as nat)
}

/// The session with the state that a run's entry is to hold.
pub open spec fn with_session(run: AgentRunV, session: SessionV) -> AgentRunV {
    AgentRunV { entry: RunningV { session, ..run.entry }, ..run }
}

/// The session at the start of a turn.
pub open spec fn turn_session(run: AgentRunV) -> SessionV {
    SessionV {
        session_id: Some(session_id(run.thread_id, pending_turn(run.turn_number))),
        turn_id: Some(pending_turn(run.turn_number)),
        turn_count: run.turn_number as u64,
        ..run.entry.session
    }
}

/// The prompt of the turn.
pub open spec fn turn_prompt(run: AgentRunV) -> Seq<char> {
    if run.turn_number == 1 {
        run.prompt
    } else {
        continuation(run.turn_number as nat, run.config.max_turns as nat)
    }
}

/// The request that starts the turn.
pub open spec fn turn_request(run: AgentRunV) -> JsonV {
    request(
        run.turn_number + 2,
        "turn/start"@,
        turn_params(run.thread_id, turn_prompt(run), run.config, run.cwd),
    )
}

/// The start of a turn, unless the run was called off.
pub open spec fn turn_started(run: AgentRunV, at: Moment, publish: Seq<SessionV>) -> (
    AgentRunV,
    AgentStepV,
) {
    if at.cancelled {
        called_off(run, publish)
    } else {
        (
            AgentRunV { phase: AgentPhase::WritingTurn, ..with_session(run, turn_session(run)) },
            AgentStepV { action: AgentActionV::Send(framed(turn_request(run))), publish },
        )
    }
}

/// The end of a turn that went well: the run is over, or the next turn starts.
pub open spec fn turn_done(run: AgentRunV, at: Moment, publish: Seq<SessionV>) -> (
    AgentRunV,
    AgentStepV,
) {
    if run.turn_number >= run.config.max_turns || run.config.stop_after_first_turn {
        completed(run, publish)
    } else {
        turn_started(
            AgentRunV { turn_number: (run.turn_number + 1) as u32, ..run },
            at,
            publish,
        )
    }
}

/// The end of a reading that failed, in each phase.
pub open spec fn reading_failed(run: AgentRunV, e: EventErrorV, publish: Seq<SessionV>) -> (
    AgentRunV,
    AgentStepV,
) {
    match run.phase {
        AgentPhase::ReadingInitialize => failed(
            run,
            "initialize failed: "@ + event_error_shown(e),
            Cleanup::KillAndWait,
            publish,
        ),
        AgentPhase::ReadingThread => failed(
            run,
            "thread start failed: "@ + event_error_shown(e),
            Cleanup::KillAndWait,
            publish,
        ),
        _ => match e {
            EventErrorV::Exit => completed(run, publish),
            EventErrorV::TurnFailed(reason) => failed(
                run,
                "turn failed: "@ + reason,
                Cleanup::Release,
                publish,
            ),
            EventErrorV::RunLimitExceeded(reason) => failed(
                run,
                reason,
                Cleanup::KillAndWait,
                publish,
            ),
        },
    }
}

/// Whether a phase is one in which the agent's lines are read.
pub open spec fn is_reading(phase: AgentPhase) -> bool {
    phase == AgentPhase::ReadingInitialize || phase == AgentPhase::ReadingThread || phase
        == AgentPhase::ReadingTurn
}

/// To read on.
pub open spec fn read_on(phase: AgentPhase) -> AgentActionV {
    if phase == AgentPhase::ReadingTurn {
        AgentActionV::MoreEvents
    } else {
        AgentActionV::ReadLine
    }
}

/// Whether a message answers the opening of the conversation.
pub open spec fn is_initialized(msg: JsonV) -> bool {
    u64_within(msg.get("id"@)) == Some(1u64) && msg.get("result"@) is Some
}

/// The thread that was started, in a message.
pub open spec fn started_thread(msg: JsonV) -> Option<Seq<char>> {
    text_within(
        or_else(
            at3(Some(msg), "result"@, "thread"@, "id"@),
            at3(Some(msg), "params"@, "thread"@, "id"@),
        ),
    )
}

/// What follows a message while the opening is awaited.
pub open spec fn initialize_message(run: AgentRunV, msg: JsonV, at: Moment) -> (
    AgentRunV,
    AgentStepV,
) {
    if is_initialized(msg) {
        let session = SessionV {
            last_codex_event: Some("initialize"@),
            last_codex_timestamp: Some(at.now),
            ..run.entry.session
        };
        (
            AgentRunV { phase: AgentPhase::WritingThread, ..with_session(run, session) },
            AgentStepV {
                action: AgentActionV::Send(
                    framed(request(2, "thread/start"@, thread_params(run.config, run.cwd))),
                ),
                publish: seq![session],
            },
        )
    } else {
        (run, quiet(AgentActionV::ReadLine))
    }
}

/// What follows a message while the thread is awaited: the session is made known
/// once for the method that was noted, and once more for the thread.
pub open spec fn thread_message(run: AgentRunV, msg: JsonV, at: Moment) -> (
    AgentRunV,
    AgentStepV,
) {
    let method = text_within(msg.get("method"@));
    let noted = if method is Some {
        SessionV {
            last_codex_event: method,
            last_codex_timestamp: Some(at.now),
            ..run.entry.session
        }
    } else {
        run.entry.session
    };
    let news = if method is Some {
        seq![noted]
    } else {
        Seq::empty()
    };
    match started_thread(msg) {
        Some(id) => {
            let session = SessionV { thread_id: Some(id), ..noted };
            turn_started(
                AgentRunV { thread_id: id, ..with_session(run, session) },
                at,
                news.push(session),
            )
        },
        None => (
            with_session(run, noted),
            AgentStepV { action: AgentActionV::ReadLine, publish: news },
        ),
    }
}

/// How long to wait for the next event of a turn.
pub open spec fn next_wait(run: AgentRunV, elapsed_ms: u64) -> Option<u64> {
    event_timeout(run.config.stall_timeout_ms, elapsed_ms, run.config.max_run_ms)
}

/// What follows a message of a turn: where the turn goes on, the wait for the next
/// event begins anew.
pub open spec fn turn_message(run: AgentRunV, msg: JsonV, at: Moment) -> (AgentRunV, AgentStepV) {
    if !usage_fits(run.entry.session, msg) {
        (run, quiet(AgentActionV::Overflow))
    } else {
        let session = after_message(run.entry.session, msg, at.now);
        let noted = with_session(run, session);
        match limit_violation(
            session,
            at.elapsed_ms,
            run.config.max_run_ms,
            run.config.max_tokens_per_run,
        ) {
            Some(reason) => reading_failed(
                noted,
                EventErrorV::RunLimitExceeded(reason),
                seq![session],
            ),
            None => match message_verdict(msg) {
                VerdictV::Continue => (
                    noted,
                    AgentStepV {
                        action: AgentActionV::AwaitEvents {
                            timeout_ms: next_wait(run, at.elapsed_ms),
                        },
                        publish: seq![session],
                    },
                ),
                VerdictV::TurnDone => turn_done(noted, at, seq![session]),
                VerdictV::Failed(e) => reading_failed(noted, e, seq![session]),
            },
        }
    }
}

/// What follows a message.
pub open spec fn message_step(run: AgentRunV, msg: JsonV, at: Moment) -> (AgentRunV, AgentStepV) {
    if !is_reading(run.phase) {
        (run, quiet(AgentActionV::Ignore))
    } else {
        match rpc_error(msg) {
            Some(e) => reading_failed(run, EventErrorV::TurnFailed(e), Seq::empty()),
            None => match run.phase {
                AgentPhase::ReadingInitialize => initialize_message(run, msg, at),
                AgentPhase::ReadingThread => thread_message(run, msg, at),
                _ => turn_message(run, msg, at),
            },
        }
    }
}

/// What follows a line: one that is blank or no JSON is passed over.
pub open spec fn line_step(run: AgentRunV, line: Seq<char>, at: Moment) -> (AgentRunV, AgentStepV) {
    if !is_reading(run.phase) {
        (run, quiet(AgentActionV::Ignore))
    } else if is_blank(line) {
        (run, quiet(read_on(run.phase)))
    } else {
        match json_parsed(line) {
            None => (run, quiet(read_on(run.phase))),
            Some(msg) => message_step(run, msg, at),
        }
    }
}

/// What follows where something was written.
pub open spec fn written_step(run: AgentRunV, at: Moment) -> (AgentRunV, AgentStepV) {
    match run.phase {
        AgentPhase::WritingInitialize => (
            AgentRunV { phase: AgentPhase::ReadingInitialize, ..run },
            quiet(AgentActionV::ReadLine),
        ),
        AgentPhase::WritingThread => (
            AgentRunV { phase: AgentPhase::ReadingThread, ..run },
            quiet(AgentActionV::ReadLine),
        ),
        AgentPhase::WritingTurn => {
            let timeout_ms = next_wait(run, at.elapsed_ms);
            if timeout_ms == Some(0u64) {
                failed(
                    run,
                    max_run_text(
                        match run.config.max_run_ms {
                            Some(max) => max,
                            None => 0,
                        },
                    ),
                    Cleanup::KillAndWait,
                    Seq::empty(),
                )
            } else {
                (
                    AgentRunV { phase: AgentPhase::ReadingTurn, ..run },
                    quiet(AgentActionV::AwaitEvents { timeout_ms }),
                )
            }
        },
        _ => (run, quiet(AgentActionV::Ignore)),
    }
}

/// What follows where something could not be written.
pub open spec fn write_failed_step(run: AgentRunV) -> (AgentRunV, AgentStepV) {
    match run.phase {
        AgentPhase::WritingInitialize => failed(
            run,
            "failed to write initialize request to agent stdin"@,
            Cleanup::Kill,
            Seq::empty(),
        ),
        AgentPhase::WritingThread => failed(
            run,
            "failed to write to agent stdin"@,
            Cleanup::Kill,
            Seq::empty(),
        ),
        AgentPhase::WritingTurn => failed(
            run,
            "failed to write turn start to agent stdin"@,
            Cleanup::Kill,
            Seq::empty(),
        ),
        _ => (run, quiet(AgentActionV::Ignore)),
    }
}

/// What is said of a turn whose time is up.
pub open spec fn timeout_text(run: AgentRunV, elapsed_ms: u64) -> Seq<char> {
    if run.config.max_run_ms is Some && elapsed_ms >= run.config.max_run_ms->0 {
        max_run_text(run.config.max_run_ms->0)
    } else {
        "agent stalled (no events for "@ + decimal(run.config.stall_timeout_ms as nat) + "ms)"@
    }
}

/// What is said of a missing pipe.
pub open spec fn pipe_text(pipe: Pipe) -> Seq<char> {
    match pipe {
        Pipe::Stdin => "agent stdin was not piped"@,
        Pipe::Stdout => "agent stdout was not piped"@,
        Pipe::Stderr => "agent stderr was not piped"@,
    }
}

/// What follows an event.
pub open spec fn agent_step(run: AgentRunV, event: AgentEventV, at: Moment) -> (
    AgentRunV,
    AgentStepV,
) {
    let reading_turn = run.phase == AgentPhase::ReadingTurn;
    let launching = run.phase == AgentPhase::Launching;
    match event {
        AgentEventV::Line(line) => line_step(run, line, at),
        AgentEventV::Closed => if is_reading(run.phase) {
            reading_failed(run, EventErrorV::Exit, Seq::empty())
        } else {
            (run, quiet(AgentActionV::Ignore))
        },
        AgentEventV::ReadFailed(why) => if is_reading(run.phase) {
            reading_failed(run, EventErrorV::TurnFailed(why), Seq::empty())
        } else {
            (run, quiet(AgentActionV::Ignore))
        },
        AgentEventV::Written => written_step(run, at),
        AgentEventV::WriteFailed => write_failed_step(run),
        AgentEventV::TimedOut => if reading_turn {
            failed(run, timeout_text(run, at.elapsed_ms), Cleanup::KillAndWait, Seq::empty())
        } else {
            (run, quiet(AgentActionV::Ignore))
        },
        AgentEventV::CancelRequested => if reading_turn {
            called_off(run, Seq::empty())
        } else {
            (run, quiet(AgentActionV::Ignore))
        },
        AgentEventV::Start => if !launching {
            (run, quiet(AgentActionV::Ignore))
        } else if is_blank(run.config.command) {
            failed(
                run,
                "failed to launch agent: codex command must not be empty"@,
                Cleanup::Release,
                Seq::empty(),
            )
        } else {
            (
                run,
                quiet(
                    AgentActionV::Launch {
                        command: run.config.command,
                        current_dir: run.config.workspace_path,
                    },
                ),
            )
        },
        AgentEventV::LaunchFailed(why) => if launching {
            failed(run, "failed to launch agent: "@ + why, Cleanup::Release, Seq::empty())
        } else {
            (run, quiet(AgentActionV::Ignore))
        },
        AgentEventV::PipeMissing(pipe) => if launching {
            failed(run, pipe_text(pipe), Cleanup::Release, Seq::empty())
        } else {
            (run, quiet(AgentActionV::Ignore))
        },
        AgentEventV::Launched { cwd } => if launching {
            (
                AgentRunV { cwd, phase: AgentPhase::WritingInitialize, ..run },
                quiet(
                    AgentActionV::Send(
                        framed(
                            request(
                                1,
                                "initialize"@,
                                initialize_params(run.config.client_version),
                            ),
                        ),
                    ),
                ),
            )
        } else {
            (run, quiet(AgentActionV::Ignore))
        },
    }
}

/// A run that is to begin.
pub open spec fn new_run(
    config: AgentConfigV,
    issue: IssueV,
    attempt: Option<u32>,
    prompt: Seq<char>,
    now: Timestamp,
) -> AgentRunV {
    AgentRunV {
        config,
        entry: RunningV {
            issue_id: issue.id,
            identifier: issue.identifier,
            issue,
            session: new_session(),
            retry_attempt: attempt,
            started_at: now,
        },
        prompt,
        cwd: config.workspace_path,
        thread_id: Seq::empty(),
        turn_number: 1,
        phase: AgentPhase::Launching,
    }
}

fn no_news() -> (r: Vec<LiveSession>)
    ensures
        session_views(r@) == Seq::<SessionV>::empty(),
{
    let r: Vec<LiveSession> = Vec::new();
    assert(session_views(r@) =~= Seq::<SessionV>::empty());
    r
}

impl AgentRun {
    /// A run that is to begin.
    pub fn new(
        config: AgentRunnerConfig,
        issue: Issue,
        attempt: Option<u32>,
        prompt: String,
        now: Timestamp,
    ) -> (r: AgentRun)
        ensures
            r@ == new_run(config@, issue@, attempt, prompt@, now),
    {
        let entry = RunningEntry {
            issue_id: issue.id.clone(),
            identifier: issue.identifier.clone(),
            issue,
            session: LiveSession::default(),
            retry_attempt: attempt,
            started_at: now,
        };
        let cwd: String = config.workspace_path.clone();
        let r = AgentRun {
            config,
            entry,
            prompt,
            cwd,
            thread_id: String::new(),
            turn_number: 1,
            phase: AgentPhase::Launching,
        };
        assert(r@.thread_id =~= Seq::<char>::empty());
        r
    }

    fn news(&self) -> (r: Vec<LiveSession>)
        ensures
            session_views(r@) == seq![self@.entry.session],
    {
        let mut r: Vec<LiveSession> = Vec::new();
        r.push(self.entry.session.clone());
        assert(session_views(r@) =~= seq![self@.entry.session]);
        r
    }

    fn finish(
        &mut self,
        outcome: AgentOutcome,
        cleanup: Cleanup,
        publish: Vec<LiveSession>,
    ) -> (r: AgentStep)
        ensures
            (final(self)@, r@) == finished(old(self)@, outcome@, cleanup, session_views(publish@)),
    {
        self.phase = AgentPhase::Finished;
        AgentStep { action: AgentAction::Finish { outcome, cleanup }, publish }
    }

    fn fail(&mut self, error: String, cleanup: Cleanup, publish: Vec<LiveSession>) -> (r:
        AgentStep)
        ensures
            (final(self)@, r@) == failed(old(self)@, error@, cleanup, session_views(publish@)),
    {
        let entry: RunningEntry = self.entry.clone();
        self.finish(AgentOutcome::Error { error, entry }, cleanup, publish)
    }

    fn call_off(&mut self, publish: Vec<LiveSession>) -> (r: AgentStep)
        ensures
            (final(self)@, r@) == called_off(old(self)@, session_views(publish@)),
    {
        let entry: RunningEntry = self.entry.clone();
        self.finish(
            AgentOutcome::Cancelled { reason: "cancelled by reconciliation".to_owned(), entry },
            Cleanup::KillAndWait,
            publish,
        )
    }

    fn complete(&mut self, publish: Vec<LiveSession>) -> (r: AgentStep)
        ensures
            (final(self)@, r@) == completed(old(self)@, session_views(publish@)),
    {
        let entry: RunningEntry = self.entry.clone();
        let total_turns: u32 = self.turn_number;
        self.finish(
            AgentOutcome::Normal { entry, total_turns },
            Cleanup::KillAndDrain,
            publish,
        )
    }

    fn start_turn(&mut self, at: Moment, publish: Vec<LiveSession>) -> (r: AgentStep)
        ensures
            (final(self)@, r@) == turn_started(old(self)@, at, session_views(publish@)),
    {
        if at.cancelled {
            return self.call_off(publish);
        }
        let number: String = decimal_text(self.turn_number as u64);
        let turn_id: String = concat2("pending-", number.as_str());
        self.entry.session.session_id = Some(
            make_session_id(self.thread_id.as_str(), turn_id.as_str()),
        );
        self.entry.session.turn_id = Some(turn_id);
        self.entry.session.turn_count = self.turn_number as u64;
        let prompt: String = if self.turn_number == 1 {
            self.prompt.clone()
        } else {
            continuation_prompt(self.turn_number, self.config.max_turns)
        };
        let message: Json = turn_start_request(
            self.turn_number as u64 + 2,
            self.thread_id.as_str(),
            prompt.as_str(),
            &self.config,
            self.cwd.as_str(),
        );
        self.phase = AgentPhase::WritingTurn;
        AgentStep { action: AgentAction::Send(frame_message(&message)), publish }
    }

    fn end_turn(&mut self, at: Moment, publish: Vec<LiveSession>) -> (r: AgentStep)
        ensures
            (final(self)@, r@) == turn_done(old(self)@, at, session_views(publish@)),
    {
        if self.turn_number >= self.config.max_turns || self.config.stop_after_first_turn {
            self.complete(publish)
        } else {
            self.turn_number = self.turn_number + 1;
            self.start_turn(at, publish)
        }
    }

    fn fail_reading(&mut self, e: EventError, publish: Vec<LiveSession>) -> (r: AgentStep)
        ensures
            (final(self)@, r@) == reading_failed(old(self)@, e@, session_views(publish@)),
    {
        match self.phase {
            AgentPhase::ReadingInitialize => {
                let shown: String = e.shown();
                self.fail(
                    concat2("initialize failed: ", shown.as_str()),
                    Cleanup::KillAndWait,
                    publish,
                )
            },
            AgentPhase::ReadingThread => {
                let shown: String = e.shown();
                self.fail(
                    concat2("thread start failed: ", shown.as_str()),
                    Cleanup::KillAndWait,
                    publish,
                )
            },
            _ => match e {
                EventError::Exit => self.complete(publish),
                EventError::TurnFailed(reason) => self.fail(
                    concat2("turn failed: ", reason.as_str()),
                    Cleanup::Release,
                    publish,
                ),
                EventError::RunLimitExceeded(reason) => self.fail(
                    reason,
                    Cleanup::KillAndWait,
                    publish,
                ),
            },
        }
    }

    fn on_initialize_message(&mut self, msg: &Json, at: Moment) -> (r: AgentStep)
        ensures
            (final(self)@, r@) == initialize_message(old(self)@, msg@, at),
    {
        let answers: bool = match u64_of(msg.get("id")) {
            Some(id) => id == 1,
            None => false,
        };
        if answers && msg.get("result").is_some() {
            self.entry.session.last_codex_event = Some("initialize".to_owned());
            self.entry.session.last_codex_timestamp = Some(at.now);
            let message: Json = thread_start_request(2, &self.config, self.cwd.as_str());
            self.phase = AgentPhase::WritingThread;
            let publish: Vec<LiveSession> = self.news();
            AgentStep { action: AgentAction::Send(frame_message(&message)), publish }
        } else {
            AgentStep { action: AgentAction::ReadLine, publish: no_news() }
        }
    }

    fn on_thread_message(&mut self, msg: &Json, at: Moment) -> (r: AgentStep)
        ensures
            (final(self)@, r@) == thread_message(old(self)@, msg@, at),
    {
        let mut publish: Vec<LiveSession> = no_news();
        if let Some(method) = text_of(msg.get("method")) {
            self.entry.session.last_codex_event = Some(method.to_owned());
            self.entry.session.last_codex_timestamp = Some(at.now);
            publish = self.news();
        }
        let o: Option<&Json> = Some(msg);
        let thread: Option<&Json> = either(
            member(member(member(o, "result"), "thread"), "id"),
            member(member(member(o, "params"), "thread"), "id"),
        );
        match text_of(thread) {
            Some(id) => {
                self.entry.session.thread_id = Some(id.to_owned());
                self.thread_id = id.to_owned();
                let ghost before = publish@;
                publish.push(self.entry.session.clone());
                assert(session_views(publish@) =~= session_views(before).push(self@.entry.session));
                self.start_turn(at, publish)
            },
            None => AgentStep { action: AgentAction::ReadLine, publish },
        }
    }

    fn wait_ms(&self, at: Moment) -> (r: Option<u64>)
        ensures
            r == next_wait(self@, at.elapsed_ms),
    {
        next_event_timeout_ms(self.config.stall_timeout_ms, at.elapsed_ms, self.config.max_run_ms)
    }

    fn on_turn_message(&mut self, msg: &Json, at: Moment) -> (r: AgentStep)
        ensures
            (final(self)@, r@) == turn_message(old(self)@, msg@, at),
    {
        if !message_fits(&self.entry.session, msg) {
            return AgentStep { action: AgentAction::Overflow, publish: no_news() };
        }
        note_message(&mut self.entry.session, msg, at.now);
        let publish: Vec<LiveSession> = self.news();
        match run_limit_violation(
            &self.entry.session,
            at.elapsed_ms,
            self.config.max_run_ms,
            self.config.max_tokens_per_run,
        ) {
            Some(reason) => self.fail_reading(EventError::RunLimitExceeded(reason), publish),
            None => match judge_message(msg) {
                Verdict::Continue => AgentStep {
                    action: AgentAction::AwaitEvents { timeout_ms: self.wait_ms(at) },
                    publish,
                },
                Verdict::TurnDone => self.end_turn(at, publish),
                Verdict::Failed(e) => self.fail_reading(e, publish),
            },
        }
    }

    fn is_reading(&self) -> (r: bool)
        ensures
            r == is_reading(self@.phase),
    {
        match self.phase {
            AgentPhase::ReadingInitialize => true,
            AgentPhase::ReadingThread => true,
            AgentPhase::ReadingTurn => true,
            _ => false,
        }
    }

    fn read_on(&self) -> (r: AgentStep)
        ensures
            r@ == quiet(read_on(self@.phase)),
    {
        let action: AgentAction = match self.phase {
            AgentPhase::ReadingTurn => AgentAction::MoreEvents,
            _ => AgentAction::ReadLine,
        };
        AgentStep { action, publish: no_news() }
    }

    fn ignore(&self) -> (r: AgentStep)
        ensures
            r@ == quiet(AgentActionV::Ignore),
    {
        AgentStep { action: AgentAction::Ignore, publish: no_news() }
    }

    /// Takes a message of the agent.
    pub fn on_message(&mut self, msg: &Json, at: Moment) -> (r: AgentStep)
        ensures
            (final(self)@, r@) == message_step(old(self)@, msg@, at),
    {
        if !self.is_reading() {
            return self.ignore();
        }
        match json_rpc_error_message(msg) {
            Some(e) => self.fail_reading(EventError::TurnFailed(e), no_news()),
            None => match self.phase {
                AgentPhase::ReadingInitialize => self.on_initialize_message(msg, at),
                AgentPhase::ReadingThread => self.on_thread_message(msg, at),
                _ => self.on_turn_message(msg, at),
            },
        }
    }

    fn on_line(&mut self, line: &str, at: Moment) -> (r: AgentStep)
        ensures
            (final(self)@, r@) == line_step(old(self)@, line@, at),
    {
        if !self.is_reading() {
            return self.ignore();
        }
        if is_blank_text(line) {
            return self.read_on();
        }
        match parse_json(line) {
            None => self.read_on(),
            Some(msg) => self.on_message(&msg, at),
        }
    }

    fn on_written(&mut self, at: Moment) -> (r: AgentStep)
        ensures
            (final(self)@, r@) == written_step(old(self)@, at),
    {
        match self.phase {
            AgentPhase::WritingInitialize => {
                self.phase = AgentPhase::ReadingInitialize;
                self.read_on()
            },
            AgentPhase::WritingThread => {
                self.phase = AgentPhase::ReadingThread;
                self.read_on()
            },
            AgentPhase::WritingTurn => {
                let timeout_ms: Option<u64> = self.wait_ms(at);
                let at_once: bool = match timeout_ms {
                    Some(ms) => ms == 0,
                    None => false,
                };
                if at_once {
                    let max: u64 = match self.config.max_run_ms {
                        Some(max) => max,
                        None => 0,
                    };
                    self.fail(max_run_error(max), Cleanup::KillAndWait, no_news())
                } else {
                    self.phase = AgentPhase::ReadingTurn;
                    AgentStep { action: AgentAction::AwaitEvents { timeout_ms }, publish: no_news() }
                }
            },
            _ => self.ignore(),
        }
    }

    fn on_write_failed(&mut self) -> (r: AgentStep)
        ensures
            (final(self)@, r@) == write_failed_step(old(self)@),
    {
        match self.phase {
            AgentPhase::WritingInitialize => self.fail(
                "failed to write initialize request to agent stdin".to_owned(),
                Cleanup::Kill,
                no_news(),
            ),
            AgentPhase::WritingThread => self.fail(
                "failed to write to agent stdin".to_owned(),
                Cleanup::Kill,
                no_news(),
            ),
            AgentPhase::WritingTurn => self.fail(
                "failed to write turn start to agent stdin".to_owned(),
                Cleanup::Kill,
                no_news(),
            ),
            _ => self.ignore(),
        }
    }

    fn on_timeout(&mut self, at: Moment) -> (r: AgentStep)
        ensures
            (final(self)@, r@) == failed(
                old(self)@,
                timeout_text(old(self)@, at.elapsed_ms),
                Cleanup::KillAndWait,
                Seq::empty(),
            ),
    {
        let over_budget: Option<u64> = match self.config.max_run_ms {
            Some(max) => if at.elapsed_ms >= max {
                Some(max)
            } else {
                None
            },
            None => None,
        };
        let error: String = match over_budget {
            Some(max) => max_run_error(max),
            None => {
                let ms: String = decimal_text(self.config.stall_timeout_ms);
                concat3("agent stalled (no events for ", ms.as_str(), "ms)")
            },
        };
        self.fail(error, Cleanup::KillAndWait, no_news())
    }

    fn on_start(&mut self) -> (r: AgentStep)
        requires
            old(self)@.phase == AgentPhase::Launching,
        ensures
            forall|at: Moment|
                (final(self)@, r@) == #[trigger] agent_step(old(self)@, AgentEventV::Start, at),
    {
        if is_blank_text(self.config.command.as_str()) {
            self.fail(
                "failed to launch agent: codex command must not be empty".to_owned(),
                Cleanup::Release,
                no_news(),
            )
        } else {
            AgentStep {
                action: AgentAction::Launch {
                    command: self.config.command.clone(),
                    current_dir: self.config.workspace_path.clone(),
                },
                publish: no_news(),
            }
        }
    }

    fn on_launched(&mut self, cwd: String) -> (r: AgentStep)
        requires
            old(self)@.phase == AgentPhase::Launching,
        ensures
            forall|at: Moment|
                (final(self)@, r@) == #[trigger] agent_step(
                    old(self)@,
                    AgentEventV::Launched { cwd: cwd@ },
                    at,
                ),
    {
        self.cwd = cwd;
        self.phase = AgentPhase::WritingInitialize;
        let message: Json = initialize_request(1, self.config.client_version.as_str());
        AgentStep { action: AgentAction::Send(frame_message(&message)), publish: no_news() }
    }

    /// Takes an event and says what to do next.
    pub fn step(&mut self, event: AgentEvent, at: Moment) -> (r: AgentStep)
        ensures
            (final(self)@, r@) == agent_step(old(self)@, event@, at),
    {
        let launching: bool = self.phase == AgentPhase::Launching;
        let reading_turn: bool = self.phase == AgentPhase::ReadingTurn;
        match event {
            AgentEvent::Line(line) => self.on_line(line.as_str(), at),
            AgentEvent::Closed => if self.is_reading() {
                self.fail_reading(EventError::Exit, no_news())
            } else {
                self.ignore()
            },
            AgentEvent::ReadFailed(why) => if self.is_reading() {
                self.fail_reading(EventError::TurnFailed(why), no_news())
            } else {
                self.ignore()
            },
            AgentEvent::Written => self.on_written(at),
            AgentEvent::WriteFailed => self.on_write_failed(),
            AgentEvent::TimedOut => if reading_turn {
                self.on_timeout(at)
            } else {
                self.ignore()
            },
            AgentEvent::CancelRequested => if reading_turn {
                self.call_off(no_news())
            } else {
                self.ignore()
            },
            AgentEvent::Start => if launching {
                self.on_start()
            } else {
                self.ignore()
            },
            AgentEvent::LaunchFailed(why) => if launching {
                self.fail(
                    concat2("failed to launch agent: ", why.as_str()),
                    Cleanup::Release,
                    no_news(),
                )
            } else {
                self.ignore()
            },
            AgentEvent::PipeMissing(pipe) => if launching {
                let text: &str = match pipe {
                    Pipe::Stdin => "agent stdin was not piped",
                    Pipe::Stdout => "agent stdout was not piped",
                    Pipe::Stderr => "agent stderr was not piped",
                };
                self.fail(text.to_owned(), Cleanup::Release, no_news())
            } else {
                self.ignore()
            },
            AgentEvent::Launched { cwd } => if launching {
                self.on_launched(cwd)
            } else {
                self.ignore()
            },
        }
    }
}

// ── Laws ────────────────────────────────────────────────────────────────────

/// What holds of a run at every moment: turns are counted from one and never
/// beyond the maximum, and the entry stays that of the issue.
pub open spec fn run_in_order(run: AgentRunV) -> bool {
    1 <= run.turn_number && (run.turn_number == 1 || run.turn_number <= run.config.max_turns)
}

/// A new run is in order, every event keeps it so, and no event changes whose run
/// it is or how it is configured.
pub proof fn law_runs_stay_in_order(run: AgentRunV, event: AgentEventV, at: Moment)
    requires
        run_in_order(run),
    ensures
        run_in_order(agent_step(run, event, at).0),
        agent_step(run, event, at).0.config == run.config,
        agent_step(run, event, at).0.prompt == run.prompt,
        agent_step(run, event, at).0.entry.issue_id == run.entry.issue_id,
        agent_step(run, event, at).0.entry.identifier == run.entry.identifier,
        agent_step(run, event, at).0.entry.issue == run.entry.issue,
        agent_step(run, event, at).0.entry.retry_attempt == run.entry.retry_attempt,
        agent_step(run, event, at).0.entry.started_at == run.entry.started_at,
        run.turn_number <= agent_step(run, event, at).0.turn_number <= run.turn_number + 1,
{
}

/// A run that is to begin is in order.
pub proof fn law_new_runs_are_in_order(
    config: AgentConfigV,
    issue: IssueV,
    attempt: Option<u32>,
    prompt: Seq<char>,
    now: Timestamp,
)
    ensures
        run_in_order(new_run(config, issue, attempt, prompt, now)),
{
}

/// A run is over exactly when its end is reported, and then nothing moves it.
pub proof fn law_runs_end_once(run: AgentRunV, event: AgentEventV, at: Moment)
    ensures
        run.phase != AgentPhase::Finished ==> (agent_step(run, event, at).0.phase
            == AgentPhase::Finished <==> agent_step(run, event, at).1.action is Finish),
        run.phase == AgentPhase::Finished ==> agent_step(run, event, at) == (
            run,
            quiet(AgentActionV::Ignore),
        ),
{
}

/// What is reported at the end is what the run then holds: the entry with all that
/// was counted, and the number of turns.
pub proof fn law_outcome_holds_the_entry(run: AgentRunV, event: AgentEventV, at: Moment)
    ensures
        agent_step(run, event, at).1.action matches AgentActionV::Finish { outcome, .. } ==> {
            let after = agent_step(run, event, at).0;
            match outcome {
                AgentOutcomeV::Normal { entry, total_turns } => entry == after.entry && total_turns
                    == after.turn_number,
                AgentOutcomeV::Error { entry, .. } => entry == after.entry,
                AgentOutcomeV::Cancelled { entry, .. } => entry == after.entry,
            }
        },
{
}

/// A run that was called off between two turns, or while events are awaited, ends
/// as cancelled, and its process is killed.
pub proof fn law_cancelled_runs_stop(run: AgentRunV, at: Moment, publish: Seq<SessionV>)
    ensures
        at.cancelled ==> turn_started(run, at, publish) == called_off(run, publish),
        run.phase == AgentPhase::ReadingTurn ==> agent_step(
            run,
            AgentEventV::CancelRequested,
            at,
        ) == called_off(run, Seq::empty()),
        called_off(run, publish).1.action == (AgentActionV::Finish {
            outcome: AgentOutcomeV::Cancelled {
                reason: "cancelled by reconciliation"@,
                entry: run.entry,
            },
            cleanup: Cleanup::KillAndWait,
        }),
{
}

/// A message with which a budget is used up ends the run with an error that names
/// the budget, whatever else the message says, and the session keeps what the
/// message reported.
pub proof fn law_budgets_end_runs(run: AgentRunV, msg: JsonV, at: Moment)
    requires
        run.phase == AgentPhase::ReadingTurn,
        rpc_error(msg) is None,
        usage_fits(run.entry.session, msg),
        limit_violation(
            after_message(run.entry.session, msg, at.now),
            at.elapsed_ms,
            run.config.max_run_ms,
            run.config.max_tokens_per_run,
        ) is Some,
    ensures
        message_step(run, msg, at).1.action == (AgentActionV::Finish {
            outcome: AgentOutcomeV::Error {
                error: limit_violation(
                    after_message(run.entry.session, msg, at.now),
                    at.elapsed_ms,
                    run.config.max_run_ms,
                    run.config.max_tokens_per_run,
                )->0,
                entry: RunningV {
                    session: after_message(run.entry.session, msg, at.now),
                    ..run.entry
                },
            },
            cleanup: Cleanup::KillAndWait,
        }),
{
}

/// An agent that keeps reporting is not stalled: after each event that does not end
/// the turn the whole wait begins anew, bounded by what is left of the run's time,
/// and there is always something left. What is no event does not prolong the wait.
pub proof fn law_events_renew_the_wait(run: AgentRunV, line: Seq<char>, at: Moment)
    requires
        run.phase == AgentPhase::ReadingTurn,
        agent_step(run, AgentEventV::Line(line), at).0.phase == AgentPhase::ReadingTurn,
        !(agent_step(run, AgentEventV::Line(line), at).1.action is Overflow),
    ensures
        !is_blank(line) && json_parsed(line) is Some ==> {
            let wait = next_wait(run, at.elapsed_ms);
            &&& agent_step(run, AgentEventV::Line(line), at).1.action
                == AgentActionV::AwaitEvents { timeout_ms: wait }
            &&& wait != Some(0u64)
            &&& run.config.stall_timeout_ms > 0 && run.config.max_run_ms is None ==> wait == Some(
                run.config.stall_timeout_ms,
            )
        },
        is_blank(line) || json_parsed(line) is None ==> agent_step(
            run,
            AgentEventV::Line(line),
            at,
        ) == (run, quiet(AgentActionV::MoreEvents)),
{
}

/// Where a turn goes well the run goes on with the next one until the maximum is
/// reached or only one turn is wanted, and then ends well with the turns counted.
pub proof fn law_turns_follow_each_other(run: AgentRunV, at: Moment, publish: Seq<SessionV>)
    requires
        run_in_order(run),
        !at.cancelled,
    ensures
        run.turn_number >= run.config.max_turns || run.config.stop_after_first_turn ==> turn_done(
            run,
            at,
            publish,
        ).1.action == (AgentActionV::Finish {
            outcome: AgentOutcomeV::Normal { entry: run.entry, total_turns: run.turn_number },
            cleanup: Cleanup::KillAndDrain,
        }),
        run.turn_number < run.config.max_turns && !run.config.stop_after_first_turn ==> turn_done(
            run,
            at,
            publish,
        ).0.turn_number == run.turn_number + 1 && turn_done(run, at, publish).1.action
            == AgentActionV::Send(
            framed(
                request(
                    run.turn_number + 3,
                    "turn/start"@,
                    turn_params(
                        run.thread_id,
                        continuation((run.turn_number + 1) as nat, run.config.max_turns as nat),
                        run.config,
                        run.cwd,
                    ),
                ),
            ),
        ),
{
}

// ── Laws of a run from beginning to end ─────────────────────────────────────

/// Whether a step ends the run with this error, and with nothing of the entry changed
/// but its session.
pub open spec fn ends_with_error(
    run: AgentRunV,
    step: (AgentRunV, AgentStepV),
    error: Seq<char>,
    cleanup: Cleanup,
) -> bool {
    &&& step.0.phase == AgentPhase::Finished
    &&& step.1.action == (AgentActionV::Finish {
        outcome: AgentOutcomeV::Error {
            error,
            entry: RunningV { session: step.0.entry.session, ..run.entry },
        },
        cleanup,
    })
}

/// Whether a step ends the run well after this many turns.
pub open spec fn ends_well(run: AgentRunV, step: (AgentRunV, AgentStepV), turns: u32) -> bool {
    &&& step.0.phase == AgentPhase::Finished
    &&& step.1.action == (AgentActionV::Finish {
        outcome: AgentOutcomeV::Normal {
            entry: RunningV { session: step.0.entry.session, ..run.entry },
            total_turns: turns,
        },
        cleanup: Cleanup::KillAndDrain,
    })
}

/// Whether a line of the agent holds this message.
pub open spec fn holds_message(line: Seq<char>, msg: JsonV) -> bool {
    !is_blank(line) && json_parsed(line) == Some(msg)
}

/// Whether a message is within what the counters and the budgets allow.
pub open spec fn within_limits(run: AgentRunV, msg: JsonV, at: Moment) -> bool {
    &&& msg.get("error"@) is None
    &&& usage_fits(run.entry.session, msg)
    &&& run.config.max_run_ms matches Some(max) ==> at.elapsed_ms < max
    &&& run.config.max_tokens_per_run matches Some(max) ==> session_tokens(
        after_message(run.entry.session, msg, at.now),
    ) < max
}

proof fn lemma_within_limits(run: AgentRunV, msg: JsonV, at: Moment)
    requires
        within_limits(run, msg, at),
    ensures
        rpc_error(msg) is None,
        limit_violation(
            after_message(run.entry.session, msg, at.now),
            at.elapsed_ms,
            run.config.max_run_ms,
            run.config.max_tokens_per_run,
        ) is None,
{
    law_only_errors_are_errors(msg, Seq::empty());
    law_budgets(
        after_message(run.entry.session, msg, at.now),
        at.elapsed_ms,
        run.config.max_run_ms,
        run.config.max_tokens_per_run,
    );
}

/// A new run is that of the given issue and attempt with the given prompt, in the
/// configured workspace, before its first turn, with a session in which nothing has
/// been used.
pub proof fn law_new_runs(
    config: AgentConfigV,
    issue: IssueV,
    attempt: Option<u32>,
    prompt: Seq<char>,
    now: Timestamp,
)
    ensures
        ({
            let run = new_run(config, issue, attempt, prompt, now);
            &&& run.config == config
            &&& run.prompt == prompt
            &&& run.cwd == config.workspace_path
            &&& run.turn_number == 1
            &&& run.phase == AgentPhase::Launching
            &&& run.entry.issue == issue
            &&& run.entry.issue_id == issue.id
            &&& run.entry.identifier == issue.identifier
            &&& run.entry.retry_attempt == attempt
            &&& run.entry.started_at == now
            &&& run.entry.session.codex_input_tokens == 0
            &&& run.entry.session.codex_output_tokens == 0
            &&& run.entry.session.codex_total_tokens == 0
            &&& run.entry.session.turn_count == 0
            &&& run.entry.session.session_id is None
            &&& run.entry.session.thread_id is None
            &&& run.entry.session.turn_id is None
        }),
{
}

/// A run begins by launching the configured command in the workspace, unless the
/// command is blank; once the process runs the conversation is opened from where the
/// process is.
pub proof fn law_runs_begin_with_the_command(run: AgentRunV, cwd: Seq<char>, why: Seq<char>, at: Moment)
    requires
        run.phase == AgentPhase::Launching,
    ensures
        !is_blank(run.config.command) ==> agent_step(run, AgentEventV::Start, at) == (
            run,
            quiet(
                AgentActionV::Launch {
                    command: run.config.command,
                    current_dir: run.config.workspace_path,
                },
            ),
        ),
        is_blank(run.config.command) ==> ends_with_error(
            run,
            agent_step(run, AgentEventV::Start, at),
            "failed to launch agent: codex command must not be empty"@,
            Cleanup::Release,
        ),
        ends_with_error(
            run,
            agent_step(run, AgentEventV::LaunchFailed(why), at),
            "failed to launch agent: "@ + why,
            Cleanup::Release,
        ),
        ends_with_error(
            run,
            agent_step(run, AgentEventV::PipeMissing(Pipe::Stdin), at),
            "agent stdin was not piped"@,
            Cleanup::Release,
        ),
        ends_with_error(
            run,
            agent_step(run, AgentEventV::PipeMissing(Pipe::Stdout), at),
            "agent stdout was not piped"@,
            Cleanup::Release,
        ),
        ends_with_error(
            run,
            agent_step(run, AgentEventV::PipeMissing(Pipe::Stderr), at),
            "agent stderr was not piped"@,
            Cleanup::Release,
        ),
        agent_step(run, AgentEventV::Launched { cwd }, at).0 == (AgentRunV {
            cwd,
            phase: AgentPhase::WritingInitialize,
            ..run
        }),
        agent_step(run, AgentEventV::Launched { cwd }, at).1 == quiet(
            AgentActionV::Send(
                framed(
                    request(1, "initialize"@, initialize_params(run.config.client_version)),
                ),
            ),
        ),
{
}

/// The conversation is open once the agent answers the first request with a result;
/// then a thread is asked for. Any other message is passed over.
pub proof fn law_threads_follow_the_opening(run: AgentRunV, line: Seq<char>, msg: JsonV, at: Moment)
    requires
        run.phase == AgentPhase::ReadingInitialize,
        holds_message(line, msg),
        msg.get("error"@) is None,
    ensures
        counts(msg, seq!["id"@], 1) && msg.get("result"@) is Some ==> {
            let (after, step) = agent_step(run, AgentEventV::Line(line), at);
            let session = SessionV {
                last_codex_event: Some("initialize"@),
                last_codex_timestamp: Some(at.now),
                ..run.entry.session
            };
            &&& after.phase == AgentPhase::WritingThread
            &&& after.entry == (RunningV { session, ..run.entry })
            &&& after.cwd == run.cwd
            &&& step.publish == seq![session]
            &&& step.action == AgentActionV::Send(
                framed(request(2, "thread/start"@, thread_params(run.config, run.cwd))),
            )
        },
        !counts(msg, seq!["id"@], 1) || msg.get("result"@) is None ==> agent_step(
            run,
            AgentEventV::Line(line),
            at,
        ) == (run, quiet(AgentActionV::ReadLine)),
{
    law_only_errors_are_errors(msg, Seq::empty());
    lemma_at_path(msg, "id"@, "id"@, "id"@, "id"@);
}

/// Whether a message says which thread was started.
pub open spec fn starts_thread(msg: JsonV, id: Seq<char>) -> bool {
    says(msg, seq!["result"@, "thread"@, "id"@], id) || (at_path(
        msg,
        seq!["result"@, "thread"@, "id"@],
    ) is None && says(msg, seq!["params"@, "thread"@, "id"@], id))
}

/// The first turn starts with the prompt on the thread that the agent names, unless the
/// run was called off; until a thread is named, lines are read on.
pub proof fn law_the_first_turn_follows_the_thread(
    run: AgentRunV,
    line: Seq<char>,
    msg: JsonV,
    id: Seq<char>,
    at: Moment,
)
    requires
        run.phase == AgentPhase::ReadingThread,
        run.turn_number == 1,
        holds_message(line, msg),
        msg.get("error"@) is None,
    ensures
        starts_thread(msg, id) && !at.cancelled ==> {
            let (after, step) = agent_step(run, AgentEventV::Line(line), at);
            &&& after.phase == AgentPhase::WritingTurn
            &&& after.thread_id == id
            &&& after.entry.session.thread_id == Some(id)
            &&& after.entry.session.turn_count == 1
            &&& after.entry.session.turn_id == Some("pending-"@ + decimal(1))
            &&& after.entry.session.session_id == Some(id + seq!['-'] + ("pending-"@ + decimal(1)))
            &&& step.action == AgentActionV::Send(
                framed(
                    request(3, "turn/start"@, turn_params(id, run.prompt, run.config, run.cwd)),
                ),
            )
        },
        starts_thread(msg, id) && at.cancelled ==> agent_step(
            run,
            AgentEventV::Line(line),
            at,
        ).1.action matches AgentActionV::Finish { outcome: AgentOutcomeV::Cancelled { .. }, .. },
        (forall|any: Seq<char>| !#[trigger] starts_thread(msg, any)) ==> agent_step(
            run,
            AgentEventV::Line(line),
            at,
        ).1.action == AgentActionV::ReadLine && agent_step(run, AgentEventV::Line(line), at).0.phase
            == AgentPhase::ReadingThread,
{
    law_only_errors_are_errors(msg, Seq::empty());
    lemma_at_path(msg, "result"@, "thread"@, "id"@, "id"@);
    lemma_at_path(msg, "params"@, "thread"@, "id"@, "id"@);
    if started_thread(msg) is Some {
        assert(starts_thread(msg, started_thread(msg)->0));
    }
}

/// While the thread is awaited every message with a method is made known, and then the
/// thread.
pub proof fn law_news_of_the_thread(
    run: AgentRunV,
    line: Seq<char>,
    msg: JsonV,
    method: Seq<char>,
    id: Seq<char>,
    at: Moment,
)
    requires
        run.phase == AgentPhase::ReadingThread,
        holds_message(line, msg),
        msg.get("error"@) is None,
    ensures
        ({
            let publish = agent_step(run, AgentEventV::Line(line), at).1.publish;
            let named = SessionV {
                last_codex_event: Some(method),
                last_codex_timestamp: Some(at.now),
                ..run.entry.session
            };
            &&& says(msg, seq!["method"@], method) && starts_thread(msg, id) ==> publish == seq![
                named,
                SessionV { thread_id: Some(id), ..named },
            ]
            &&& says_nothing(msg, seq!["method"@]) && starts_thread(msg, id) ==> publish == seq![
                SessionV { thread_id: Some(id), ..run.entry.session },
            ]
            &&& says(msg, seq!["method"@], method) && (forall|any: Seq<char>|
                !#[trigger] starts_thread(msg, any)) ==> publish == seq![named]
            &&& says_nothing(msg, seq!["method"@]) && (forall|any: Seq<char>|
                !#[trigger] starts_thread(msg, any)) ==> publish.len() == 0
        }),
{
    law_only_errors_are_errors(msg, Seq::empty());
    lemma_at_path(msg, "method"@, "id"@, "id"@, "id"@);
    lemma_at_path(msg, "result"@, "thread"@, "id"@, "id"@);
    lemma_at_path(msg, "params"@, "thread"@, "id"@, "id"@);
    if started_thread(msg) is Some {
        assert(starts_thread(msg, started_thread(msg)->0));
    }
    let publish = agent_step(run, AgentEventV::Line(line), at).1.publish;
    let named = SessionV {
        last_codex_event: Some(method),
        last_codex_timestamp: Some(at.now),
        ..run.entry.session
    };
    if says(msg, seq!["method"@], method) && starts_thread(msg, id) {
        assert(publish =~= seq![named, SessionV { thread_id: Some(id), ..named }]);
    }
    if says_nothing(msg, seq!["method"@]) && starts_thread(msg, id) {
        assert(publish =~= seq![SessionV { thread_id: Some(id), ..run.entry.session }]);
    }
}

/// A turn that is reported to be over and not to have failed was a good one: at the last
/// turn, or where only one is wanted, the run then ends well with its turns counted, and
/// before that the next turn starts on the same thread.
pub proof fn law_good_turns_lead_on(
    run: AgentRunV,
    line: Seq<char>,
    msg: JsonV,
    kind: Seq<char>,
    at: Moment,
)
    requires
        run.phase == AgentPhase::ReadingTurn,
        holds_message(line, msg),
        within_limits(run, msg, at),
        reports(msg, kind),
        is_completion(kind),
        !says(msg, seq!["params"@, "turn"@, "status"@], "failed"@),
    ensures
        run.turn_number >= run.config.max_turns || run.config.stop_after_first_turn ==> ends_well(
            run,
            agent_step(run, AgentEventV::Line(line), at),
            run.turn_number,
        ),
        run.turn_number < run.config.max_turns && !run.config.stop_after_first_turn && !at.cancelled
            ==> {
            let (after, step) = agent_step(run, AgentEventV::Line(line), at);
            &&& after.phase == AgentPhase::WritingTurn
            &&& after.turn_number == run.turn_number + 1
            &&& after.thread_id == run.thread_id
            &&& after.entry.session.turn_count == run.turn_number + 1
            &&& step.action == AgentActionV::Send(
                framed(
                    request(
                        run.turn_number + 3,
                        "turn/start"@,
                        turn_params(
                            run.thread_id,
                            if after.turn_number == 1 {
                                run.prompt
                            } else {
                                "Continue working on the task. Turn "@ + decimal(
                                    after.turn_number as nat,
                                ) + "/"@ + decimal(run.config.max_turns as nat) + "."@
                            },
                            run.config,
                            run.cwd,
                        ),
                    ),
                ),
            )
        },
        run.turn_number < run.config.max_turns && !run.config.stop_after_first_turn && at.cancelled
            ==> agent_step(run, AgentEventV::Line(line), at).1.action matches AgentActionV::Finish {
            outcome: AgentOutcomeV::Cancelled { .. },
            cleanup: Cleanup::KillAndWait,
        },
{
    lemma_within_limits(run, msg, at);
    law_completed_turns_go_well_unless_failed(msg, kind, Seq::empty());
}

/// A turn that failed ends the run with the reason that the agent gave, and so does an
/// error in place of an event; a goodbye or the end of the output ends it well.
pub proof fn law_bad_turns_end_the_run(
    run: AgentRunV,
    line: Seq<char>,
    msg: JsonV,
    kind: Seq<char>,
    why: Seq<char>,
    at: Moment,
)
    requires
        run.phase == AgentPhase::ReadingTurn,
        holds_message(line, msg),
    ensures
        within_limits(run, msg, at) && reports(msg, kind) && is_completion(kind) && says(
            msg,
            seq!["params"@, "turn"@, "status"@],
            "failed"@,
        ) && says(msg, seq!["params"@, "turn"@, "error"@, "message"@], why) ==> ends_with_error(
            run,
            agent_step(run, AgentEventV::Line(line), at),
            "turn failed: "@ + why,
            Cleanup::Release,
        ),
        within_limits(run, msg, at) && (reports(msg, "turn_failed"@) || reports(
            msg,
            "v2/TurnFailed"@,
        )) && says(msg, seq!["result"@, "error"@, "message"@], why) ==> ends_with_error(
            run,
            agent_step(run, AgentEventV::Line(line), at),
            "turn failed: "@ + why,
            Cleanup::Release,
        ),
        says(msg, seq!["error"@, "message"@], why) && msg.get("error"@)->0.get("code"@) is None
            ==> ends_with_error(
            run,
            agent_step(run, AgentEventV::Line(line), at),
            "turn failed: JSON-RPC error: "@ + why,
            Cleanup::Release,
        ),
        within_limits(run, msg, at) && reports(msg, "exit"@) ==> ends_well(
            run,
            agent_step(run, AgentEventV::Line(line), at),
            run.turn_number,
        ),
        ends_well(run, agent_step(run, AgentEventV::Closed, at), run.turn_number),
        ends_with_error(
            run,
            agent_step(run, AgentEventV::ReadFailed(why), at),
            "turn failed: "@ + why,
            Cleanup::Release,
        ),
{
    if within_limits(run, msg, at) {
        lemma_within_limits(run, msg, at);
        if reports(msg, kind) && is_completion(kind) {
            law_completed_turns_go_well_unless_failed(msg, kind, why);
        }
        law_failures_are_taken_at_their_word(msg, why);
    }
    lemma_at_path(msg, "error"@, "message"@, why, why);
    lemma_at_path(msg, "error"@, "code"@, why, why);
    law_only_errors_are_errors(msg, why);
    reveal_strlit("turn failed: ");
    reveal_strlit("JSON-RPC error: ");
    reveal_strlit("turn failed: JSON-RPC error: ");
    assert("turn failed: "@ + "JSON-RPC error: "@ =~= "turn failed: JSON-RPC error: "@);
    assert("turn failed: "@ + ("JSON-RPC error: "@ + why) =~= "turn failed: JSON-RPC error: "@
        + why);
}

/// A message that ends no turn is noted and made known, and the next one is awaited.
pub proof fn law_other_messages_are_noted(run: AgentRunV, line: Seq<char>, msg: JsonV, at: Moment)
    requires
        run.phase == AgentPhase::ReadingTurn,
        holds_message(line, msg),
        within_limits(run, msg, at),
        message_verdict(msg) is Continue,
    ensures
        ({
            let (after, step) = agent_step(run, AgentEventV::Line(line), at);
            let session = after_message(run.entry.session, msg, at.now);
            &&& after == (AgentRunV { entry: RunningV { session, ..run.entry }, ..run })
            &&& step.publish == seq![session]
            &&& step.action is AwaitEvents
        }),
{
    lemma_within_limits(run, msg, at);
}

/// An agent that says nothing for too long is stalled, one that runs too long has used
/// up its time; a run that is called off while it waits is cancelled; what cannot be
/// written ends the run.
pub proof fn law_silence_and_failed_writes_end_runs(run: AgentRunV, at: Moment)
    ensures
        run.phase == AgentPhase::ReadingTurn ==> {
            &&& (run.config.max_run_ms matches Some(max) ==> at.elapsed_ms < max)
                ==> ends_with_error(
                run,
                agent_step(run, AgentEventV::TimedOut, at),
                "agent stalled (no events for "@ + decimal(run.config.stall_timeout_ms as nat)
                    + "ms)"@,
                Cleanup::KillAndWait,
            )
            &&& run.config.max_run_ms matches Some(max) ==> at.elapsed_ms >= max ==> ends_with_error(
                run,
                agent_step(run, AgentEventV::TimedOut, at),
                "worker exceeded max_run_ms budget ("@ + decimal(max as nat) + "ms)"@,
                Cleanup::KillAndWait,
            )
            &&& agent_step(run, AgentEventV::CancelRequested, at).1.action == (
            AgentActionV::Finish {
                outcome: AgentOutcomeV::Cancelled {
                    reason: "cancelled by reconciliation"@,
                    entry: run.entry,
                },
                cleanup: Cleanup::KillAndWait,
            })
        },
        run.phase == AgentPhase::WritingInitialize ==> ends_with_error(
            run,
            agent_step(run, AgentEventV::WriteFailed, at),
            "failed to write initialize request to agent stdin"@,
            Cleanup::Kill,
        ),
        run.phase == AgentPhase::WritingThread ==> ends_with_error(
            run,
            agent_step(run, AgentEventV::WriteFailed, at),
            "failed to write to agent stdin"@,
            Cleanup::Kill,
        ),
        run.phase == AgentPhase::WritingTurn ==> ends_with_error(
            run,
            agent_step(run, AgentEventV::WriteFailed, at),
            "failed to write turn start to agent stdin"@,
            Cleanup::Kill,
        ),
{
}

/// What was written is followed by reading: for the opening and the thread line by line,
/// for a turn with the wait that the limits allow, and not at all where the run's time is
/// used up.
pub proof fn law_writing_is_followed_by_reading(run: AgentRunV, at: Moment)
    ensures
        run.phase == AgentPhase::WritingInitialize ==> agent_step(run, AgentEventV::Written, at)
            == (
            AgentRunV { phase: AgentPhase::ReadingInitialize, ..run },
            quiet(AgentActionV::ReadLine),
        ),
        run.phase == AgentPhase::WritingThread ==> agent_step(run, AgentEventV::Written, at) == (
            AgentRunV { phase: AgentPhase::ReadingThread, ..run },
            quiet(AgentActionV::ReadLine),
        ),
        run.phase == AgentPhase::WritingTurn ==> {
            &&& (run.config.max_run_ms matches Some(max) ==> at.elapsed_ms < max) ==> agent_step(
                run,
                AgentEventV::Written,
                at,
            ) == (
                AgentRunV { phase: AgentPhase::ReadingTurn, ..run },
                quiet(
                    AgentActionV::AwaitEvents {
                        timeout_ms: event_timeout(
                            run.config.stall_timeout_ms,
                            at.elapsed_ms,
                            run.config.max_run_ms,
                        ),
                    },
                ),
            )
            &&& run.config.max_run_ms matches Some(max) ==> at.elapsed_ms >= max ==> ends_with_error(
                run,
                agent_step(run, AgentEventV::Written, at),
                "worker exceeded max_run_ms budget ("@ + decimal(max as nat) + "ms)"@,
                Cleanup::KillAndWait,
            )
        },
{
}

/// An error while the opening or the thread is awaited, or the end of the output, fails
/// the start, and says which.
pub proof fn law_failed_starts_say_what_failed(
    run: AgentRunV,
    line: Seq<char>,
    msg: JsonV,
    why: Seq<char>,
    at: Moment,
)
    requires
        run.phase == AgentPhase::ReadingInitialize || run.phase == AgentPhase::ReadingThread,
        holds_message(line, msg),
        says(msg, seq!["error"@, "message"@], why),
        msg.get("error"@)->0.get("code"@) is None,
    ensures
        ({
            let head = if run.phase == AgentPhase::ReadingInitialize {
                "initialize failed: "@
            } else {
                "thread start failed: "@
            };
            &&& ends_with_error(
                run,
                agent_step(run, AgentEventV::Line(line), at),
                head + ("TurnFailed("@ + debug_quoted("JSON-RPC error: "@ + why) + ")"@),
                Cleanup::KillAndWait,
            )
            &&& ends_with_error(
                run,
                agent_step(run, AgentEventV::Closed, at),
                head + "Exit"@,
                Cleanup::KillAndWait,
            )
            &&& ends_with_error(
                run,
                agent_step(run, AgentEventV::ReadFailed(why), at),
                head + ("TurnFailed("@ + debug_quoted(why) + ")"@),
                Cleanup::KillAndWait,
            )
        }),
{
    lemma_at_path(msg, "error"@, "message"@, why, why);
    lemma_at_path(msg, "error"@, "code"@, why, why);
    law_only_errors_are_errors(msg, why);
}

/// While lines are awaited a blank one, or one that holds no message, is passed over;
/// where none is awaited nothing that comes changes the run.
pub proof fn law_other_lines_are_passed_over(run: AgentRunV, line: Seq<char>, why: Seq<char>, at: Moment)
    ensures
        ({
            let opening = run.phase == AgentPhase::ReadingInitialize || run.phase
                == AgentPhase::ReadingThread;
            let reading = opening || run.phase == AgentPhase::ReadingTurn;
            let nothing = is_blank(line) || json_parsed(line) is None;
            &&& opening && nothing ==> agent_step(run, AgentEventV::Line(line), at) == (
                run,
                quiet(AgentActionV::ReadLine),
            )
            &&& run.phase == AgentPhase::ReadingTurn && nothing ==> agent_step(
                run,
                AgentEventV::Line(line),
                at,
            ) == (run, quiet(AgentActionV::MoreEvents))
            &&& !reading ==> agent_step(run, AgentEventV::Line(line), at) == (
                run,
                quiet(AgentActionV::Ignore),
            ) && agent_step(run, AgentEventV::Closed, at) == (run, quiet(AgentActionV::Ignore))
                && agent_step(run, AgentEventV::ReadFailed(why), at) == (
                run,
                quiet(AgentActionV::Ignore),
            )
            &&& run.phase != AgentPhase::ReadingTurn ==> agent_step(
                run,
                AgentEventV::TimedOut,
                at,
            ) == (run, quiet(AgentActionV::Ignore)) && agent_step(
                run,
                AgentEventV::CancelRequested,
                at,
            ) == (run, quiet(AgentActionV::Ignore))
            &&& run.phase != AgentPhase::Launching ==> agent_step(run, AgentEventV::Start, at) == (
                run,
                quiet(AgentActionV::Ignore),
            ) && agent_step(run, AgentEventV::LaunchFailed(why), at) == (
                run,
                quiet(AgentActionV::Ignore),
            )
            &&& run.phase != AgentPhase::WritingInitialize && run.phase
                != AgentPhase::WritingThread && run.phase != AgentPhase::WritingTurn ==> agent_step(
                run,
                AgentEventV::Written,
                at,
            ) == (run, quiet(AgentActionV::Ignore)) && agent_step(run, AgentEventV::WriteFailed, at)
                == (run, quiet(AgentActionV::Ignore))
        }),
{
}

/// Every message of a turn that the counters can take is made known once, as the session
/// with what the message says, whatever follows; the session of an entry is that one, but
/// for the names of a turn that begins. An error in place of an event is not made known.
pub proof fn law_news_of_a_turn(run: AgentRunV, line: Seq<char>, msg: JsonV, at: Moment)
    requires
        run.phase == AgentPhase::ReadingTurn,
        holds_message(line, msg),
    ensures
        ({
            let (after, step) = agent_step(run, AgentEventV::Line(line), at);
            let session = after_message(run.entry.session, msg, at.now);
            &&& msg.get("error"@) is None && usage_fits(run.entry.session, msg) ==> {
                &&& step.publish == seq![session]
                &&& after.phase != AgentPhase::WritingTurn ==> after.entry == (RunningV {
                    session,
                    ..run.entry
                })
                &&& after.phase == AgentPhase::WritingTurn ==> after.entry == (RunningV {
                    session: SessionV {
                        session_id: after.entry.session.session_id,
                        turn_id: after.entry.session.turn_id,
                        turn_count: after.entry.session.turn_count,
                        ..session
                    },
                    ..run.entry
                })
            }
            &&& msg.get("error"@) is None && !usage_fits(run.entry.session, msg) ==> after == run
                && step.action is Overflow && step.publish.len() == 0
            &&& msg.get("error"@) is Some ==> step.publish.len() == 0 && after.entry == run.entry
        }),
{
    law_only_errors_are_errors(msg, Seq::empty());
}

/// A turn that begins is known by the thread and by its number until the agent names it.
pub proof fn law_turns_are_known_by_their_number(run: AgentRunV, at: Moment, publish: Seq<SessionV>)
    requires
        !at.cancelled,
    ensures
        ({
            let session = turn_started(run, at, publish).0.entry.session;
            let name = "pending-"@ + decimal(run.turn_number as nat);
            &&& session.turn_id == Some(name)
            &&& session.session_id == Some(run.thread_id + seq!['-'] + name)
            &&& session.turn_count == run.turn_number
            &&& session.thread_id == run.entry.session.thread_id
            &&& session.codex_input_tokens == run.entry.session.codex_input_tokens
            &&& session.codex_output_tokens == run.entry.session.codex_output_tokens
            &&& session.codex_total_tokens == run.entry.session.codex_total_tokens
            &&& turn_started(run, at, publish).1.publish == publish
        }),
{
}

} // verus!
