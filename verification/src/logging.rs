//! How the program logs.
use vstd::prelude::*;

verus! {

/// The form of log lines.
#[derive(Debug, Clone, Copy, PartialEq, Eq, Structural)]
pub enum LogFormat {
    Text,
    Json,
}

/// How much is logged.
#[derive(Debug, Clone, Copy, PartialEq, Eq, Structural)]
pub enum LogVerbosity {
    Normal,
    Verbose,
}

/// How the program logs.
#[derive(Debug, Clone, Copy, PartialEq, Eq, Structural)]
pub struct LoggingConfig {
    pub format: LogFormat,
    pub verbosity: LogVerbosity,
}

/// What a log line holds beside its message.
#[derive(Debug, Clone, Copy, PartialEq, Eq, Structural)]
pub struct LogLayout {
    pub json: bool,
    pub target: bool,
    pub thread_ids: bool,
    pub span_close: bool,
}

/// Where the filter directives come from.
#[derive(Debug)]
pub struct LogFilter {
    /// Whether the environment is asked first.
    pub from_environment: bool,
    /// The directives to use, or to use where the environment gives none.
    pub directives: &'static str,
}

impl LoggingConfig {
    /// The filter: verbose logging sets its own, normal logging leaves the choice
    /// to the environment.
    pub fn filter(&self) -> (r: LogFilter)
        ensures
            r.from_environment == (self.verbosity == LogVerbosity::Normal),
            r.directives@ == (if self.verbosity == LogVerbosity::Verbose {
                "symphony=trace,info"@
            } else {
                "symphony=info,warn"@
            }),
    {
        match self.verbosity {
            LogVerbosity::Verbose => LogFilter {
                from_environment: false,
                directives: "symphony=trace,info",
            },
            LogVerbosity::Normal => LogFilter {
                from_environment: true,
                directives: "symphony=info,warn",
            },
        }
    }

    /// The layout: JSON lines carry everything, text lines only the message.
    pub fn layout(&self) -> (r: LogLayout)
        ensures
            r.json == (self.format == LogFormat::Json),
            r.target == r.json,
            r.thread_ids == r.json,
            r.span_close == r.json,
    {
        match self.format {
            LogFormat::Json => LogLayout {
                json: true,
                target: true,
                thread_ids: true,
                span_close: true,
            },
            LogFormat::Text => LogLayout {
                json: false,
                target: false,
                thread_ids: false,
                span_close: false,
            },
        }
    }
}

} // verus!
