//! What is logged, and how.

use crate::app::config::Config;
use vstd::prelude::*;

verus! {

/// The format of the log.
#[derive(Clone, Copy, Debug, PartialEq, Eq, Hash, Structural)]
pub enum LogFormat {
    /// Whichever suits the terminal.
    Auto,
    /// With colours.
    Pretty,
    /// Plain text.
    Simplified,
    /// Lines of JSON.
    Json,
}

/// The level of the log.
#[derive(Clone, Copy, Debug, PartialEq, Eq, Hash, Structural)]
pub enum Level {
    Error,
    Warn,
    Info,
    Debug,
    Trace,
    Off,
}

impl Level {
    /// How much is let through: nothing at zero, and one more level at each step.
    pub open spec fn verbosity_rank(self) -> nat {
        match self {
            Level::Off => 0,
            Level::Error => 1,
            Level::Warn => 2,
            Level::Info => 3,
            Level::Debug => 4,
            Level::Trace => 5,
        }
    }

    /// How much is let through: nothing at zero, and one more level at each step.
    pub fn verbosity(&self) -> (r: u8)
        ensures
            r == self.verbosity_rank(),
    {
        match self {
            Level::Off => 0,
            Level::Error => 1,
            Level::Warn => 2,
            Level::Info => 3,
            Level::Debug => 4,
            Level::Trace => 5,
        }
    }
}

/// How logging is set up.
#[derive(Debug)]
pub struct LoggingConfig {
    /// The key for reporting errors. Without one nothing is reported.
    pub sentry_dsn: Option<String>,
    /// The environment that errors are reported to.
    pub sentry_env: Option<String>,
    pub log_level: Level,
    pub log_format: LogFormat,
}

/// Texts that may be missing are the same.
pub open spec fn same_text(a: Option<String>, b: Option<String>) -> bool {
    match (a, b) {
        (Some(x), Some(y)) => x@ == y@,
        (None, None) => true,
        _ => false,
    }
}

pub(crate) fn copy_text(text: &Option<String>) -> (r: Option<String>)
    ensures
        same_text(r, *text),
        r == *text,
{
    match text {
        Some(s) => Some(s.clone()),
        None => None,
    }
}

impl LoggingConfig {
    /// The part of the configuration that speaks of logging.
    pub fn from_config(config: &Config) -> (r: LoggingConfig)
        ensures
            same_text(r.sentry_dsn, config.sentry_dsn),
            same_text(r.sentry_env, config.sentry_env),
            r.log_level == config.log_level,
            r.log_format == config.log_format,
    {
        LoggingConfig {
            sentry_dsn: copy_text(&config.sentry_dsn),
            sentry_env: copy_text(&config.sentry_env),
            log_level: config.log_level,
            log_format: config.log_format,
        }
    }
}

/// How a line of the log is written.
#[derive(Clone, Copy, Debug, PartialEq, Eq, Structural)]
pub enum LogStyle {
    /// Short, with colours, without the time.
    Compact,
    /// In full, without colours.
    Plain,
    /// As JSON.
    Json,
}

/// How a line of the log is written. The format is left to whether somebody is
/// watching only where it is not fixed.
pub fn log_style(format: LogFormat, user_attended: bool) -> (r: LogStyle)
    ensures
        r == (match format {
            LogFormat::Auto => if user_attended {
                LogStyle::Compact
            } else {
                LogStyle::Plain
            },
            LogFormat::Pretty => LogStyle::Compact,
            LogFormat::Simplified => LogStyle::Plain,
            LogFormat::Json => LogStyle::Json,
        }),
{
    match format {
        LogFormat::Auto => if user_attended {
            LogStyle::Compact
        } else {
            LogStyle::Plain
        },
        LogFormat::Pretty => LogStyle::Compact,
        LogFormat::Simplified => LogStyle::Plain,
        LogFormat::Json => LogStyle::Json,
    }
}

/// What is reported of a line of the log.
#[derive(Clone, Copy, Debug, PartialEq, Eq, Structural)]
pub enum Reported {
    /// An event, and a line of the log.
    EventAndLog,
    /// A line of the log.
    Log,
    /// Nothing.
    Ignored,
}

/// What is reported of a line of a level: everything from `Info` on, and errors as
/// events too.
pub fn reported(level: Level) -> (r: Reported)
    ensures
        r == (if level.verbosity_rank() == 1 {
            Reported::EventAndLog
        } else if 2 <= level.verbosity_rank() <= 3 {
            Reported::Log
        } else {
            Reported::Ignored
        }),
{
    match level {
        Level::Error => Reported::EventAndLog,
        Level::Warn | Level::Info => Reported::Log,
        Level::Debug | Level::Trace | Level::Off => Reported::Ignored,
    }
}

} // verus!
