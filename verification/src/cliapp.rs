//! The command line.

use crate::logging::{Level, LogFormat};
use vstd::prelude::*;

verus! {

/// What the program says of itself.
pub const ABOUT: &'static str = "The Sentry uptime checker service.";

/// The command line of the program.
#[derive(Debug)]
pub struct CliApp {
    /// The path of the configuration file.
    pub config: Option<String>,
    /// The level of the log.
    pub log_level: Option<Level>,
    /// The format of the log.
    pub log_format: Option<LogFormat>,
    pub command: Commands,
}

/// What the program is asked to do.
#[derive(Clone, Copy, Debug, PartialEq, Eq, Structural)]
pub enum Commands {
    /// Run the service.
    Run,
}

} // verus!
