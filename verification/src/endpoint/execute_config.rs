//! Running a check at once, for whoever asks.

use super::{BAD_REQUEST, INTERNAL_SERVER_ERROR};
use crate::check_executor::ScheduledCheck;
use crate::config_store::{tick_index, Tick};
use crate::time::Timestamp;
use crate::types::check_config::CheckConfig;
use crate::types::result::CheckResult;
use vstd::prelude::*;

verus! {

/// Why a check was not run.
#[derive(Debug)]
pub enum ExecuteError {
    /// The request holds no configuration.
    SerializationError { details: String },
    /// The checker was shut down meanwhile.
    CheckerShutdown,
}

impl ExecuteError {
    /// The status of the answer.
    pub fn status(&self) -> (r: u16)
        ensures
            r == (match self {
                ExecuteError::SerializationError { .. } => BAD_REQUEST,
                ExecuteError::CheckerShutdown => INTERNAL_SERVER_ERROR,
            }),
    {
        match self {
            ExecuteError::SerializationError { .. } => BAD_REQUEST,
            ExecuteError::CheckerShutdown => INTERNAL_SERVER_ERROR,
        }
    }

    /// The name of the error.
    pub fn as_str(&self) -> (r: &'static str)
        ensures
            r@ == (match self {
                ExecuteError::SerializationError { .. } => "serialization_error"@,
                ExecuteError::CheckerShutdown => "checker_shutdown"@,
            }),
    {
        match self {
            ExecuteError::SerializationError { .. } => "serialization_error",
            ExecuteError::CheckerShutdown => "checker_shutdown",
        }
    }
}

/// The answer to a check that was run.
#[derive(Debug)]
pub struct ResultWrapper {
    pub check_result: Option<CheckResult>,
}

/// The check that a configuration asks for, to run now.
pub fn check_now(config: CheckConfig, now: Timestamp) -> (r: ScheduledCheck)
    ensures
        r.of() == config,
        r.at().time == now,
        r.at().index == tick_index(now.secs),
        r.retries() == 0,
{
    ScheduledCheck::new(Tick::from_time(now), std::sync::Arc::new(config))
}

/// The answer, by what the checker handed back before it was gone.
pub fn reply(handed_back: Option<Option<CheckResult>>) -> (r: Result<ResultWrapper, ExecuteError>)
    ensures
        match handed_back {
            Some(result) => r matches Ok(answer) && answer.check_result == result,
            None => r matches Err(ExecuteError::CheckerShutdown),
        },
{
    match handed_back {
        Some(check_result) => Ok(ResultWrapper { check_result }),
        None => Err(ExecuteError::CheckerShutdown),
    }
}

} // verus!
