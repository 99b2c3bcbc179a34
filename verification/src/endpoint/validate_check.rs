//! Whether a check could be run, for whoever asks.

use super::BAD_REQUEST;
use crate::assertions::compiled::{compilation, compile, CompileHalt, CompileHaltView, Builds};
use crate::assertions::Assertion;
use vstd::prelude::*;

verus! {

/// Why a check cannot be run.
#[derive(Debug)]
#[allow(inconsistent_fields)]
pub enum ExecuteError {
    /// The request holds no configuration.
    SerializationError { details: String },
    /// The assertion does not compile.
    CompilationError { details: String },
}

impl ExecuteError {
    /// The status of the answer.
    pub fn status(&self) -> (r: u16)
        ensures
            r == BAD_REQUEST,
    {
        match self {
            ExecuteError::SerializationError { .. } => BAD_REQUEST,
            ExecuteError::CompilationError { .. } => BAD_REQUEST,
        }
    }

    /// The name of the error.
    pub fn as_str(&self) -> (r: &'static str)
        ensures
            r@ == (match self {
                ExecuteError::SerializationError { .. } => "serialization_error"@,
                ExecuteError::CompilationError { .. } => "compilation_error"@,
            }),
    {
        match self {
            ExecuteError::SerializationError { .. } => "serialization_error",
            ExecuteError::CompilationError { .. } => "compilation_error",
        }
    }
}

/// What stands in the way of a check.
#[derive(Debug)]
pub enum Obstacle {
    /// The check cannot be run.
    Refused(ExecuteError),
    /// This glob has not been built yet.
    NeedsBuild { pattern: String },
    /// This query calls `glob`, and has not been read yet.
    NeedsPath { path: String },
}

/// Whether a check with such an assertion could be run.
pub fn validate_check(
    assertion: &Option<Assertion>,
    max_assertion_ops: u32,
    builds: &Builds,
) -> (r: Result<(), Obstacle>)
    ensures
        match assertion {
            None => r is Ok,
            Some(a) => match compilation(a.root, max_assertion_ops as int, builds@) {
                Ok(_) => r is Ok,
                Err(CompileHaltView::Failed(e)) => r matches Err(
                    Obstacle::Refused(ExecuteError::CompilationError { details }),
                ) && details@ == e.sentence(),
                Err(CompileHaltView::NeedsBuild { pattern }) => r matches Err(
                    Obstacle::NeedsBuild { pattern: p },
                ) && p@ == pattern,
                Err(CompileHaltView::NeedsPath { path }) => r matches Err(
                    Obstacle::NeedsPath { path: p },
                ) && p@ == path,
            },
        },
{
    match assertion {
        None => Ok(()),
        Some(a) => match compile(a, max_assertion_ops, builds) {
            Ok(_) => Ok(()),
            Err(CompileHalt::Failed(e)) => Err(
                Obstacle::Refused(ExecuteError::CompilationError { details: e.message() }),
            ),
            Err(CompileHalt::NeedsBuild { pattern }) => Err(Obstacle::NeedsBuild { pattern }),
            Err(CompileHalt::NeedsPath { path }) => Err(Obstacle::NeedsPath { path }),
        },
    }
}

} // verus!
