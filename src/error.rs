use vstd::prelude::*;

verus! {

/// Why running the command over the repositories did not succeed.
#[derive(Debug)]
pub enum ForeachError {
    /// The command could not be started in the repository at `path`.
    CommandExecutionFailed { path: String },
    /// The command ran in the repository at `path` and reported failure.
    CommandExecutionFailedWithNonZeroExitCode { path: String, exit_code: i32 },
    /// The command line could not be parsed, or asked for help or the
    /// version: the argument parser's message and the exit code it assigns.
    InvalidUsage { message: String, exit_code: i32 },
}

/// The exit code of a failure: the command's own code, 1 for a command that
/// could not be started, and for a usage error the code the argument parser
/// assigned.
pub open spec fn failure_code(e: ForeachError) -> i32 {
    match e {
        ForeachError::CommandExecutionFailed { .. } => 1,
        ForeachError::CommandExecutionFailedWithNonZeroExitCode { exit_code, .. } => exit_code,
        ForeachError::InvalidUsage { exit_code, .. } => exit_code,
    }
}

impl ForeachError {
    /// The exit code for the error.
    pub fn get_exit_code(&self) -> (r: i32)
        ensures
            r == failure_code(*self),
    {
        match self {
            ForeachError::CommandExecutionFailed { .. } => 1,
            ForeachError::CommandExecutionFailedWithNonZeroExitCode { exit_code, .. } => *exit_code,
            ForeachError::InvalidUsage { exit_code, .. } => *exit_code,
        }
    }
}

} // verus!
