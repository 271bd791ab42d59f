//! One-shot build command execution, split into its decisions.
//!
//! The runner owns the fixed command vector.  [`BuildRunner::command_parts`]
//! validates it and hands the caller the program and its arguments; the
//! caller spawns the process, captures its output in full, and materialises
//! the outcome with [`BuildResult::from_output`].  A nonzero exit code is a
//! normal result, never an error of the call.

use vstd::prelude::*;
use crate::bridge::SupervisorError;

verus! {

/// Owns the external build command vector.
pub struct BuildRunner {
    command: Vec<String>,
}

/// The fully materialised outcome of one build run.
#[derive(Debug)]
pub struct BuildResult {
    pub success: bool,
    pub exit_code: i32,
    pub stdout: String,
    pub stderr: String,
}

impl BuildRunner {
    /// The configured command vector.
    pub closed spec fn spec_command(self) -> Seq<String> {
        self.command@
    }

    pub fn new(command: Vec<String>) -> (r: BuildRunner)
        ensures
            r.spec_command() == command@,
    {
        BuildRunner { command }
    }

    /// The program and its arguments, or a configuration error when the
    /// command vector is empty.
    pub fn command_parts(&self) -> (r: Result<(String, Vec<String>), SupervisorError>)
        ensures
            self.spec_command().len() == 0 ==> (r matches Err(SupervisorError::Configuration(m))
                && m@ == "build command requires at least one argument"@),
            self.spec_command().len() > 0 ==> (r matches Ok(parts) && parts.0@
                == self.spec_command()[0]@ && parts.1@.len() == self.spec_command().len() - 1
                && forall|i: int|
                0 <= i < parts.1@.len() ==> (#[trigger] parts.1@[i]@)
                    == self.spec_command()[i + 1]@),
    {
        if self.command.len() == 0 {
            return Err(
                SupervisorError::Configuration(
                    String::from_str("build command requires at least one argument"),
                ),
            );
        }
        let program = self.command[0].clone();
        let mut rest: Vec<String> = Vec::new();
        let mut i: usize = 1;
        while i < self.command.len()
            invariant
                1 <= i <= self.command@.len(),
                rest@.len() == i - 1,
                forall|k: int| 0 <= k < rest@.len() ==> (#[trigger] rest@[k]@)
                    == self.command@[k + 1]@,
            decreases self.command@.len() - i,
        {
            rest.push(self.command[i].clone());
            i = i + 1;
        }
        Ok((program, rest))
    }
}

impl BuildResult {
    /// Materialise a finished run: success is exactly exit code zero, and a
    /// run killed without an exit code reports code zero with `success`
    /// false.
    pub fn from_output(exit_code: Option<i32>, stdout: String, stderr: String) -> (r: BuildResult)
        ensures
            r.success == (exit_code == Some(0i32)),
            r.exit_code == match exit_code {
                Some(c) => c,
                None => 0,
            },
            r.stdout@ == stdout@,
            r.stderr@ == stderr@,
    {
        let (success, code): (bool, i32) = match exit_code {
            Some(c) => (c == 0, c),
            None => (false, 0),
        };
        BuildResult { success, exit_code: code, stdout, stderr }
    }
}

} // verus!
