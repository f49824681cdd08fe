//! What the library knows of child processes: how their output streams are
//! set up, and how running them can fail.
use vstd::prelude::*;

use crate::command_line_args::DiscardOutput;

verus! {

/// Why a child process did not complete with an exit status.
#[derive(Debug, PartialEq, Eq)]
pub enum ChildProcessExecutionError {
    /// The command ran longer than the timeout; the text of the error.
    Timeout(String),
    /// Reading from or waiting for the child failed; the text of the error.
    IOError(String),
}

/// Which output streams of the child processes are discarded.
#[derive(Debug, Clone, Copy, PartialEq, Eq)]
pub struct ChildProcessOutputSettings {
    pub discard_stdout: bool,
    pub discard_stderr: bool,
}

impl ChildProcessOutputSettings {
    /// Stdout is discarded for `All` and `Stdout`, stderr for `All` and
    /// `Stderr`.
    pub fn new(discard_output: Option<DiscardOutput>) -> (r: Self)
        ensures
            r.discard_stdout == (discard_output == Some(DiscardOutput::All) || discard_output == Some(DiscardOutput::Stdout)),
            r.discard_stderr == (discard_output == Some(DiscardOutput::All) || discard_output == Some(DiscardOutput::Stderr)),
    {
        let discard_stdout = match discard_output {
            Some(DiscardOutput::All) | Some(DiscardOutput::Stdout) => true,
            _ => false,
        };
        let discard_stderr = match discard_output {
            Some(DiscardOutput::All) | Some(DiscardOutput::Stderr) => true,
            _ => false,
        };
        ChildProcessOutputSettings { discard_stdout, discard_stderr }
    }

    /// Both streams are discarded: only the exit status is waited for.
    pub fn discard_all_output(&self) -> (r: bool)
        ensures
            r == (self.discard_stdout && self.discard_stderr),
    {
        self.discard_stdout && self.discard_stderr
    }
}

} // verus!
