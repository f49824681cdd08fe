//! Counts of commands run and of the ways they failed.
use vstd::prelude::*;

use crate::process::ChildProcessExecutionError;
use crate::text::{decimal, decimal_string};

verus! {

/// A counter after one more event: counters wrap around at their maximum,
/// as an atomic `fetch_add` does.
pub open spec fn counted(c: u64) -> u64 {
    vstd::wrapping::u64_specs::wrapping_add(c, 1)
}

/// Counts of commands run and of failures.
#[derive(Debug)]
pub struct CommandMetrics {
    commands_run: u64,
    error_occurred: bool,
    spawn_errors: u64,
    timeouts: u64,
    io_errors: u64,
    exit_status_errors: u64,
}

impl Default for CommandMetrics {
    /// Nothing counted yet, as `new` gives.
    fn default() -> (r: Self)
        ensures
            r.wf(),
            r.commands_run_count() == 0,
            !r.error_flag(),
            r.spawn_error_count() == 0,
            r.timeout_count() == 0,
            r.io_error_count() == 0,
            r.exit_status_error_count() == 0,
    {
        CommandMetrics::new()
    }
}

/// What happened to a command that was started.
pub enum CommandCompletion {
    /// The command could not be started.
    SpawnError,
    /// Waiting for the command failed.
    ExecutionError(ChildProcessExecutionError),
    /// The command exited, successfully or not.
    Exited { success: bool },
}

impl CommandMetrics {
    pub closed spec fn commands_run_count(&self) -> u64 {
        self.commands_run
    }

    pub closed spec fn error_flag(&self) -> bool {
        self.error_occurred
    }

    pub closed spec fn spawn_error_count(&self) -> u64 {
        self.spawn_errors
    }

    pub closed spec fn timeout_count(&self) -> u64 {
        self.timeouts
    }

    pub closed spec fn io_error_count(&self) -> u64 {
        self.io_errors
    }

    pub closed spec fn exit_status_error_count(&self) -> u64 {
        self.exit_status_errors
    }

    /// While no error has occurred, every failure count is zero.
    pub open spec fn wf(&self) -> bool {
        !self.error_flag() ==> {
            &&& self.spawn_error_count() == 0
            &&& self.timeout_count() == 0
            &&& self.io_error_count() == 0
            &&& self.exit_status_error_count() == 0
        }
    }

    /// The failure counts are as in `other`.
    pub open spec fn same_failures(&self, other: &Self) -> bool {
        &&& self.error_flag() == other.error_flag()
        &&& self.spawn_error_count() == other.spawn_error_count()
        &&& self.timeout_count() == other.timeout_count()
        &&& self.io_error_count() == other.io_error_count()
        &&& self.exit_status_error_count() == other.exit_status_error_count()
    }

    /// The number of failed commands of all kinds.
    pub open spec fn failures(&self) -> int {
        self.spawn_error_count() + self.timeout_count() + self.io_error_count()
            + self.exit_status_error_count()
    }

    /// `after` is `before` with one more spawn error counted, and nothing else
    /// counted.
    pub open spec fn spawn_error_counted(before: Self, after: Self) -> bool {
        &&& after.spawn_error_count() == counted(before.spawn_error_count())
        &&& after.timeout_count() == before.timeout_count()
        &&& after.io_error_count() == before.io_error_count()
        &&& after.exit_status_error_count() == before.exit_status_error_count()
    }

    /// `after` is `before` with one more timeout counted, and nothing else
    /// counted.
    pub open spec fn timeout_counted(before: Self, after: Self) -> bool {
        &&& after.spawn_error_count() == before.spawn_error_count()
        &&& after.timeout_count() == counted(before.timeout_count())
        &&& after.io_error_count() == before.io_error_count()
        &&& after.exit_status_error_count() == before.exit_status_error_count()
    }

    /// `after` is `before` with one more I/O error counted, and nothing else
    /// counted.
    pub open spec fn io_error_counted(before: Self, after: Self) -> bool {
        &&& after.spawn_error_count() == before.spawn_error_count()
        &&& after.timeout_count() == before.timeout_count()
        &&& after.io_error_count() == counted(before.io_error_count())
        &&& after.exit_status_error_count() == before.exit_status_error_count()
    }

    /// `after` is `before` with one more unsuccessful exit counted, and
    /// nothing else counted.
    pub open spec fn exit_status_error_counted(before: Self, after: Self) -> bool {
        &&& after.spawn_error_count() == before.spawn_error_count()
        &&& after.timeout_count() == before.timeout_count()
        &&& after.io_error_count() == before.io_error_count()
        &&& after.exit_status_error_count() == counted(before.exit_status_error_count())
    }

    /// What one update does to the failure counts: nothing, or one failure of
    /// one kind is counted and the error flag is set.
    pub open spec fn step(before: Self, after: Self) -> bool {
        ||| after.same_failures(&before)
        ||| after.error_flag() && {
            ||| Self::spawn_error_counted(before, after)
            ||| Self::timeout_counted(before, after)
            ||| Self::io_error_counted(before, after)
            ||| Self::exit_status_error_counted(before, after)
        }
    }

    /// Nothing counted yet.
    pub fn new() -> (r: Self)
        ensures
            r.wf(),
            r.commands_run_count() == 0,
            !r.error_flag(),
            r.spawn_error_count() == 0,
            r.timeout_count() == 0,
            r.io_error_count() == 0,
            r.exit_status_error_count() == 0,
    {
        CommandMetrics {
            commands_run: 0,
            error_occurred: false,
            spawn_errors: 0,
            timeouts: 0,
            io_errors: 0,
            exit_status_errors: 0,
        }
    }

    /// Counts a command that is started.
    pub fn increment_commands_run(&mut self)
        requires
            old(self).wf(),
        ensures
            final(self).wf(),
            final(self).commands_run_count() == counted(old(self).commands_run_count()),
            final(self).same_failures(old(self)),
            Self::step(*old(self), *final(self)),
    {
        self.commands_run = self.commands_run.wrapping_add(1);
    }

    /// The number of commands started.
    pub fn commands_run(&self) -> (r: u64)
        ensures
            r == self.commands_run_count(),
    {
        self.commands_run
    }

    /// Whether some command has failed.
    pub fn error_occurred(&self) -> (r: bool)
        ensures
            r == self.error_flag(),
    {
        self.error_occurred
    }

    fn set_error_occurred(&mut self)
        ensures
            final(self).error_flag(),
            final(self).commands_run_count() == old(self).commands_run_count(),
            final(self).spawn_error_count() == old(self).spawn_error_count(),
            final(self).timeout_count() == old(self).timeout_count(),
            final(self).io_error_count() == old(self).io_error_count(),
            final(self).exit_status_error_count() == old(self).exit_status_error_count(),
    {
        self.error_occurred = true;
    }

    /// The number of failed commands of all kinds.
    pub fn total_failures(&self) -> (r: u64)
        requires
            self.spawn_error_count() + self.timeout_count() + self.io_error_count()
                + self.exit_status_error_count() <= u64::MAX,
        ensures
            r == self.spawn_error_count() + self.timeout_count() + self.io_error_count()
                + self.exit_status_error_count(),
    {
        self.spawn_errors + self.timeouts + self.io_errors + self.exit_status_errors
    }

    /// Counts a command that could not be started.
    pub fn increment_spawn_errors(&mut self)
        requires
            old(self).wf(),
        ensures
            final(self).wf(),
            final(self).error_flag(),
            final(self).spawn_error_count() == counted(old(self).spawn_error_count()),
            final(self).commands_run_count() == old(self).commands_run_count(),
            final(self).timeout_count() == old(self).timeout_count(),
            final(self).io_error_count() == old(self).io_error_count(),
            final(self).exit_status_error_count() == old(self).exit_status_error_count(),
            Self::step(*old(self), *final(self)),
    {
        self.set_error_occurred();
        self.spawn_errors = self.spawn_errors.wrapping_add(1);
    }

    /// The number of commands that could not be started.
    pub fn spawn_errors(&self) -> (r: u64)
        ensures
            r == self.spawn_error_count(),
    {
        self.spawn_errors
    }

    /// Counts a command whose execution failed: as a timeout or as an
    /// I/O error.
    pub fn handle_child_process_execution_error(&mut self, error: ChildProcessExecutionError)
        requires
            old(self).wf(),
        ensures
            final(self).wf(),
            final(self).error_flag(),
            final(self).commands_run_count() == old(self).commands_run_count(),
            final(self).spawn_error_count() == old(self).spawn_error_count(),
            final(self).exit_status_error_count() == old(self).exit_status_error_count(),
            error is Timeout ==> final(self).timeout_count() == counted(old(self).timeout_count())
                && final(self).io_error_count() == old(self).io_error_count(),
            error is IOError ==> final(self).io_error_count() == counted(old(self).io_error_count())
                && final(self).timeout_count() == old(self).timeout_count(),
            Self::step(*old(self), *final(self)),
    {
        match error {
            ChildProcessExecutionError::IOError(_) => self.increment_io_errors(),
            ChildProcessExecutionError::Timeout(_) => self.increment_timeouts(),
        }
    }

    fn increment_timeouts(&mut self)
        requires
            old(self).wf(),
        ensures
            final(self).wf(),
            final(self).error_flag(),
            final(self).timeout_count() == counted(old(self).timeout_count()),
            final(self).commands_run_count() == old(self).commands_run_count(),
            final(self).spawn_error_count() == old(self).spawn_error_count(),
            final(self).io_error_count() == old(self).io_error_count(),
            final(self).exit_status_error_count() == old(self).exit_status_error_count(),
            Self::step(*old(self), *final(self)),
    {
        self.set_error_occurred();
        self.timeouts = self.timeouts.wrapping_add(1);
    }

    /// The number of commands that timed out.
    pub fn timeouts(&self) -> (r: u64)
        ensures
            r == self.timeout_count(),
    {
        self.timeouts
    }

    fn increment_io_errors(&mut self)
        requires
            old(self).wf(),
        ensures
            final(self).wf(),
            final(self).error_flag(),
            final(self).io_error_count() == counted(old(self).io_error_count()),
            final(self).commands_run_count() == old(self).commands_run_count(),
            final(self).spawn_error_count() == old(self).spawn_error_count(),
            final(self).timeout_count() == old(self).timeout_count(),
            final(self).exit_status_error_count() == old(self).exit_status_error_count(),
            Self::step(*old(self), *final(self)),
    {
        self.set_error_occurred();
        self.io_errors = self.io_errors.wrapping_add(1);
    }

    /// The number of commands whose execution failed with an I/O error.
    pub fn io_errors(&self) -> (r: u64)
        ensures
            r == self.io_error_count(),
    {
        self.io_errors
    }

    /// Counts a command that exited unsuccessfully.
    pub fn increment_exit_status_errors(&mut self)
        requires
            old(self).wf(),
        ensures
            final(self).wf(),
            final(self).error_flag(),
            final(self).exit_status_error_count() == counted(old(self).exit_status_error_count()),
            final(self).commands_run_count() == old(self).commands_run_count(),
            final(self).spawn_error_count() == old(self).spawn_error_count(),
            final(self).timeout_count() == old(self).timeout_count(),
            final(self).io_error_count() == old(self).io_error_count(),
            Self::step(*old(self), *final(self)),
    {
        self.set_error_occurred();
        self.exit_status_errors = self.exit_status_errors.wrapping_add(1);
    }

    /// The number of commands that exited unsuccessfully.
    pub fn exit_status_errors(&self) -> (r: u64)
        ensures
            r == self.exit_status_error_count(),
    {
        self.exit_status_errors
    }

    /// Counts how a started command ended: a spawn error, an execution
    /// error, an unsuccessful exit; a successful exit counts no failure.
    pub fn record_completion(&mut self, completion: CommandCompletion)
        requires
            old(self).wf(),
        ensures
            final(self).wf(),
            Self::step(*old(self), *final(self)),
            final(self).commands_run_count() == old(self).commands_run_count(),
            (completion matches CommandCompletion::Exited { success } && success) ==> final(self).same_failures(old(self)),
            !(completion matches CommandCompletion::Exited { success } && success) ==> final(self).error_flag(),
            completion is SpawnError ==> Self::spawn_error_counted(*old(self), *final(self)),
            (completion matches CommandCompletion::ExecutionError(e) && e is Timeout)
                ==> Self::timeout_counted(*old(self), *final(self)),
            (completion matches CommandCompletion::ExecutionError(e) && e is IOError)
                ==> Self::io_error_counted(*old(self), *final(self)),
            (completion matches CommandCompletion::Exited { success } && !success)
                ==> Self::exit_status_error_counted(*old(self), *final(self)),
    {
        match completion {
            CommandCompletion::SpawnError => self.increment_spawn_errors(),
            CommandCompletion::ExecutionError(e) => self.handle_child_process_execution_error(e),
            CommandCompletion::Exited { success } => {
                if !success {
                    self.increment_exit_status_errors();
                }
            },
        }
    }

    /// `commands_run=N total_failures=N spawn_errors=N timeouts=N io_errors=N exit_status_errors=N`.
    pub fn to_display_string(&self) -> (r: String)
        requires
            self.spawn_error_count() + self.timeout_count() + self.io_error_count()
                + self.exit_status_error_count() <= u64::MAX,
        ensures
            r@ == "commands_run="@ + decimal(self.commands_run_count() as nat) + " total_failures="@
                + decimal((self.spawn_error_count() + self.timeout_count() + self.io_error_count()
                + self.exit_status_error_count()) as nat) + " spawn_errors="@ + decimal(
                self.spawn_error_count() as nat,
            ) + " timeouts="@ + decimal(self.timeout_count() as nat) + " io_errors="@ + decimal(
                self.io_error_count() as nat,
            ) + " exit_status_errors="@ + decimal(self.exit_status_error_count() as nat),
    {
        let mut r = "commands_run=".to_owned();
        r.append(decimal_string(self.commands_run()).as_str());
        r.append(" total_failures=");
        r.append(decimal_string(self.total_failures()).as_str());
        r.append(" spawn_errors=");
        r.append(decimal_string(self.spawn_errors()).as_str());
        r.append(" timeouts=");
        r.append(decimal_string(self.timeouts()).as_str());
        r.append(" io_errors=");
        r.append(decimal_string(self.io_errors()).as_str());
        r.append(" exit_status_errors=");
        r.append(decimal_string(self.exit_status_errors()).as_str());
        r
    }
}

/// The error flag tells whether some command failed: from new metrics,
/// through any run of updates that wrap no counter, the flag is set exactly
/// when the number of failures is above zero. Counting a command that is
/// started never sets it, and once set it stays set.
pub proof fn error_flag_tracks_failures(run: Seq<CommandMetrics>)
    requires
        run.len() > 0,
        !run[0].error_flag(),
        run[0].failures() == 0,
        forall|i: int| 0 <= i < run.len() - 1 ==> CommandMetrics::step(#[trigger] run[i], run[i + 1]),
        forall|i: int|
            0 <= i < run.len() - 1 ==> {
                &&& (#[trigger] run[i]).spawn_error_count() < u64::MAX
                &&& run[i].timeout_count() < u64::MAX
                &&& run[i].io_error_count() < u64::MAX
                &&& run[i].exit_status_error_count() < u64::MAX
            },
    ensures
        forall|i: int| 0 <= i < run.len() ==> (#[trigger] run[i]).error_flag() == (run[i].failures() > 0),
    decreases run.len(),
{
    if run.len() > 1 {
        let prefix = run.drop_last();
        assert forall|i: int| 0 <= i < prefix.len() - 1 implies CommandMetrics::step(
            #[trigger] prefix[i],
            prefix[i + 1],
        ) by {
            assert(prefix[i] == run[i]);
            assert(prefix[i + 1] == run[i + 1]);
        }
        error_flag_tracks_failures(prefix);
        let n = run.len() - 1;
        let before = run[n - 1];
        let after = run[n];
        assert(prefix[n - 1] == before);
        assert(CommandMetrics::step(run[n - 1], run[(n - 1) + 1]));
        assert(before.error_flag() == (before.failures() > 0));
        assert(CommandMetrics::step(before, after));
        assert(before.spawn_error_count() < u64::MAX);
        assert forall|i: int| 0 <= i < run.len() implies (#[trigger] run[i]).error_flag() == (
        run[i].failures() > 0) by {
            if i < n {
                assert(prefix[i] == run[i]);
            }
        }
    }
}

} // verus!
