//! Decisions about running commands.
pub mod metrics;
pub mod path_cache;

use vstd::prelude::*;

verus! {

/// What to do with a command that is ready to run.
#[derive(Debug, Clone, Copy, PartialEq, Eq)]
pub enum SpawnDecision {
    /// Dry run: only log the command.
    DryRun,
    /// Exit on error, and a command has failed: do not run it.
    SkipAfterError,
    /// Run the command.
    Spawn,
}

/// Dry run comes first; then, in exit-on-error mode, no command is started
/// once one has failed.
pub fn spawn_decision(dry_run: bool, exit_on_error: bool, error_occurred: bool) -> (r: SpawnDecision)
    ensures
        dry_run ==> r == SpawnDecision::DryRun,
        !dry_run && exit_on_error && error_occurred ==> r == SpawnDecision::SkipAfterError,
        !dry_run && !(exit_on_error && error_occurred) ==> r == SpawnDecision::Spawn,
{
    if dry_run {
        SpawnDecision::DryRun
    } else if exit_on_error && error_occurred {
        SpawnDecision::SkipAfterError
    } else {
        SpawnDecision::Spawn
    }
}

} // verus!
