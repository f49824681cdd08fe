//! The settings that drive parsing and running commands.
use vstd::prelude::*;

use crate::text::{decimal, decimal_string, parse_usize, parse_usize_spec, same_text, strings_view};

verus! {

/// The argument that separates argument groups on the command line.
pub const COMMANDS_FROM_ARGS_SEPARATOR: &'static str = ":::";

/// Which output streams of the commands are discarded.
#[derive(Clone, Copy, Debug, PartialEq, Eq, Structural)]
pub enum DiscardOutput {
    /// Redirect stdout for commands to /dev/null
    Stdout,
    /// Redirect stderr for commands to /dev/null
    Stderr,
    /// Redirect stdout and stderr for commands to /dev/null
    All,
}

/// Settings of a run, as given on the command line.
#[derive(Debug)]
pub struct CommandLineArgs {
    /// Discard output for commands
    pub discard_output: Option<DiscardOutput>,
    /// Input files, `-` for stdin.  Stdin when empty.
    pub input_file: Vec<String>,
    /// Maximum number of commands to run in parallel
    pub jobs: usize,
    /// Use null separator for reading input files instead of newline.
    pub null_separator: bool,
    /// Display progress bar.
    pub progress_bar: bool,
    /// Progress bar style: simple, light_bg, dark_bg or default.
    pub progress_bar_style: Option<String>,
    /// Apply regex pattern to inputs.
    pub regex: Option<String>,
    /// Use shell mode for running commands.
    pub shell: bool,
    /// Interpolate the argument groups into the command (what is done
    /// anyway when argument groups are given without a regex).
    pub auto_interpolate_args: bool,
    /// Interpolate the argument groups by name.
    pub auto_interpolate_named_args: bool,
    /// Input and output channel capacity
    pub channel_capacity: usize,
    /// Disable command path cache
    pub disable_path_cache: bool,
    /// Dry run mode: do not run commands, only log them.
    pub dry_run: bool,
    /// Exit on error mode: do not start new commands once one has failed.
    pub exit_on_error: bool,
    /// Do not run commands for empty buffered input lines.
    pub no_run_if_empty: bool,
    /// Write command outputs in the order of their inputs.
    pub keep_order: bool,
    /// Pipe mode: pass blocks of stdin to the commands' stdin.
    pub pipe: bool,
    /// Block size in bytes for pipe mode.
    pub block_size: usize,
    /// Path to shell to use for shell mode
    pub shell_path: String,
    /// Argument to shell for shell mode
    pub shell_argument: String,
    /// Optional command and initial arguments.
    ///
    /// If this contains 1 or more ::: delimiters the cartesian product
    /// of arguments from all groups are run.
    pub command_and_initial_arguments: Vec<String>,
}

impl Default for CommandLineArgs {
    /// All options off, no inputs, and the shell settings of a Unix system.
    fn default() -> (r: Self)
        ensures
            r.discard_output is None,
            r.input_file@.len() == 0,
            r.jobs == 0,
            !r.null_separator,
            !r.progress_bar,
            r.progress_bar_style is None,
            r.regex is None,
            !r.shell,
            !r.auto_interpolate_args,
            !r.auto_interpolate_named_args,
            r.channel_capacity == 0,
            !r.disable_path_cache,
            !r.dry_run,
            !r.exit_on_error,
            !r.no_run_if_empty,
            !r.keep_order,
            !r.pipe,
            r.block_size == 0,
            r.shell_path@ == "/bin/bash"@,
            r.shell_argument@ == "-c"@,
            r.command_and_initial_arguments@.len() == 0,
    {
        CommandLineArgs {
            discard_output: None,
            input_file: Vec::new(),
            jobs: 0,
            null_separator: false,
            progress_bar: false,
            progress_bar_style: None,
            regex: None,
            shell: false,
            auto_interpolate_args: false,
            auto_interpolate_named_args: false,
            channel_capacity: 0,
            disable_path_cache: false,
            dry_run: false,
            exit_on_error: false,
            no_run_if_empty: false,
            keep_order: false,
            pipe: false,
            block_size: 0,
            shell_path: "/bin/bash".to_owned(),
            shell_argument: "-c".to_owned(),
            command_and_initial_arguments: Vec::new(),
        }
    }
}

/// `arg` is the argument group separator.
pub open spec fn is_separator_spec(arg: Seq<char>) -> bool {
    arg == COMMANDS_FROM_ARGS_SEPARATOR@
}

/// Whether `arg` is the argument group separator.
pub fn is_separator(arg: &String) -> (r: bool)
    ensures
        r == is_separator_spec(arg@),
{
    same_text(arg.as_str(), COMMANDS_FROM_ARGS_SEPARATOR)
}

/// Some argument is the separator.
pub open spec fn has_separator(args: Seq<Seq<char>>) -> bool {
    exists|i: int| 0 <= i < args.len() && is_separator_spec(#[trigger] args[i])
}

/// The most permits a semaphore can have (`tokio::sync::Semaphore::MAX_PERMITS`).
///
/// Trusted: the contract claims the value that tokio's source gives it,
/// `usize::MAX >> 3`.
#[verifier::external_body]
fn semaphore_max_permits() -> (r: usize)
    ensures
        r == usize::MAX >> 3,
{
    ::tokio::sync::Semaphore::MAX_PERMITS
}

/// Why a number of permits was refused.
pub open spec fn permits_error(s: Seq<char>) -> Option<Seq<char>> {
    match parse_usize_spec(s) {
        None => Some("`"@ + s + "` isn't a number"@),
        Some(v) => if 1 <= v <= usize::MAX >> 3 {
            None
        } else {
            Some("value not in range 1..="@ + decimal((usize::MAX >> 3) as nat))
        },
    }
}

impl CommandLineArgs {
    /// A number of jobs or a channel capacity: a number from 1 to the most
    /// permits a semaphore can have.
    pub fn parse_semaphore_permits(s: &str) -> (r: Result<usize, String>)
        ensures
            match r {
                Ok(v) => permits_error(s@) is None && parse_usize_spec(s@) == Some(v),
                Err(e) => permits_error(s@) == Some(e@),
            },
    {
        let max_permits = semaphore_max_permits();
        match parse_usize(s) {
            None => {
                let mut e = "`".to_owned();
                e.append(s);
                e.append("` isn't a number");
                Err(e)
            },
            Some(value) => {
                if 1 <= value && value <= max_permits {
                    Ok(value)
                } else {
                    let mut e = "value not in range 1..=".to_owned();
                    e.append(decimal_string(max_permits as u64).as_str());
                    Err(e)
                }
            },
        }
    }

    /// Commands come from argument groups on the command line: some
    /// argument is `:::`.
    pub fn commands_from_args_mode(&self) -> (r: bool)
        ensures
            r == has_separator(strings_view(self.command_and_initial_arguments@)),
    {
        let args = &self.command_and_initial_arguments;
        let ghost view = strings_view(args@);
        let mut i: usize = 0;
        while i < args.len()
            invariant
                i <= args@.len(),
                view == strings_view(args@),
                args@ == self.command_and_initial_arguments@,
                forall|j: int| 0 <= j < i ==> !is_separator_spec(#[trigger] view[j]),
            decreases args.len() - i,
        {
            if is_separator(&args[i]) {
                assert(view.len() == args@.len());
                assert(is_separator_spec(view[i as int]));
                assert(has_separator(view));
                return true;
            }
            i = i + 1;
        }
        false
    }
}

} // verus!
