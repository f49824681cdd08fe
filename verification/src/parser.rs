//! Turning input lines, argument groups and stdin blocks into commands.
pub mod buffered;
pub mod command_line;
pub mod compiled_regex;
pub mod pipe;
pub mod regex;

use vstd::prelude::*;

use ::itertools::Itertools;

use crate::command_line_args::{is_separator, is_separator_spec, CommandLineArgs};
use crate::common::{describes, OwnedCommandAndArgs, StdinData};
use crate::parser::compiled_regex::opt_string_view;
use crate::text::{copy_string, join, join_spec, strings_view};

verus! {

// ---------------------------------------------------------------------------
// Runs of separators and of other arguments
// ---------------------------------------------------------------------------
/// The maximal runs of consecutive arguments that are all separators or all
/// not, in order, each with whether it is a run of separators (itertools'
/// `chunk_by` with the key "is the separator").
pub open spec fn separator_runs(args: Seq<Seq<char>>) -> Seq<(bool, Seq<Seq<char>>)>
    decreases args.len(),
{
    if args.len() == 0 {
        seq![]
    } else {
        let rest = separator_runs(args.subrange(1, args.len() as int));
        let k = is_separator_spec(args[0]);
        if rest.len() > 0 && rest[0].0 == k {
            rest.update(0, (k, seq![args[0]] + rest[0].1))
        } else {
            seq![(k, seq![args[0]])] + rest
        }
    }
}

/// The view of runs of strings.
pub open spec fn runs_view(runs: Seq<(bool, Vec<String>)>) -> Seq<(bool, Seq<Seq<char>>)> {
    runs.map_values(|r: (bool, Vec<String>)| (r.0, strings_view(r.1@)))
}

/// The runs of separators and of other arguments in `args`, by itertools'
/// `Itertools::chunk_by` keyed on `is_separator`.
///
/// Trusted: the contract claims that `chunk_by` yields the maximal runs of
/// consecutive items with equal keys, in order, each with its key, as its
/// documentation says.
#[verifier::external_body]
pub(crate) fn chunk_by_separator(args: &Vec<String>) -> (runs: Vec<(bool, Vec<String>)>)
    ensures
        runs_view(runs@) == separator_runs(strings_view(args@)),
{
    let mut runs = Vec::new();
    for (separator, group) in &args.iter().chunk_by(|arg| is_separator(arg)) {
        runs.push((separator, group.cloned().collect()));
    }
    runs
}

// ---------------------------------------------------------------------------
// Parsed commands and shell wrapping
// ---------------------------------------------------------------------------
/// Intermediate result from parsing, before shell wrapping is applied.
#[derive(Debug, PartialEq, Eq)]
pub struct ParsedCommand {
    pub command_and_args: Vec<String>,
    pub stdin: Option<String>,
}

impl ParsedCommand {
    /// The command made of these words, with no stdin.
    pub fn new(command_and_args: Vec<String>) -> (r: Self)
        ensures
            r.command_and_args == command_and_args,
            r.stdin is None,
    {
        ParsedCommand { command_and_args, stdin: None }
    }

    /// This command with `stdin` as its stdin.
    pub fn with_stdin(self, stdin: String) -> (r: Self)
        ensures
            r.command_and_args == self.command_and_args,
            r.stdin == Some(stdin),
    {
        let mut s = self;
        s.stdin = Some(stdin);
        s
    }
}

/// The words of the command that runs `words`: the words themselves, or,
/// with a shell prefix, the prefix followed by the words joined with spaces.
pub open spec fn shell_wrapped(prefix: Option<Seq<Seq<char>>>, words: Seq<Seq<char>>) -> Seq<Seq<char>> {
    match prefix {
        None => words,
        Some(p) => p.push(join_spec(words, " "@)),
    }
}

/// The shell prefix that the settings ask for: the shell and its argument
/// in shell mode, none otherwise.
pub open spec fn shell_prefix_of(args: CommandLineArgs) -> Option<Seq<Seq<char>>> {
    if args.shell {
        Some(seq![args.shell_path@, args.shell_argument@])
    } else {
        None
    }
}

/// Applies shell wrapping (if configured) and converts to OwnedCommandAndArgs.
pub struct CommandBuilder {
    shell_command_and_args: Option<Vec<String>>,
}

impl CommandBuilder {
    /// The words that come before the command line in shell mode.
    pub closed spec fn shell_prefix(&self) -> Option<Seq<Seq<char>>> {
        match self.shell_command_and_args {
            Some(v) => Some(strings_view(v@)),
            None => None,
        }
    }

    /// The builder for the shell settings of `command_line_args`.
    pub fn new(command_line_args: &CommandLineArgs) -> (r: Self)
        ensures
            r.shell_prefix() == shell_prefix_of(*command_line_args),
    {
        let shell_command_and_args = if command_line_args.shell {
            let mut v: Vec<String> = Vec::new();
            v.push(copy_string(&command_line_args.shell_path));
            v.push(copy_string(&command_line_args.shell_argument));
            assert(strings_view(v@) =~= seq![command_line_args.shell_path@, command_line_args.shell_argument@]);
            Some(v)
        } else {
            None
        };
        CommandBuilder { shell_command_and_args }
    }

    /// The command that runs `parsed`: wrapped in the shell if configured,
    /// with `parsed`'s stdin. `None` when there is no word to run.
    pub fn build(&self, parsed: ParsedCommand) -> (r: Option<OwnedCommandAndArgs>)
        ensures
            ({
                let words = shell_wrapped(self.shell_prefix(), strings_view(parsed.command_and_args@));
                match r {
                    None => words.len() == 0,
                    Some(o) => describes(o, words, opt_string_view(parsed.stdin)),
                }
            }),
    {
        let ghost words = shell_wrapped(self.shell_prefix(), strings_view(parsed.command_and_args@));
        let command_and_args = match &self.shell_command_and_args {
            None => parsed.command_and_args,
            Some(shell_prefix) => {
                let mut result: Vec<String> = Vec::new();
                let mut i: usize = 0;
                while i < shell_prefix.len()
                    invariant
                        i <= shell_prefix@.len(),
                        strings_view(result@) == strings_view(shell_prefix@).take(i as int),
                    decreases shell_prefix.len() - i,
                {
                    let ghost before = strings_view(result@);
                    result.push(copy_string(&shell_prefix[i]));
                    assert(strings_view(result@) =~= before.push(shell_prefix@[i as int]@));
                    assert(strings_view(shell_prefix@).take(i + 1) =~= strings_view(shell_prefix@).take(i as int).push(shell_prefix@[i as int]@));
                    i = i + 1;
                }
                assert(strings_view(shell_prefix@).take(shell_prefix@.len() as int) =~= strings_view(shell_prefix@));
                let ghost before = strings_view(result@);
                result.push(join(&parsed.command_and_args, " "));
                assert(strings_view(result@) =~= before.push(join_spec(strings_view(parsed.command_and_args@), " "@)));
                result
            },
        };
        assert(strings_view(command_and_args@) == words);
        let owned = match OwnedCommandAndArgs::try_from_vec(command_and_args) {
            Ok(o) => o,
            Err(_) => return None,
        };
        match parsed.stdin {
            Some(stdin) => Some(owned.with_stdin(StdinData(Some(stdin)))),
            None => Some(owned),
        }
    }
}

} // verus!
