//! Commands from the lines of buffered input: stdin or input files.
use vstd::prelude::*;

use crate::command_line_args::CommandLineArgs;
use crate::common::{describes, OwnedCommandAndArgs};
use crate::parser::regex::{apply_regex_spec, RegexProcessor};
use crate::parser::{shell_prefix_of, shell_wrapped, CommandBuilder, ParsedCommand};
use crate::text::{
    concat_strings, copy_string, copy_strings, split_whitespace, split_whitespace_spec,
    strings_view, utf8_to_string,
};

verus! {

/// A line with nothing but whitespace in it.
pub open spec fn blank_line(line: Seq<char>) -> bool {
    split_whitespace_spec(line).len() == 0
}

/// The words of the command for `line`: `None` for a blank line when blank
/// lines are skipped; else, without a regex, the initial words followed by
/// the line's words (or the whole line when not splitting on whitespace);
/// with a regex, the initial words with the line interpolated, `None` when
/// the regex does not match or there is no initial word.
pub open spec fn line_words(
    skip_blank: bool,
    split: bool,
    initial: Seq<Seq<char>>,
    pattern: Option<Seq<char>>,
    line: Seq<char>,
) -> Option<Seq<Seq<char>>> {
    if skip_blank && blank_line(line) {
        None
    } else {
        line_words_of(split, initial, pattern, line)
    }
}

/// The words of the command for a line that is not skipped.
pub open spec fn line_words_of(
    split: bool,
    initial: Seq<Seq<char>>,
    pattern: Option<Seq<char>>,
    line: Seq<char>,
) -> Option<Seq<Seq<char>>> {
    match pattern {
        None => Some(
            initial + if split {
                split_whitespace_spec(line)
            } else {
                seq![line]
            },
        ),
        Some(_) => match apply_regex_spec(pattern, initial, line) {
            None => None,
            Some((args, _)) => Some(args),
        },
    }
}

/// The command for `line` meets its description.
pub open spec fn line_command_ok(
    r: Option<OwnedCommandAndArgs>,
    prefix: Option<Seq<Seq<char>>>,
    words: Option<Seq<Seq<char>>>,
) -> bool {
    match words {
        None => r is None,
        Some(w) => match r {
            None => shell_wrapped(prefix, w).len() == 0,
            Some(o) => describes(o, shell_wrapped(prefix, w), None),
        },
    }
}

/// Turns each line of buffered input into a command.
pub struct BufferedInputLineParser {
    split_whitespace: bool,
    no_run_if_empty: bool,
    command_builder: CommandBuilder,
    command_and_initial_arguments: Vec<String>,
    regex_processor: RegexProcessor,
}

impl BufferedInputLineParser {
    /// Whether lines are split into words.
    pub closed spec fn splits(&self) -> bool {
        self.split_whitespace
    }

    /// Whether blank lines give no command.
    pub closed spec fn skips_blank_lines(&self) -> bool {
        self.no_run_if_empty
    }

    /// The words that come before the words of each line.
    pub closed spec fn initial(&self) -> Seq<Seq<char>> {
        strings_view(self.command_and_initial_arguments@)
    }

    /// The shell prefix of the commands.
    pub closed spec fn shell_prefix(&self) -> Option<Seq<Seq<char>>> {
        self.command_builder.shell_prefix()
    }

    /// The regex in use.
    pub closed spec fn pattern(&self) -> Option<Seq<char>> {
        self.regex_processor.pattern()
    }

    /// The parser for the settings of `command_line_args`: lines are split
    /// on whitespace unless the null separator is in use, and blank lines
    /// give no command when `no_run_if_empty` is set.
    pub fn new(command_line_args: &CommandLineArgs, regex_processor: RegexProcessor) -> (r: Self)
        ensures
            r.splits() == !command_line_args.null_separator,
            r.skips_blank_lines() == command_line_args.no_run_if_empty,
            r.initial() == strings_view(command_line_args.command_and_initial_arguments@),
            r.shell_prefix() == shell_prefix_of(*command_line_args),
            r.pattern() == regex_processor.pattern(),
    {
        BufferedInputLineParser {
            split_whitespace: !command_line_args.null_separator,
            no_run_if_empty: command_line_args.no_run_if_empty,
            command_builder: CommandBuilder::new(command_line_args),
            command_and_initial_arguments: copy_strings(&command_line_args.command_and_initial_arguments),
            regex_processor,
        }
    }

    /// The command for a segment of input: `None` when it is not UTF-8 or
    /// gives no command.
    pub fn parse_segment(&self, segment: Vec<u8>) -> (r: Option<OwnedCommandAndArgs>)
        ensures
            !vstd::utf8::valid_utf8(segment@) ==> r is None,
            vstd::utf8::valid_utf8(segment@) ==> line_command_ok(
                r,
                self.shell_prefix(),
                line_words(self.skips_blank_lines(), self.splits(), self.initial(), self.pattern(), vstd::utf8::decode_utf8(segment@)),
            ),
    {
        match utf8_to_string(segment.as_slice()) {
            Some(input_line) => self.parse_line(input_line.as_str()),
            None => None,
        }
    }

    /// The command for a line of input: none for a blank line when blank
    /// lines are skipped.
    pub fn parse_line(&self, input_line: &str) -> (r: Option<OwnedCommandAndArgs>)
        ensures
            line_command_ok(
                r,
                self.shell_prefix(),
                line_words(self.skips_blank_lines(), self.splits(), self.initial(), self.pattern(), input_line@),
            ),
    {
        if self.no_run_if_empty && split_whitespace(input_line).len() == 0 {
            return None;
        }
        let cmd_and_args = if !self.regex_processor.regex_mode() {
            let words = if self.split_whitespace {
                split_whitespace(input_line)
            } else {
                let mut v: Vec<String> = Vec::new();
                v.push(input_line.to_owned());
                assert(strings_view(v@) =~= seq![input_line@]);
                v
            };
            concat_strings(&self.command_and_initial_arguments, &words)
        } else {
            match self.regex_processor.apply_regex_to_arguments(
                &self.command_and_initial_arguments,
                input_line,
            ) {
                None => return None,
                Some(result) => result.arguments,
            }
        };
        self.command_builder.build(ParsedCommand::new(cmd_and_args))
    }
}

} // verus!
