//! Where commands come from, and the line numbers that identify them.
use vstd::prelude::*;

use crate::command_line_args::{has_separator, CommandLineArgs};
use crate::common::OwnedCommandAndArgs;
use crate::text::{copy_string, decimal, decimal_string, strings_view};

verus! {

/// An input read line by line.
#[derive(Debug, Clone, PartialEq, Eq)]
pub enum BufferedInput {
    Stdin,
    File { file_name: String },
}

/// Where a command came from.
#[derive(Debug, Clone, PartialEq, Eq)]
pub enum Input {
    Buffered(BufferedInput),
    CommandLineArgs,
}

/// The line, or the range of lines, that a command came from.
#[derive(Debug, PartialEq, Eq)]
pub enum LineNumberOrRange {
    Single(usize),
    Range(usize, usize),
}

/// The input and line that a command came from.
#[derive(Debug, PartialEq, Eq)]
pub struct InputLineNumber {
    pub input: Input,
    pub line_number: LineNumberOrRange,
}

/// A command and where it came from.
#[derive(Debug)]
pub struct InputMessage {
    pub command_and_args: OwnedCommandAndArgs,
    pub input_line_number: InputLineNumber,
}

/// The inputs of a run.
#[derive(Debug, PartialEq, Eq)]
pub enum InputList {
    Buffered(Vec<BufferedInput>),
    CommandLineArgs,
    Pipe,
}

impl From<usize> for LineNumberOrRange {
    fn from(line_number: usize) -> (r: Self) {
        LineNumberOrRange::Single(line_number)
    }
}

impl vstd::std_specs::convert::FromSpecImpl<usize> for LineNumberOrRange {
    open spec fn obeys_from_spec() -> bool {
        true
    }

    open spec fn from_spec(line_number: usize) -> Self {
        LineNumberOrRange::Single(line_number)
    }
}

impl From<(usize, usize)> for LineNumberOrRange {
    fn from(range: (usize, usize)) -> (r: Self) {
        LineNumberOrRange::Range(range.0, range.1)
    }
}

impl vstd::std_specs::convert::FromSpecImpl<(usize, usize)> for LineNumberOrRange {
    open spec fn obeys_from_spec() -> bool {
        true
    }

    open spec fn from_spec(range: (usize, usize)) -> Self {
        LineNumberOrRange::Range(range.0, range.1)
    }
}

impl From<(Input, LineNumberOrRange)> for InputLineNumber {
    fn from(value: (Input, LineNumberOrRange)) -> (r: Self) {
        InputLineNumber { input: value.0, line_number: value.1 }
    }
}

impl vstd::std_specs::convert::FromSpecImpl<(Input, LineNumberOrRange)> for InputLineNumber {
    open spec fn obeys_from_spec() -> bool {
        true
    }

    open spec fn from_spec(value: (Input, LineNumberOrRange)) -> Self {
        InputLineNumber { input: value.0, line_number: value.1 }
    }
}

impl From<(OwnedCommandAndArgs, Input, LineNumberOrRange)> for InputMessage {
    fn from(value: (OwnedCommandAndArgs, Input, LineNumberOrRange)) -> (r: Self) {
        InputMessage {
            command_and_args: value.0,
            input_line_number: InputLineNumber { input: value.1, line_number: value.2 },
        }
    }
}

impl vstd::std_specs::convert::FromSpecImpl<(OwnedCommandAndArgs, Input, LineNumberOrRange)> for InputMessage {
    open spec fn obeys_from_spec() -> bool {
        true
    }

    open spec fn from_spec(value: (OwnedCommandAndArgs, Input, LineNumberOrRange)) -> Self {
        InputMessage {
            command_and_args: value.0,
            input_line_number: InputLineNumber { input: value.1, line_number: value.2 },
        }
    }
}

/// The inputs named by `files`: `-` is stdin, any other name a file.
pub open spec fn buffered_inputs_of(files: Seq<Seq<char>>) -> Seq<Option<Seq<char>>> {
    files.map_values(|f: Seq<char>| if f == "-"@ { None } else { Some(f) })
}

/// The view of a buffered input: `None` for stdin, else the file name.
pub open spec fn buffered_input_view(b: BufferedInput) -> Option<Seq<char>> {
    match b {
        BufferedInput::Stdin => None,
        BufferedInput::File { file_name } => Some(file_name@),
    }
}

/// The inputs of a run: pipe mode reads stdin in blocks; with argument
/// groups the commands come from the command line; otherwise the input
/// files are read line by line, stdin when none is given.
pub open spec fn input_list_ok(args: CommandLineArgs, r: InputList) -> bool {
    if args.pipe {
        r == InputList::Pipe
    } else if has_separator(strings_view(args.command_and_initial_arguments@)) {
        r == InputList::CommandLineArgs
    } else if args.input_file@.len() == 0 {
        r matches InputList::Buffered(v) && v@ == seq![BufferedInput::Stdin]
    } else {
        r matches InputList::Buffered(v) && v@.map_values(|b: BufferedInput| buffered_input_view(b))
            == buffered_inputs_of(strings_view(args.input_file@))
    }
}

/// The inputs that the settings ask for.
pub fn build_input_list(command_line_args: &CommandLineArgs) -> (r: InputList)
    ensures
        input_list_ok(*command_line_args, r),
{
    if command_line_args.pipe {
        InputList::Pipe
    } else if command_line_args.commands_from_args_mode() {
        InputList::CommandLineArgs
    } else if command_line_args.input_file.len() == 0 {
        let mut v: Vec<BufferedInput> = Vec::new();
        v.push(BufferedInput::Stdin);
        assert(v@ =~= seq![BufferedInput::Stdin]);
        InputList::Buffered(v)
    } else {
        let files = &command_line_args.input_file;
        let ghost want = buffered_inputs_of(strings_view(files@));
        let mut v: Vec<BufferedInput> = Vec::new();
        let mut i: usize = 0;
        proof {
            reveal_strlit("-");
        }
        while i < files.len()
            invariant
                i <= files@.len(),
                files@ == command_line_args.input_file@,
                want == buffered_inputs_of(strings_view(files@)),
                v@.map_values(|b: BufferedInput| buffered_input_view(b)) == want.take(i as int),
            decreases files.len() - i,
        {
            let ghost before = v@;
            let name = &files[i];
            if crate::text::same_text(name.as_str(), "-") {
                v.push(BufferedInput::Stdin);
            } else {
                v.push(BufferedInput::File { file_name: copy_string(name) });
            }
            assert(v@ =~= before.push(v@.last()));
            assert(want.take(i + 1) =~= want.take(i as int).push(want[i as int]));
            assert(v@.map_values(|b: BufferedInput| buffered_input_view(b)) =~= want.take(i + 1));
            i = i + 1;
        }
        assert(want.take(files@.len() as int) =~= want);
        InputList::Buffered(v)
    }
}

/// The byte that ends each segment of a buffered input: NUL with the null
/// separator, else a newline.
pub fn line_separator(command_line_args: &CommandLineArgs) -> (r: u8)
    ensures
        r == if command_line_args.null_separator { 0u8 } else { 10u8 },
{
    if command_line_args.null_separator {
        0u8
    } else {
        10u8
    }
}

impl LineNumberOrRange {
    /// The line that orders outputs in keep-order mode: the line, or the
    /// first line of the range.
    pub fn first_line(&self) -> (r: usize)
        ensures
            r == match self {
                LineNumberOrRange::Single(n) => *n,
                LineNumberOrRange::Range(start, _) => *start,
            },
    {
        match self {
            LineNumberOrRange::Single(n) => *n,
            LineNumberOrRange::Range(start, _) => *start,
        }
    }
}

// ---------------------------------------------------------------------------
// How inputs and line numbers are shown
// ---------------------------------------------------------------------------
impl BufferedInput {
    /// `stdin`, or the file's name.
    pub fn to_display_string(&self) -> (r: String)
        ensures
            r@ == match self {
                BufferedInput::Stdin => "stdin"@,
                BufferedInput::File { file_name } => file_name@,
            },
    {
        match self {
            BufferedInput::Stdin => "stdin".to_owned(),
            BufferedInput::File { file_name } => copy_string(file_name),
        }
    }
}

impl Input {
    /// The buffered input, or `command_line_args`.
    pub fn to_display_string(&self) -> (r: String)
        ensures
            r@ == self.to_display_string_spec(),
    {
        match self {
            Input::Buffered(b) => b.to_display_string(),
            Input::CommandLineArgs => "command_line_args".to_owned(),
        }
    }
}

impl LineNumberOrRange {
    /// `N`, or `START-END`.
    pub fn to_display_string(&self) -> (r: String)
        ensures
            r@ == self.to_display_string_spec(),
    {
        match self {
            LineNumberOrRange::Single(n) => decimal_string(*n as u64),
            LineNumberOrRange::Range(start, end) => {
                let mut r = decimal_string(*start as u64);
                r.append("-");
                r.append(decimal_string(*end as u64).as_str());
                r
            },
        }
    }
}

impl InputLineNumber {
    /// `INPUT:LINE`.
    pub fn to_display_string(&self) -> (r: String)
        ensures
            r@ == self.input.to_display_string_spec() + ":"@ + self.line_number.to_display_string_spec(),
    {
        let mut r = self.input.to_display_string();
        r.append(":");
        let line = self.line_number.to_display_string();
        r.append(line.as_str());
        r
    }
}

impl Input {
    /// What `to_display_string` gives.
    pub open spec fn to_display_string_spec(&self) -> Seq<char> {
        match self {
            Input::Buffered(BufferedInput::Stdin) => "stdin"@,
            Input::Buffered(BufferedInput::File { file_name }) => file_name@,
            Input::CommandLineArgs => "command_line_args"@,
        }
    }
}

impl LineNumberOrRange {
    /// What `to_display_string` gives.
    pub open spec fn to_display_string_spec(&self) -> Seq<char> {
        match self {
            LineNumberOrRange::Single(n) => decimal(*n as nat),
            LineNumberOrRange::Range(start, end) => decimal(*start as nat) + "-"@ + decimal(*end as nat),
        }
    }
}

// ---------------------------------------------------------------------------
// Line ranges of pipe mode
// ---------------------------------------------------------------------------
/// The range of lines read since the last block was cut in pipe mode.
pub struct PipeLineRange {
    range_start: usize,
    range_end: usize,
}

impl PipeLineRange {
    /// The first line of the current block.
    pub closed spec fn start(&self) -> nat {
        self.range_start as nat
    }

    /// The last line read.
    pub closed spec fn end(&self) -> nat {
        self.range_end as nat
    }

    /// Before any line: the block starts at line 1.
    pub fn new() -> (r: Self)
        ensures
            r.start() == 1,
            r.end() == 1,
    {
        PipeLineRange { range_start: 1, range_end: 1 }
    }

    /// Line `line_number` was read; `block_cut` tells whether it completed
    /// a block. Then the range of the block's lines, and the next block
    /// starts after this line.
    pub fn record_segment(&mut self, line_number: usize, block_cut: bool) -> (r: Option<(usize, usize)>)
        requires
            line_number < usize::MAX,
        ensures
            final(self).end() == line_number,
            block_cut ==> r == Some((old(self).start() as usize, line_number)) && final(self).start() == line_number + 1,
            !block_cut ==> r is None && final(self).start() == old(self).start(),
    {
        self.range_end = line_number;
        if block_cut {
            let range = (self.range_start, self.range_end);
            self.range_start = self.range_end + 1;
            Some(range)
        } else {
            None
        }
    }

    /// The range of the lines of the last block, at the end of input.
    pub fn last_range(&self) -> (r: (usize, usize))
        ensures
            r == (self.start() as usize, self.end() as usize),
    {
        (self.range_start, self.range_end)
    }
}

} // verus!
