//! Pipe mode: blocks of stdin, cut at line ends, become the stdin of commands.
use vstd::prelude::*;

use crate::command_line_args::CommandLineArgs;
use crate::parser::compiled_regex::opt_string_view;
use crate::parser::ParsedCommand;
use crate::text::{copy_string, copy_strings, strings_view, utf8_to_string};

verus! {

/// The length in bytes of the UTF-8 encoding of `s` (`str::len`, a `usize`).
pub open spec fn utf8_len(s: Seq<char>) -> nat {
    (vstd::utf8::encode_utf8(s).len() as usize) as nat
}

/// The buffered data after `line` is added: the line and a newline.
pub open spec fn buffered_after(buffered: Seq<char>, line: Seq<char>) -> Seq<char> {
    buffered + line + seq!['\n']
}

/// `p` is the command with `words` and `stdin`.
pub open spec fn parsed_is(p: ParsedCommand, words: Seq<Seq<char>>, stdin: Seq<char>) -> bool {
    strings_view(p.command_and_args@) == words && opt_string_view(p.stdin) == Some(stdin)
}

/// Collects lines of stdin into blocks of at least the block size.
pub struct PipeModeParser {
    block_size_bytes: usize,
    command_and_initial_arguments: Vec<String>,
    buffered_data: String,
}

impl PipeModeParser {
    /// The least size in bytes of a block.
    pub closed spec fn block_size(&self) -> nat {
        self.block_size_bytes as nat
    }

    /// The command that each block is given to.
    pub closed spec fn command(&self) -> Seq<Seq<char>> {
        strings_view(self.command_and_initial_arguments@)
    }

    /// The lines read since the last block was cut.
    pub closed spec fn buffered(&self) -> Seq<char> {
        self.buffered_data@
    }

    /// The parser for the settings of `command_line_args`, with nothing
    /// buffered.
    pub fn new(command_line_args: &CommandLineArgs) -> (r: Self)
        ensures
            r.block_size() == command_line_args.block_size,
            r.command() == strings_view(command_line_args.command_and_initial_arguments@),
            r.buffered() == Seq::<char>::empty(),
    {
        PipeModeParser {
            block_size_bytes: command_line_args.block_size,
            command_and_initial_arguments: copy_strings(&command_line_args.command_and_initial_arguments),
            buffered_data: String::new(),
        }
    }

    /// Adds a segment of input as a line: `None` when it is not UTF-8, which
    /// leaves the buffer as it was.
    pub fn parse_segment(&mut self, segment: Vec<u8>) -> (r: Option<ParsedCommand>)
        ensures
            final(self).block_size() == old(self).block_size(),
            final(self).command() == old(self).command(),
            Self::segment_added(*old(self), segment@, *final(self), r),
    {
        match utf8_to_string(segment.as_slice()) {
            Some(input_line) => self.parse_line(input_line.as_str()),
            None => None,
        }
    }

    /// Adding the segment `segment` to `before` gives `after` and the block
    /// `r`: a segment that is not UTF-8 leaves the buffer as it was and gives
    /// no block; else the text it encodes is added as a line.
    pub open spec fn segment_added(before: Self, segment: Seq<u8>, after: Self, r: Option<ParsedCommand>) -> bool {
        &&& after.block_size() == before.block_size()
        &&& after.command() == before.command()
        &&& !vstd::utf8::valid_utf8(segment) ==> r is None && after.buffered() == before.buffered()
        &&& vstd::utf8::valid_utf8(segment) ==> Self::line_added(before, vstd::utf8::decode_utf8(segment), after, r)
    }

    /// At the end of input, `before` gives `after` and the last block `r`:
    /// whatever is buffered, if anything; the buffer is then empty.
    pub open spec fn last_block(before: Self, after: Self, r: Option<ParsedCommand>) -> bool {
        &&& after.block_size() == before.block_size()
        &&& after.command() == before.command()
        &&& after.buffered().len() == 0
        &&& before.buffered().len() == 0 ==> r is None
        &&& before.buffered().len() > 0 ==> (r matches Some(p) && parsed_is(p, before.command(), before.buffered()))
    }

    /// Adding `line` to `before` gives `after` and the block `r`: the line
    /// and a newline are buffered; once the buffer holds at least the block
    /// size in bytes, all of it becomes the stdin of a command and the
    /// buffer is emptied.
    pub open spec fn line_added(before: Self, line: Seq<char>, after: Self, r: Option<ParsedCommand>) -> bool {
        let data = buffered_after(before.buffered(), line);
        &&& after.block_size() == before.block_size()
        &&& after.command() == before.command()
        &&& if utf8_len(data) < before.block_size() {
            r is None && after.buffered() == data
        } else {
            &&& r matches Some(p) && parsed_is(p, before.command(), data)
            &&& after.buffered() == Seq::<char>::empty()
        }
    }

    /// Adds `input_line` and a newline to the buffer, and cuts a block when
    /// the buffer has reached the block size.
    pub fn parse_line(&mut self, input_line: &str) -> (r: Option<ParsedCommand>)
        ensures
            Self::line_added(*old(self), input_line@, *final(self), r),
    {
        self.buffered_data.append(input_line);
        self.buffered_data.append("\n");
        proof {
            reveal_strlit("\n");
        }
        assert(self.buffered_data@ =~= buffered_after(old(self).buffered_data@, input_line@));
        if self.buffered_data.as_str().len() < self.block_size_bytes {
            None
        } else {
            let stdin = copy_string(&self.buffered_data);
            self.buffered_data = String::new();
            let p = ParsedCommand::new(copy_strings(&self.command_and_initial_arguments)).with_stdin(stdin);
            Some(p)
        }
    }

    /// The block of whatever is buffered at the end of input, if anything
    /// is; the buffer is then empty.
    pub fn parse_last_command(&mut self) -> (r: Option<ParsedCommand>)
        ensures
            Self::last_block(*old(self), *final(self), r),
    {
        if self.buffered_data.as_str().is_empty() {
            None
        } else {
            let stdin = copy_string(&self.buffered_data);
            self.buffered_data = String::new();
            Some(ParsedCommand::new(copy_strings(&self.command_and_initial_arguments)).with_stdin(stdin))
        }
    }
}

/// The stdin of the block that was cut, if one was; else nothing.
pub open spec fn emitted(r: Option<ParsedCommand>) -> Seq<char> {
    match r {
        Some(p) => match opt_string_view(p.stdin) {
            Some(s) => s,
            None => Seq::<char>::empty(),
        },
        None => Seq::<char>::empty(),
    }
}

/// The text of `lines`, each followed by a newline.
pub open spec fn lines_text(lines: Seq<Seq<char>>) -> Seq<char>
    decreases lines.len(),
{
    if lines.len() == 0 {
        Seq::<char>::empty()
    } else {
        lines_text(lines.drop_last()) + lines.last() + seq!['\n']
    }
}

/// The stdins of the blocks that were cut, one after the other.
pub open spec fn emitted_text(rs: Seq<Option<ParsedCommand>>) -> Seq<char>
    decreases rs.len(),
{
    if rs.len() == 0 {
        Seq::<char>::empty()
    } else {
        emitted_text(rs.drop_last()) + emitted(rs.last())
    }
}

/// A run of lines added one after the other: `states[k + 1]` and `rs[k]`
/// come from adding `lines[k]` to `states[k]`.
pub open spec fn line_run(
    states: Seq<PipeModeParser>,
    lines: Seq<Seq<char>>,
    rs: Seq<Option<ParsedCommand>>,
) -> bool {
    &&& states.len() == lines.len() + 1
    &&& rs.len() == lines.len()
    &&& forall|k: int|
        0 <= k < lines.len() ==> PipeModeParser::line_added(states[k], lines[k], states[k + 1], #[trigger] rs[k])
}

/// No input is lost, duplicated or reordered: over any run of lines, the
/// stdins of the blocks cut, followed by what is still buffered, are what
/// was buffered before followed by every line and its newline.
pub proof fn pipe_data_is_conserved(
    states: Seq<PipeModeParser>,
    lines: Seq<Seq<char>>,
    rs: Seq<Option<ParsedCommand>>,
)
    requires
        line_run(states, lines, rs),
    ensures
        emitted_text(rs) + states.last().buffered() == states[0].buffered() + lines_text(lines),
    decreases lines.len(),
{
    let n = lines.len() as int;
    if n == 0 {
        assert(emitted_text(rs) + states.last().buffered() =~= states[0].buffered() + lines_text(lines));
    } else {
        let states0 = states.drop_last();
        let lines0 = lines.drop_last();
        let rs0 = rs.drop_last();
        assert forall|k: int| 0 <= k < lines0.len() implies PipeModeParser::line_added(
            states0[k],
            lines0[k],
            states0[k + 1],
            #[trigger] rs0[k],
        ) by {
            assert(rs0[k] == rs[k]);
        }
        pipe_data_is_conserved(states0, lines0, rs0);
        assert(PipeModeParser::line_added(states[n - 1], lines[n - 1], states[n], rs[n - 1]));
        let e0 = emitted_text(rs0);
        let b = states[n - 1].buffered();
        assert(states0.last() == states[n - 1]);
        assert(states0[0] == states[0]);
        assert(e0 + b == states[0].buffered() + lines_text(lines0));
        assert(emitted_text(rs) == e0 + emitted(rs[n - 1]));
        assert(lines_text(lines) == lines_text(lines0) + lines[n - 1] + seq!['\n']);
        assert(emitted(rs[n - 1]) + states[n].buffered() =~= buffered_after(b, lines[n - 1]));
        assert(emitted_text(rs) + states.last().buffered() =~= e0 + (emitted(rs[n - 1]) + states[n].buffered()));
        assert(e0 + buffered_after(b, lines[n - 1]) =~= (e0 + b) + lines[n - 1] + seq!['\n']);
        assert(states[0].buffered() + lines_text(lines) =~= (states[0].buffered() + lines_text(lines0)) + lines[n - 1] + seq!['\n']);
    }
}

/// Every block that is cut holds at least the block size in bytes, and
/// what stays buffered holds less.
pub proof fn pipe_blocks_reach_block_size(
    before: PipeModeParser,
    line: Seq<char>,
    after: PipeModeParser,
    r: Option<ParsedCommand>,
)
    requires
        PipeModeParser::line_added(before, line, after, r),
    ensures
        r is Some ==> utf8_len(emitted(r)) >= before.block_size() && after.buffered().len() == 0,
        r is None ==> utf8_len(after.buffered()) < after.block_size(),
{
}

/// A run of segments added one after the other: `states[k + 1]` and
/// `rs[k]` come from adding `segments[k]` to `states[k]`.
pub open spec fn segment_run(
    states: Seq<PipeModeParser>,
    segments: Seq<Seq<u8>>,
    rs: Seq<Option<ParsedCommand>>,
) -> bool {
    &&& states.len() == segments.len() + 1
    &&& rs.len() == segments.len()
    &&& forall|k: int|
        0 <= k < segments.len() ==> PipeModeParser::segment_added(states[k], segments[k], states[k + 1], #[trigger] rs[k])
}

proof fn lemma_run_keeps_block_size(
    states: Seq<PipeModeParser>,
    lines: Seq<Seq<char>>,
    rs: Seq<Option<ParsedCommand>>,
    k: int,
)
    requires
        line_run(states, lines, rs),
        0 <= k < states.len(),
    ensures
        states[k].block_size() == states[0].block_size(),
    decreases k,
{
    if k > 0 {
        lemma_run_keeps_block_size(states, lines, rs, k - 1);
        assert(PipeModeParser::line_added(states[k - 1], lines[k - 1], states[(k - 1) + 1], rs[k - 1]));
    }
}

/// Pipe mode passes all of stdin on, in order: from a parser with nothing
/// buffered, after a run of UTF-8 segments and the end of input, the stdins
/// of the blocks cut, in order and followed by the last block, are the
/// segments' texts each followed by a newline. Every block is non-empty, and
/// every block cut before the end of input holds at least the block size in
/// bytes.
pub proof fn pipe_segments_are_passed_on(
    states: Seq<PipeModeParser>,
    segments: Seq<Seq<u8>>,
    rs: Seq<Option<ParsedCommand>>,
    end: PipeModeParser,
    last: Option<ParsedCommand>,
)
    requires
        segment_run(states, segments, rs),
        states[0].buffered().len() == 0,
        forall|k: int| 0 <= k < segments.len() ==> vstd::utf8::valid_utf8(#[trigger] segments[k]),
        PipeModeParser::last_block(states.last(), end, last),
    ensures
        emitted_text(rs) + emitted(last) == lines_text(
            segments.map_values(|b: Seq<u8>| vstd::utf8::decode_utf8(b)),
        ),
        forall|k: int|
            0 <= k < rs.len() && (#[trigger] rs[k]) is Some ==> emitted(rs[k]).len() > 0 && utf8_len(
                emitted(rs[k]),
            ) >= states[0].block_size(),
        last is Some ==> emitted(last).len() > 0,
        end.buffered().len() == 0,
{
    let lines = segments.map_values(|b: Seq<u8>| vstd::utf8::decode_utf8(b));
    assert forall|k: int| 0 <= k < lines.len() implies PipeModeParser::line_added(
        states[k],
        lines[k],
        states[k + 1],
        #[trigger] rs[k],
    ) by {
        assert(vstd::utf8::valid_utf8(segments[k]));
        assert(PipeModeParser::segment_added(states[k], segments[k], states[k + 1], rs[k]));
    }
    assert(line_run(states, lines, rs));
    pipe_data_is_conserved(states, lines, rs);
    assert(states[0].buffered() + lines_text(lines) =~= lines_text(lines));
    if states.last().buffered().len() == 0 {
        assert(emitted(last) =~= states.last().buffered());
    }
    assert(emitted_text(rs) + emitted(last) == emitted_text(rs) + states.last().buffered());
    assert forall|k: int|
        0 <= k < rs.len() && (#[trigger] rs[k]) is Some implies emitted(rs[k]).len() > 0 && utf8_len(
            emitted(rs[k]),
        ) >= states[0].block_size() by {
        assert(PipeModeParser::line_added(states[k], lines[k], states[k + 1], rs[k]));
        lemma_run_keeps_block_size(states, lines, rs, k);
        assert(buffered_after(states[k].buffered(), lines[k]).len() > 0);
    }
}

} // verus!
