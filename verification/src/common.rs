//! A command ready to run: its path, its arguments and the data for its stdin.
use vstd::prelude::*;

use crate::parser::compiled_regex::opt_string_view;
use crate::text::strings_view;

verus! {

/// Data written to a command's stdin, if any.
#[derive(Clone, Debug, Eq, PartialEq, Default)]
pub struct StdinData(pub Option<String>);

impl View for StdinData {
    type V = Option<Seq<char>>;

    open spec fn view(&self) -> Option<Seq<char>> {
        opt_string_view(self.0)
    }
}

/// How `bytesize::ByteSize::b(bytes)` displays (`ToString`), e.g. `1.0 KiB`.
pub uninterp spec fn byte_size_display(bytes: u64) -> Seq<char>;

/// The display of a size in bytes, by the `bytesize` crate.
///
/// Trusted: the contract claims that the text is what `byte_size_display`
/// names for the size.
#[verifier::external_body]
fn byte_size_string(bytes: u64) -> (r: String)
    ensures
        r@ == byte_size_display(bytes),
{
    ::bytesize::ByteSize::b(bytes).to_string()
}

impl StdinData {
    /// `None`, or the size of the data in bytes as `bytesize` displays it.
    pub fn to_display_string(&self) -> (r: String)
        ensures
            r@ == match self.0 {
                None => "None"@,
                Some(s) => byte_size_display((vstd::utf8::encode_utf8(s@).len() as usize) as u64),
            },
    {
        match &self.0 {
            Some(s) => byte_size_string(s.as_str().len() as u64),
            None => "None".to_owned(),
        }
    }
}

/// A command: the program to run, its arguments and its stdin.
#[derive(Debug, Eq, PartialEq, Default)]
pub struct OwnedCommandAndArgs {
    pub command_path: String,
    pub args: Vec<String>,
    pub stdin: StdinData,
}

/// Why a sequence of words is no command.
#[derive(Debug, Eq, PartialEq)]
pub enum OwnedCommandAndArgsConversionError {
    /// There is no word to take the command from.
    EmptyInput,
}

/// `o` is the command whose first word is the program and whose other
/// words are its arguments, with `stdin` as its stdin.
pub open spec fn describes(o: OwnedCommandAndArgs, words: Seq<Seq<char>>, stdin: Option<Seq<char>>) -> bool {
    &&& words.len() > 0
    &&& o.command_path@ == words[0]
    &&& strings_view(o.args@) == words.subrange(1, words.len() as int)
    &&& o.stdin@ == stdin
}

impl OwnedCommandAndArgs {
    /// The command whose program is the first word of `words` and whose
    /// arguments are the others; no stdin.
    pub fn try_from_vec(words: Vec<String>) -> (r: Result<Self, OwnedCommandAndArgsConversionError>)
        ensures
            match r {
                Ok(o) => describes(o, strings_view(words@), None),
                Err(e) => words@.len() == 0 && e == OwnedCommandAndArgsConversionError::EmptyInput,
            },
    {
        let mut words = words;
        if words.len() == 0 {
            return Err(OwnedCommandAndArgsConversionError::EmptyInput);
        }
        let ghost all = words@;
        let command = words.remove(0);
        assert(strings_view(words@) =~= strings_view(all).subrange(1, all.len() as int));
        Ok(OwnedCommandAndArgs { command_path: command, args: words, stdin: StdinData(None) })
    }

    /// This command with its program replaced by `command_path`.
    pub fn with_command_path(self, command_path: String) -> (r: Self)
        ensures
            r.command_path == command_path,
            r.args == self.args,
            r.stdin == self.stdin,
    {
        let mut s = self;
        s.command_path = command_path;
        s
    }

    /// This command with its stdin replaced by `stdin`.
    pub fn with_stdin(self, stdin: StdinData) -> (r: Self)
        ensures
            r.command_path == self.command_path,
            r.args == self.args,
            r.stdin == stdin,
    {
        let mut s = self;
        s.stdin = stdin;
        s
    }
}

} // verus!
