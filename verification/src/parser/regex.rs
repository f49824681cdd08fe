//! Interpolating regular expression capture groups into arguments.
//!
//! In regex mode every argument has each `{N}` replaced by the text of
//! capture group `N` and each `{name}` by the text of the group `name`, taken
//! from the match of the regex in the input data.
use vstd::prelude::*;

use crate::command_line_args::{has_separator, CommandLineArgs};
use crate::parser::compiled_regex::{regex_capture_names, regex_captures, CompiledRegex};
use crate::parser::{chunk_by_separator, runs_view, separator_runs};
use crate::text::{
    chars_of, contains_chars, copy_string, decimal, decimal_string, replace_all, replace_chars,
    seq_contains, string_from_chars, strings_view,
};

verus! {

// ---------------------------------------------------------------------------
// What expansion does
// ---------------------------------------------------------------------------
/// The text that stands for a capture group in an argument: `{name}`.
pub open spec fn match_key(name: Seq<char>) -> Seq<char> {
    seq!['{'] + name + seq!['}']
}

/// The keys `{0}`, `{1}`, ... of the first `n` numbered capture groups.
pub open spec fn numbered_keys(n: nat) -> Seq<Seq<char>> {
    Seq::new(n, |i: int| match_key(decimal(i as nat)))
}

/// For each named capture group, in order: its index and its key `{name}`.
pub open spec fn named_keys(names: Seq<Option<Seq<char>>>) -> Seq<(int, Seq<char>)>
    decreases names.len(),
{
    if names.len() == 0 {
        seq![]
    } else {
        let prev = named_keys(names.drop_last());
        match names.last() {
            Some(n) => prev.push(((names.len() - 1) as int, match_key(n))),
            None => prev,
        }
    }
}

/// The (key, value) substitutions of the numbered groups among the first
/// `k` groups that took part in the match and have a key.
pub open spec fn numbered_subs(
    keys: Seq<Seq<char>>,
    groups: Seq<Option<Seq<char>>>,
    k: nat,
) -> Seq<(Seq<char>, Seq<char>)>
    decreases k,
{
    if k == 0 {
        seq![]
    } else {
        let prev = numbered_subs(keys, groups, (k - 1) as nat);
        let i = k - 1;
        if i < keys.len() && i < groups.len() && groups[i] is Some {
            prev.push((keys[i], groups[i]->0))
        } else {
            prev
        }
    }
}

/// The (key, value) substitutions of the first `k` named groups that took
/// part in the match.
pub open spec fn named_subs(
    named: Seq<(int, Seq<char>)>,
    groups: Seq<Option<Seq<char>>>,
    k: nat,
) -> Seq<(Seq<char>, Seq<char>)>
    decreases k,
{
    if k == 0 {
        seq![]
    } else {
        let prev = named_subs(named, groups, (k - 1) as nat);
        let idx = named[k - 1].0;
        if 0 <= idx < groups.len() && groups[idx] is Some {
            prev.push((named[k - 1].1, groups[idx]->0))
        } else {
            prev
        }
    }
}

/// The substitutions for a match whose capture groups are `groups`, of a
/// regex whose groups are named `names`: the numbered groups in order, then
/// the named groups in order.
pub open spec fn group_subs(
    names: Seq<Option<Seq<char>>>,
    groups: Seq<Option<Seq<char>>>,
) -> Seq<(Seq<char>, Seq<char>)> {
    let named = named_keys(names);
    numbered_subs(numbered_keys(names.len()), groups, groups.len()) + named_subs(
        named,
        groups,
        named.len(),
    )
}

/// All substitutions for a match of `pattern` with capture groups `groups`.
pub open spec fn all_subs(pattern: Seq<char>, groups: Seq<Option<Seq<char>>>) -> Seq<(Seq<char>, Seq<char>)> {
    group_subs(regex_capture_names(pattern), groups)
}

/// `arg` after applying the substitutions in order: each key that occurs in
/// the argument at that point is replaced everywhere by its value. With it,
/// whether some key occurred.
pub open spec fn apply_subs(arg: Seq<char>, subs: Seq<(Seq<char>, Seq<char>)>) -> (Seq<char>, bool)
    decreases subs.len(),
{
    if subs.len() == 0 {
        (arg, false)
    } else {
        let (a, m) = apply_subs(arg, subs.drop_last());
        let (key, value) = subs.last();
        if seq_contains(a, key) {
            (replace_all(a, key, value), true)
        } else {
            (a, m)
        }
    }
}

/// The expansion of `arg` by the match of `pattern` in `input`: `None` when
/// the regex does not match, else the expanded argument and whether it changed.
pub open spec fn expand_spec(pattern: Seq<char>, arg: Seq<char>, input: Seq<char>) -> Option<(Seq<char>, bool)> {
    match regex_captures(pattern, input) {
        None => None,
        Some(groups) => Some(apply_subs(arg, all_subs(pattern, groups))),
    }
}

/// The expansion of all `args` by the match of `pattern` in `input`: `None`
/// without a regex, when the regex does not match, or when there is no
/// argument; else the expanded arguments and whether some argument changed.
pub open spec fn apply_regex_spec(
    pattern: Option<Seq<char>>,
    args: Seq<Seq<char>>,
    input: Seq<char>,
) -> Option<(Seq<Seq<char>>, bool)> {
    match pattern {
        None => None,
        Some(p) => match regex_captures(p, input) {
            None => None,
            Some(groups) => if args.len() == 0 {
                None
            } else {
                let subs = all_subs(p, groups);
                Some(
                    (
                        args.map_values(|a: Seq<char>| apply_subs(a, subs).0),
                        exists|i: int| 0 <= i < args.len() && (#[trigger] apply_subs(args[i], subs)).1,
                    ),
                )
            },
        },
    }
}

proof fn lemma_unflagged_subs_change_nothing(arg: Seq<char>, subs: Seq<(Seq<char>, Seq<char>)>)
    ensures
        !apply_subs(arg, subs).1 ==> apply_subs(arg, subs).0 == arg,
    decreases subs.len(),
{
    if subs.len() > 0 {
        lemma_unflagged_subs_change_nothing(arg, subs.drop_last());
    }
}

/// The arguments are interpolated one by one, each on its own: with a
/// regex that matches, the arguments come back one for one, each as it
/// comes back when it is the only argument; the arguments are reported
/// changed exactly when some argument, at whatever position, is reported
/// changed on its own; and when none is, all come back as they were. The
/// regex matches the input for several arguments exactly when it does for
/// the first alone.
pub proof fn arguments_are_interpolated_one_by_one(
    pattern: Option<Seq<char>>,
    args: Seq<Seq<char>>,
    input: Seq<char>,
)
    ensures
        args.len() > 0 ==> (apply_regex_spec(pattern, args, input) is None <==> apply_regex_spec(
            pattern,
            seq![args[0]],
            input,
        ) is None),
        apply_regex_spec(pattern, args, input) matches Some((res, modified)) ==> {
            &&& res.len() == args.len()
            &&& forall|i: int|
                0 <= i < args.len() ==> (#[trigger] apply_regex_spec(pattern, seq![args[i]], input)) is Some
                    && (apply_regex_spec(pattern, seq![args[i]], input)->0).0 == seq![res[i]]
            &&& modified <==> exists|i: int|
                0 <= i < args.len() && ((#[trigger] apply_regex_spec(pattern, seq![args[i]], input))->0).1
            &&& !modified ==> res == args
        },
{
    if let Some(p) = pattern {
        if let Some(groups) = regex_captures(p, input) {
            if args.len() > 0 {
                let subs = all_subs(p, groups);
                assert forall|i: int| 0 <= i < args.len() implies (#[trigger] apply_regex_spec(
                    pattern,
                    seq![args[i]],
                    input,
                )) is Some && (apply_regex_spec(pattern, seq![args[i]], input)->0).0 == seq![
                    apply_subs(args[i], subs).0
                ] && (apply_regex_spec(pattern, seq![args[i]], input)->0).1 == apply_subs(args[i], subs).1 by {
                    let one = seq![args[i]];
                    assert(one.map_values(|a: Seq<char>| apply_subs(a, subs).0) =~= seq![apply_subs(args[i], subs).0]);
                    if apply_subs(args[i], subs).1 {
                        assert(0 <= 0 < one.len() && (#[trigger] apply_subs(one[0], subs)).1);
                    }
                }
                let res = args.map_values(|a: Seq<char>| apply_subs(a, subs).0);
                let modified = exists|k: int| 0 <= k < args.len() && (#[trigger] apply_subs(args[k], subs)).1;
                if modified {
                    let k = choose|k: int| 0 <= k < args.len() && (#[trigger] apply_subs(args[k], subs)).1;
                    assert((apply_regex_spec(pattern, seq![args[k]], input)->0).1);
                } else {
                    assert forall|i: int| 0 <= i < args.len() implies res[i] == args[i] by {
                        lemma_unflagged_subs_change_nothing(args[i], subs);
                        assert(!apply_subs(args[i], subs).1);
                    }
                    assert(res =~= args);
                }
                if exists|i: int|
                    0 <= i < args.len() && ((#[trigger] apply_regex_spec(pattern, seq![args[i]], input))->0).1 {
                    let i = choose|i: int|
                        0 <= i < args.len() && ((#[trigger] apply_regex_spec(pattern, seq![args[i]], input))->0).1;
                    assert(apply_subs(args[i], subs).1);
                }
            }
        }
    }
}

// ---------------------------------------------------------------------------
// The regex of the command line
// ---------------------------------------------------------------------------
#[derive(Debug, Eq, PartialEq)]
pub struct ApplyRegexToArgumentsResult {
    pub arguments: Vec<String>,
    pub modified_arguments: bool,
}

/// The regex given on the command line does not compile.
#[derive(Debug, Eq, PartialEq)]
pub struct CommandLineRegexError {
    /// The text of the error that the regex crate reported.
    pub regex_error: String,
}

struct ExpandResult {
    argument: String,
    modified_argument: bool,
}

/// The view of the named group keys: index and key.
pub open spec fn named_view(v: Seq<(usize, String)>) -> Seq<(int, Seq<char>)> {
    v.map_values(|p: (usize, String)| (p.0 as int, p.1@))
}

/// The keys `{N}` and `{name}` of the capture groups of a regex, made once
/// from the names of its groups.
pub struct CaptureGroupKeys {
    numbered_group_match_keys: Vec<String>,
    named_group_to_match_key: Vec<(usize, String)>,
    names: Ghost<Seq<Option<Seq<char>>>>,
}

impl CaptureGroupKeys {
    #[verifier::type_invariant]
    closed spec fn keys_match_names(self) -> bool {
        &&& strings_view(self.numbered_group_match_keys@) == numbered_keys(self.names@.len())
        &&& named_view(self.named_group_to_match_key@) == named_keys(self.names@)
    }

    /// The names of the capture groups, group 0 first.
    pub closed spec fn names(&self) -> Seq<Option<Seq<char>>> {
        self.names@
    }

    fn match_key_string(name: &str) -> (r: String)
        ensures
            r@ == match_key(name@),
    {
        let mut r = "{".to_owned();
        r.append(name);
        r.append("}");
        proof {
            reveal_strlit("{");
            reveal_strlit("}");
        }
        assert(r@ =~= match_key(name@));
        r
    }

    /// The keys of the groups named `capture_names` (`None` for a group
    /// without a name): `{i}` for the group at index `i`, and `{name}` for
    /// each named group.
    pub fn new(capture_names: &Vec<Option<String>>) -> (r: Self)
        ensures
            r.names() == crate::parser::compiled_regex::opt_strings_view(capture_names@),
    {
        let ghost names = crate::parser::compiled_regex::opt_strings_view(capture_names@);
        let mut numbered_group_match_keys: Vec<String> = Vec::new();
        let mut named_group_to_match_key: Vec<(usize, String)> = Vec::new();
        let mut i: usize = 0;
        while i < capture_names.len()
            invariant
                i <= capture_names@.len(),
                crate::parser::compiled_regex::opt_strings_view(capture_names@) == names,
                strings_view(numbered_group_match_keys@) == numbered_keys(i as nat),
                named_view(named_group_to_match_key@) == named_keys(names.take(i as int)),
            decreases capture_names.len() - i,
        {
            let ghost before = strings_view(numbered_group_match_keys@);
            let index_text = decimal_string(i as u64);
            let key = Self::match_key_string(index_text.as_str());
            numbered_group_match_keys.push(key);
            assert(strings_view(numbered_group_match_keys@) =~= numbered_keys((i + 1) as nat)) by {
                assert(strings_view(numbered_group_match_keys@) =~= before.push(match_key(decimal(i as nat))));
            };
            assert(names.take(i + 1).drop_last() =~= names.take(i as int));
            assert(names[i as int] == crate::parser::compiled_regex::opt_string_view(capture_names@[i as int]));
            match &capture_names[i] {
                Some(name) => {
                    let ghost before_named = named_view(named_group_to_match_key@);
                    let key = Self::match_key_string(name.as_str());
                    named_group_to_match_key.push((i, key));
                    assert(named_view(named_group_to_match_key@) =~= before_named.push((i as int, match_key(name@))));
                },
                None => {},
            }
            i = i + 1;
        }
        assert(names.take(capture_names@.len() as int) =~= names);
        CaptureGroupKeys { numbered_group_match_keys, named_group_to_match_key, names: Ghost(names) }
    }

    /// Replaces `key` in `argument` by `value` if it occurs there.
    fn update_argument(argument: &mut Vec<char>, modified: &mut bool, key: &String, value: &String)
        requires
            key@.len() > 0,
        ensures
            seq_contains(old(argument)@, key@) ==> final(argument)@ == replace_all(old(argument)@, key@, value@) && *final(modified),
            !seq_contains(old(argument)@, key@) ==> final(argument)@ == old(argument)@ && *final(modified) == *old(modified),
    {
        let key_chars = chars_of(key.as_str());
        if contains_chars(argument.as_slice(), key_chars.as_slice()) {
            let value_chars = chars_of(value.as_str());
            let replaced = replace_chars(argument.as_slice(), key_chars.as_slice(), value_chars.as_slice());
            *argument = replaced;
            *modified = true;
        }
    }

    /// `argument` with the text of each capture group of a match put in
    /// place of its keys: first each numbered group that took part in the
    /// match, in order, then each named one, in order; and whether some key
    /// occurred.
    pub fn expand(&self, argument: &str, groups: &Vec<Option<String>>) -> (r: (String, bool))
        ensures
            (r.0@, r.1) == apply_subs(
                argument@,
                group_subs(self.names(), crate::parser::compiled_regex::opt_strings_view(groups@)),
            ),
    {
        proof {
            use_type_invariant(self);
        }
        let ghost g = crate::parser::compiled_regex::opt_strings_view(groups@);
        let ghost names = self.names@;
        let ghost keys = numbered_keys(names.len());
        let ghost named = named_keys(names);
        let mut arg = chars_of(argument);
        let mut modified = false;
        let keys_vec = &self.numbered_group_match_keys;
        let mut i: usize = 0;
        while i < groups.len()
            invariant
                i <= groups@.len(),
                g == crate::parser::compiled_regex::opt_strings_view(groups@),
                strings_view(keys_vec@) == keys,
                keys == numbered_keys(names.len()),
                (arg@, modified) == apply_subs(argument@, numbered_subs(keys, g, i as nat)),
            decreases groups.len() - i,
        {
            let ghost before = numbered_subs(keys, g, i as nat);
            if i < keys_vec.len() {
                match &groups[i] {
                    Some(value) => {
                        assert(keys_vec@[i as int]@ == keys[i as int]);
                        assert(keys[i as int].len() > 0);
                        assert(g[i as int] == Some(value@));
                        Self::update_argument(&mut arg, &mut modified, &keys_vec[i], value);
                        assert(numbered_subs(keys, g, (i + 1) as nat) == before.push((keys[i as int], value@)));
                        assert(before.push((keys[i as int], value@)).drop_last() =~= before);
                    },
                    None => {
                        assert(g[i as int] is None);
                    },
                }
            }
            i = i + 1;
        }
        let ghost numbered = numbered_subs(keys, g, g.len());
        let named_vec = &self.named_group_to_match_key;
        let mut j: usize = 0;
        assert(numbered + named_subs(named, g, 0) =~= numbered);
        while j < named_vec.len()
            invariant
                j <= named_vec@.len(),
                g == crate::parser::compiled_regex::opt_strings_view(groups@),
                named_view(named_vec@) == named,
                named == named_keys(names),
                (arg@, modified) == apply_subs(argument@, numbered + named_subs(named, g, j as nat)),
            decreases named_vec.len() - j,
        {
            let ghost before = numbered + named_subs(named, g, j as nat);
            let idx = named_vec[j].0;
            assert(named[j as int] == (idx as int, named_vec@[j as int].1@));
            if idx < groups.len() {
                match &groups[idx] {
                    Some(value) => {
                        assert(g[idx as int] == Some(value@));
                        proof {
                            lemma_named_keys_nonempty(names, j as int);
                        }
                        Self::update_argument(&mut arg, &mut modified, &named_vec[j].1, value);
                        assert(numbered + named_subs(named, g, (j + 1) as nat) =~= before.push((named[j as int].1, value@)));
                        assert(before.push((named[j as int].1, value@)).drop_last() =~= before);
                    },
                    None => {
                        assert(numbered + named_subs(named, g, (j + 1) as nat) =~= before);
                    },
                }
            } else {
                assert(numbered + named_subs(named, g, (j + 1) as nat) =~= before);
            }
            j = j + 1;
        }
        (string_from_chars(arg.as_slice()), modified)
    }
}

struct CommandLineRegex {
    regex: CompiledRegex,
    keys: CaptureGroupKeys,
}

impl CommandLineRegex {
    #[verifier::type_invariant]
    closed spec fn keys_match_groups(self) -> bool {
        self.keys.names() == regex_capture_names(self.regex@)
    }

    closed spec fn pattern(self) -> Seq<char> {
        self.regex@
    }

    fn new(command_line_args_regex: &str) -> (r: Result<Self, String>)
        ensures
            match r {
                Ok(c) => c.pattern() == command_line_args_regex@ && crate::parser::compiled_regex::regex_new_error(command_line_args_regex@) is None,
                Err(e) => crate::parser::compiled_regex::regex_new_error(command_line_args_regex@) == Some(e@),
            },
    {
        let regex = match CompiledRegex::new(command_line_args_regex) {
            Ok(regex) => regex,
            Err(e) => return Err(e),
        };
        let keys = CaptureGroupKeys::new(&regex.capture_names());
        Ok(CommandLineRegex { regex, keys })
    }

    fn expand(&self, argument: &str, input_data: &str) -> (r: Option<ExpandResult>)
        ensures
            match r {
                None => expand_spec(self.pattern(), argument@, input_data@) is None,
                Some(e) => expand_spec(self.pattern(), argument@, input_data@) == Some((e.argument@, e.modified_argument)),
            },
    {
        proof {
            use_type_invariant(self);
        }
        let groups = match self.regex.captures(input_data) {
            None => return None,
            Some(groups) => groups,
        };
        let (argument, modified_argument) = self.keys.expand(argument, &groups);
        Some(ExpandResult { argument, modified_argument })
    }
}

proof fn lemma_named_keys_nonempty(names: Seq<Option<Seq<char>>>, j: int)
    requires
        0 <= j < named_keys(names).len(),
    ensures
        named_keys(names)[j].1.len() > 0,
    decreases names.len(),
{
    if names.len() > 0 {
        let prev = named_keys(names.drop_last());
        if j < prev.len() {
            lemma_named_keys_nonempty(names.drop_last(), j);
        }
    }
}

// ---------------------------------------------------------------------------
// The automatic regex of argument groups
// ---------------------------------------------------------------------------
/// The number of runs of non-separators.
pub open spec fn count_argument_runs(runs: Seq<(bool, Seq<Seq<char>>)>) -> nat
    decreases runs.len(),
{
    if runs.len() == 0 {
        0
    } else {
        count_argument_runs(runs.drop_last()) + if runs.last().0 {
            0nat
        } else {
            1nat
        }
    }
}

/// `n` groups `(.*)` separated by single spaces.
pub open spec fn auto_pattern(n: nat) -> Seq<char>
    decreases n,
{
    if n == 0 {
        seq![]
    } else if n == 1 {
        "(.*)"@
    } else {
        auto_pattern((n - 1) as nat) + seq![' '] + "(.*)"@
    }
}

/// The regex that matches one argument group per line of input: none when
/// the arguments begin with a separator, else one `(.*)` per argument group
/// after the first run of arguments.
pub open spec fn auto_interpolate_spec(args: Seq<Seq<char>>) -> Option<Seq<char>> {
    let runs = separator_runs(args);
    if runs.len() == 0 {
        Some(seq![])
    } else if runs[0].0 {
        None
    } else {
        Some(auto_pattern(count_argument_runs(runs.subrange(1, runs.len() as int))))
    }
}

/// The regex made up for argument groups: only when no regex is given and
/// the commands come from argument groups.
pub open spec fn auto_regex_spec(args: CommandLineArgs) -> Option<Seq<char>> {
    let view = strings_view(args.command_and_initial_arguments@);
    if args.regex is None && has_separator(view) {
        auto_interpolate_spec(view)
    } else {
        None
    }
}

/// A regex made up for the argument groups of the command line.
#[derive(Debug)]
pub struct AutoCommandLineArgsRegex(pub String);

impl AutoCommandLineArgsRegex {
    /// The made up regex for `command_line_args`, if any.
    pub fn new(command_line_args: &CommandLineArgs) -> (r: Option<Self>)
        ensures
            match r {
                Some(a) => auto_regex_spec(*command_line_args) == Some(a.0@),
                None => auto_regex_spec(*command_line_args) is None,
            },
    {
        if command_line_args.regex.is_none() && command_line_args.commands_from_args_mode() {
            Self::new_auto_interpolate_args(command_line_args)
        } else {
            None
        }
    }

    fn new_auto_interpolate_args(command_line_args: &CommandLineArgs) -> (r: Option<Self>)
        ensures
            match r {
                Some(a) => auto_interpolate_spec(strings_view(command_line_args.command_and_initial_arguments@)) == Some(a.0@),
                None => auto_interpolate_spec(strings_view(command_line_args.command_and_initial_arguments@)) is None,
            },
    {
        let runs = chunk_by_separator(&command_line_args.command_and_initial_arguments);
        let ghost rv = runs_view(runs@);
        if runs.len() == 0 {
            return Some(AutoCommandLineArgsRegex(String::new()));
        }
        if runs[0].0 {
            assert(rv[0].0);
            return None;
        }
        let mut argument_group_count: usize = 0;
        let mut k: usize = 1;
        assert(rv.subrange(1, 1) =~= Seq::<(bool, Seq<Seq<char>>)>::empty());
        while k < runs.len()
            invariant
                1 <= k <= runs@.len(),
                rv == runs_view(runs@),
                argument_group_count == count_argument_runs(rv.subrange(1, k as int)),
                argument_group_count <= k,
            decreases runs.len() - k,
        {
            assert(rv.subrange(1, k + 1).drop_last() =~= rv.subrange(1, k as int));
            if !runs[k].0 {
                argument_group_count = argument_group_count + 1;
            }
            k = k + 1;
        }
        let mut generated_regex = String::new();
        let mut i: usize = 0;
        proof {
            reveal_strlit("(.*)");
            reveal_strlit(" ");
        }
        while i < argument_group_count
            invariant
                i <= argument_group_count,
                generated_regex@ == auto_pattern(i as nat),
            decreases argument_group_count - i,
        {
            if i != 0 {
                generated_regex.append(" ");
            }
            generated_regex.append("(.*)");
            proof {
                reveal_strlit("(.*)");
                reveal_strlit(" ");
            }
            assert(generated_regex@ =~= auto_pattern((i + 1) as nat));
            i = i + 1;
        }
        Some(AutoCommandLineArgsRegex(generated_regex))
    }
}

// ---------------------------------------------------------------------------
// The regex processor
// ---------------------------------------------------------------------------
/// The pattern that the settings ask for: the regex given, else the
/// made up regex of argument groups, else none.
pub open spec fn chosen_pattern(args: CommandLineArgs) -> Option<Seq<char>> {
    match auto_regex_spec(args) {
        Some(a) => Some(a),
        None => match args.regex {
            Some(r) => Some(r@),
            None => None,
        },
    }
}

/// Applies the regex of the command line, if any, to arguments.
pub struct RegexProcessor {
    command_line_regex: Option<CommandLineRegex>,
}

impl RegexProcessor {
    /// The pattern of the regex in use, if any.
    pub closed spec fn pattern(&self) -> Option<Seq<char>> {
        match self.command_line_regex {
            Some(r) => Some(r.pattern()),
            None => None,
        }
    }

    /// The processor for the settings: with the regex given, else with the
    /// made up regex of argument groups, else without a regex. An error
    /// when the chosen regex does not compile.
    pub fn new(command_line_args: &CommandLineArgs) -> (r: Result<Self, CommandLineRegexError>)
        ensures
            match r {
                Ok(p) => p.pattern() == chosen_pattern(*command_line_args) && (p.pattern() matches Some(pat) ==> crate::parser::compiled_regex::regex_new_error(pat) is None),
                Err(e) => chosen_pattern(*command_line_args) matches Some(pat) && crate::parser::compiled_regex::regex_new_error(pat) == Some(e.regex_error@),
            },
    {
        let auto_regex = AutoCommandLineArgsRegex::new(command_line_args);
        let pattern: Option<String> = match auto_regex {
            Some(auto_regex) => Some(auto_regex.0),
            None => match &command_line_args.regex {
                Some(cla_regex) => Some(copy_string(cla_regex)),
                None => None,
            },
        };
        let command_line_regex = match pattern {
            None => None,
            Some(p) => match CommandLineRegex::new(p.as_str()) {
                Ok(c) => Some(c),
                Err(e) => return Err(CommandLineRegexError { regex_error: e }),
            },
        };
        Ok(RegexProcessor { command_line_regex })
    }

    /// Whether a regex is in use.
    pub fn regex_mode(&self) -> (r: bool)
        ensures
            r == self.pattern() is Some,
    {
        self.command_line_regex.is_some()
    }

    /// Each argument with the capture groups of the regex's match in
    /// `input_data` interpolated, and whether some argument changed. `None`
    /// without a regex, when the regex does not match or when there is no
    /// argument.
    pub fn apply_regex_to_arguments(&self, arguments: &Vec<String>, input_data: &str) -> (r: Option<
        ApplyRegexToArgumentsResult,
    >)
        ensures
            match r {
                None => apply_regex_spec(self.pattern(), strings_view(arguments@), input_data@) is None,
                Some(res) => apply_regex_spec(self.pattern(), strings_view(arguments@), input_data@)
                    == Some((strings_view(res.arguments@), res.modified_arguments)),
            },
    {
        let command_line_regex = match &self.command_line_regex {
            Some(command_line_regex) => command_line_regex,
            None => return None,
        };
        let ghost p = command_line_regex.pattern();
        let ghost args = strings_view(arguments@);
        let ghost subs = all_subs(p, regex_captures(p, input_data@)->0);
        let mut results: Vec<String> = Vec::new();
        let mut found_match = false;
        let mut modified_arguments = false;
        let mut i: usize = 0;
        while i < arguments.len()
            invariant
                i <= arguments@.len(),
                args == strings_view(arguments@),
                p == command_line_regex.pattern(),
                subs == all_subs(p, regex_captures(p, input_data@)->0),
                results@.len() == i,
                found_match == (i > 0 && regex_captures(p, input_data@) is Some),
                found_match ==> forall|k: int| 0 <= k < i ==> results@[k]@ == (#[trigger] apply_subs(args[k], subs)).0,
                !found_match ==> forall|k: int| 0 <= k < i ==> #[trigger] results@[k]@ == args[k],
                found_match ==> (modified_arguments <==> exists|k: int| 0 <= k < i && (#[trigger] apply_subs(args[k], subs)).1),
                !found_match ==> !modified_arguments,
            decreases arguments.len() - i,
        {
            match command_line_regex.expand(arguments[i].as_str(), input_data) {
                Some(result) => {
                    let ghost old_modified = modified_arguments;
                    results.push(result.argument);
                    found_match = true;
                    modified_arguments = modified_arguments || result.modified_argument;
                    assert(apply_subs(args[i as int], subs) == (result.argument@, result.modified_argument));
                    if result.modified_argument {
                        assert(0 <= i < i + 1 && apply_subs(args[i as int], subs).1);
                        assert(exists|k: int| 0 <= k < i + 1 && (#[trigger] apply_subs(args[k], subs)).1);
                    } else {
                        assert(modified_arguments == old_modified);
                        assert(modified_arguments <==> exists|k: int| 0 <= k < i + 1 && (#[trigger] apply_subs(args[k], subs)).1) by {
                            if exists|k: int| 0 <= k < i + 1 && (#[trigger] apply_subs(args[k], subs)).1 {
                                let k = choose|k: int| 0 <= k < i + 1 && (#[trigger] apply_subs(args[k], subs)).1;
                                assert(k != i);
                            }
                        };
                    }
                },
                None => {
                    results.push(copy_string(&arguments[i]));
                },
            }
            i = i + 1;
        }
        if !found_match {
            None
        } else {
            assert(strings_view(results@) =~= args.map_values(|a: Seq<char>| apply_subs(a, subs).0));
            Some(ApplyRegexToArgumentsResult { arguments: results, modified_arguments })
        }
    }
}

} // verus!
