//! Commands from the argument groups of the command line: `cmd ::: a b ::: c d`
//! runs `cmd` with each combination of one argument from each group.
use vstd::prelude::*;

use ::itertools::Itertools;

use crate::command_line_args::CommandLineArgs;
use crate::common::{describes, OwnedCommandAndArgs};
use crate::parser::regex::{
    apply_regex_spec, auto_interpolate_spec, auto_pattern, auto_regex_spec, count_argument_runs,
    RegexProcessor,
};
use crate::parser::{
    chunk_by_separator, runs_view, separator_runs, shell_prefix_of, shell_wrapped, CommandBuilder,
    ParsedCommand,
};
use crate::text::{concat_strings, copy_strings, join, join_spec, strings_view};

verus! {

/// The cartesian product of `gs`: every sequence made of one element of
/// each of `gs`, in lexicographic order of the positions (the last varies
/// fastest). One empty sequence when `gs` is empty.
pub open spec fn product<A>(gs: Seq<Seq<A>>) -> Seq<Seq<A>>
    decreases gs.len(),
{
    if gs.len() == 0 {
        seq![seq![]]
    } else {
        let rest = product(gs.subrange(1, gs.len() as int));
        gs[0].map_values(|x: A| rest.map_values(|p: Seq<A>| seq![x] + p)).flatten()
    }
}

/// The number of combinations of one element of each of `gs`: the product
/// of their sizes.
pub open spec fn combination_count<A>(gs: Seq<Seq<A>>) -> nat
    decreases gs.len(),
{
    if gs.len() == 0 {
        1
    } else {
        gs[0].len() * combination_count(gs.subrange(1, gs.len() as int))
    }
}

proof fn lemma_flatten_uniform_len<A>(xss: Seq<Seq<A>>, m: nat)
    requires
        forall|i: int| 0 <= i < xss.len() ==> #[trigger] xss[i].len() == m,
    ensures
        xss.flatten().len() == xss.len() * m,
    decreases xss.len(),
{
    if xss.len() > 0 {
        lemma_flatten_uniform_len(xss.drop_first(), m);
        let n = xss.len() as int;
        assert(n * m == m + (n - 1) * m) by (nonlinear_arith);
    }
}

proof fn lemma_flatten_index<A>(xss: Seq<Seq<A>>, k: int) -> (ij: (int, int))
    requires
        0 <= k < xss.flatten().len(),
    ensures
        0 <= ij.0 < xss.len(),
        0 <= ij.1 < xss[ij.0].len(),
        xss.flatten()[k] == xss[ij.0][ij.1],
    decreases xss.len(),
{
    let f = xss.first();
    if k < f.len() {
        (0, k)
    } else {
        let (i, j) = lemma_flatten_index(xss.drop_first(), k - f.len());
        (i + 1, j)
    }
}

proof fn lemma_flatten_uniform_at<A>(xss: Seq<Seq<A>>, m: nat, i: int, j: int)
    requires
        forall|t: int| 0 <= t < xss.len() ==> #[trigger] xss[t].len() == m,
        0 <= i < xss.len(),
        0 <= j < m,
    ensures
        i * m + j < xss.flatten().len(),
        xss.flatten()[i * m + j] == xss[i][j],
    decreases xss.len(),
{
    lemma_flatten_uniform_len(xss, m);
    let rest = xss.drop_first();
    assert(xss.flatten() == xss.first() + rest.flatten());
    if i > 0 {
        assert forall|t: int| 0 <= t < rest.len() implies #[trigger] rest[t].len() == m by {
            assert(rest[t] == xss[t + 1]);
        }
        lemma_flatten_uniform_at(rest, m, i - 1, j);
        assert((i - 1) * m + j + m == i * m + j) by (nonlinear_arith);
        assert(rest[i - 1] == xss[i]);
    } else {
        assert(i * m + j == j) by (nonlinear_arith)
            requires
                i == 0,
        ;
    }
}

/// Every combination of one argument from each group, in the order of the
/// groups, is among the commands of the argument groups.
pub proof fn product_has_every_combination<A>(gs: Seq<Seq<A>>, c: Seq<A>)
    requires
        c.len() == gs.len(),
        forall|j: int| 0 <= j < gs.len() ==> gs[j].contains(#[trigger] c[j]),
    ensures
        product(gs).contains(c),
    decreases gs.len(),
{
    if gs.len() == 0 {
        assert(c =~= Seq::<A>::empty());
        assert(product(gs)[0] == c);
    } else {
        let sub = gs.subrange(1, gs.len() as int);
        let c1 = c.drop_first();
        assert forall|j: int| 0 <= j < sub.len() implies sub[j].contains(#[trigger] c1[j]) by {
            assert(sub[j] == gs[j + 1] && c1[j] == c[j + 1]);
        }
        product_has_every_combination(sub, c1);
        let rest = product(sub);
        let k1 = choose|k: int| 0 <= k < rest.len() && rest[k] == c1;
        assert(gs[0].contains(c[0]));
        let i0 = choose|i: int| 0 <= i < gs[0].len() && gs[0][i] == c[0];
        let xss = gs[0].map_values(|x: A| rest.map_values(|p: Seq<A>| seq![x] + p));
        assert forall|t: int| 0 <= t < xss.len() implies #[trigger] xss[t].len() == rest.len() by {}
        lemma_flatten_uniform_at(xss, rest.len(), i0, k1);
        assert(product(gs) == xss.flatten());
        assert(xss[i0][k1] == seq![gs[0][i0]] + rest[k1]);
        assert(seq![c[0]] + c1 =~= c);
        assert(product(gs)[i0 * rest.len() + k1] == c);
    }
}

/// The argument groups give as many commands as the product of the groups'
/// sizes, and the command of each combination takes, at each position, an
/// argument of the group at that position.
pub proof fn product_counts_and_picks<A>(gs: Seq<Seq<A>>)
    ensures
        product(gs).len() == combination_count(gs),
        forall|k: int| 0 <= k < product(gs).len() ==> #[trigger] product(gs)[k].len() == gs.len(),
        forall|k: int, i: int|
            0 <= k < product(gs).len() && 0 <= i < gs.len() ==> gs[i].contains(
                #[trigger] product(gs)[k][i],
            ),
    decreases gs.len(),
{
    if gs.len() > 0 {
        let sub = gs.subrange(1, gs.len() as int);
        product_counts_and_picks(sub);
        let rest = product(sub);
        let xss = gs[0].map_values(|x: A| rest.map_values(|p: Seq<A>| seq![x] + p));
        assert forall|i: int| 0 <= i < xss.len() implies #[trigger] xss[i].len() == rest.len() by {}
        lemma_flatten_uniform_len(xss, rest.len());
        assert(product(gs) == xss.flatten());
        assert forall|k: int| 0 <= k < product(gs).len() implies #[trigger] product(gs)[k].len() == gs.len() by {
            let (a, b) = lemma_flatten_index(xss, k);
            assert(product(gs)[k] == seq![gs[0][a]] + rest[b]);
        }
        assert forall|k: int, i: int|
            0 <= k < product(gs).len() && 0 <= i < gs.len() implies gs[i].contains(
                #[trigger] product(gs)[k][i],
            ) by {
            let (a, b) = lemma_flatten_index(xss, k);
            let c = product(gs)[k];
            assert(c == seq![gs[0][a]] + rest[b]);
            if i == 0 {
                assert(gs[0][a] == c[0]);
            } else {
                assert(c[i] == rest[b][i - 1]);
                assert(sub[i - 1] == gs[i]);
            }
        }
    }
}

/// The views of a sequence of groups of strings.
pub open spec fn groups_view(v: Seq<Vec<String>>) -> Seq<Seq<Seq<char>>> {
    v.map_values(|g: Vec<String>| strings_view(g@))
}

/// The cartesian product of the groups, by itertools'
/// `Itertools::multi_cartesian_product`.
///
/// Trusted: the contract claims that `multi_cartesian_product` yields each
/// combination of one item of each group, the last group varying fastest,
/// and a single empty combination when there is no group, as its
/// documentation says.
#[verifier::external_body]
fn cartesian_product(groups: Vec<Vec<String>>) -> (r: Vec<Vec<String>>)
    ensures
        groups_view(r@) == product(groups_view(groups@)),
{
    groups.into_iter().multi_cartesian_product().collect()
}

/// The command and arguments before the first separator.
pub open spec fn first_group_spec(runs: Seq<(bool, Seq<Seq<char>>)>) -> Seq<Seq<char>> {
    if runs.len() > 0 && !runs[0].0 {
        runs[0].1
    } else {
        seq![]
    }
}

/// The runs of non-separators among `runs`.
pub open spec fn argument_runs(runs: Seq<(bool, Seq<Seq<char>>)>) -> Seq<Seq<Seq<char>>>
    decreases runs.len(),
{
    if runs.len() == 0 {
        seq![]
    } else {
        let prev = argument_runs(runs.drop_last());
        if runs.last().0 {
            prev
        } else {
            prev.push(runs.last().1)
        }
    }
}

/// The argument groups: the runs of non-separators after the first run.
pub open spec fn argument_groups_spec(runs: Seq<(bool, Seq<Seq<char>>)>) -> Seq<Seq<Seq<char>>> {
    if runs.len() == 0 {
        seq![]
    } else {
        argument_runs(runs.subrange(1, runs.len() as int))
    }
}

/// The words of the command for the argument group `group`: without a
/// regex, the first words followed by the group; with a regex, the first
/// words with the group (joined with spaces) interpolated, or, when no
/// argument changed, the first words followed by the group. `None` when the
/// regex does not match.
pub open spec fn group_words(
    pattern: Option<Seq<char>>,
    first: Seq<Seq<char>>,
    group: Seq<Seq<char>>,
) -> Option<Seq<Seq<char>>> {
    match pattern {
        None => Some(first + group),
        Some(_) => match apply_regex_spec(pattern, first, join_spec(group, " "@)) {
            None => None,
            Some((args, modified)) => if modified {
                Some(args)
            } else {
                Some(first + group)
            },
        },
    }
}

/// In regex mode the regex is matched against the arguments of the
/// combination joined with single spaces: a combination and the one
/// argument made of its arguments joined with single spaces are matched
/// alike (one gives no command exactly when the other gives none), and
/// where the regex changes some of the first words, both give those changed
/// words.
pub proof fn combination_matched_as_space_joined_line(
    p: Seq<char>,
    first: Seq<Seq<char>>,
    group: Seq<Seq<char>>,
)
    ensures
        ({
            let line = join_spec(group, seq![' ']);
            let words = group_words(Some(p), first, group);
            let as_one = group_words(Some(p), first, seq![line]);
            &&& words is None <==> as_one is None
            &&& (apply_regex_spec(Some(p), first, line) matches Some((args, true)) ==> words == Some(args)
                && as_one == Some(args))
        }),
{
    reveal_strlit(" ");
    assert(" "@ =~= seq![' ']);
    let line = join_spec(group, seq![' ']);
    assert(join_spec(seq![line], " "@) == line);
}

/// The command for an argument group: `None` when the group gives no words.
pub open spec fn group_command_ok(
    r: Option<OwnedCommandAndArgs>,
    prefix: Option<Seq<Seq<char>>>,
    pattern: Option<Seq<char>>,
    first: Seq<Seq<char>>,
    group: Seq<Seq<char>>,
) -> bool {
    match group_words(pattern, first, group) {
        None => r is None,
        Some(words) => match r {
            None => shell_wrapped(prefix, words).len() == 0,
            Some(o) => describes(o, shell_wrapped(prefix, words), None),
        },
    }
}

struct ArgumentGroups {
    first_command_and_args: Vec<String>,
    all_argument_groups: Vec<Vec<String>>,
}

/// Produces one command per combination of the argument groups.
pub struct CommandLineArgsParser {
    argument_groups: ArgumentGroups,
    next_argument_group: usize,
    command_builder: CommandBuilder,
    regex_processor: RegexProcessor,
}

impl CommandLineArgsParser {
    /// The words before the first separator.
    pub closed spec fn first_command_and_args(&self) -> Seq<Seq<char>> {
        strings_view(self.argument_groups.first_command_and_args@)
    }

    /// The combinations of arguments that have not been parsed yet.
    pub closed spec fn remaining_argument_groups(&self) -> Seq<Seq<Seq<char>>> {
        groups_view(self.argument_groups.all_argument_groups@).subrange(
            self.next_argument_group as int,
            self.argument_groups.all_argument_groups@.len() as int,
        )
    }

    /// The shell prefix of the commands.
    pub closed spec fn shell_prefix(&self) -> Option<Seq<Seq<char>>> {
        self.command_builder.shell_prefix()
    }

    /// The regex in use.
    pub closed spec fn pattern(&self) -> Option<Seq<char>> {
        self.regex_processor.pattern()
    }

    pub closed spec fn wf(&self) -> bool {
        self.next_argument_group <= self.argument_groups.all_argument_groups@.len()
    }

    /// The parser of the argument groups of `command_line_args`.
    pub fn new(command_line_args: &CommandLineArgs, regex_processor: RegexProcessor) -> (r: Self)
        ensures
            r.wf(),
            ({
                let runs = separator_runs(strings_view(command_line_args.command_and_initial_arguments@));
                &&& r.first_command_and_args() == first_group_spec(runs)
                &&& r.remaining_argument_groups() == product(argument_groups_spec(runs))
            }),
            r.shell_prefix() == shell_prefix_of(*command_line_args),
            r.pattern() == regex_processor.pattern(),
    {
        let argument_groups = Self::build_argument_groups(command_line_args);
        let command_builder = CommandBuilder::new(command_line_args);
        let r = CommandLineArgsParser {
            argument_groups,
            next_argument_group: 0,
            command_builder,
            regex_processor,
        };
        assert(r.remaining_argument_groups() =~= groups_view(r.argument_groups.all_argument_groups@));
        r
    }

    fn build_argument_groups(command_line_args: &CommandLineArgs) -> (r: ArgumentGroups)
        ensures
            ({
                let runs = separator_runs(strings_view(command_line_args.command_and_initial_arguments@));
                &&& strings_view(r.first_command_and_args@) == first_group_spec(runs)
                &&& groups_view(r.all_argument_groups@) == product(argument_groups_spec(runs))
            }),
    {
        let runs = chunk_by_separator(&command_line_args.command_and_initial_arguments);
        let ghost rv = runs_view(runs@);
        let mut first_command_and_args: Vec<String> = Vec::new();
        let mut remaining_argument_groups: Vec<Vec<String>> = Vec::new();
        if runs.len() > 0 {
            if !runs[0].0 {
                first_command_and_args = copy_strings(&runs[0].1);
            }
            let mut k: usize = 1;
            assert(rv.subrange(1, 1) =~= Seq::<(bool, Seq<Seq<char>>)>::empty());
            assert(groups_view(remaining_argument_groups@) =~= Seq::<Seq<Seq<char>>>::empty());
            while k < runs.len()
                invariant
                    1 <= k <= runs@.len(),
                    rv == runs_view(runs@),
                    groups_view(remaining_argument_groups@) == argument_runs(rv.subrange(1, k as int)),
                decreases runs.len() - k,
            {
                assert(rv.subrange(1, k + 1).drop_last() =~= rv.subrange(1, k as int));
                if !runs[k].0 {
                    let ghost before = groups_view(remaining_argument_groups@);
                    remaining_argument_groups.push(copy_strings(&runs[k].1));
                    assert(groups_view(remaining_argument_groups@) =~= before.push(rv[k as int].1));
                }
                k = k + 1;
            }
        } else {
            assert(groups_view(remaining_argument_groups@) =~= Seq::<Seq<Seq<char>>>::empty());
        }
        let all_argument_groups = cartesian_product(remaining_argument_groups);
        ArgumentGroups { first_command_and_args, all_argument_groups }
    }

    fn parse_argument_group(&self, argument_group: Vec<String>) -> (r: Option<OwnedCommandAndArgs>)
        ensures
            group_command_ok(
                r,
                self.shell_prefix(),
                self.pattern(),
                self.first_command_and_args(),
                strings_view(argument_group@),
            ),
    {
        let first = &self.argument_groups.first_command_and_args;
        let cmd_and_args = if !self.regex_processor.regex_mode() {
            concat_strings(first, &argument_group)
        } else {
            let input_line = join(&argument_group, " ");
            match self.regex_processor.apply_regex_to_arguments(first, input_line.as_str()) {
                None => return None,
                Some(result) => {
                    if result.modified_arguments {
                        result.arguments
                    } else {
                        concat_strings(first, &argument_group)
                    }
                },
            }
        };
        self.command_builder.build(ParsedCommand::new(cmd_and_args))
    }

    /// Whether an argument group is left to parse.
    pub fn has_remaining_argument_groups(&self) -> (r: bool)
        requires
            self.wf(),
        ensures
            r == (self.remaining_argument_groups().len() > 0),
    {
        self.next_argument_group < self.argument_groups.all_argument_groups.len()
    }

    /// The number of argument groups left to parse.
    pub fn num_argument_groups(&self) -> (r: usize)
        requires
            self.wf(),
        ensures
            r == self.remaining_argument_groups().len(),
    {
        self.argument_groups.all_argument_groups.len() - self.next_argument_group
    }

    /// Parsing the next argument group of `before` gives `after` and the
    /// command `r`: with no group left, nothing and no change; else the
    /// command of the first group left, which is then consumed.
    pub open spec fn group_step(before: Self, after: Self, r: Option<OwnedCommandAndArgs>) -> bool {
        &&& after.wf()
        &&& after.first_command_and_args() == before.first_command_and_args()
        &&& after.shell_prefix() == before.shell_prefix()
        &&& after.pattern() == before.pattern()
        &&& before.remaining_argument_groups().len() == 0 ==> r is None
            && after.remaining_argument_groups() == before.remaining_argument_groups()
        &&& before.remaining_argument_groups().len() > 0 ==> {
            &&& after.remaining_argument_groups() == before.remaining_argument_groups().subrange(
                1,
                before.remaining_argument_groups().len() as int,
            )
            &&& group_command_ok(
                r,
                before.shell_prefix(),
                before.pattern(),
                before.first_command_and_args(),
                before.remaining_argument_groups()[0],
            )
        }
    }

    /// The command of the next argument group, which is then consumed.
    /// `None` when no group is left, or when the group gives no command.
    pub fn parse_next_argument_group(&mut self) -> (r: Option<OwnedCommandAndArgs>)
        requires
            old(self).wf(),
        ensures
            Self::group_step(*old(self), *final(self), r),
    {
        if self.next_argument_group >= self.argument_groups.all_argument_groups.len() {
            return None;
        }
        let ghost before = self.remaining_argument_groups();
        let argument_group = copy_strings(&self.argument_groups.all_argument_groups[self.next_argument_group]);
        assert(strings_view(argument_group@) == before[0]);
        self.next_argument_group = self.next_argument_group + 1;
        assert(self.remaining_argument_groups() =~= before.subrange(1, before.len() as int));
        self.parse_argument_group(argument_group)
    }
}

/// A run of calls of `parse_next_argument_group`: `states[k + 1]` and
/// `rs[k]` come from the call on `states[k]`.
pub open spec fn group_run(states: Seq<CommandLineArgsParser>, rs: Seq<Option<OwnedCommandAndArgs>>) -> bool {
    &&& states.len() == rs.len() + 1
    &&& forall|k: int|
        0 <= k < rs.len() ==> CommandLineArgsParser::group_step(#[trigger] states[k], states[k + 1], rs[k])
}

/// The argument groups are run in order, each once: over any run of calls
/// of `parse_next_argument_group`, the call numbered `k` gives the command
/// of the `k`-th combination that was left at the start, and, once all `n`
/// of them are used, every further call gives nothing. After `k` calls the
/// combinations left are those after the first `k`, so groups remain
/// exactly while fewer than `n` calls were made.
pub proof fn argument_groups_run_in_order(
    states: Seq<CommandLineArgsParser>,
    rs: Seq<Option<OwnedCommandAndArgs>>,
)
    requires
        group_run(states, rs),
    ensures
        forall|k: int|
            0 <= k < states.len() ==> {
                let gs = states[0].remaining_argument_groups();
                &&& (#[trigger] states[k]).remaining_argument_groups() == gs.subrange(
                    if k < gs.len() { k } else { gs.len() as int },
                    gs.len() as int,
                )
                &&& states[k].first_command_and_args() == states[0].first_command_and_args()
                &&& states[k].shell_prefix() == states[0].shell_prefix()
                &&& states[k].pattern() == states[0].pattern()
            },
        forall|k: int|
            0 <= k < rs.len() ==> if k < states[0].remaining_argument_groups().len() {
                group_command_ok(
                    #[trigger] rs[k],
                    states[0].shell_prefix(),
                    states[0].pattern(),
                    states[0].first_command_and_args(),
                    states[0].remaining_argument_groups()[k],
                )
            } else {
                rs[k] is None
            },
    decreases rs.len(),
{
    let gs = states[0].remaining_argument_groups();
    let n = gs.len() as int;
    if rs.len() == 0 {
        assert(states[0].remaining_argument_groups() =~= gs.subrange(0, n));
    } else {
        let m = rs.len() - 1;
        let states0 = states.drop_last();
        let rs0 = rs.drop_last();
        assert forall|k: int| 0 <= k < rs0.len() implies CommandLineArgsParser::group_step(
            #[trigger] states0[k],
            states0[k + 1],
            rs0[k],
        ) by {
            assert(states0[k] == states[k]);
            assert(states0[k + 1] == states[k + 1]);
            assert(rs0[k] == rs[k]);
            assert(CommandLineArgsParser::group_step(states[k], states[k + 1], rs[k]));
        }
        argument_groups_run_in_order(states0, rs0);
        assert(states0[0] == states[0]);
        let before = states[m];
        let after = states[m + 1];
        assert(states0[m] == before);
        assert(CommandLineArgsParser::group_step(states[m], states[m + 1], rs[m]));
        let start = if m < n { m } else { n };
        assert(before.remaining_argument_groups() == gs.subrange(start, n));
        if m < n {
            assert(before.remaining_argument_groups()[0] == gs[m]);
            assert(after.remaining_argument_groups() =~= gs.subrange(m + 1, n));
        }
        assert forall|k: int| 0 <= k < states.len() implies {
            &&& (#[trigger] states[k]).remaining_argument_groups() == gs.subrange(
                if k < gs.len() { k } else { gs.len() as int },
                gs.len() as int,
            )
            &&& states[k].first_command_and_args() == states[0].first_command_and_args()
            &&& states[k].shell_prefix() == states[0].shell_prefix()
            &&& states[k].pattern() == states[0].pattern()
        } by {
            if k <= m {
                assert(states0[k] == states[k]);
            }
        }
        assert forall|k: int|
            0 <= k < rs.len() implies if k < n {
                group_command_ok(
                    #[trigger] rs[k],
                    states[0].shell_prefix(),
                    states[0].pattern(),
                    states[0].first_command_and_args(),
                    gs[k],
                )
            } else {
                rs[k] is None
            } by {
            if k < m {
                assert(rs0[k] == rs[k]);
            }
        }
    }
}

proof fn lemma_count_is_number_of_argument_runs(runs: Seq<(bool, Seq<Seq<char>>)>)
    ensures
        count_argument_runs(runs) == argument_runs(runs).len(),
    decreases runs.len(),
{
    if runs.len() > 0 {
        lemma_count_is_number_of_argument_runs(runs.drop_last());
    }
}

proof fn lemma_auto_pattern_joins_groups(n: nat)
    ensures
        auto_pattern(n) == join_spec(Seq::new(n, |i: int| seq!['(', '.', '*', ')']), seq![' ']),
    decreases n,
{
    reveal_strlit("(.*)");
    let gs = Seq::new(n, |i: int| seq!['(', '.', '*', ')']);
    if n == 1 {
        assert("(.*)"@ =~= seq!['(', '.', '*', ')']);
    } else if n > 1 {
        lemma_auto_pattern_joins_groups((n - 1) as nat);
        assert(gs.drop_last() =~= Seq::new((n - 1) as nat, |i: int| seq!['(', '.', '*', ')']));
        assert("(.*)"@ =~= seq!['(', '.', '*', ')']);
    }
}

/// The regex made up for the argument groups has one capture group `(.*)`
/// for each argument group, whatever their number: it is `(.*)` once per
/// argument group after the first run of arguments, with single spaces
/// between them.
pub proof fn auto_regex_has_a_group_per_argument_group(args: CommandLineArgs)
    ensures
        auto_regex_spec(args) matches Some(p) ==> p == join_spec(
            Seq::new(
                argument_groups_spec(separator_runs(strings_view(args.command_and_initial_arguments@))).len(),
                |i: int| seq!['(', '.', '*', ')'],
            ),
            seq![' '],
        ),
{
    let runs = separator_runs(strings_view(args.command_and_initial_arguments@));
    if runs.len() > 0 {
        lemma_count_is_number_of_argument_runs(runs.subrange(1, runs.len() as int));
        lemma_auto_pattern_joins_groups(count_argument_runs(runs.subrange(1, runs.len() as int)));
    } else {
        assert(join_spec(Seq::new(0, |i: int| seq!['(', '.', '*', ')']), seq![' ']) =~= Seq::<char>::empty());
        assert(auto_interpolate_spec(strings_view(args.command_and_initial_arguments@)) == Some(Seq::<char>::empty()));
    }
}

} // verus!
