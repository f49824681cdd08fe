//! A cache of the full paths that command names resolve to.
use vstd::prelude::*;

use crate::command_line_args::CommandLineArgs;
use crate::parser::compiled_regex::opt_string_view;
use crate::text::{chars_of, copy_string, same_text, string_from_chars, strings_view};

verus! {

// ---------------------------------------------------------------------------
// Command paths compared as paths
// ---------------------------------------------------------------------------
/// `cur` as a part of a path: nothing when it is empty or `.`.
pub open spec fn path_part(cur: Seq<char>) -> Seq<Seq<char>> {
    if cur.len() == 0 || cur == seq!['.'] {
        seq![]
    } else {
        seq![cur]
    }
}

/// The parts of `s` between slashes, following a partial part `cur`, leaving
/// out empty parts and `.`.
pub open spec fn path_parts_from(s: Seq<char>, cur: Seq<char>) -> Seq<Seq<char>>
    decreases s.len(),
{
    if s.len() == 0 {
        path_part(cur)
    } else if s[0] == '/' {
        path_part(cur) + path_parts_from(s.subrange(1, s.len() as int), seq![])
    } else {
        path_parts_from(s.subrange(1, s.len() as int), cur.push(s[0]))
    }
}

/// The components of a Unix path, by which `std::path::Path` compares
/// paths: `/` when the path starts at the root, `.` when its first part is
/// `.`, then its other parts. Repeated slashes, a trailing slash and `.`
/// parts after the first do not count, so `a//b/`, `a/./b` and `a/b` have
/// the same components.
pub open spec fn path_key(path: Seq<char>) -> Seq<Seq<char>> {
    let lead = if path.len() > 0 && path[0] == '/' {
        seq![seq!['/']]
    } else if path.len() > 0 && path[0] == '.' && (path.len() == 1 || path[1] == '/') {
        seq![seq!['.']]
    } else {
        Seq::<Seq<char>>::empty()
    };
    lead + path_parts_from(path, seq![])
}

/// The components of `path`.
pub fn path_key_of(path: &str) -> (r: Vec<String>)
    ensures
        strings_view(r@) == path_key(path@),
{
    let cs = chars_of(path);
    let mut r: Vec<String> = Vec::new();
    proof {
        reveal_strlit("/");
        reveal_strlit(".");
    }
    if cs.len() > 0 && cs[0] == '/' {
        r.push("/".to_owned());
        assert(r@[0]@ =~= seq!['/']);
        assert(strings_view(r@) =~= seq![seq!['/']]);
    } else if cs.len() > 0 && cs[0] == '.' && (cs.len() == 1 || cs[1] == '/') {
        r.push(".".to_owned());
        assert(r@[0]@ =~= seq!['.']);
        assert(strings_view(r@) =~= seq![seq!['.']]);
    } else {
        assert(strings_view(r@) =~= Seq::<Seq<char>>::empty());
    }
    let ghost lead = strings_view(r@);
    let mut cur: Vec<char> = Vec::new();
    let mut i: usize = 0;
    assert(cs@.subrange(0, cs@.len() as int) =~= cs@);
    assert(cur@ =~= Seq::<char>::empty());
    while i < cs.len()
        invariant
            i <= cs@.len(),
            cs@ == path@,
            strings_view(r@) + path_parts_from(cs@.subrange(i as int, cs@.len() as int), cur@)
                == path_key(path@),
        decreases cs.len() - i,
    {
        let ghost rest = cs@.subrange(i as int, cs@.len() as int);
        assert(rest.subrange(1, rest.len() as int) =~= cs@.subrange(i + 1, cs@.len() as int));
        let c = cs[i];
        assert(rest[0] == c);
        if c == '/' {
            let ghost old_r = strings_view(r@);
            let ghost old_cur = cur@;
            if cur.len() > 0 && !(cur.len() == 1 && cur[0] == '.') {
                let w = string_from_chars(cur.as_slice());
                r.push(w);
                assert(strings_view(r@) =~= old_r + seq![old_cur]);
                assert(old_cur != seq!['.']) by {
                    if old_cur == seq!['.'] {
                        assert(old_cur.len() == 1 && old_cur[0] == '.');
                    }
                };
                assert(path_part(old_cur) == seq![old_cur]);
            } else {
                if cur.len() > 0 {
                    assert(old_cur =~= seq!['.']);
                }
                assert(path_part(old_cur) =~= Seq::<Seq<char>>::empty());
                assert(strings_view(r@) =~= old_r + path_part(old_cur));
            }
            cur = Vec::new();
            assert(cur@ =~= Seq::<char>::empty());
            assert(strings_view(r@) + path_parts_from(cs@.subrange(i + 1, cs@.len() as int), cur@)
                =~= old_r + (path_part(old_cur) + path_parts_from(cs@.subrange(i + 1, cs@.len() as int), seq![])));
        } else {
            let ghost old_cur = cur@;
            cur.push(c);
            assert(path_parts_from(rest, old_cur) == path_parts_from(cs@.subrange(i + 1, cs@.len() as int), cur@));
        }
        i = i + 1;
    }
    assert(cs@.subrange(i as int, cs@.len() as int) =~= Seq::<char>::empty());
    let ghost old_r = strings_view(r@);
    if cur.len() > 0 && !(cur.len() == 1 && cur[0] == '.') {
        let w = string_from_chars(cur.as_slice());
        r.push(w);
        assert(strings_view(r@) =~= old_r + seq![cur@]);
        assert(cur@ != seq!['.']) by {
            if cur@ == seq!['.'] {
                assert(cur@.len() == 1 && cur@[0] == '.');
            }
        };
    } else {
        if cur.len() > 0 {
            assert(cur@ =~= seq!['.']);
        }
        assert(path_part(cur@) =~= Seq::<Seq<char>>::empty());
        assert(strings_view(r@) =~= old_r + path_part(cur@));
    }
    r
}

/// Whether two sequences of strings hold the same strings.
fn same_strings(a: &Vec<String>, b: &Vec<String>) -> (r: bool)
    ensures
        r == (strings_view(a@) == strings_view(b@)),
{
    if a.len() != b.len() {
        assert(strings_view(a@).len() != strings_view(b@).len());
        return false;
    }
    let mut i: usize = 0;
    while i < a.len()
        invariant
            i <= a@.len(),
            a@.len() == b@.len(),
            forall|j: int| 0 <= j < i ==> a@[j]@ == b@[j]@,
        decreases a.len() - i,
    {
        if !same_text(a[i].as_str(), b[i].as_str()) {
            assert(strings_view(a@)[i as int] != strings_view(b@)[i as int]);
            return false;
        }
        i = i + 1;
    }
    assert(strings_view(a@) =~= strings_view(b@));
    true
}

// ---------------------------------------------------------------------------
// The cache
// ---------------------------------------------------------------------------
/// What is cached for a command path.
#[derive(Debug, PartialEq, Eq)]
pub enum CacheValue {
    /// The command was not found.
    NotResolvable,
    /// The full path the command was found at.
    Resolved(String),
}

/// The view of a cached value: the full path, if the command was found.
pub open spec fn cache_value_view(v: CacheValue) -> Option<Seq<char>> {
    match v {
        CacheValue::NotResolvable => None,
        CacheValue::Resolved(p) => Some(p@),
    }
}

/// The views of cache entries: the components of the path, and the answer.
pub open spec fn entries_view(v: Seq<(Vec<String>, CacheValue)>) -> Seq<(Seq<Seq<char>>, Option<Seq<char>>)> {
    v.map_values(|e: (Vec<String>, CacheValue)| (strings_view(e.0@), cache_value_view(e.1)))
}

/// What the first entry for the components `key` holds, if there is one.
pub open spec fn cache_lookup(entries: Seq<(Seq<Seq<char>>, Option<Seq<char>>)>, key: Seq<Seq<char>>) -> Option<
    Option<Seq<char>>,
>
    decreases entries.len(),
{
    if entries.len() == 0 {
        None
    } else if entries[0].0 == key {
        Some(entries[0].1)
    } else {
        cache_lookup(entries.subrange(1, entries.len() as int), key)
    }
}

/// Resolving `path` in a cache in state `entries` (`None`: no cache), when
/// a lookup would find `outcome`: the result, and the cache afterwards.
/// Without a cache the path is used as it is; a path with the components of
/// a cached one gives what was cached; else the outcome is the result and
/// is cached under the path's components.
pub open spec fn resolve_step(
    entries: Option<Seq<(Seq<Seq<char>>, Option<Seq<char>>)>>,
    path: Seq<char>,
    outcome: Option<Seq<char>>,
) -> (Option<Seq<char>>, Option<Seq<(Seq<Seq<char>>, Option<Seq<char>>)>>) {
    match entries {
        None => (Some(path), None),
        Some(es) => match cache_lookup(es, path_key(path)) {
            Some(v) => (v, Some(es)),
            None => (outcome, Some(es.push((path_key(path), outcome)))),
        },
    }
}

/// What is known of a command path before any lookup: the path itself when
/// there is no cache, the cached answer when there is one, else nothing.
pub open spec fn known_resolution(
    entries: Option<Seq<(Seq<Seq<char>>, Option<Seq<char>>)>>,
    path: Seq<char>,
) -> Option<Option<Seq<char>>> {
    match entries {
        None => Some(Some(path)),
        Some(es) => cache_lookup(es, path_key(path)),
    }
}

/// No two entries are for the same components.
pub open spec fn distinct_paths(entries: Seq<(Seq<Seq<char>>, Option<Seq<char>>)>) -> bool {
    forall|i: int, j: int| 0 <= i < j < entries.len() ==> entries[i].0 != entries[j].0
}

/// The first step of resolving a command path.
#[derive(Debug, PartialEq, Eq)]
pub enum PathResolution {
    /// The answer is known: the full path, or `None` when the command
    /// cannot be found.
    Resolved(Option<String>),
    /// The path must be looked up (with `which`), and the outcome recorded
    /// with `record_resolution`.
    LookupNeeded,
}

/// Resolves command names to full paths, remembering each answer, like a
/// map keyed by path.
pub struct CommandPathCache {
    cache: Option<Vec<(Vec<String>, CacheValue)>>,
}

impl CommandPathCache {
    /// At most one entry per path.
    #[verifier::type_invariant]
    closed spec fn one_entry_per_path(self) -> bool {
        match self.cache {
            Some(v) => distinct_paths(entries_view(v@)),
            None => true,
        }
    }

    /// The cache entries, in the order they were made; `None` when the
    /// cache is disabled.
    pub closed spec fn entries(&self) -> Option<Seq<(Seq<Seq<char>>, Option<Seq<char>>)>> {
        match self.cache {
            Some(v) => Some(entries_view(v@)),
            None => None,
        }
    }

    /// An empty cache, or none when the settings disable it.
    pub fn new(command_line_args: &CommandLineArgs) -> (r: Self)
        ensures
            command_line_args.disable_path_cache ==> r.entries() is None,
            !command_line_args.disable_path_cache ==> r.entries() == Some(
                Seq::<(Seq<Seq<char>>, Option<Seq<char>>)>::empty(),
            ),
    {
        let cache: Option<Vec<(Vec<String>, CacheValue)>> = if command_line_args.disable_path_cache {
            None
        } else {
            let v: Vec<(Vec<String>, CacheValue)> = Vec::new();
            assert(entries_view(v@) =~= Seq::<(Seq<Seq<char>>, Option<Seq<char>>)>::empty());
            Some(v)
        };
        CommandPathCache { cache }
    }

    fn lookup(entries: &Vec<(Vec<String>, CacheValue)>, key: &Vec<String>) -> (r: Option<Option<String>>)
        ensures
            match r {
                None => cache_lookup(entries_view(entries@), strings_view(key@)) is None,
                Some(v) => cache_lookup(entries_view(entries@), strings_view(key@)) == Some(opt_string_view(v)),
            },
    {
        let ghost all = entries_view(entries@);
        let ghost k = strings_view(key@);
        let mut i: usize = 0;
        assert(all.subrange(0, all.len() as int) =~= all);
        while i < entries.len()
            invariant
                i <= entries@.len(),
                all == entries_view(entries@),
                k == strings_view(key@),
                cache_lookup(all.subrange(i as int, all.len() as int), k) == cache_lookup(all, k),
            decreases entries.len() - i,
        {
            let ghost rest = all.subrange(i as int, all.len() as int);
            assert(rest.subrange(1, rest.len() as int) =~= all.subrange(i + 1, all.len() as int));
            assert(rest[0] == all[i as int]);
            if same_strings(&entries[i].0, key) {
                return match &entries[i].1 {
                    CacheValue::NotResolvable => Some(None),
                    CacheValue::Resolved(p) => Some(Some(copy_string(p))),
                };
            }
            i = i + 1;
        }
        assert(all.subrange(i as int, all.len() as int) =~= Seq::<(Seq<Seq<char>>, Option<Seq<char>>)>::empty());
        None
    }

    /// Records that a lookup of `command_path` found `which_result`, unless
    /// the answer is already known: the result is that of `resolve_step`.
    pub fn record_resolution(&mut self, command_path: String, which_result: Option<String>) -> (r: Option<String>)
        ensures
            ({
                let (res, after) = resolve_step(old(self).entries(), command_path@, opt_string_view(which_result));
                &&& opt_string_view(r) == res
                &&& final(self).entries() == after
            }),
            final(self).entries() matches Some(es) ==> distinct_paths(es),
    {
        proof {
            use_type_invariant(&*self);
        }
        let mut cache: Option<Vec<(Vec<String>, CacheValue)>> = None;
        std::mem::swap(&mut cache, &mut self.cache);
        match cache {
            None => Some(command_path),
            Some(mut entries) => {
                let key = path_key_of(command_path.as_str());
                match Self::lookup(&entries, &key) {
                    Some(v) => {
                        self.cache = Some(entries);
                        v
                    },
                    None => {
                        let ghost before = entries_view(entries@);
                        proof {
                            lemma_lookup_none_means_absent(before, strings_view(key@));
                        }
                        let (value, result) = match which_result {
                            Some(full_path) => {
                                let copy = copy_string(&full_path);
                                (CacheValue::Resolved(full_path), Some(copy))
                            },
                            None => (CacheValue::NotResolvable, None),
                        };
                        entries.push((key, value));
                        assert(entries_view(entries@) =~= before.push(
                            (path_key(command_path@), opt_string_view(which_result)),
                        ));
                        proof {
                            lemma_push_new_key_keeps_distinct(before, path_key(command_path@), opt_string_view(which_result));
                        }
                        self.cache = Some(entries);
                        result
                    },
                }
            },
        }
    }

    /// What resolving `command_path` gives without a lookup: without a
    /// cache the path itself; with a cache the cached answer for a path
    /// with the same components; else a lookup is needed.
    pub fn resolve_command_path(&self, command_path: &str) -> (r: PathResolution)
        ensures
            match r {
                PathResolution::Resolved(v) => known_resolution(self.entries(), command_path@) == Some(
                    opt_string_view(v),
                ),
                PathResolution::LookupNeeded => known_resolution(self.entries(), command_path@) is None,
            },
            self.entries() matches Some(es) ==> distinct_paths(es),
    {
        proof {
            use_type_invariant(self);
        }
        match &self.cache {
            None => PathResolution::Resolved(Some(command_path.to_owned())),
            Some(entries) => {
                let key = path_key_of(command_path);
                match Self::lookup(entries, &key) {
                    Some(v) => PathResolution::Resolved(v),
                    None => PathResolution::LookupNeeded,
                }
            },
        }
    }
}

// ---------------------------------------------------------------------------
// Laws
// ---------------------------------------------------------------------------
proof fn lemma_lookup_after_push(
    es: Seq<(Seq<Seq<char>>, Option<Seq<char>>)>,
    key: Seq<Seq<char>>,
    value: Option<Seq<char>>,
)
    requires
        cache_lookup(es, key) is None,
    ensures
        cache_lookup(es.push((key, value)), key) == Some(value),
    decreases es.len(),
{
    let pushed = es.push((key, value));
    if es.len() > 0 {
        assert(pushed.subrange(1, pushed.len() as int) =~= es.subrange(1, es.len() as int).push((key, value)));
        lemma_lookup_after_push(es.subrange(1, es.len() as int), key, value);
    }
}

proof fn lemma_lookup_kept_by_push(
    es: Seq<(Seq<Seq<char>>, Option<Seq<char>>)>,
    key: Seq<Seq<char>>,
    entry: (Seq<Seq<char>>, Option<Seq<char>>),
)
    requires
        cache_lookup(es, key) is Some,
    ensures
        cache_lookup(es.push(entry), key) == cache_lookup(es, key),
    decreases es.len(),
{
    let pushed = es.push(entry);
    if es[0].0 != key {
        assert(pushed.subrange(1, pushed.len() as int) =~= es.subrange(1, es.len() as int).push(entry));
        lemma_lookup_kept_by_push(es.subrange(1, es.len() as int), key, entry);
    }
}

proof fn lemma_lookup_none_means_absent(es: Seq<(Seq<Seq<char>>, Option<Seq<char>>)>, key: Seq<Seq<char>>)
    requires
        cache_lookup(es, key) is None,
    ensures
        forall|i: int| 0 <= i < es.len() ==> (#[trigger] es[i]).0 != key,
    decreases es.len(),
{
    if es.len() > 0 {
        let rest = es.subrange(1, es.len() as int);
        lemma_lookup_none_means_absent(rest, key);
        assert forall|i: int| 0 <= i < es.len() implies (#[trigger] es[i]).0 != key by {
            if i > 0 {
                assert(es[i] == rest[i - 1]);
            }
        }
    }
}

proof fn lemma_push_new_key_keeps_distinct(
    es: Seq<(Seq<Seq<char>>, Option<Seq<char>>)>,
    key: Seq<Seq<char>>,
    value: Option<Seq<char>>,
)
    requires
        distinct_paths(es),
        forall|i: int| 0 <= i < es.len() ==> (#[trigger] es[i]).0 != key,
    ensures
        distinct_paths(es.push((key, value))),
{
    let after = es.push((key, value));
    assert forall|i: int, j: int| 0 <= i < j < after.len() implies after[i].0 != after[j].0 by {
        if j == es.len() {
            assert(after[i] == es[i]);
        } else {
            assert(after[i] == es[i] && after[j] == es[j]);
        }
    }
}

/// Once a path has been resolved, resolving it again gives the same answer
/// and leaves the cache as it is, whatever a new lookup would find.
pub proof fn resolution_is_stable(
    entries: Option<Seq<(Seq<Seq<char>>, Option<Seq<char>>)>>,
    path: Seq<char>,
    first_outcome: Option<Seq<char>>,
    later_outcome: Option<Seq<char>>,
)
    ensures
        ({
            let (r1, after) = resolve_step(entries, path, first_outcome);
            resolve_step(after, path, later_outcome) == (r1, after)
        }),
{
    if let Some(es) = entries {
        if cache_lookup(es, path_key(path)) is None {
            lemma_lookup_after_push(es, path_key(path), first_outcome);
        }
    }
}

/// Like a map, the cache holds at most one answer per path: no resolution
/// adds an entry for a path whose components already have one.
pub proof fn cache_paths_stay_distinct(
    entries: Seq<(Seq<Seq<char>>, Option<Seq<char>>)>,
    path: Seq<char>,
    outcome: Option<Seq<char>>,
)
    requires
        distinct_paths(entries),
    ensures
        resolve_step(Some(entries), path, outcome).1 matches Some(after) && distinct_paths(after),
{
    if cache_lookup(entries, path_key(path)) is None {
        lemma_lookup_none_means_absent(entries, path_key(path));
        lemma_push_new_key_keeps_distinct(entries, path_key(path), outcome);
    }
}

/// A run of resolutions: `results[i]` and `entries[i + 1]` come from
/// resolving `paths[i]` in `entries[i]` when a lookup would find
/// `outcomes[i]`.
pub open spec fn resolve_run(
    entries: Seq<Option<Seq<(Seq<Seq<char>>, Option<Seq<char>>)>>>,
    paths: Seq<Seq<char>>,
    outcomes: Seq<Option<Seq<char>>>,
    results: Seq<Option<Seq<char>>>,
) -> bool {
    &&& entries.len() == paths.len() + 1
    &&& outcomes.len() == paths.len()
    &&& results.len() == paths.len()
    &&& forall|i: int|
        0 <= i < paths.len() ==> resolve_step(#[trigger] entries[i], paths[i], outcomes[i]) == (
            results[i],
            entries[i + 1],
        )
}

proof fn lemma_answer_kept(
    entries: Seq<Option<Seq<(Seq<Seq<char>>, Option<Seq<char>>)>>>,
    paths: Seq<Seq<char>>,
    outcomes: Seq<Option<Seq<char>>>,
    results: Seq<Option<Seq<char>>>,
    i: int,
    m: int,
)
    requires
        resolve_run(entries, paths, outcomes, results),
        entries[0] is Some,
        0 <= i < m <= paths.len(),
    ensures
        entries[m] is Some,
        cache_lookup(entries[m]->0, path_key(paths[i])) == Some(results[i]),
    decreases m - i,
{
    if m == i + 1 {
        lemma_cache_stays_on(entries, paths, outcomes, results, i);
        assert(resolve_step(entries[i], paths[i], outcomes[i]) == (results[i], entries[(i + 1)]));
        let es = entries[i]->0;
        if cache_lookup(es, path_key(paths[i])) is None {
            lemma_lookup_after_push(es, path_key(paths[i]), outcomes[i]);
        }
    } else {
        lemma_answer_kept(entries, paths, outcomes, results, i, m - 1);
        let k = m - 1;
        assert(resolve_step(entries[k], paths[k], outcomes[k]) == (results[k], entries[k + 1]));
        let es = entries[k]->0;
        if cache_lookup(es, path_key(paths[k])) is None {
            lemma_lookup_kept_by_push(es, path_key(paths[i]), (path_key(paths[k]), outcomes[k]));
        }
    }
}

proof fn lemma_cache_stays_on(
    entries: Seq<Option<Seq<(Seq<Seq<char>>, Option<Seq<char>>)>>>,
    paths: Seq<Seq<char>>,
    outcomes: Seq<Option<Seq<char>>>,
    results: Seq<Option<Seq<char>>>,
    m: int,
)
    requires
        resolve_run(entries, paths, outcomes, results),
        entries[0] is Some,
        0 <= m <= paths.len(),
    ensures
        entries[m] is Some,
    decreases m,
{
    if m > 0 {
        lemma_cache_stays_on(entries, paths, outcomes, results, m - 1);
        assert(resolve_step(entries[m - 1], paths[m - 1], outcomes[m - 1]) == (results[m - 1], entries[(m - 1) + 1]));
    }
}

/// With the cache on, each path is looked up at most once: over any run of
/// resolutions, once a path has been resolved, every later path with the
/// same components, whatever was resolved in between, is answered from the
/// cache with that same answer, without a lookup.
pub proof fn cached_answers_are_reused(
    entries: Seq<Option<Seq<(Seq<Seq<char>>, Option<Seq<char>>)>>>,
    paths: Seq<Seq<char>>,
    outcomes: Seq<Option<Seq<char>>>,
    results: Seq<Option<Seq<char>>>,
)
    requires
        resolve_run(entries, paths, outcomes, results),
        entries[0] is Some,
    ensures
        forall|i: int, j: int|
            0 <= i < j < paths.len() && path_key(paths[i]) == path_key(paths[j]) ==> known_resolution(
                entries[j],
                paths[j],
            ) == Some(results[i]) && #[trigger] results[j] == #[trigger] results[i],
{
    assert forall|i: int, j: int|
        0 <= i < j < paths.len() && path_key(paths[i]) == path_key(paths[j]) implies known_resolution(
            entries[j],
            paths[j],
        ) == Some(results[i]) && #[trigger] results[j] == #[trigger] results[i] by {
        lemma_answer_kept(entries, paths, outcomes, results, i, j);
        assert(resolve_step(entries[j], paths[j], outcomes[j]) == (results[j], entries[j + 1]));
    }
}

} // verus!
