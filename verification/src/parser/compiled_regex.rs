//! A compiled regular expression of the `regex` crate, together with the
//! pattern it was compiled from.
//!
//! A `CompiledRegex` can only be made by `CompiledRegex::new`, which compiles
//! its `pattern` into its `regex`: so the contracts below speak of the
//! pattern, the regex's view.
use vstd::prelude::*;

verus! {

/// `regex::Regex`, declared so that it can be held; its contents stay opaque.
#[verifier::external_type_specification]
#[verifier::external_body]
pub struct ExRegex(::regex::Regex);

/// What `regex::Regex::new` reports for `pattern`: `None` when the pattern
/// compiles, else the text of the error it returns.
pub uninterp spec fn regex_new_error(pattern: Seq<char>) -> Option<Seq<char>>;

/// The names that `regex::Regex::capture_names` yields for the regex of
/// `pattern`: one per capture group, in the order of the groups' opening
/// parentheses, group 0 (the whole match, never named) first.
pub uninterp spec fn regex_capture_names(pattern: Seq<char>) -> Seq<Option<Seq<char>>>;

/// What `regex::Regex::captures` finds in `haystack` for the regex of
/// `pattern`: `None` when it does not match, else the text of each capture
/// group of the leftmost-first match (`None` for a group that did not take
/// part in it), in the order of `Captures::iter`.
pub uninterp spec fn regex_captures(pattern: Seq<char>, haystack: Seq<char>) -> Option<
    Seq<Option<Seq<char>>>,
>;

/// The view of an optional string.
pub open spec fn opt_string_view(o: Option<String>) -> Option<Seq<char>> {
    match o {
        Some(s) => Some(s@),
        None => None,
    }
}

/// The views of a sequence of optional strings.
pub open spec fn opt_strings_view(v: Seq<Option<String>>) -> Seq<Option<Seq<char>>> {
    v.map_values(|o: Option<String>| opt_string_view(o))
}

/// The view of the capture groups of a match, if any.
pub open spec fn groups_view(g: Option<Vec<Option<String>>>) -> Option<Seq<Option<Seq<char>>>> {
    match g {
        Some(v) => Some(opt_strings_view(v@)),
        None => None,
    }
}

/// A compiled regular expression.
pub struct CompiledRegex {
    regex: ::regex::Regex,
    pattern: String,
}

impl View for CompiledRegex {
    type V = Seq<char>;

    /// The pattern that the regex was compiled from.
    closed spec fn view(&self) -> Seq<char> {
        self.pattern@
    }
}

impl CompiledRegex {
    /// Compiles `pattern` with `regex::Regex::new`.
    ///
    /// Trusted: the contract claims that `Regex::new` fails exactly when
    /// `regex_new_error` names an error for the pattern, and that the error
    /// returned is the text of that error (its `Display`).
    #[verifier::external_body]
    pub(crate) fn new(pattern: &str) -> (r: Result<CompiledRegex, String>)
        ensures
            match r {
                Ok(c) => regex_new_error(pattern@) is None && c@ == pattern@,
                Err(e) => regex_new_error(pattern@) == Some(e@),
            },
    {
        match ::regex::Regex::new(pattern) {
            Ok(regex) => Ok(CompiledRegex { regex, pattern: pattern.to_string() }),
            Err(e) => Err(e.to_string()),
        }
    }

    /// The names of the capture groups (`regex::Regex::capture_names`).
    ///
    /// Trusted: the contract claims that the names are those that
    /// `regex_capture_names` gives for the pattern.
    #[verifier::external_body]
    pub(crate) fn capture_names(&self) -> (names: Vec<Option<String>>)
        ensures
            opt_strings_view(names@) == regex_capture_names(self@),
    {
        self.regex.capture_names().map(|n| n.map(|s| s.to_string())).collect()
    }

    /// The capture groups of the first match in `haystack`
    /// (`regex::Regex::captures`, then `Captures::iter`).
    ///
    /// Trusted: the contract claims that the groups are those that
    /// `regex_captures` gives for the pattern and the haystack.
    #[verifier::external_body]
    pub(crate) fn captures(&self, haystack: &str) -> (groups: Option<Vec<Option<String>>>)
        ensures
            groups_view(groups) == regex_captures(self@, haystack@),
    {
        self.regex.captures(haystack).map(
            |c| c.iter().map(|m| m.map(|m| m.as_str().to_string())).collect(),
        )
    }
}

} // verus!
