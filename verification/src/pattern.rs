//! Regular expressions, matched by the `regex` crate.

use vstd::prelude::*;


verus! {

#[verifier::external_type_specification]
#[verifier::external_body]
pub struct ExRegex(regex::Regex);

/// Whether `regex::Regex::new` accepts the pattern.
pub uninterp spec fn regex_compiles(pattern: Seq<char>) -> bool;

/// What `regex::Regex::is_match` answers for the pattern and haystack.
pub uninterp spec fn regex_is_match(pattern: Seq<char>, haystack: Seq<char>) -> bool;

/// The groups that `regex::Regex::captures` yields for the pattern and
/// haystack (group 0 first), or `None` when there is no match.
pub uninterp spec fn regex_captures(pattern: Seq<char>, haystack: Seq<char>) -> Option<Seq<Option<Seq<char>>>>;

/// A compiled regular expression together with its source.
pub struct Pattern {
    source: String,
    regex: regex::Regex,
}

impl View for Pattern {
    type V = Seq<char>;

    closed spec fn view(&self) -> Seq<char> {
        self.source@
    }
}

/// The view of optional capture groups.
pub open spec fn groups_view(g: Option<Vec<Option<String>>>) -> Option<Seq<Option<Seq<char>>>> {
    match g {
        Some(v) => Some(
            v@.map_values(
                |o: Option<String>|
                    match o {
                        Some(s) => Some(s@),
                        None => None,
                    },
            ),
        ),
        None => None,
    }
}

impl Pattern {
    /// Calls `regex::Regex::new`, which compiles the pattern; the result is
    /// `Some` exactly when the pattern compiles, and keeps the source.
    #[verifier::external_body]
    pub(crate) fn compile(source: &str) -> (res: Option<Pattern>)
        ensures
            res is Some <==> regex_compiles(source@),
            res matches Some(p) ==> p@ == source@,
    {
        match regex::Regex::new(source) {
            Ok(regex) => Some(Pattern { source: source.to_owned(), regex }),
            Err(_) => None,
        }
    }

    /// Calls `regex::Regex::is_match`: whether the expression matches
    /// anywhere in `haystack`.
    #[verifier::external_body]
    pub(crate) fn is_match(&self, haystack: &str) -> (res: bool)
        ensures
            res == regex_is_match(self@, haystack@),
    {
        self.regex.is_match(haystack)
    }

    /// Calls `regex::Regex::captures` and reads its groups through
    /// `Captures::iter` and `Match::as_str`: the groups of the first match,
    /// or `None` when there is none.
    #[verifier::external_body]
    pub(crate) fn captures(&self, haystack: &str) -> (res: Option<Vec<Option<String>>>)
        ensures
            groups_view(res) == regex_captures(self@, haystack@),
    {
        match self.regex.captures(haystack) {
            Some(caps) => {
                let mut groups = Vec::new();
                for m in caps.iter() {
                    groups.push(m.map(|m| m.as_str().to_owned()));
                }
                Some(groups)
            },
            None => None,
        }
    }

    /// The source of the expression.
    pub fn as_str(&self) -> (res: &str)
        ensures
            res@ == self@,
    {
        self.source.as_str()
    }
}

/// Whether the pattern compiles and matches `haystack`.
pub open spec fn pattern_matches(pattern: Seq<char>, haystack: Seq<char>) -> bool {
    regex_compiles(pattern) && regex_is_match(pattern, haystack)
}

/// Whether `pattern` compiles and matches `haystack`.
pub fn regex_match(pattern: &str, haystack: &str) -> (res: bool)
    ensures
        res == pattern_matches(pattern@, haystack@),
{
    match Pattern::compile(pattern) {
        Some(p) => p.is_match(haystack),
        None => false,
    }
}

/// The capture groups of `pattern` in `haystack`; `None` also when the
/// pattern does not compile.
pub open spec fn pattern_captures(pattern: Seq<char>, haystack: Seq<char>) -> Option<Seq<Option<Seq<char>>>> {
    if regex_compiles(pattern) {
        regex_captures(pattern, haystack)
    } else {
        None
    }
}

/// The capture groups of `pattern` in `haystack`.
pub fn captures(pattern: &str, haystack: &str) -> (res: Option<Vec<Option<String>>>)
    ensures
        groups_view(res) == pattern_captures(pattern@, haystack@),
{
    match Pattern::compile(pattern) {
        Some(p) => p.captures(haystack),
        None => None,
    }
}

} // verus!

verus! {

/// What `regex::Regex::replace_all` returns for the pattern, haystack and
/// replacement: every non-overlapping match replaced.
pub uninterp spec fn regex_replace_all(pattern: Seq<char>, haystack: Seq<char>, replacement: Seq<char>) -> Seq<char>;

impl Pattern {
    /// Calls `regex::Regex::replace_all` with a literal replacement (no `$`
    /// group references are expanded).
    #[verifier::external_body]
    pub(crate) fn replace_all_literal(&self, haystack: &str, replacement: &str) -> (res: String)
        ensures
            res@ == regex_replace_all(self@, haystack@, replacement@),
    {
        self.regex.replace_all(haystack, regex::NoExpand(replacement)).into_owned()
    }
}

/// `haystack` with every match of `pattern` replaced; unchanged when the
/// pattern does not compile.
pub open spec fn pattern_replace_all(pattern: Seq<char>, haystack: Seq<char>, replacement: Seq<char>) -> Seq<char> {
    if regex_compiles(pattern) {
        regex_replace_all(pattern, haystack, replacement)
    } else {
        haystack
    }
}

/// `haystack` with every match of `pattern` replaced by `replacement`.
pub fn replace_all(pattern: &str, haystack: &str, replacement: &str) -> (res: String)
    ensures
        res@ == pattern_replace_all(pattern@, haystack@, replacement@),
{
    match Pattern::compile(pattern) {
        Some(p) => p.replace_all_literal(haystack, replacement),
        None => haystack.to_owned(),
    }
}

} // verus!
