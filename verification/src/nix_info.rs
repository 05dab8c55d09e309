//! What the installed Nix reports of itself: its variant, its version and
//! whether the flake features are on.

use vstd::prelude::*;

use crate::pattern::{captures, groups_view, pattern_captures};
use crate::text::{chars_of, concat_str, contains_seq, contains_str, count_char, count_char_spec, owned};

verus! {

/// The variant of the installed Nix.
#[derive(Debug, Clone, Copy, PartialEq, Eq, Structural)]
pub enum NixVariant {
    Nix,
    Lix,
    DetSys,
}

/// What `str::to_lowercase` returns for `s`.
pub uninterp spec fn lowercase(s: Seq<char>) -> Seq<char>;

/// Calls `str::to_lowercase`, which lowers the case of every character by
/// the Unicode rules.
#[verifier::external_body]
fn to_lowercase(s: &str) -> (res: String)
    ensures
        res@ == lowercase(s@),
{
    s.to_lowercase()
}

/// The variant a `nix --version` line names: Determinate Nix, Lix, or
/// else Nix, looking at the line in lower case.
pub open spec fn variant_spec(line: Seq<char>) -> NixVariant {
    if contains_seq(lowercase(line), "determinate"@) {
        NixVariant::DetSys
    } else if contains_seq(lowercase(line), "lix"@) {
        NixVariant::Lix
    } else {
        NixVariant::Nix
    }
}

impl NixVariant {
    /// The variant a `nix --version` line names.
    pub fn from_version_line(line: &str) -> (res: NixVariant)
        ensures
            res == variant_spec(line@),
    {
        let low = chars_of(to_lowercase(line).as_str());
        if contains_str(&low, "determinate") {
            NixVariant::DetSys
        } else if contains_str(&low, "lix") {
            NixVariant::Lix
        } else {
            NixVariant::Nix
        }
    }
}

/// The first line of `nix --version`, or the message when there is none.
pub open spec fn version_line_spec(output: Seq<char>) -> Result<Seq<char>, Seq<char>> {
    let lines = crate::text::lines_spec(output);
    if lines.len() > 0 {
        Ok(lines[0])
    } else {
        Err("No version string found"@)
    }
}

/// The version line of `nix --version` output.
pub fn nix_version(output: &str) -> (res: Result<String, String>)
    ensures
        crate::elevation::str_result_view(res) == version_line_spec(output@),
{
    let lines = crate::text::split_lines(output);
    if lines.len() == 0 {
        return Err(owned("No version string found"));
    }
    assert(lines@[0]@ == crate::text::lines_spec(output@)[0]);
    Ok(crate::text::string_from_chars(&lines[0]))
}

/// Whether the experimental features listed include flakes and the `nix`
/// command.
pub open spec fn flake_features_spec(features: Seq<char>) -> bool {
    contains_seq(features, "flakes"@) && contains_seq(features, "nix-command"@)
}

/// Checks the output of `nix config show experimental-features`.
pub fn ensure_flake_features(features: &str) -> (res: Result<(), String>)
    ensures
        res is Ok <==> flake_features_spec(features@),
        res matches Err(m) ==> m@ == "Flake features are not enabled"@,
{
    let cs = chars_of(features);
    if contains_str(&cs, "flakes") && contains_str(&cs, "nix-command") {
        Ok(())
    } else {
        Err(owned("Flake features are not enabled"))
    }
}

/// The expression for `major.minor[.patch][preN]`.
pub open spec fn version_regex() -> Seq<char> {
    "(\\d+)\\.(\\d+)(?:\\.(\\d+))?(?:pre\\d*)?"@
}

/// Group `i` of a match, if it took part.
pub open spec fn group(groups: Seq<Option<Seq<char>>>, i: int) -> Option<Seq<char>> {
    if 0 <= i < groups.len() {
        groups[i]
    } else {
        None
    }
}

/// The separators that end the version proper.
pub open spec fn is_separator(c: char) -> bool {
    c == '-' || c == '+' || c == 'p' || c == '_'
}

/// The prefix of `v` before its first separator.
pub open spec fn before_separator(v: Seq<char>) -> Seq<char> {
    if exists|i: int| 0 <= i < v.len() && is_separator(#[trigger] v[i]) {
        let i = choose|i: int|
            0 <= i < v.len() && is_separator(#[trigger] v[i]) && forall|j: int|
                0 <= j < i ==> !is_separator(#[trigger] v[j]);
        v.take(i)
    } else {
        v
    }
}

/// A version without a recognised `major.minor` part: the base before any
/// separator, padded with `.0` to three components when it has one or two.
pub open spec fn fallback_version(v: Seq<char>) -> Seq<char> {
    let base = before_separator(v);
    if count_char_spec(base, '.') == 0 {
        base + ".0.0"@
    } else if count_char_spec(base, '.') == 1 {
        base + ".0"@
    } else {
        base
    }
}

/// The version normalised to `major.minor.patch`: from the first
/// `major.minor[.patch]` match (patch defaulting to 0), else from the
/// fallback.
pub open spec fn normalize_spec(v: Seq<char>) -> Seq<char> {
    match pattern_captures(version_regex(), v) {
        Some(groups) => {
            let major = match group(groups, 1) {
                Some(m) => m,
                None => v,
            };
            let minor = match group(groups, 2) {
                Some(m) => m,
                None => v,
            };
            let patch = match group(groups, 3) {
                Some(m) => m,
                None => "0"@,
            };
            major + "."@ + minor + "."@ + patch
        },
        None => fallback_version(v),
    }
}

/// Group `i` of the captured groups.
fn group_at(groups: &Vec<Option<String>>, i: usize) -> (res: Option<String>)
    ensures
        crate::remote::opt_view(res) == group(groups_view(Some(*groups))->0, i as int),
{
    if i < groups.len() {
        match &groups[i] {
            Some(s) => Some(s.clone()),
            None => None,
        }
    } else {
        None
    }
}

/// The prefix of `v` before its first separator.
fn before_separator_exec(v: &str) -> (res: String)
    ensures
        res@ == before_separator(v@),
{
    let cs = chars_of(v);
    let mut i: usize = 0;
    while i < cs.len()
        invariant
            i <= cs.len(),
            cs@ == v@,
            forall|j: int| 0 <= j < i ==> !is_separator(#[trigger] cs@[j]),
        decreases cs.len() - i,
    {
        let c = cs[i];
        if c == '-' || c == '+' || c == 'p' || c == '_' {
            assert(is_separator(cs@[i as int]));
            let ghost k = choose|k: int|
                0 <= k < v@.len() && is_separator(#[trigger] v@[k]) && forall|j: int|
                    0 <= j < k ==> !is_separator(#[trigger] v@[j]);
            assert(k == i) by {
                if k < i {
                    assert(!is_separator(cs@[k]));
                } else if k > i {
                    assert(!is_separator(v@[i as int]));
                }
            }
            let part = crate::text::slice_chars(&cs, 0, i);
            assert(part@ =~= v@.take(i as int));
            return crate::text::string_from_chars(&part);
        }
        i = i + 1;
    }
    owned(v)
}

/// Normalises a version string to `major.minor.patch` for semantic version
/// parsing, as Nix variants spell their versions in many ways.
pub fn normalize_version_string(version: &str) -> (res: String)
    ensures
        res@ == normalize_spec(version@),
{
    proof {
        reveal_strlit("0");
    }
    match captures("(\\d+)\\.(\\d+)(?:\\.(\\d+))?(?:pre\\d*)?", version) {
        Some(groups) => {
            let major = match group_at(&groups, 1) {
                Some(m) => m,
                None => owned(version),
            };
            let minor = match group_at(&groups, 2) {
                Some(m) => m,
                None => owned(version),
            };
            let patch = match group_at(&groups, 3) {
                Some(m) => m,
                None => owned("0"),
            };
            let mut r = concat_str(major.as_str(), ".");
            r.append(minor.as_str());
            r.append(".");
            r.append(patch.as_str());
            r
        },
        None => {
            let base = before_separator_exec(version);
            let dots = count_char(&chars_of(base.as_str()), '.');
            if dots == 0 {
                concat_str(base.as_str(), ".0.0")
            } else if dots == 1 {
                concat_str(base.as_str(), ".0")
            } else {
                base
            }
        },
    }
}

} // verus!
