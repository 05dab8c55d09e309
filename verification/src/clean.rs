//! Cleaning: which profile generations and garbage-collector roots a clean
//! run removes, and what it asks Nix to do afterwards.

use vstd::prelude::*;

use crate::num::{decimal, parse_unsigned_spec, parse_unsigned, u64_to_decimal};
use crate::order::{seq_lt, str_lt, lemma_seq_lt_irreflexive, lemma_seq_lt_transitive, lemma_seq_lt_trichotomy};
use crate::paths::{components, components_start_with, file_name, file_name_spec, path_components_chars, path_starts_with};
use crate::pattern::{captures, groups_view, regex_match, pattern_captures, pattern_matches};
use crate::text::owned;

verus! {

/// Which profiles a clean run covers.
#[derive(Debug, Clone)]
pub enum Scope {
    All,
    User,
    Profile(String),
}

/// Options of a clean run. Durations are in nanoseconds.
#[derive(Clone, Debug)]
pub struct Options {
    pub keep: u32,
    pub keep_since: u128,
    pub dry: bool,
    pub ask: bool,
    pub no_gc: bool,
    pub no_gcroots: bool,
    pub no_direnv: bool,
    pub optimise: bool,
    pub max: Option<String>,
    pub keep_one: bool,
    pub cross_filesystems: bool,
}

/// The expression for paths inside direnv caches.
pub open spec fn direnv_regex() -> Seq<char> {
    ".*/(?:\\.direnv|direnv/layouts)/.*"@
}

/// The expression for generation links such as `system-42-link`.
pub open spec fn generation_regex() -> Seq<char> {
    "^(.*)-(\\d+)-link$"@
}

/// The expression for `nix build` result links such as `result-dev`.
pub open spec fn result_link_regex() -> Seq<char> {
    "^result(-.*)?$"@
}

/// The directory of automatic garbage-collector roots.
pub open spec fn auto_gcroots_dir() -> Seq<char> {
    "/nix/var/nix/gcroots/auto"@
}

/// Whether the path lies inside a direnv cache.
pub fn direnv_regex_is_match(path: &str) -> (res: bool)
    ensures
        res == pattern_matches(direnv_regex(), path@),
{
    regex_match(".*/(?:\\.direnv|direnv/layouts)/.*", path)
}

/// The expressions a clean run matches garbage-collector roots against.
pub fn gcroot_regexes(no_direnv: bool) -> (res: Vec<String>)
    ensures
        res@.map_values(|s: String| s@) == if no_direnv {
            Seq::<Seq<char>>::empty()
        } else {
            seq![direnv_regex()]
        },
{
    let mut res: Vec<String> = Vec::new();
    if !no_direnv {
        res.push(owned(".*/(?:\\.direnv|direnv/layouts)/.*"));
    }
    assert(res@.map_values(|s: String| s@) =~= if no_direnv {
        Seq::<Seq<char>>::empty()
    } else {
        seq![direnv_regex()]
    });
    res
}

/// Whether `path` is an entry directly inside `/nix/store`.
pub open spec fn is_store_direct_child_spec(path: Seq<char>) -> bool {
    let base = components("/nix/store"@);
    components_start_with(components(path), base) && components(path).len() == base.len() + 1
}

/// Whether `path` is an entry directly inside `/nix/store` (not the store
/// itself, nor anything deeper).
pub fn is_nix_store_direct_child(path: &str) -> (res: bool)
    ensures
        res == is_store_direct_child_spec(path@),
{
    let under = path_starts_with(path, "/nix/store");
    let a = path_components_chars(path);
    let b = path_components_chars("/nix/store");
    let ghost av = a@.map_values(|v: Vec<char>| v@);
    let ghost bv = b@.map_values(|v: Vec<char>| v@);
    assert(av.len() == a@.len() && bv.len() == b@.len());
    under && b.len() < a.len() && a.len() - b.len() == 1
}

/// Whether `path` lies in the directory of automatic roots.
pub open spec fn is_auto_gcroot_spec(path: Seq<char>) -> bool {
    components_start_with(components(path), components(auto_gcroots_dir()))
}

/// Whether `path` lies in `/nix/var/nix/gcroots/auto`.
pub fn is_auto_gcroot_entry(path: &str) -> (res: bool)
    ensures
        res == is_auto_gcroot_spec(path@),
{
    path_starts_with(path, "/nix/var/nix/gcroots/auto")
}

/// Whether the final component of `path` looks like a `nix build` result
/// link (`result`, `result-dev`, ...).
pub open spec fn is_build_result_link_spec(path: Seq<char>) -> bool {
    match file_name_spec(path) {
        Some(name) => pattern_matches(result_link_regex(), name),
        None => false,
    }
}

/// Whether `path` names an ephemeral `nix build` result link, as opposed to
/// a live indirect root such as `current-system`.
pub fn is_build_result_link(path: &str) -> (res: bool)
    ensures
        res == is_build_result_link_spec(path@),
{
    match file_name(path) {
        Some(name) => regex_match("^result(-.*)?$", name.as_str()),
        None => false,
    }
}

/// Whether a root `src` pointing at `dst` (which resolves to
/// `resolved_dst`) is subject to age-based cleanup: its target matches one
/// of `regexes`, or it is an automatic root whose result link points
/// directly into the store.
pub open spec fn gcroot_filter_spec(src: Seq<char>, dst: Seq<char>, resolved_dst: Seq<char>, regexes: Seq<Seq<char>>) -> bool {
    (exists|i: int| 0 <= i < regexes.len() && pattern_matches(regexes[i], dst)) || (is_auto_gcroot_spec(src)
        && is_store_direct_child_spec(resolved_dst) && is_build_result_link_spec(dst))
}

/// Whether a root is subject to age-based cleanup; `resolved_dst` is the
/// target of `dst` when `dst` is itself a link, else `dst`.
pub fn gcroot_matches_filter(src: &str, dst: &str, resolved_dst: &str, regexes: &Vec<String>) -> (res: bool)
    ensures
        res == gcroot_filter_spec(src@, dst@, resolved_dst@, regexes@.map_values(|s: String| s@)),
{
    let ghost rs = regexes@.map_values(|s: String| s@);
    let mut i: usize = 0;
    while i < regexes.len()
        invariant
            i <= regexes.len(),
            rs == regexes@.map_values(|s: String| s@),
            forall|j: int| 0 <= j < i ==> !pattern_matches(rs[j], dst@),
        decreases regexes.len() - i,
    {
        if regex_match(regexes[i].as_str(), dst) {
            assert(pattern_matches(rs[i as int], dst@));
            return true;
        }
        i = i + 1;
    }
    is_auto_gcroot_entry(src) && is_nix_store_direct_child(resolved_dst) && is_build_result_link(dst)
}

/// A garbage-collector root and whether it is to be removed.
#[derive(Debug, Clone)]
pub struct GcRootTagged {
    pub src: String,
    pub dst: String,
    pub tbr: bool,
}

/// The path removed for a root: the link in the roots directory, never its
/// target (which may be a live system or profile).
pub fn gcroot_path_to_remove(gcroot: &GcRootTagged) -> (res: &str)
    ensures
        res@ == gcroot.src@,
{
    gcroot.src.as_str()
}

/// The generation number of the link `file_name` when it belongs to the
/// profile `profile_name`; `None` for other entries, an error when the
/// number does not fit.
pub open spec fn generation_number_spec(profile_name: Seq<char>, file_name: Seq<char>) -> Result<Option<nat>, Seq<char>> {
    match pattern_captures(generation_regex(), file_name) {
        None => Ok(None),
        Some(groups) => if groups.len() > 1 && groups[1] is Some && groups[1]->0 != profile_name {
            Ok(None)
        } else if groups.len() > 2 && groups[2] is Some {
            match parse_unsigned_spec(groups[2]->0, u32::MAX as nat) {
                Ok(n) => Ok(Some(n)),
                Err(e) => Err("Failed to parse generation number: "@ + e.spec_message()),
            }
        } else {
            Ok(None)
        },
    }
}

/// Reads the generation number of a profile-directory entry.
pub fn generation_number(profile_name: &str, file_name: &str) -> (res: Result<Option<u32>, String>)
    ensures
        match res {
            Ok(Some(n)) => generation_number_spec(profile_name@, file_name@) == Ok::<Option<nat>, Seq<char>>(Some(n as nat)),
            Ok(None) => generation_number_spec(profile_name@, file_name@) == Ok::<Option<nat>, Seq<char>>(None),
            Err(e) => generation_number_spec(profile_name@, file_name@) == Err::<Option<nat>, Seq<char>>(e@),
        },
{
    let groups = match captures("^(.*)-(\\d+)-link$", file_name) {
        None => return Ok(None),
        Some(g) => g,
    };
    let ghost gv = groups_view(Some(groups))->0;
    assert(gv.len() == groups@.len());
    if groups.len() > 1 {
        if let Some(name) = &groups[1] {
            assert(gv[1] == Some(name@));
            if !crate::text::str_eq(name.as_str(), profile_name) {
                return Ok(None);
            }
        }
    }
    if groups.len() > 2 {
        if let Some(number) = &groups[2] {
            assert(gv[2] == Some(number@));
            return match parse_unsigned(number.as_str(), 4294967295u64) {
                Ok(n) => Ok(Some(n as u32)),
                Err(e) => Err(crate::text::concat_str("Failed to parse generation number: ", e.message())),
            };
        }
    }
    Ok(None)
}

/// Whether a link name looks like a profile generation (`<name>-<n>-link`).
pub open spec fn is_generation_link_spec(name: Seq<char>) -> bool {
    pattern_captures(generation_regex(), name) is Some
}

/// Whether a link name looks like a profile generation.
pub fn is_generation_link(name: &str) -> (res: bool)
    ensures
        res == is_generation_link_spec(name@),
{
    captures("^(.*)-(\\d+)-link$", name).is_some()
}

/// A generation of a profile; `last_modified` is in nanoseconds since the
/// Unix epoch.
#[derive(Debug, Clone)]
pub struct Generation {
    pub number: u32,
    pub last_modified: i64,
    pub path: String,
}

impl Generation {
    /// A copy of the generation.
    pub fn duplicate(&self) -> (res: Generation)
        ensures
            res == *self,
    {
        Generation { number: self.number, last_modified: self.last_modified, path: self.path.clone() }
    }
}

/// The order of generations: by number, then modification time, then path.
pub open spec fn gen_lt(a: Generation, b: Generation) -> bool {
    a.number < b.number || (a.number == b.number && (a.last_modified < b.last_modified || (a.last_modified
        == b.last_modified && seq_lt(a.path@, b.path@))))
}

/// Whether two generations have the same sort key.
pub open spec fn gen_same(a: Generation, b: Generation) -> bool {
    a.number == b.number && a.last_modified == b.last_modified && a.path@ == b.path@
}

proof fn lemma_gen_order(a: Generation, b: Generation, c: Generation)
    ensures
        !gen_lt(a, a),
        !(gen_lt(a, b) && gen_lt(b, a)),
        !gen_same(a, b) ==> gen_lt(a, b) || gen_lt(b, a),
        gen_lt(a, b) && gen_lt(b, c) ==> gen_lt(a, c),
        gen_same(a, b) ==> !gen_lt(a, b),
{
    lemma_seq_lt_irreflexive(a.path@);
    lemma_seq_lt_trichotomy(a.path@, b.path@);
    if gen_lt(a, b) && gen_lt(b, c) && a.number == c.number && a.last_modified == c.last_modified {
        lemma_seq_lt_transitive(a.path@, b.path@, c.path@);
    }
}

fn gen_less(a: &Generation, b: &Generation) -> (res: bool)
    ensures
        res == gen_lt(*a, *b),
{
    if a.number != b.number {
        return a.number < b.number;
    }
    if a.last_modified != b.last_modified {
        return a.last_modified < b.last_modified;
    }
    str_lt(a.path.as_str(), b.path.as_str())
}

/// Whether the generations are in strictly increasing order.
pub open spec fn gens_sorted(s: Seq<Generation>) -> bool {
    forall|i: int, j: int| 0 <= i < j < s.len() ==> gen_lt(s[i], s[j])
}

/// Whether a generation with the key of `g` occurs in `s`.
pub open spec fn gens_have(s: Seq<Generation>, g: Generation) -> bool {
    exists|i: int| 0 <= i < s.len() && gen_same(s[i], g)
}

/// Inserts `g` into the sorted `v`, replacing an entry with the same key.
fn insert_sorted(v: &mut Vec<Generation>, g: Generation)
    requires
        gens_sorted(old(v)@),
    ensures
        gens_sorted(final(v)@),
        forall|h: Generation| gens_have(final(v)@, h) <==> (gens_have(old(v)@, h) || gen_same(h, g)),
{
    let ghost before = v@;
    let mut i: usize = 0;
    while i < v.len() && gen_less(&v[i], &g)
        invariant
            i <= v.len(),
            v@ == before,
            gens_sorted(before),
            forall|j: int| 0 <= j < i ==> gen_lt(before[j], g),
        decreases v.len() - i,
    {
        i = i + 1;
    }
    if i < v.len() && !gen_less(&g, &v[i]) {
        proof {
            lemma_gen_order(v@[i as int], g, g);
        }
        let ghost old_entry = v@[i as int];
        assert(gen_same(old_entry, g)) by {
            lemma_gen_order(old_entry, g, g);
        }
        v.set(i, g);
        proof {
            assert forall|a: int, b: int| 0 <= a < b < v@.len() implies gen_lt(v@[a], v@[b]) by {
                if a == i {
                    lemma_gen_order(before[b], before[a], g);
                    assert(gen_lt(before[a], before[b]));
                } else if b == i {
                    assert(gen_lt(before[a], before[b]));
                }
            }
            assert forall|h: Generation| gens_have(v@, h) <==> (gens_have(before, h) || gen_same(h, g)) by {
                if gens_have(before, h) {
                    let k = choose|k: int| 0 <= k < before.len() && gen_same(before[k], h);
                    if k == i {
                        assert(gen_same(v@[k], h));
                    } else {
                        assert(v@[k] == before[k]);
                    }
                }
                if gen_same(h, g) {
                    assert(gen_same(v@[i as int], h));
                }
                if gens_have(v@, h) {
                    let k = choose|k: int| 0 <= k < v@.len() && gen_same(v@[k], h);
                    if k != i {
                        assert(v@[k] == before[k]);
                    }
                }
            }
        }
        return;
    }
    proof {
        if i < v.len() {
            lemma_gen_order(g, v@[i as int], g);
        }
    }
    v.insert(i, g);
    proof {
        assert forall|a: int, b: int| 0 <= a < b < v@.len() implies gen_lt(v@[a], v@[b]) by {
            if a < i && b == i {
            } else if a < i && b > i {
                assert(v@[b] == before[b - 1]);
                assert(gen_lt(before[a], g));
                if b - 1 >= i {
                    assert(gen_lt(g, before[i as int]) || b - 1 == i);
                    if b - 1 > i {
                        assert(gen_lt(before[i as int], before[b - 1]));
                        lemma_gen_order(g, before[i as int], before[b - 1]);
                    }
                }
                lemma_gen_order(before[a], g, before[b - 1]);
            } else if a == i {
                assert(v@[b] == before[b - 1]);
                if b - 1 > i {
                    assert(gen_lt(before[i as int], before[b - 1]));
                    lemma_gen_order(g, before[i as int], before[b - 1]);
                }
            } else if a > i {
                assert(v@[a] == before[a - 1]);
                assert(v@[b] == before[b - 1]);
            } else {
                assert(v@[a] == before[a]);
                assert(v@[b] == before[b]);
            }
        }
        assert forall|h: Generation| gens_have(v@, h) <==> (gens_have(before, h) || gen_same(h, g)) by {
            if gens_have(before, h) {
                let k = choose|k: int| 0 <= k < before.len() && gen_same(before[k], h);
                if k < i {
                    assert(v@[k] == before[k]);
                } else {
                    assert(v@[k + 1] == before[k]);
                }
            }
            if gen_same(h, g) {
                assert(v@[i as int] == g);
            }
            if gens_have(v@, h) {
                let k = choose|k: int| 0 <= k < v@.len() && gen_same(v@[k], h);
                if k < i {
                    assert(v@[k] == before[k]);
                } else if k > i {
                    assert(v@[k] == before[k - 1]);
                }
            }
        }
    }
}

/// Whether a generation is young enough to keep: it was modified at most
/// `keep_since` nanoseconds before `now` (and not after `now`).
pub open spec fn recent_spec(g: Generation, keep_since: u128, now: i64) -> bool {
    now >= g.last_modified && now - g.last_modified <= keep_since
}

/// Whether the generation at position `i` of the sorted `s` is removed:
/// it is neither recent nor among the `keep` newest.
pub open spec fn tbr_spec(s: Seq<Generation>, i: int, keep: u32, keep_since: u128, now: i64) -> bool {
    !recent_spec(s[i], keep_since, now) && i < s.len() - keep
}

/// How many generations of `s` sort after `g`.
pub open spec fn newer_count(s: Seq<Generation>, g: Generation) -> nat
    decreases s.len(),
{
    if s.len() == 0 {
        0
    } else {
        (if gen_lt(g, s.last()) {
            1nat
        } else {
            0nat
        }) + newer_count(s.drop_last(), g)
    }
}

/// In generations sorted from oldest to newest, exactly those after the
/// generation at position `i` are newer than it.
pub proof fn lemma_newer_count_sorted(s: Seq<Generation>, i: int)
    requires
        gens_sorted(s),
        0 <= i < s.len(),
    ensures
        newer_count(s, s[i]) == s.len() - i - 1,
{
    lemma_newer_count_prefix(s, i, s.len() as int);
    assert(s.take(s.len() as int) =~= s);
}

proof fn lemma_newer_count_prefix(s: Seq<Generation>, i: int, n: int)
    requires
        gens_sorted(s),
        0 <= i < s.len(),
        0 <= n <= s.len(),
    ensures
        newer_count(s.take(n), s[i]) == if n > i + 1 {
            n - i - 1
        } else {
            0
        },
    decreases n,
{
    if n > 0 {
        lemma_newer_count_prefix(s, i, n - 1);
        assert(s.take(n).drop_last() =~= s.take(n - 1));
        assert(s.take(n).last() == s[n - 1]);
        lemma_gen_order(s[i], s[n - 1], s[i]);
        if n - 1 < i {
            assert(gen_lt(s[n - 1], s[i]));
        }
    }
}

/// Sorts the generations of a profile and tags each one for removal
/// unless it is recent or among the `keep` newest.
pub fn tag_generations(generations: Vec<Generation>, keep: u32, keep_since: u128, now: i64) -> (res: Vec<(Generation, bool)>)
    ensures
        gens_sorted(res@.map_values(|p: (Generation, bool)| p.0)),
        forall|h: Generation|
            gens_have(res@.map_values(|p: (Generation, bool)| p.0), h) <==> gens_have(generations@, h),
        forall|i: int|
            0 <= i < res@.len() ==> res@[i].1 == tbr_spec(
                res@.map_values(|p: (Generation, bool)| p.0),
                i,
                keep,
                keep_since,
                now,
            ),
        forall|i: int|
            0 <= i < res@.len() ==> (!res@[i].1 <==> (recent_spec(res@[i].0, keep_since, now) || newer_count(
                res@.map_values(|p: (Generation, bool)| p.0),
                res@[i].0,
            ) < keep)),
{
    let mut sorted: Vec<Generation> = Vec::new();
    let mut k: usize = 0;
    while k < generations.len()
        invariant
            k <= generations.len(),
            gens_sorted(sorted@),
            forall|h: Generation| gens_have(sorted@, h) <==> gens_have(generations@.take(k as int), h),
        decreases generations.len() - k,
    {
        insert_sorted(&mut sorted, generations[k].duplicate());
        proof {
            assert forall|h: Generation| gens_have(sorted@, h) <==> gens_have(generations@.take(k + 1), h) by {
                let t = generations@.take(k + 1);
                if gen_same(h, generations@[k as int]) {
                    assert(t[k as int] == generations@[k as int]);
                    assert(gen_same(t[k as int], h));
                }
                if gens_have(generations@.take(k as int), h) {
                    let j = choose|j: int| 0 <= j < k && gen_same(generations@.take(k as int)[j], h);
                    assert(gen_same(t[j], h));
                }
                if gens_have(t, h) {
                    let j = choose|j: int| 0 <= j < k + 1 && gen_same(t[j], h);
                    if j < k {
                        assert(gen_same(generations@.take(k as int)[j], h));
                    }
                }
            }
        }
        k = k + 1;
    }
    assert(generations@.take(generations.len() as int) =~= generations@);
    let n = sorted.len();
    let mut res: Vec<(Generation, bool)> = Vec::new();
    let mut i: usize = 0;
    while i < n
        invariant
            i <= n == sorted.len(),
            res@.len() == i,
            forall|j: int| 0 <= j < i ==> res@[j].0 == sorted@[j],
            forall|j: int| 0 <= j < i ==> res@[j].1 == tbr_spec(sorted@, j, keep, keep_since, now),
        decreases n - i,
    {
        let g = &sorted[i];
        let recent = now >= g.last_modified && ((now as i128 - g.last_modified as i128) as u128) <= keep_since;
        let kept_newest = (keep as usize) >= n - i;
        res.push((sorted[i].duplicate(), !recent && !kept_newest));
        proof {
            assert(res@[i as int].0 == sorted@[i as int]);
        }
        i = i + 1;
    }
    assert(res@.map_values(|p: (Generation, bool)| p.0) =~= sorted@);
    assert forall|i: int| 0 <= i < res@.len() implies (!res@[i].1 <==> (recent_spec(res@[i].0, keep_since, now)
        || newer_count(res@.map_values(|p: (Generation, bool)| p.0), res@[i].0) < keep)) by {
        lemma_newer_count_sorted(sorted@, i);
        assert(res@[i].0 == sorted@[i]);
        assert(res@[i].1 == tbr_spec(sorted@, i, keep, keep_since, now));
        assert(res@.map_values(|p: (Generation, bool)| p.0) == sorted@);
    }
    res
}


/// What checking write access to a root's target found.
#[derive(Debug, Clone)]
pub enum AccessOutcome {
    /// The target exists and is writable.
    Granted,
    /// The target does not exist.
    NotFound,
    /// Access was refused (read-only, not permitted).
    Refused,
    /// Another error, with its description.
    Other(String),
}

/// What has been observed of a root so far; `None` is not yet observed.
#[derive(Debug, Clone)]
pub struct GcRootFacts {
    /// Whether the target exists or is itself a link.
    pub present: Option<bool>,
    /// The access check on the target.
    pub access: Option<AccessOutcome>,
    /// Whether the target's metadata can be read through links.
    pub readable: Option<bool>,
    /// The target of the target when it is a link, else the target.
    pub resolved_dst: Option<String>,
    /// The target's age in nanoseconds; `Some(None)` when its time lies in
    /// the future.
    pub age: Option<Option<u128>>,
}

/// The next step for a root: an observation to make, or the decision.
#[derive(Debug, Clone)]
pub enum GcRootStep {
    NeedPresence,
    NeedAccess,
    NeedReadable,
    NeedResolved,
    NeedAge,
    /// The target is gone: remove the root.
    Orphan,
    /// List the root, removing it when the flag holds.
    Tag(bool),
    /// Leave the root alone.
    Skip,
    /// Stop with this error.
    Fail(String),
}

/// The mathematical value of a step.
pub enum StepView {
    NeedPresence,
    NeedAccess,
    NeedReadable,
    NeedResolved,
    NeedAge,
    Orphan,
    Tag(bool),
    Skip,
    Fail(Seq<char>),
}

impl View for GcRootStep {
    type V = StepView;

    open spec fn view(&self) -> StepView {
        match self {
            GcRootStep::NeedPresence => StepView::NeedPresence,
            GcRootStep::NeedAccess => StepView::NeedAccess,
            GcRootStep::NeedReadable => StepView::NeedReadable,
            GcRootStep::NeedResolved => StepView::NeedResolved,
            GcRootStep::NeedAge => StepView::NeedAge,
            GcRootStep::Orphan => StepView::Orphan,
            GcRootStep::Tag(b) => StepView::Tag(*b),
            GcRootStep::Skip => StepView::Skip,
            GcRootStep::Fail(m) => StepView::Fail(m@),
        }
    }
}

/// The decision for the root `src` pointing at `dst`: a missing target
/// makes it an orphan; an unwritable one is skipped; one whose target was
/// already collected is removed; outside the filters it is skipped; a kept
/// direnv root stays; otherwise it goes once older than `keep_since`.
pub open spec fn gcroot_step_spec(src: Seq<char>, dst: Seq<char>, facts: GcRootFacts, options: Options) -> StepView {
    match facts.present {
        None => StepView::NeedPresence,
        Some(false) => StepView::Orphan,
        Some(true) => match facts.access {
            None => StepView::NeedAccess,
            Some(AccessOutcome::NotFound) => StepView::Orphan,
            Some(AccessOutcome::Refused) => StepView::Skip,
            Some(AccessOutcome::Other(e)) => StepView::Fail(
                "Checking access for gcroot \""@ + dst + "\", unknown error: "@ + e@,
            ),
            Some(AccessOutcome::Granted) => match facts.readable {
                None => StepView::NeedReadable,
                Some(false) => StepView::Tag(true),
                Some(true) => match facts.resolved_dst {
                    None => StepView::NeedResolved,
                    Some(resolved) => if !gcroot_filter_spec(
                        src,
                        dst,
                        resolved@,
                        if options.no_direnv {
                            Seq::empty()
                        } else {
                            seq![direnv_regex()]
                        },
                    ) {
                        StepView::Skip
                    } else if options.keep_one && pattern_matches(direnv_regex(), dst) {
                        StepView::Tag(false)
                    } else {
                        match facts.age {
                            None => StepView::NeedAge,
                            Some(None) => StepView::Skip,
                            Some(Some(age)) => StepView::Tag(age > options.keep_since),
                        }
                    },
                },
            },
        },
    }
}

/// A root whose target is present, writable, readable, resolved and within
/// the filters, and that is not a direnv root kept by `keep_one`, is
/// removed exactly when its age exceeds `keep_since`: one no older than
/// `keep_since` is kept. A root with a known age is never kept for any
/// other reason than its age or being such a direnv root.
pub proof fn lemma_gcroot_kept_by_age(src: Seq<char>, dst: Seq<char>, facts: GcRootFacts, options: Options, age: u128)
    requires
        facts.present == Some(true),
        facts.access == Some(AccessOutcome::Granted),
        facts.readable == Some(true),
        facts.age == Some(Some(age)),
    ensures
        facts.resolved_dst matches Some(resolved) && gcroot_filter_spec(
            src,
            dst,
            resolved@,
            if options.no_direnv {
                Seq::empty()
            } else {
                seq![direnv_regex()]
            },
        ) && !(options.keep_one && pattern_matches(direnv_regex(), dst)) ==> {
            &&& age <= options.keep_since ==> gcroot_step_spec(src, dst, facts, options) == StepView::Tag(false)
            &&& age > options.keep_since ==> gcroot_step_spec(src, dst, facts, options) == StepView::Tag(true)
        },
        gcroot_step_spec(src, dst, facts, options) == StepView::Tag(false) ==> (age <= options.keep_since || (
        options.keep_one && pattern_matches(direnv_regex(), dst))),
{
}

/// The other decisions on a root: a target found missing makes it an
/// orphan; a target that may not be written is skipped; a target whose
/// metadata cannot be read is removed; a root outside the filters is
/// skipped; a direnv root is kept under `keep_one`; a root whose age lies in
/// the future is skipped.
pub proof fn lemma_gcroot_decisions(src: Seq<char>, dst: Seq<char>, facts: GcRootFacts, options: Options)
    ensures
        facts.present == Some(false) ==> gcroot_step_spec(src, dst, facts, options) == StepView::Orphan,
        facts.present == Some(true) && facts.access == Some(AccessOutcome::NotFound) ==> gcroot_step_spec(
            src,
            dst,
            facts,
            options,
        ) == StepView::Orphan,
        facts.present == Some(true) && facts.access == Some(AccessOutcome::Refused) ==> gcroot_step_spec(
            src,
            dst,
            facts,
            options,
        ) == StepView::Skip,
        facts.present == Some(true) && facts.access == Some(AccessOutcome::Granted) && facts.readable == Some(false)
            ==> gcroot_step_spec(src, dst, facts, options) == StepView::Tag(true),
        (facts.present == Some(true) && facts.access == Some(AccessOutcome::Granted) && facts.readable == Some(
            true,
        )) ==> match facts.resolved_dst {
            None => true,
            Some(resolved) => {
            let within = gcroot_filter_spec(
                src,
                dst,
                resolved@,
                if options.no_direnv {
                    Seq::empty()
                } else {
                    seq![direnv_regex()]
                },
            );
            &&& !within ==> gcroot_step_spec(src, dst, facts, options) == StepView::Skip
            &&& within && options.keep_one && pattern_matches(direnv_regex(), dst) ==> gcroot_step_spec(
                src,
                dst,
                facts,
                options,
            ) == StepView::Tag(false)
            &&& within && !(options.keep_one && pattern_matches(direnv_regex(), dst)) && facts.age == Some(
                None::<u128>,
            ) ==> gcroot_step_spec(src, dst, facts, options) == StepView::Skip
            },
        },
{
}

/// Decides the next step for a garbage-collector root.
pub fn gcroot_step(src: &str, dst: &str, facts: &GcRootFacts, options: &Options) -> (res: GcRootStep)
    ensures
        res@ == gcroot_step_spec(src@, dst@, *facts, *options),
{
    match facts.present {
        None => return GcRootStep::NeedPresence,
        Some(false) => return GcRootStep::Orphan,
        Some(true) => {},
    }
    match &facts.access {
        None => return GcRootStep::NeedAccess,
        Some(AccessOutcome::NotFound) => return GcRootStep::Orphan,
        Some(AccessOutcome::Refused) => return GcRootStep::Skip,
        Some(AccessOutcome::Other(e)) => {
            let mut m = owned("Checking access for gcroot \"");
            m.append(dst);
            m.append("\", unknown error: ");
            m.append(e.as_str());
            return GcRootStep::Fail(m);
        },
        Some(AccessOutcome::Granted) => {},
    }
    match facts.readable {
        None => return GcRootStep::NeedReadable,
        Some(false) => return GcRootStep::Tag(true),
        Some(true) => {},
    }
    let resolved = match &facts.resolved_dst {
        None => return GcRootStep::NeedResolved,
        Some(r) => r,
    };
    let regexes = gcroot_regexes(options.no_direnv);
    if !gcroot_matches_filter(src, dst, resolved.as_str(), &regexes) {
        return GcRootStep::Skip;
    }
    if options.keep_one && direnv_regex_is_match(dst) {
        return GcRootStep::Tag(false);
    }
    match facts.age {
        None => GcRootStep::NeedAge,
        Some(None) => GcRootStep::Skip,
        Some(Some(age)) => GcRootStep::Tag(age > options.keep_since),
    }
}

/// Splits candidate directories into those that exist and those that do
/// not (which are reported and skipped); `is_dir[i]` tells whether
/// `paths[i]` is a directory.
pub fn filter_existing_dirs(paths: &Vec<String>, is_dir: &Vec<bool>) -> (res: (Vec<String>, Vec<String>))
    requires
        paths.len() == is_dir.len(),
    ensures
        res.0@.map_values(|s: String| s@) == existing_spec(paths@.map_values(|s: String| s@), is_dir@, true),
        res.1@.map_values(|s: String| s@) == existing_spec(paths@.map_values(|s: String| s@), is_dir@, false),
{
    let ghost ps = paths@.map_values(|s: String| s@);
    let mut present: Vec<String> = Vec::new();
    let mut missing: Vec<String> = Vec::new();
    let mut i: usize = 0;
    while i < paths.len()
        invariant
            i <= paths.len() == is_dir.len(),
            ps == paths@.map_values(|s: String| s@),
            present@.map_values(|s: String| s@) == existing_spec(ps.take(i as int), is_dir@.take(i as int), true),
            missing@.map_values(|s: String| s@) == existing_spec(ps.take(i as int), is_dir@.take(i as int), false),
        decreases paths.len() - i,
    {
        let ghost pp = present@.map_values(|s: String| s@);
        let ghost mp = missing@.map_values(|s: String| s@);
        assert(ps.take(i + 1).drop_last() =~= ps.take(i as int));
        assert(is_dir@.take(i + 1).drop_last() =~= is_dir@.take(i as int));
        assert(ps.take(i + 1).last() == paths@[i as int]@);
        if is_dir[i] {
            present.push(paths[i].clone());
            assert(present@.map_values(|s: String| s@) =~= pp.push(paths@[i as int]@));
            assert(missing@.map_values(|s: String| s@) =~= mp);
        } else {
            missing.push(paths[i].clone());
            assert(missing@.map_values(|s: String| s@) =~= mp.push(paths@[i as int]@));
            assert(present@.map_values(|s: String| s@) =~= pp);
        }
        i = i + 1;
    }
    assert(ps.take(paths.len() as int) =~= ps);
    assert(is_dir@.take(paths.len() as int) =~= is_dir@);
    (present, missing)
}

/// The paths whose flag in `flags` equals `want`, in order.
pub open spec fn existing_spec(paths: Seq<Seq<char>>, flags: Seq<bool>, want: bool) -> Seq<Seq<char>>
    decreases paths.len(),
{
    if paths.len() == 0 || flags.len() == 0 {
        Seq::empty()
    } else {
        let rest = existing_spec(paths.drop_last(), flags.drop_last(), want);
        if flags.last() == want {
            rest.push(paths.last())
        } else {
            rest
        }
    }
}

/// What a clean run will do: tagged generations per profile, tagged
/// roots, and orphaned roots.
#[derive(Debug, Clone)]
pub struct CleanPlan {
    pub profiles: Vec<(String, Vec<(Generation, bool)>)>,
    pub gcroots: Vec<GcRootTagged>,
    pub orphan_gcroots: Vec<String>,
}

/// The paths a plan removes, in order: tagged roots (their links), orphaned
/// roots, then tagged generations of each profile, newest first.
pub open spec fn removals_spec(plan: CleanPlan) -> Seq<Seq<char>> {
    plan.gcroots@.filter(|g: GcRootTagged| g.tbr).map_values(|g: GcRootTagged| g.src@) + plan.orphan_gcroots@.map_values(
        |s: String| s@,
    ) + profile_removals(plan.profiles@)
}

/// The generation paths tagged for removal in `profiles`, newest first
/// within each profile.
pub open spec fn profile_removals(profiles: Seq<(String, Vec<(Generation, bool)>)>) -> Seq<Seq<char>>
    decreases profiles.len(),
{
    if profiles.len() == 0 {
        Seq::empty()
    } else {
        profile_removals(profiles.drop_last()) + tagged_newest_first(profiles.last().1@)
    }
}

/// The tagged generation paths of one profile, newest first.
pub open spec fn tagged_newest_first(gens: Seq<(Generation, bool)>) -> Seq<Seq<char>>
    decreases gens.len(),
{
    if gens.len() == 0 {
        Seq::empty()
    } else {
        let rest = tagged_newest_first(gens.drop_last());
        if gens.last().1 {
            seq![gens.last().0.path@] + rest
        } else {
            rest
        }
    }
}

impl CleanPlan {
    /// The paths to remove; none on a dry run.
    pub fn removals(&self, options: &Options) -> (res: Vec<String>)
        ensures
            res@.map_values(|s: String| s@) == removals_spec_for(*self, *options),
    {
        let mut res: Vec<String> = Vec::new();
        if options.dry {
            assert(res@.map_values(|s: String| s@) =~= Seq::<Seq<char>>::empty());
            return res;
        }
        let ghost roots = self.gcroots@;
        let mut i: usize = 0;
        assert(roots.take(0).filter(|g: GcRootTagged| g.tbr) =~= Seq::<GcRootTagged>::empty());
        assert(res@.map_values(|s: String| s@) =~= Seq::<Seq<char>>::empty());
        while i < self.gcroots.len()
            invariant
                i <= self.gcroots.len(),
                roots == self.gcroots@,
                res@.map_values(|s: String| s@) == roots.take(i as int).filter(|g: GcRootTagged| g.tbr).map_values(
                    |g: GcRootTagged| g.src@,
                ),
            decreases self.gcroots.len() - i,
        {
            let ghost prev = res@.map_values(|s: String| s@);
            proof {
                assert(roots.take(i + 1).drop_last() =~= roots.take(i as int));
                reveal(Seq::filter);
            }
            if self.gcroots[i].tbr {
                res.push(gcroot_path_to_remove(&self.gcroots[i]).to_owned());
                assert(res@.map_values(|s: String| s@) =~= prev.push(roots[i as int].src@));
            }
            i = i + 1;
            assert(res@.map_values(|s: String| s@) =~= roots.take(i as int).filter(|g: GcRootTagged| g.tbr).map_values(
                |g: GcRootTagged| g.src@,
            ));
        }
        assert(roots.take(roots.len() as int) =~= roots);
        let ghost after_roots = res@.map_values(|s: String| s@);
        let mut j: usize = 0;
        while j < self.orphan_gcroots.len()
            invariant
                j <= self.orphan_gcroots.len(),
                res@.map_values(|s: String| s@) == after_roots + self.orphan_gcroots@.map_values(|s: String| s@).take(
                    j as int,
                ),
            decreases self.orphan_gcroots.len() - j,
        {
            let ghost prev = res@.map_values(|s: String| s@);
            let ghost os = self.orphan_gcroots@.map_values(|s: String| s@);
            res.push(self.orphan_gcroots[j].clone());
            assert(res@.map_values(|s: String| s@) =~= prev.push(os[j as int]));
            assert(os.take(j + 1) =~= os.take(j as int).push(os[j as int]));
            j = j + 1;
            assert(res@.map_values(|s: String| s@) =~= after_roots + self.orphan_gcroots@.map_values(|s: String| s@).take(
                j as int,
            ));
        }
        assert(self.orphan_gcroots@.map_values(|s: String| s@).take(self.orphan_gcroots.len() as int)
            =~= self.orphan_gcroots@.map_values(|s: String| s@));
        let ghost after_orphans = res@.map_values(|s: String| s@);
        let mut p: usize = 0;
        assert(self.profiles@.take(0) =~= Seq::<(String, Vec<(Generation, bool)>)>::empty());
        assert(after_orphans + profile_removals(self.profiles@.take(0)) =~= after_orphans);
        while p < self.profiles.len()
            invariant
                p <= self.profiles.len(),
                res@.map_values(|s: String| s@) == after_orphans + profile_removals(self.profiles@.take(p as int)),
            decreases self.profiles.len() - p,
        {
            let gens = &self.profiles[p].1;
            let ghost base = res@.map_values(|s: String| s@);
            let mut k = gens.len();
            assert(tagged_newest_first(gens@.skip(k as int)) =~= Seq::<Seq<char>>::empty()) by {
                assert(gens@.skip(k as int) =~= Seq::<(Generation, bool)>::empty());
            }
            assert(base + Seq::<Seq<char>>::empty() =~= base);
            while k > 0
                invariant
                    k <= gens.len(),
                    res@.map_values(|s: String| s@) == base + newest_from(gens@, k as int),
                decreases k,
            {
                let ghost prev = res@.map_values(|s: String| s@);
                if gens[k - 1].1 {
                    res.push(gens[k - 1].0.path.clone());
                    assert(res@.map_values(|s: String| s@) =~= prev.push(gens@[k - 1].0.path@));
                }
                k = k - 1;
                assert(res@.map_values(|s: String| s@) =~= base + newest_from(gens@, k as int));
            }
            proof {
                lemma_newest_from_all(gens@);
                assert(self.profiles@.take(p + 1).drop_last() =~= self.profiles@.take(p as int));
                assert(self.profiles@.take(p + 1).last() == self.profiles@[p as int]);
            }
            p = p + 1;
            assert(res@.map_values(|s: String| s@) =~= after_orphans + profile_removals(self.profiles@.take(p as int)));
        }
        assert(self.profiles@.take(self.profiles.len() as int) =~= self.profiles@);
        res
    }
}

/// The tagged paths of `gens[k..]`, newest first.
pub open spec fn newest_from(gens: Seq<(Generation, bool)>, k: int) -> Seq<Seq<char>>
    decreases gens.len() - k,
{
    if k >= gens.len() || k < 0 {
        Seq::empty()
    } else {
        newest_from(gens, k + 1) + if gens[k].1 {
            seq![gens[k].0.path@]
        } else {
            Seq::empty()
        }
    }
}

proof fn lemma_newest_from_all(gens: Seq<(Generation, bool)>)
    ensures
        newest_from(gens, 0) == tagged_newest_first(gens),
    decreases gens.len(),
{
    if gens.len() > 0 {
        lemma_newest_from_all(gens.drop_last());
        lemma_newest_from_shift(gens, 0);
        assert(gens.drop_last().len() == gens.len() - 1);
    }
}

proof fn lemma_newest_from_shift(gens: Seq<(Generation, bool)>, k: int)
    requires
        gens.len() > 0,
        0 <= k <= gens.len() - 1,
    ensures
        newest_from(gens, k) == (if gens.last().1 {
            seq![gens.last().0.path@]
        } else {
            Seq::empty()
        }) + newest_from(gens.drop_last(), k),
    decreases gens.len() - k,
{
    if k == gens.len() - 1 {
        assert(newest_from(gens, k + 1) =~= Seq::<Seq<char>>::empty());
        assert(newest_from(gens.drop_last(), k) =~= Seq::<Seq<char>>::empty());
        if gens.last().1 {
            assert(newest_from(gens, k) =~= seq![gens.last().0.path@]);
        } else {
            assert(newest_from(gens, k) =~= Seq::<Seq<char>>::empty());
        }
        assert(gens[k] == gens.last());
    } else {
        lemma_newest_from_shift(gens, k + 1);
        assert(gens.drop_last()[k] == gens[k]);
        let head = if gens.last().1 {
            seq![gens.last().0.path@]
        } else {
            Seq::<Seq<char>>::empty()
        };
        let here = if gens[k].1 {
            seq![gens[k].0.path@]
        } else {
            Seq::<Seq<char>>::empty()
        };
        assert(newest_from(gens, k) == newest_from(gens, k + 1) + here);
        assert(newest_from(gens.drop_last(), k) == newest_from(gens.drop_last(), k + 1) + here);
        assert(head + newest_from(gens.drop_last(), k + 1) + here =~= head + (newest_from(gens.drop_last(), k + 1)
            + here));
    }
}

/// The arguments of the garbage collection a clean run starts, if any.
pub open spec fn gc_args_spec(options: Options) -> Option<Seq<Seq<char>>> {
    if options.no_gc {
        None
    } else {
        Some(
            seq!["store"@, "gc"@] + match options.max {
                Some(m) => seq!["--max"@, m@],
                None => Seq::empty(),
            },
        )
    }
}

/// The arguments of `nix store gc` for a clean run; `None` when collection
/// is disabled.
pub fn gc_args(options: &Options) -> (res: Option<Vec<String>>)
    ensures
        match res {
            Some(v) => gc_args_spec(*options) == Some(v@.map_values(|s: String| s@)),
            None => gc_args_spec(*options) is None,
        },
{
    if options.no_gc {
        return None;
    }
    let mut args: Vec<String> = Vec::new();
    args.push(owned("store"));
    args.push(owned("gc"));
    if let Some(max) = &options.max {
        args.push(owned("--max"));
        args.push(max.clone());
    }
    assert(args@.map_values(|s: String| s@) =~= gc_args_spec(*options)->0);
    Some(args)
}


/// How a piece of terminal text is styled.
#[derive(Debug, Clone, Copy, PartialEq, Eq, Structural)]
pub enum Tone {
    Plain,
    Bold,
    Green,
    Magenta,
    Red,
    BlueBold,
}

/// A styled piece of a line.
#[derive(Debug, Clone)]
pub struct Segment {
    pub tone: Tone,
    pub text: String,
}

/// The mathematical value of a rendered line.
pub open spec fn line_view(line: Vec<Segment>) -> Seq<(Tone, Seq<char>)> {
    line@.map_values(|s: Segment| (s.tone, s.text@))
}

/// The mathematical value of rendered lines.
pub open spec fn lines_view(lines: Seq<Vec<Segment>>) -> Seq<Seq<(Tone, Seq<char>)>> {
    lines.map_values(|l: Vec<Segment>| line_view(l))
}

/// A line made of one styled piece.
pub open spec fn one(tone: Tone, text: Seq<char>) -> Seq<(Tone, Seq<char>)> {
    seq![(tone, text)]
}

/// The marker line for a kept or removed path.
pub open spec fn marked_line(remove: bool, path: Seq<char>) -> Seq<(Tone, Seq<char>)> {
    seq![
        (Tone::Plain, "- "@),
        if remove {
            (Tone::Red, "DEL"@)
        } else {
            (Tone::Green, "OK "@)
        },
        (Tone::Plain, " "@ + path),
    ]
}

/// One part of a displayed duration: nothing for a zero amount, else the
/// amount and the unit, with an `s` after a plural unit name above one.
pub open spec fn duration_part(value: nat, unit: Seq<char>, plural: bool) -> Seq<Seq<char>> {
    if value == 0 {
        Seq::empty()
    } else {
        seq![decimal(value) + unit + if plural && value > 1 {
            "s"@
        } else {
            Seq::empty()
        }]
    }
}

/// What `humantime::format_duration` displays for a duration of `secs`
/// seconds and `nanos` nanoseconds: `0s` for zero; otherwise the non-zero
/// years (365.25 days), months (30.44 days), days, hours, minutes, seconds,
/// milliseconds, microseconds and nanoseconds, separated by spaces.
pub open spec fn humantime_text(secs: u64, nanos: u32) -> Seq<char> {
    if secs == 0 && nanos == 0 {
        "0s"@
    } else {
        let ydays = secs % 31_557_600;
        let mdays = ydays % 2_630_016;
        let day_secs = mdays % 86400;
        crate::text::join_spec(
            duration_part((secs / 31_557_600) as nat, "year"@, true) + duration_part(
                (ydays / 2_630_016) as nat,
                "month"@,
                true,
            ) + duration_part((mdays / 86400) as nat, "day"@, true) + duration_part((day_secs / 3600) as nat, "h"@, false)
                + duration_part((day_secs % 3600 / 60) as nat, "m"@, false) + duration_part(
                (day_secs % 60) as nat,
                "s"@,
                false,
            ) + duration_part((nanos / 1_000_000) as nat, "ms"@, false) + duration_part(
                (nanos / 1000 % 1000) as nat,
                "us"@,
                false,
            ) + duration_part((nanos % 1000) as nat, "ns"@, false),
            " "@,
        )
    }
}

/// Calls `humantime::format_duration` on the duration of `secs` seconds
/// and `nanos` nanoseconds and displays it (the crate's `mu` feature is
/// off, so microseconds show as `us`).
#[verifier::external_body]
fn format_duration(secs: u64, nanos: u32) -> (res: String)
    requires
        nanos < 1_000_000_000,
    ensures
        res@ == humantime_text(secs, nanos),
{
    humantime::format_duration(std::time::Duration::new(secs, nanos)).to_string()
}

/// The largest `keep_since` a duration can hold, in nanoseconds.
pub open spec fn max_keep_since() -> int {
    (u64::MAX as int + 1) * 1_000_000_000
}

/// The text of `keep_since` as the header shows it.
pub open spec fn keep_since_text(keep_since: u128) -> Seq<char> {
    humantime_text((keep_since / 1_000_000_000) as u64, (keep_since % 1_000_000_000) as u32)
}

/// The header of a clean plan, given the text shown for `keep_since`.
pub open spec fn render_header_spec(options: Options, keep_since_text: Seq<char>) -> Seq<Seq<(Tone, Seq<char>)>> {
    seq![
        Seq::empty(),
        one(Tone::Bold, "Welcome to nh clean"@),
        seq![(Tone::Plain, "Keeping "@), (Tone::Green, decimal(options.keep as nat)), (Tone::Plain, " generation(s)"@)],
        seq![(Tone::Plain, "Keeping paths newer than "@), (Tone::Green, keep_since_text)],
    ] + (if options.keep_one {
        seq![one(Tone::Plain, "Keeping all active direnv gcroots"@)]
    } else {
        Seq::empty()
    }) + (if options.no_direnv {
        seq![one(Tone::Plain, "Skipping all direnv gcroots"@)]
    } else {
        Seq::empty()
    }) + seq![
        Seq::empty(),
        one(Tone::Plain, "legend:"@),
        seq![(Tone::Magenta, "RE"@), (Tone::Plain, ": path regular expression to be matched"@)],
        seq![(Tone::Green, "OK"@), (Tone::Plain, ": path to be kept"@)],
        seq![(Tone::Red, "DEL"@), (Tone::Plain, ": path to be removed"@)],
        Seq::empty(),
    ]
}

fn seg(tone: Tone, text: &str) -> (res: Segment)
    ensures
        res.tone == tone,
        res.text@ == text@,
{
    Segment { tone, text: owned(text) }
}

fn push_marked(lines: &mut Vec<Vec<Segment>>, remove: bool, path: &str)
    ensures
        lines_view(final(lines)@) == lines_view(old(lines)@).push(marked_line(remove, path@)),
{
    let mut line: Vec<Segment> = Vec::new();
    line.push(seg(Tone::Plain, "- "));
    if remove {
        line.push(seg(Tone::Red, "DEL"));
    } else {
        line.push(seg(Tone::Green, "OK "));
    }
    line.push(Segment { tone: Tone::Plain, text: crate::text::concat_str(" ", path) });
    let ghost before = lines_view(lines@);
    lines.push(line);
    assert(line_view(lines@.last()) =~= marked_line(remove, path@));
    assert(lines_view(lines@) =~= before.push(marked_line(remove, path@)));
}

fn push_one(lines: &mut Vec<Vec<Segment>>, tone: Tone, text: &str)
    ensures
        lines_view(final(lines)@) == lines_view(old(lines)@).push(one(tone, text@)),
{
    let mut line: Vec<Segment> = Vec::new();
    line.push(seg(tone, text));
    let ghost before = lines_view(lines@);
    lines.push(line);
    assert(line_view(lines@.last()) =~= one(tone, text@));
    assert(lines_view(lines@) =~= before.push(one(tone, text@)));
}

fn push_empty(lines: &mut Vec<Vec<Segment>>)
    ensures
        lines_view(final(lines)@) == lines_view(old(lines)@).push(Seq::empty()),
{
    let line: Vec<Segment> = Vec::new();
    let ghost before = lines_view(lines@);
    lines.push(line);
    assert(line_view(lines@.last()) =~= Seq::<(Tone, Seq<char>)>::empty());
    assert(lines_view(lines@) =~= before.push(Seq::empty()));
}

fn push_two(lines: &mut Vec<Vec<Segment>>, t1: Tone, s1: &str, t2: Tone, s2: &str)
    ensures
        lines_view(final(lines)@) == lines_view(old(lines)@).push(seq![(t1, s1@), (t2, s2@)]),
{
    let mut line: Vec<Segment> = Vec::new();
    line.push(seg(t1, s1));
    line.push(seg(t2, s2));
    let ghost before = lines_view(lines@);
    lines.push(line);
    assert(line_view(lines@.last()) =~= seq![(t1, s1@), (t2, s2@)]);
    assert(lines_view(lines@) =~= before.push(seq![(t1, s1@), (t2, s2@)]));
}

/// The header of a clean plan: options in effect and the legend.
pub fn render_header(options: &Options) -> (res: Vec<Vec<Segment>>)
    requires
        options.keep_since < max_keep_since(),
    ensures
        lines_view(res@) == render_header_spec(*options, keep_since_text(options.keep_since)),
{
    let secs = (options.keep_since / 1_000_000_000) as u64;
    let nanos = (options.keep_since % 1_000_000_000) as u32;
    let text = format_duration(secs, nanos);
    let since = text.as_str();
    let mut lines: Vec<Vec<Segment>> = Vec::new();
    push_empty(&mut lines);
    push_one(&mut lines, Tone::Bold, "Welcome to nh clean");
    let mut keep_line: Vec<Segment> = Vec::new();
    keep_line.push(seg(Tone::Plain, "Keeping "));
    let keep_text = u64_to_decimal(options.keep as u64);
    assert(keep_text@ == decimal(options.keep as nat));
    keep_line.push(Segment { tone: Tone::Green, text: keep_text });
    keep_line.push(seg(Tone::Plain, " generation(s)"));
    let ghost b1 = lines_view(lines@);
    lines.push(keep_line);
    assert(line_view(lines@.last()) =~= seq![(Tone::Plain, "Keeping "@), (Tone::Green, decimal(options.keep as nat)), (Tone::Plain, " generation(s)"@)]);
    assert(lines_view(lines@) =~= b1.push(
        seq![(Tone::Plain, "Keeping "@), (Tone::Green, decimal(options.keep as nat)), (Tone::Plain, " generation(s)"@)],
    ));
    push_two(&mut lines, Tone::Plain, "Keeping paths newer than ", Tone::Green, since);
    let ghost first = lines_view(lines@);
    if options.keep_one {
        push_one(&mut lines, Tone::Plain, "Keeping all active direnv gcroots");
    }
    let ghost second = lines_view(lines@);
    if options.no_direnv {
        push_one(&mut lines, Tone::Plain, "Skipping all direnv gcroots");
    }
    let ghost third = lines_view(lines@);
    push_empty(&mut lines);
    push_one(&mut lines, Tone::Plain, "legend:");
    push_two(&mut lines, Tone::Magenta, "RE", Tone::Plain, ": path regular expression to be matched");
    push_two(&mut lines, Tone::Green, "OK", Tone::Plain, ": path to be kept");
    push_two(&mut lines, Tone::Red, "DEL", Tone::Plain, ": path to be removed");
    push_empty(&mut lines);
    assert(lines_view(lines@) =~= render_header_spec(*options, keep_since_text(options.keep_since)));
    lines
}

/// The sections of a clean plan after the header: orphaned roots, tagged
/// roots with the expressions used, then each profile's generations,
/// newest first.
pub open spec fn render_body_spec(plan: CleanPlan, regexes: Seq<Seq<char>>) -> Seq<Seq<(Tone, Seq<char>)>> {
    (if plan.orphan_gcroots@.len() > 0 {
        seq![one(Tone::BlueBold, "orphaned gcroots"@)] + plan.orphan_gcroots@.map_values(
            |p: String| marked_line(true, p@),
        ) + seq![Seq::empty()]
    } else {
        Seq::empty()
    }) + (if plan.gcroots@.len() > 0 {
        seq![one(Tone::BlueBold, "gcroots"@)] + regexes.map_values(
            |r: Seq<char>| seq![(Tone::Plain, "- "@), (Tone::Magenta, "RE"@), (Tone::Plain, "  "@ + r)],
        ) + seq![seq![(Tone::Plain, "- "@), (Tone::Magenta, "RE"@), (Tone::Plain, "  /nix/store direct children"@)]]
            + plan.gcroots@.map_values(|g: GcRootTagged| marked_line(g.tbr, g.dst@)) + seq![Seq::empty()]
    } else {
        Seq::empty()
    }) + profiles_render(plan.profiles@)
}

/// The sections of the profiles.
pub open spec fn profiles_render(profiles: Seq<(String, Vec<(Generation, bool)>)>) -> Seq<Seq<(Tone, Seq<char>)>>
    decreases profiles.len(),
{
    if profiles.len() == 0 {
        Seq::empty()
    } else {
        profiles_render(profiles.drop_last()) + seq![one(Tone::BlueBold, profiles.last().0@)] + profiles.last().1@.reverse().map_values(
            |g: (Generation, bool)| marked_line(g.1, g.0.path@),
        ) + seq![Seq::empty()]
    }
}

impl CleanPlan {
    /// The sections of the plan after the header.
    pub fn render_body(&self, regexes: &Vec<String>) -> (res: Vec<Vec<Segment>>)
        ensures
            lines_view(res@) == render_body_spec(*self, regexes@.map_values(|s: String| s@)),
    {
        let mut lines: Vec<Vec<Segment>> = Vec::new();
        let ghost rs = regexes@.map_values(|s: String| s@);
        if self.orphan_gcroots.len() > 0 {
            push_one(&mut lines, Tone::BlueBold, "orphaned gcroots");
            let ghost start = lines_view(lines@);
            let mut i: usize = 0;
            while i < self.orphan_gcroots.len()
                invariant
                    i <= self.orphan_gcroots.len(),
                    lines_view(lines@) == start + self.orphan_gcroots@.take(i as int).map_values(
                        |p: String| marked_line(true, p@),
                    ),
                decreases self.orphan_gcroots.len() - i,
            {
                push_marked(&mut lines, true, self.orphan_gcroots[i].as_str());
                i = i + 1;
                assert(self.orphan_gcroots@.take(i as int).drop_last() =~= self.orphan_gcroots@.take(i - 1));
                assert(lines_view(lines@) =~= start + self.orphan_gcroots@.take(i as int).map_values(
                    |p: String| marked_line(true, p@),
                ));
            }
            assert(self.orphan_gcroots@.take(i as int) =~= self.orphan_gcroots@);
            push_empty(&mut lines);
        }
        let ghost after_orphans = lines_view(lines@);
        if self.gcroots.len() > 0 {
            push_one(&mut lines, Tone::BlueBold, "gcroots");
            let ghost start = lines_view(lines@);
            let mut i: usize = 0;
            while i < regexes.len()
                invariant
                    i <= regexes.len(),
                    rs == regexes@.map_values(|s: String| s@),
                    lines_view(lines@) == start + rs.take(i as int).map_values(
                        |r: Seq<char>| seq![(Tone::Plain, "- "@), (Tone::Magenta, "RE"@), (Tone::Plain, "  "@ + r)],
                    ),
                decreases regexes.len() - i,
            {
                let mut line: Vec<Segment> = Vec::new();
                line.push(seg(Tone::Plain, "- "));
                line.push(seg(Tone::Magenta, "RE"));
                line.push(Segment { tone: Tone::Plain, text: crate::text::concat_str("  ", regexes[i].as_str()) });
                let ghost before = lines_view(lines@);
                let ghost l = seq![(Tone::Plain, "- "@), (Tone::Magenta, "RE"@), (Tone::Plain, "  "@ + rs[i as int])];
                lines.push(line);
                assert(line_view(lines@.last()) =~= l);
                assert(lines_view(lines@) =~= before.push(l));
                i = i + 1;
                assert(rs.take(i as int).drop_last() =~= rs.take(i - 1));
                assert(lines_view(lines@) =~= start + rs.take(i as int).map_values(
                    |r: Seq<char>| seq![(Tone::Plain, "- "@), (Tone::Magenta, "RE"@), (Tone::Plain, "  "@ + r)],
                ));
            }
            assert(rs.take(i as int) =~= rs);
            let mut line: Vec<Segment> = Vec::new();
            line.push(seg(Tone::Plain, "- "));
            line.push(seg(Tone::Magenta, "RE"));
            line.push(seg(Tone::Plain, "  /nix/store direct children"));
            let ghost before = lines_view(lines@);
            let ghost l = seq![(Tone::Plain, "- "@), (Tone::Magenta, "RE"@), (Tone::Plain, "  /nix/store direct children"@)];
            lines.push(line);
            assert(line_view(lines@.last()) =~= l);
            assert(lines_view(lines@) =~= before.push(l));
            let ghost mid = lines_view(lines@);
            let mut k: usize = 0;
            while k < self.gcroots.len()
                invariant
                    k <= self.gcroots.len(),
                    lines_view(lines@) == mid + self.gcroots@.take(k as int).map_values(
                        |g: GcRootTagged| marked_line(g.tbr, g.dst@),
                    ),
                decreases self.gcroots.len() - k,
            {
                push_marked(&mut lines, self.gcroots[k].tbr, self.gcroots[k].dst.as_str());
                k = k + 1;
                assert(self.gcroots@.take(k as int).drop_last() =~= self.gcroots@.take(k - 1));
                assert(lines_view(lines@) =~= mid + self.gcroots@.take(k as int).map_values(
                    |g: GcRootTagged| marked_line(g.tbr, g.dst@),
                ));
            }
            assert(self.gcroots@.take(k as int) =~= self.gcroots@);
            push_empty(&mut lines);
        }
        let ghost after_roots = lines_view(lines@);
        let mut p: usize = 0;
        assert(profiles_render(self.profiles@.take(0)) =~= Seq::<Seq<(Tone, Seq<char>)>>::empty()) by {
            assert(self.profiles@.take(0) =~= Seq::<(String, Vec<(Generation, bool)>)>::empty());
        }
        while p < self.profiles.len()
            invariant
                p <= self.profiles.len(),
                lines_view(lines@) == after_roots + profiles_render(self.profiles@.take(p as int)),
            decreases self.profiles.len() - p,
        {
            let name = &self.profiles[p].0;
            let gens = &self.profiles[p].1;
            push_one(&mut lines, Tone::BlueBold, name.as_str());
            let ghost start = lines_view(lines@);
            let mut k = gens.len();
            assert(gens@.reverse().take(0) =~= Seq::<(Generation, bool)>::empty());
            while k > 0
                invariant
                    k <= gens.len(),
                    lines_view(lines@) == start + gens@.reverse().take(gens.len() - k).map_values(
                        |g: (Generation, bool)| marked_line(g.1, g.0.path@),
                    ),
                decreases k,
            {
                push_marked(&mut lines, gens[k - 1].1, gens[k - 1].0.path.as_str());
                k = k - 1;
                assert(gens@.reverse().take(gens.len() - k) =~= gens@.reverse().take(gens.len() - k - 1).push(gens@[k as int]));
                assert(lines_view(lines@) =~= start + gens@.reverse().take(gens.len() - k).map_values(
                    |g: (Generation, bool)| marked_line(g.1, g.0.path@),
                ));
            }
            assert(gens@.reverse().take(gens.len() as int) =~= gens@.reverse());
            push_empty(&mut lines);
            proof {
                assert(self.profiles@.take(p + 1).drop_last() =~= self.profiles@.take(p as int));
                assert(self.profiles@.take(p + 1).last() == self.profiles@[p as int]);
            }
            p = p + 1;
            assert(lines_view(lines@) =~= after_roots + profiles_render(self.profiles@.take(p as int)));
        }
        assert(self.profiles@.take(self.profiles.len() as int) =~= self.profiles@);
        assert(lines_view(lines@) =~= render_body_spec(*self, rs));
        lines
    }
}

} // verus!

verus! {

/// The profiles among directory entries: those whose link target (when the
/// entry is a link) has a file name shaped like a generation link, in
/// entry order.
pub open spec fn profiles_spec(entries: Seq<(Seq<char>, Option<Seq<char>>)>) -> Seq<Seq<char>>
    decreases entries.len(),
{
    if entries.len() == 0 {
        Seq::empty()
    } else {
        let rest = profiles_spec(entries.drop_last());
        let (path, target) = entries.last();
        match target {
            Some(t) => match crate::paths::file_name_spec(t) {
                Some(name) => if is_generation_link_spec(name) {
                    rest.push(path)
                } else {
                    rest
                },
                None => rest,
            },
            None => rest,
        }
    }
}

/// The profiles of a directory, from its entries: each path with its link
/// target, or `None` when it is not a link.
pub fn profiles_in_dir(entries: &Vec<(String, Option<String>)>) -> (res: Vec<String>)
    ensures
        crate::text::strings_view(res@) == profiles_spec(
            entries@.map_values(|e: (String, Option<String>)| (e.0@, crate::remote::opt_view(e.1))),
        ),
{
    let ghost ev = entries@.map_values(|e: (String, Option<String>)| (e.0@, crate::remote::opt_view(e.1)));
    let mut res: Vec<String> = Vec::new();
    let mut i: usize = 0;
    while i < entries.len()
        invariant
            i <= entries.len(),
            ev == entries@.map_values(|e: (String, Option<String>)| (e.0@, crate::remote::opt_view(e.1))),
            crate::text::strings_view(res@) == profiles_spec(ev.take(i as int)),
        decreases entries.len() - i,
    {
        assert(ev.take(i + 1).drop_last() =~= ev.take(i as int));
        assert(ev.take(i + 1).last() == ev[i as int]);
        let ghost prev = res@;
        match &entries[i].1 {
            Some(t) => match crate::paths::file_name(t.as_str()) {
                Some(name) => if is_generation_link(name.as_str()) {
                    let p = entries[i].0.clone();
                    res.push(p);
                    assert(crate::text::strings_view(res@) =~= crate::text::strings_view(prev).push(p@));
                },
                None => {},
            },
            None => {},
        }
        i = i + 1;
    }
    assert(ev.take(entries.len() as int) =~= ev);
    res
}

} // verus!

verus! {

/// How a clean run starts for its scope.
#[derive(Debug, Clone)]
pub enum ScopeStart {
    /// Go on as the current user.
    Proceed,
    /// Re-run the program elevated first.
    SelfElevate,
    /// Refuse the run with this message.
    Refuse(String),
}

/// The message refusing to clean a user's profiles as root.
pub open spec fn user_as_root_message() -> Seq<char> {
    "nh clean user: don't run me as root!"@
}

/// How a clean of `scope` starts; `is_root` says whether the process runs
/// as root. Cleaning all profiles needs root, so a non-root run elevates
/// itself; cleaning the user's own profiles is refused as root.
pub fn scope_start(scope: &Scope, is_root: bool) -> (res: ScopeStart)
    ensures
        match scope {
            Scope::All => if is_root {
                res is Proceed
            } else {
                res is SelfElevate
            },
            Scope::User => if is_root {
                res matches ScopeStart::Refuse(m) && m@ == user_as_root_message()
            } else {
                res is Proceed
            },
            Scope::Profile(_) => res is Proceed,
        },
{
    match scope {
        Scope::All => if is_root {
            ScopeStart::Proceed
        } else {
            ScopeStart::SelfElevate
        },
        Scope::User => if is_root {
            ScopeStart::Refuse(owned("nh clean user: don't run me as root!"))
        } else {
            ScopeStart::Proceed
        },
        Scope::Profile(_) => ScopeStart::Proceed,
    }
}

/// The profile paths of a plan, in order.
pub open spec fn profile_keys(profiles: Seq<(String, Vec<(Generation, bool)>)>) -> Seq<Seq<char>> {
    profiles.map_values(|p: (String, Vec<(Generation, bool)>)| p.0@)
}

/// Whether no profile path occurs twice.
pub open spec fn keys_unique(profiles: Seq<(String, Vec<(Generation, bool)>)>) -> bool {
    forall|i: int, j: int|
        0 <= i < j < profiles.len() ==> #[trigger] profiles[i].0@ != #[trigger] profiles[j].0@
}

/// Whether `i` is the first position of `k` in `keys`.
pub open spec fn is_first_key(keys: Seq<Seq<char>>, k: Seq<char>, i: int) -> bool {
    0 <= i < keys.len() && keys[i] == k && forall|j: int| 0 <= j < i ==> keys[j] != k
}

/// The first position of `k` in `keys`, if it occurs.
pub open spec fn first_key_position(keys: Seq<Seq<char>>, k: Seq<char>) -> Option<int> {
    if exists|i: int| is_first_key(keys, k, i) {
        Some(choose|i: int| is_first_key(keys, k, i))
    } else {
        None
    }
}

impl CleanPlan {
    /// Records the tagged generations of `path`, replacing what was
    /// recorded for the same path, as a map insertion does; a new path is
    /// added at the end. The other parts of the plan are unchanged.
    pub fn insert_profile(&mut self, path: String, generations: Vec<(Generation, bool)>)
        ensures
            final(self).gcroots == old(self).gcroots,
            final(self).orphan_gcroots == old(self).orphan_gcroots,
            match first_key_position(profile_keys(old(self).profiles@), path@) {
                Some(i) => final(self).profiles@ == old(self).profiles@.update(i, (path, generations)),
                None => final(self).profiles@ == old(self).profiles@.push((path, generations)),
            },
            keys_unique(old(self).profiles@) ==> keys_unique(final(self).profiles@),
    {
        let ghost keys = profile_keys(self.profiles@);
        let mut i: usize = 0;
        while i < self.profiles.len()
            invariant
                i <= self.profiles.len(),
                self.gcroots == old(self).gcroots,
                self.orphan_gcroots == old(self).orphan_gcroots,
                self.profiles@ == old(self).profiles@,
                keys == profile_keys(self.profiles@),
                forall|j: int| 0 <= j < i ==> keys[j] != path@,
            decreases self.profiles.len() - i,
        {
            if crate::text::str_eq(self.profiles[i].0.as_str(), path.as_str()) {
                proof {
                    assert(is_first_key(keys, path@, i as int));
                    let k = choose|k: int| is_first_key(keys, path@, k);
                    assert(k == i) by {
                        if k < i {
                            assert(keys[k] != path@);
                        } else if k > i {
                            assert(keys[i as int] != path@);
                        }
                    }
                }
                let ghost before = self.profiles@;
                self.profiles.set(i, (path, generations));
                proof {
                    if keys_unique(before) {
                        assert forall|a: int, b: int| 0 <= a < b < self.profiles@.len() implies #[trigger] self.profiles@[a].0@
                            != #[trigger] self.profiles@[b].0@ by {
                            if a == i {
                                assert(keys[b] == before[b].0@);
                                assert(keys[b] != path@ || b < i);
                            } else if b == i {
                                assert(keys[a] != path@);
                            }
                        }
                    }
                }
                return;
            }
            i = i + 1;
        }
        proof {
            assert forall|k: int| !is_first_key(keys, path@, k) by {}
        }
        let ghost before = self.profiles@;
        self.profiles.push((path, generations));
        proof {
            if keys_unique(before) {
                assert forall|a: int, b: int| 0 <= a < b < self.profiles@.len() implies #[trigger] self.profiles@[a].0@
                    != #[trigger] self.profiles@[b].0@ by {
                    if b == before.len() {
                        assert(keys[a] != path@);
                    } else {
                        assert(before[a] == self.profiles@[a]);
                    }
                }
            }
        }
    }
}

} // verus!

verus! {

/// The paths a clean run removes: none on a dry run, else the plan's
/// removals.
pub open spec fn removals_spec_for(plan: CleanPlan, options: Options) -> Seq<Seq<char>> {
    if options.dry {
        Seq::empty()
    } else {
        removals_spec(plan)
    }
}

/// Whether generation path `p` is tagged for removal in some profile.
pub open spec fn tagged_in_profiles(profiles: Seq<(String, Vec<(Generation, bool)>)>, p: Seq<char>) -> bool {
    exists|i: int, j: int|
        0 <= i < profiles.len() && 0 <= j < profiles[i].1@.len() && #[trigger] profiles[i].1@[j].1
            && #[trigger] profiles[i].1@[j].0.path@ == p
}

proof fn lemma_tagged_newest_first(gens: Seq<(Generation, bool)>, p: Seq<char>)
    ensures
        tagged_newest_first(gens).contains(p) <==> exists|j: int| 0 <= j < gens.len() && #[trigger] gens[j].1 && gens[j].0.path@ == p,
    decreases gens.len(),
{
    if gens.len() > 0 {
        let rest = gens.drop_last();
        lemma_tagged_newest_first(rest, p);
        let t = tagged_newest_first(gens);
        let tr = tagged_newest_first(rest);
        if gens.last().1 {
            assert(t == seq![gens.last().0.path@] + tr);
        } else {
            assert(t == tr);
        }
        if t.contains(p) {
            if gens.last().1 && p == gens.last().0.path@ {
                assert(gens[gens.len() - 1].1);
            } else {
                if gens.last().1 {
                    let k = choose|k: int| 0 <= k < t.len() && t[k] == p;
                    assert(k > 0);
                    assert(tr[k - 1] == p);
                }
                let j = choose|j: int| 0 <= j < rest.len() && #[trigger] rest[j].1 && rest[j].0.path@ == p;
                assert(gens[j] == rest[j]);
            }
        }
        if exists|j: int| 0 <= j < gens.len() && #[trigger] gens[j].1 && gens[j].0.path@ == p {
            let j = choose|j: int| 0 <= j < gens.len() && #[trigger] gens[j].1 && gens[j].0.path@ == p;
            if j == gens.len() - 1 {
                assert(t[0] == p);
            } else {
                assert(rest[j] == gens[j]);
                assert(tr.contains(p));
                let k = choose|k: int| 0 <= k < tr.len() && tr[k] == p;
                if gens.last().1 {
                    assert(t[k + 1] == p);
                }
            }
        }
    }
}

proof fn lemma_profile_removals(profiles: Seq<(String, Vec<(Generation, bool)>)>, p: Seq<char>)
    ensures
        profile_removals(profiles).contains(p) <==> tagged_in_profiles(profiles, p),
    decreases profiles.len(),
{
    if profiles.len() > 0 {
        let rest = profiles.drop_last();
        lemma_profile_removals(rest, p);
        let last = profiles.last().1@;
        lemma_tagged_newest_first(last, p);
        let a = profile_removals(rest);
        let b = tagged_newest_first(last);
        assert(profile_removals(profiles) == a + b);
        if (a + b).contains(p) {
            let k = choose|k: int| 0 <= k < (a + b).len() && (a + b)[k] == p;
            if k < a.len() {
                assert(a[k] == p);
                let (i, j) = choose|i: int, j: int|
                    0 <= i < rest.len() && 0 <= j < rest[i].1@.len() && #[trigger] rest[i].1@[j].1
                        && #[trigger] rest[i].1@[j].0.path@ == p;
                assert(profiles[i] == rest[i]);
            } else {
                assert(b[k - a.len()] == p);
                let j = choose|j: int| 0 <= j < last.len() && #[trigger] last[j].1 && last[j].0.path@ == p;
                assert(profiles[profiles.len() - 1].1@[j] == last[j]);
            }
        }
        if tagged_in_profiles(profiles, p) {
            let (i, j) = choose|i: int, j: int|
                0 <= i < profiles.len() && 0 <= j < profiles[i].1@.len() && #[trigger] profiles[i].1@[j].1
                    && #[trigger] profiles[i].1@[j].0.path@ == p;
            if i == profiles.len() - 1 {
                assert(last[j].1 && last[j].0.path@ == p);
                let k = choose|k: int| 0 <= k < b.len() && b[k] == p;
                assert((a + b)[a.len() + k] == p);
            } else {
                assert(rest[i] == profiles[i]);
                assert(rest[i].1@[j].1 && rest[i].1@[j].0.path@ == p);
                assert(tagged_in_profiles(rest, p));
                let k = choose|k: int| 0 <= k < a.len() && a[k] == p;
                assert((a + b)[k] == p);
            }
        }
    }
}

/// What a clean run does once its plan is made: a dry run removes nothing;
/// otherwise it removes exactly the links of roots tagged for removal (not
/// their targets), the orphaned roots, and the generations tagged for
/// removal in any profile; `nix store gc` runs unless disabled, with
/// `--max` when a limit is given.
pub proof fn lemma_clean_apply(plan: CleanPlan, options: Options, p: Seq<char>)
    ensures
        options.dry ==> removals_spec_for(plan, options).len() == 0,
        !options.dry ==> (removals_spec_for(plan, options).contains(p) <==> (
            (exists|i: int| 0 <= i < plan.gcroots@.len() && #[trigger] plan.gcroots@[i].tbr && plan.gcroots@[i].src@ == p)
            || (exists|i: int| 0 <= i < plan.orphan_gcroots@.len() && #[trigger] plan.orphan_gcroots@[i]@ == p)
            || tagged_in_profiles(plan.profiles@, p))),
        gc_args_spec(options) is Some <==> !options.no_gc,
        gc_args_spec(options) matches Some(args) ==> args == seq!["store"@, "gc"@] + match options.max {
            Some(m) => seq!["--max"@, m@],
            None => Seq::<Seq<char>>::empty(),
        },
{
    if !options.dry {
        let roots = plan.gcroots@.filter(|g: GcRootTagged| g.tbr);
        let r = roots.map_values(|g: GcRootTagged| g.src@);
        let o = plan.orphan_gcroots@.map_values(|s: String| s@);
        let pr = profile_removals(plan.profiles@);
        lemma_profile_removals(plan.profiles@, p);
        assert(removals_spec(plan) == r + o + pr);
        let all = r + o + pr;
        if all.contains(p) {
            let k = choose|k: int| 0 <= k < all.len() && all[k] == p;
            if k < r.len() {
                assert(r[k] == p);
                plan.gcroots@.lemma_filter_pred(|g: GcRootTagged| g.tbr, k);
                assert(roots.contains(roots[k]));
                plan.gcroots@.lemma_filter_contains_rev(|g: GcRootTagged| g.tbr, roots[k]);
                let i = choose|i: int| 0 <= i < plan.gcroots@.len() && plan.gcroots@[i] == roots[k];
                assert(plan.gcroots@[i].tbr && plan.gcroots@[i].src@ == p);
            } else if k < r.len() + o.len() {
                assert(o[k - r.len()] == p);
                assert(plan.orphan_gcroots@[k - r.len()]@ == p);
            } else {
                assert(pr[k - r.len() - o.len()] == p);
                assert(pr.contains(p));
            }
        }
        if exists|i: int| 0 <= i < plan.gcroots@.len() && #[trigger] plan.gcroots@[i].tbr && plan.gcroots@[i].src@ == p {
            let i = choose|i: int| 0 <= i < plan.gcroots@.len() && #[trigger] plan.gcroots@[i].tbr && plan.gcroots@[i].src@ == p;
            plan.gcroots@.lemma_filter_contains(|g: GcRootTagged| g.tbr, i);
            let k = choose|k: int| 0 <= k < roots.len() && roots[k] == plan.gcroots@[i];
            assert(all[k] == p);
        }
        if exists|i: int| 0 <= i < plan.orphan_gcroots@.len() && #[trigger] plan.orphan_gcroots@[i]@ == p {
            let i = choose|i: int| 0 <= i < plan.orphan_gcroots@.len() && #[trigger] plan.orphan_gcroots@[i]@ == p;
            assert(all[r.len() + i] == p);
        }
        if tagged_in_profiles(plan.profiles@, p) {
            let k = choose|k: int| 0 <= k < pr.len() && pr[k] == p;
            assert(all[r.len() + o.len() + k] == p);
        }
    }
}

} // verus!
