//! Rolling the system profile back: which generations exist, which one is
//! current, which one the rollback goes to, and the links involved.

use vstd::prelude::*;

use crate::num::{decimal, u64_to_decimal};
use crate::os::{from_dir_spec, ActivationAction};
use crate::text::{concat_str, owned};

verus! {

/// What the profiles directory tells of a generation.
#[derive(Debug, Clone, Copy, PartialEq, Eq, Structural)]
pub struct GenerationSummary {
    pub number: u64,
    pub current: bool,
}

/// Whether an entry of the profiles directory is a system generation link.
pub open spec fn is_system_link(name: Seq<char>) -> bool {
    crate::text::strip_prefix_spec(name, "system-"@) is Some && crate::text::strip_suffix_spec(name, "-link"@) is Some
}

/// The generations among directory entries (each a path and whether the
/// system runs it), in entry order: the system generation links whose
/// number can be read.
pub open spec fn summaries_spec(entries: Seq<(Seq<char>, bool)>) -> Seq<GenerationSummary>
    decreases entries.len(),
{
    if entries.len() == 0 {
        Seq::empty()
    } else {
        let rest = summaries_spec(entries.drop_last());
        let (path, current) = entries.last();
        match crate::paths::file_name_spec(path) {
            Some(name) => if is_system_link(name) {
                match from_dir_spec(path) {
                    Some(n) => rest.push(GenerationSummary { number: n as u64, current }),
                    None => rest,
                }
            } else {
                rest
            },
            None => rest,
        }
    }
}

/// `sorted` with `g` after every entry whose number is not greater.
pub open spec fn insert_summary(sorted: Seq<GenerationSummary>, g: GenerationSummary) -> Seq<GenerationSummary>
    decreases sorted.len(),
{
    if sorted.len() == 0 {
        seq![g]
    } else if sorted.last().number <= g.number {
        sorted.push(g)
    } else {
        insert_summary(sorted.drop_last(), g).push(sorted.last())
    }
}

/// The generations ordered by number, equal numbers keeping their order.
pub open spec fn sort_summaries(s: Seq<GenerationSummary>) -> Seq<GenerationSummary>
    decreases s.len(),
{
    if s.len() == 0 {
        Seq::empty()
    } else {
        insert_summary(sort_summaries(s.drop_last()), s.last())
    }
}

/// The system generations of a profiles directory, ordered by number, or
/// the message when there is none.
pub open spec fn list_generations_spec(entries: Seq<(Seq<char>, bool)>) -> Result<Seq<GenerationSummary>, Seq<char>> {
    let found = summaries_spec(entries);
    if found.len() == 0 {
        Err("No generations found"@)
    } else {
        Ok(sort_summaries(found))
    }
}

proof fn lemma_insert_summary_at(sorted: Seq<GenerationSummary>, g: GenerationSummary, j: int)
    requires
        0 <= j <= sorted.len(),
        forall|k: int| j <= k < sorted.len() ==> (#[trigger] sorted[k]).number > g.number,
        j > 0 ==> sorted[j - 1].number <= g.number,
    ensures
        insert_summary(sorted, g) == sorted.insert(j, g),
    decreases sorted.len(),
{
    if sorted.len() == 0 {
        assert(sorted.insert(j, g) =~= seq![g]);
    } else if j == sorted.len() {
        assert(sorted.insert(j, g) =~= sorted.push(g));
    } else {
        let d = sorted.drop_last();
        assert forall|k: int| j <= k < d.len() implies (#[trigger] d[k]).number > g.number by {
            assert(d[k] == sorted[k]);
        }
        assert(sorted[sorted.len() - 1].number > g.number);
        lemma_insert_summary_at(d, g, j);
        assert(sorted.insert(j, g) =~= d.insert(j, g).push(sorted.last()));
    }
}

/// The view of directory entries.
pub open spec fn entries_view(entries: Seq<(String, bool)>) -> Seq<(Seq<char>, bool)> {
    entries.map_values(|e: (String, bool)| (e.0@, e.1))
}

/// The system generations among directory entries, ordered by number.
pub fn list_generations(entries: &Vec<(String, bool)>) -> (res: Result<Vec<GenerationSummary>, String>)
    ensures
        match list_generations_spec(entries_view(entries@)) {
            Ok(g) => res matches Ok(v) && v@ == g,
            Err(e) => res matches Err(m) && m@ == e,
        },
{
    let ghost ev = entries_view(entries@);
    let mut found: Vec<GenerationSummary> = Vec::new();
    let mut i: usize = 0;
    while i < entries.len()
        invariant
            i <= entries.len(),
            ev == entries_view(entries@),
            found@ == summaries_spec(ev.take(i as int)),
        decreases entries.len() - i,
    {
        assert(ev.take(i + 1).drop_last() =~= ev.take(i as int));
        assert(ev.take(i + 1).last() == (entries@[i as int].0@, entries@[i as int].1));
        let path = entries[i].0.as_str();
        match crate::paths::file_name(path) {
            Some(name) => {
                let cs = crate::text::chars_of(name.as_str());
                let is_link = crate::text::strip_prefix_chars(&cs, "system-").is_some()
                    && crate::text::strip_suffix_chars(&cs, "-link").is_some();
                if is_link {
                    match crate::os::from_dir(path) {
                        Some(n) => {
                            found.push(GenerationSummary { number: n, current: entries[i].1 });
                        },
                        None => {},
                    }
                }
            },
            None => {},
        }
        i = i + 1;
    }
    assert(ev.take(entries.len() as int) =~= ev);
    if found.len() == 0 {
        return Err(owned("No generations found"));
    }
    let ghost orig = found@;
    let mut sorted: Vec<GenerationSummary> = Vec::new();
    let mut k: usize = 0;
    while k < found.len()
        invariant
            k <= found.len(),
            found@ == orig,
            sorted@ == sort_summaries(orig.take(k as int)),
        decreases found.len() - k,
    {
        let g = found[k];
        let mut j: usize = sorted.len();
        while j > 0 && sorted[j - 1].number > g.number
            invariant
                j <= sorted.len(),
                forall|m: int| j <= m < sorted.len() ==> (#[trigger] sorted@[m]).number > g.number,
            decreases j,
        {
            j = j - 1;
        }
        proof {
            lemma_insert_summary_at(sorted@, g, j as int);
            assert(orig.take(k + 1).drop_last() =~= orig.take(k as int));
        }
        sorted.insert(j, g);
        k = k + 1;
    }
    assert(orig.take(found.len() as int) =~= orig);
    Ok(sorted)
}

/// The index of the first generation satisfying `pred`.
pub open spec fn first_index(gens: Seq<GenerationSummary>, pred: spec_fn(GenerationSummary) -> bool) -> Option<int>
    decreases gens.len(),
{
    if gens.len() == 0 {
        None
    } else if pred(gens[0]) {
        Some(0)
    } else {
        match first_index(gens.skip(1), pred) {
            Some(i) => Some(i + 1),
            None => None,
        }
    }
}

/// The first generation the system runs, or the message when none is.
pub open spec fn current_spec(gens: Seq<GenerationSummary>) -> Result<GenerationSummary, Seq<char>> {
    match first_index(gens, |g: GenerationSummary| g.current) {
        Some(i) => Ok(gens[i]),
        None => Err("Current generation not found"@),
    }
}

/// The first generation with `number`, or the message when there is none.
pub open spec fn by_number_spec(number: u64, gens: Seq<GenerationSummary>) -> Result<GenerationSummary, Seq<char>> {
    match first_index(gens, |g: GenerationSummary| g.number == number) {
        Some(i) => Ok(gens[i]),
        None => Err("Generation "@ + decimal(number as nat) + " not found"@),
    }
}

/// The last generation, in list order, whose number is below `number`.
pub open spec fn last_below(gens: Seq<GenerationSummary>, number: u64) -> Option<GenerationSummary>
    decreases gens.len(),
{
    if gens.len() == 0 {
        None
    } else if gens.last().number < number {
        Some(gens.last())
    } else {
        last_below(gens.drop_last(), number)
    }
}

/// The generation before the current one: the last listed generation with
/// a smaller number than the current one.
pub open spec fn previous_spec(current_number: u64, gens: Seq<GenerationSummary>) -> Result<GenerationSummary, Seq<char>> {
    match first_index(gens, |g: GenerationSummary| g.number == current_number) {
        None => Err("Current generation not found"@),
        Some(i) => match last_below(gens, gens[i].number) {
            Some(g) => Ok(g),
            None => Err("No generation older than the current one exists"@),
        },
    }
}

proof fn lemma_first_index_bound(gens: Seq<GenerationSummary>, pred: spec_fn(GenerationSummary) -> bool)
    ensures
        match first_index(gens, pred) {
            Some(i) => 0 <= i < gens.len() && pred(gens[i]) && forall|j: int| 0 <= j < i ==> !pred(#[trigger] gens[j]),
            None => forall|j: int| 0 <= j < gens.len() ==> !pred(#[trigger] gens[j]),
        },
    decreases gens.len(),
{
    if gens.len() > 0 && !pred(gens[0]) {
        lemma_first_index_bound(gens.skip(1), pred);
        assert forall|j: int| 1 <= j < gens.len() implies gens[j] == gens.skip(1)[j - 1] by {}
    }
}

/// Finds the first generation satisfying a condition on its number and
/// state: `by_current` looks for the current one, else for `number`.
fn find_first(gens: &Vec<GenerationSummary>, by_current: bool, number: u64) -> (res: Option<usize>)
    ensures
        res matches Some(i) ==> i < gens@.len(),
        match res {
            Some(i) => first_index(
                gens@,
                if by_current {
                    |g: GenerationSummary| g.current
                } else {
                    |g: GenerationSummary| g.number == number
                },
            ) == Some(i as int),
            None => first_index(
                gens@,
                if by_current {
                    |g: GenerationSummary| g.current
                } else {
                    |g: GenerationSummary| g.number == number
                },
            ) is None,
        },
{
    let ghost pred = if by_current {
        |g: GenerationSummary| g.current
    } else {
        |g: GenerationSummary| g.number == number
    };
    proof {
        lemma_first_index_bound(gens@, pred);
    }
    let mut i: usize = 0;
    while i < gens.len()
        invariant
            i <= gens.len(),
            forall|j: int| 0 <= j < i ==> !pred(#[trigger] gens@[j]),
            pred == (if by_current {
                |g: GenerationSummary| g.current
            } else {
                |g: GenerationSummary| g.number == number
            }),
        decreases gens.len() - i,
    {
        let hit = if by_current {
            gens[i].current
        } else {
            gens[i].number == number
        };
        assert(hit == pred(gens@[i as int]));
        if hit {
            proof {
                lemma_first_index_bound(gens@, pred);
                match first_index(gens@, pred) {
                    Some(k) => {
                        if k < i {
                            assert(!pred(gens@[k]));
                        } else if k > i {
                            assert(!pred(gens@[i as int]));
                        }
                    },
                    None => {
                        assert(!pred(gens@[i as int]));
                    },
                }
            }
            return Some(i);
        }
        i = i + 1;
    }
    proof {
        lemma_first_index_bound(gens@, pred);
        match first_index(gens@, pred) {
            Some(k) => {
                assert(!pred(gens@[k]));
            },
            None => {},
        }
    }
    None
}

/// The generation the system runs.
pub fn current_generation(gens: &Vec<GenerationSummary>) -> (res: Result<GenerationSummary, String>)
    ensures
        match current_spec(gens@) {
            Ok(g) => res == Ok::<GenerationSummary, String>(g),
            Err(e) => res matches Err(m) && m@ == e,
        },
{
    match find_first(gens, true, 0) {
        Some(i) => Ok(gens[i]),
        None => Err(owned("Current generation not found")),
    }
}

/// The generation with the given number.
pub fn get_generation_by_number(number: u64, gens: &Vec<GenerationSummary>) -> (res: Result<GenerationSummary, String>)
    ensures
        match by_number_spec(number, gens@) {
            Ok(g) => res == Ok::<GenerationSummary, String>(g),
            Err(e) => res matches Err(m) && m@ == e,
        },
{
    match find_first(gens, false, number) {
        Some(i) => Ok(gens[i]),
        None => {
            let mut m = concat_str("Generation ", u64_to_decimal(number).as_str());
            m.append(" not found");
            Err(m)
        },
    }
}

/// The generation before the current one.
pub fn find_previous_generation(current_number: u64, gens: &Vec<GenerationSummary>) -> (res: Result<
    GenerationSummary,
    String,
>)
    ensures
        match previous_spec(current_number, gens@) {
            Ok(g) => res == Ok::<GenerationSummary, String>(g),
            Err(e) => res matches Err(m) && m@ == e,
        },
{
    let ghost pred = |g: GenerationSummary| g.number == current_number;
    let found = find_first(gens, false, current_number);
    assert((if false {
        |g: GenerationSummary| g.current
    } else {
        |g: GenerationSummary| g.number == current_number
    }) == pred);
    let current = match found {
        Some(i) => {
            assert(first_index(gens@, pred) == Some(i as int));
            gens[i]
        },
        None => return Err(owned("Current generation not found")),
    };
    assert(previous_spec(current_number, gens@) == match last_below(gens@, current.number) {
        Some(g) => Ok(g),
        None => Err::<GenerationSummary, Seq<char>>("No generation older than the current one exists"@),
    });
    let mut k: usize = gens.len();
    assert(gens@.take(k as int) =~= gens@);
    while k > 0
        invariant
            k <= gens.len(),
            last_below(gens@, current.number) == last_below(gens@.take(k as int), current.number),
            previous_spec(current_number, gens@) == match last_below(gens@, current.number) {
                Some(g) => Ok(g),
                None => Err::<GenerationSummary, Seq<char>>("No generation older than the current one exists"@),
            },
        decreases k,
    {
        assert(gens@.take(k as int).drop_last() =~= gens@.take(k - 1));
        assert(gens@.take(k as int).last() == gens@[k - 1]);
        if gens[k - 1].number < current.number {
            assert(last_below(gens@.take(k as int), current.number) == Some(gens@[k - 1]));
            return Ok(gens[k - 1]);
        }
        k = k - 1;
    }
    Err(owned("No generation older than the current one exists"))
}

/// The generations a rollback involves.
#[derive(Debug, Clone, Copy, PartialEq, Eq, Structural)]
pub struct RollbackTarget {
    pub current: GenerationSummary,
    pub target: GenerationSummary,
}

/// The current generation and the one to roll back to: the requested
/// generation, else the previous one.
pub open spec fn rollback_target_spec(to: Option<u64>, gens: Seq<GenerationSummary>) -> Result<RollbackTarget, Seq<char>> {
    match current_spec(gens) {
        Err(e) => Err(e),
        Ok(current) => {
            let target = match to {
                Some(n) => by_number_spec(n, gens),
                None => previous_spec(current.number, gens),
            };
            match target {
                Err(e) => Err(e),
                Ok(t) => Ok(RollbackTarget { current, target: t }),
            }
        },
    }
}

/// The current generation and the one to roll back to.
pub fn rollback_target(to: Option<u64>, gens: &Vec<GenerationSummary>) -> (res: Result<RollbackTarget, String>)
    ensures
        match rollback_target_spec(to, gens@) {
            Ok(t) => res == Ok::<RollbackTarget, String>(t),
            Err(e) => res matches Err(m) && m@ == e,
        },
{
    let current = match current_generation(gens) {
        Ok(c) => c,
        Err(e) => return Err(e),
    };
    let target = match to {
        Some(n) => get_generation_by_number(n, gens),
        None => find_previous_generation(current.number, gens),
    };
    match target {
        Ok(t) => Ok(RollbackTarget { current, target: t }),
        Err(e) => Err(e),
    }
}

/// The directory of the system profiles.
pub open spec fn profiles_dir() -> Seq<char> {
    "/nix/var/nix/profiles"@
}

/// The link of generation `number` of the system profile.
pub open spec fn generation_link_spec(number: u64) -> Seq<char> {
    profiles_dir() + "/system-"@ + decimal(number as nat) + "-link"@
}

/// The link of generation `number` of the system profile.
pub fn generation_link(number: u64) -> (res: String)
    ensures
        res@ == generation_link_spec(number),
{
    let mut s = concat_str("/nix/var/nix/profiles/system-", u64_to_decimal(number).as_str());
    s.append("-link");
    proof {
        reveal_strlit("/nix/var/nix/profiles/system-");
        reveal_strlit("/nix/var/nix/profiles");
        reveal_strlit("/system-");
    }
    assert(s@ =~= generation_link_spec(number));
    s
}

/// The arguments of `ln` that point the system profile at `link`.
pub open spec fn set_profile_args_spec(link: Seq<char>) -> Seq<Seq<char>> {
    seq!["-sfn"@, link, "/nix/var/nix/profiles/system"@]
}

/// The arguments of `ln` that point the system profile at `link`.
pub fn set_profile_args(link: &str) -> (res: Vec<String>)
    ensures
        crate::text::strings_view(res@) == set_profile_args_spec(link@),
{
    let v: Vec<String> = vec![owned("-sfn"), owned(link), owned("/nix/var/nix/profiles/system")];
    assert(crate::text::strings_view(v@) =~= set_profile_args_spec(link@));
    v
}

/// The link to restore after a failed activation: the current generation's,
/// unless its number is 0.
pub fn restore_link(current: GenerationSummary) -> (res: Option<String>)
    ensures
        current.number > 0 ==> (res matches Some(l) && l@ == generation_link_spec(current.number)),
        current.number == 0 ==> res is None,
{
    if current.number > 0 {
        Some(generation_link(current.number))
    } else {
        None
    }
}

/// The profile to activate: the specialisation's link when one is asked
/// for and exists in the generation, else the generation itself.
pub open spec fn final_profile_spec(link: Seq<char>, spec: Option<Seq<char>>, spec_exists: bool) -> Seq<char> {
    match spec {
        Some(s) => if spec_exists {
            crate::os::specialisation_link_spec(link, s)
        } else {
            link
        },
        None => link,
    }
}

/// The profile to activate. `spec_exists` says whether the specialisation's
/// link exists in the generation.
pub fn final_profile(link: &str, spec: Option<&str>, spec_exists: bool) -> (res: String)
    ensures
        res@ == final_profile_spec(link@, crate::runtime::opt_str_view(spec), spec_exists),
{
    match spec {
        Some(s) => if spec_exists {
            crate::os::specialisation_link(link, s)
        } else {
            owned(link)
        },
        None => owned(link),
    }
}

/// The report of a failed activation during a rollback.
pub fn activation_failure(err: &str) -> (res: String)
    ensures
        res@ == "Activation (switch) failed: "@ + err@,
{
    concat_str("Activation (switch) failed: ", err)
}

} // verus!

verus! {

/// The summary of a generation entry: its number, and whether the system
/// runs it (`current`); `None` when the number cannot be read.
pub fn summarize(generation_dir: &str, current: bool) -> (res: Option<GenerationSummary>)
    ensures
        match from_dir_spec(generation_dir@) {
            Some(n) => res == Some(GenerationSummary { number: n as u64, current }),
            None => res is None,
        },
{
    match crate::os::from_dir(generation_dir) {
        Some(n) => Some(GenerationSummary { number: n, current }),
        None => None,
    }
}

} // verus!

verus! {

/// Whether generations are ordered by number.
pub open spec fn summaries_sorted(s: Seq<GenerationSummary>) -> bool {
    forall|i: int, j: int| 0 <= i < j < s.len() ==> (#[trigger] s[i]).number <= (#[trigger] s[j]).number
}

proof fn lemma_last_below(gens: Seq<GenerationSummary>, number: u64)
    ensures
        match last_below(gens, number) {
            Some(g) => exists|i: int| 0 <= i < gens.len() && gens[i] == g && g.number < number && forall|j: int|
                i < j < gens.len() ==> (#[trigger] gens[j]).number >= number,
            None => forall|j: int| 0 <= j < gens.len() ==> (#[trigger] gens[j]).number >= number,
        },
    decreases gens.len(),
{
    if gens.len() > 0 {
        let d = gens.drop_last();
        lemma_last_below(d, number);
        if gens.last().number >= number {
            match last_below(d, number) {
                Some(g) => {
                    let i = choose|i: int| 0 <= i < d.len() && d[i] == g && g.number < number && forall|j: int|
                        i < j < d.len() ==> (#[trigger] d[j]).number >= number;
                    assert(gens[i] == g);
                    assert forall|j: int| i < j < gens.len() implies (#[trigger] gens[j]).number >= number by {
                        if j < d.len() {
                            assert(d[j] == gens[j]);
                        }
                    }
                },
                None => {
                    assert forall|j: int| 0 <= j < gens.len() implies (#[trigger] gens[j]).number >= number by {
                        if j < d.len() {
                            assert(d[j] == gens[j]);
                        }
                    }
                },
            }
        } else {
            assert(gens[gens.len() - 1] == gens.last());
        }
    }
}

/// In a list ordered by number, the generation a rollback goes back to by
/// default is listed, is older than the current one, and no listed
/// generation lies between them.
pub proof fn lemma_previous_is_latest_older(current_number: u64, gens: Seq<GenerationSummary>)
    requires
        summaries_sorted(gens),
        previous_spec(current_number, gens) is Ok,
    ensures
        ({
            let g = previous_spec(current_number, gens)->Ok_0;
            &&& gens.contains(g)
            &&& g.number < current_number
            &&& forall|j: int| 0 <= j < gens.len() && (#[trigger] gens[j]).number < current_number ==> gens[j].number
                <= g.number
        }),
{
    let pred = |g: GenerationSummary| g.number == current_number;
    lemma_first_index_bound(gens, pred);
    let k = first_index(gens, pred)->0;
    let cur = gens[k].number;
    assert(cur == current_number);
    lemma_last_below(gens, cur);
    let g = previous_spec(current_number, gens)->Ok_0;
    let i = choose|i: int| 0 <= i < gens.len() && gens[i] == g && g.number < cur && forall|j: int|
        i < j < gens.len() ==> (#[trigger] gens[j]).number >= cur;
    assert(gens.contains(g)) by {
        assert(gens[i] == g);
    }
    assert forall|j: int| 0 <= j < gens.len() && (#[trigger] gens[j]).number < current_number implies gens[j].number
        <= g.number by {
        if j > i {
            assert(gens[j].number >= cur);
        } else if j < i {
            assert(gens[j].number <= gens[i].number);
        }
    }
}


/// Going back from `current_number` succeeds exactly when a listed
/// generation has that number and a listed generation has a smaller one;
/// otherwise the error says which of the two is missing.
pub proof fn lemma_previous_exists_iff(current_number: u64, gens: Seq<GenerationSummary>)
    ensures
        (previous_spec(current_number, gens) is Ok) <==> ((exists|i: int|
            0 <= i < gens.len() && (#[trigger] gens[i]).number == current_number) && (exists|j: int|
            0 <= j < gens.len() && (#[trigger] gens[j]).number < current_number)),
        (forall|i: int| 0 <= i < gens.len() ==> (#[trigger] gens[i]).number != current_number) ==> previous_spec(
            current_number,
            gens,
        ) == Err::<GenerationSummary, Seq<char>>("Current generation not found"@),
        ((exists|i: int| 0 <= i < gens.len() && (#[trigger] gens[i]).number == current_number) && (forall|j: int|
            0 <= j < gens.len() ==> (#[trigger] gens[j]).number >= current_number)) ==> previous_spec(
            current_number,
            gens,
        ) == Err::<GenerationSummary, Seq<char>>("No generation older than the current one exists"@),
{
    let pred = |g: GenerationSummary| g.number == current_number;
    lemma_first_index_bound(gens, pred);
    lemma_last_below(gens, current_number);
    match first_index(gens, pred) {
        Some(k) => {
            assert(gens[k].number == current_number);
            if let Some(g) = last_below(gens, current_number) {
                let i = choose|i: int| 0 <= i < gens.len() && gens[i] == g && g.number < current_number && forall|j: int|
                    i < j < gens.len() ==> (#[trigger] gens[j]).number >= current_number;
                assert(gens[i].number < current_number);
            }
        },
        None => {},
    }
}

} // verus!

verus! {

proof fn lemma_last_index_after(a: Seq<char>, b: Seq<char>, c: char)
    requires
        a.len() > 0,
        a.last() == c,
        !b.contains(c),
    ensures
        crate::text::last_index_of(a + b, c) == Some(a.len() - 1),
    decreases b.len(),
{
    if b.len() == 0 {
        assert(a + b =~= a);
    } else {
        assert((a + b).last() == b.last());
        assert(b.last() != c) by {
            assert(b[b.len() - 1] == b.last());
        }
        assert((a + b).drop_last() =~= a + b.drop_last());
        assert(!b.drop_last().contains(c)) by {
            if b.drop_last().contains(c) {
                let k = choose|k: int| 0 <= k < b.drop_last().len() && b.drop_last()[k] == c;
                assert(b[k] == c);
            }
        }
        lemma_last_index_after(a, b.drop_last(), c);
    }
}

/// Reading the generation number back from the link of generation
/// `number` gives `number`.
pub proof fn lemma_generation_link_roundtrip(number: u64)
    ensures
        from_dir_spec(generation_link_spec(number)) == Some(number as nat),
{
    let d = decimal(number as nat);
    crate::num::lemma_decimal_digits(number as nat);
    crate::num::lemma_parse_decimal(number as nat, u64::MAX as nat);
    reveal_strlit("/nix/var/nix/profiles");
    reveal_strlit("/system-");
    reveal_strlit("-link");
    reveal_strlit("system-");
    let dir = "/nix/var/nix/profiles"@;
    let name = "system-"@ + d + "-link"@;
    assert(generation_link_spec(number) =~= dir + seq!['/'] + name);
    assert(!d.contains('/') && !d.contains('-') && !d.contains('k')) by {
        if d.contains('/') || d.contains('-') || d.contains('k') {
            let k = choose|k: int| 0 <= k < d.len() && (d[k] == '/' || d[k] == '-' || d[k] == 'k');
            assert(crate::num::char_digit(d[k]) is Some);
        }
    }
    assert(!name.contains('/')) by {
        if name.contains('/') {
            let k = choose|k: int| 0 <= k < name.len() && name[k] == '/';
            if 7 <= k < 7 + d.len() {
                assert(d[k - 7] == '/');
            }
        }
    }
    assert(name != seq!['.'] && name != seq!['.', '.']) by {
        assert(name[0] == 's');
    }
    crate::paths::lemma_file_name_of_join(dir, name);
    let t = "system-"@ + d;
    assert(name.take(name.len() - 5) =~= t);
    assert(name.skip(name.len() - 5) =~= "-link"@);
    assert(t.skip(t.len() - 5) != "-link"@) by {
        assert(t.skip(t.len() - 5).last() == d.last());
        assert(d.last() == d[d.len() - 1]);
        assert("-link"@.last() == 'k');
    }
    assert(crate::os::trim_end_matches_spec(t, "-link"@) == t);
    assert(crate::os::trim_end_matches_spec(name, "-link"@) == t);
    lemma_last_index_after("system-"@, d, '-');
    assert(t.skip(7) =~= d);
}


/// The generation number reads back from any generation link: for a
/// profile `name` without separators in any directory `dir`, the entry
/// `dir.join(name-n-link)` has number `n`.
pub proof fn lemma_generation_number_roundtrip(dir: Seq<char>, name: Seq<char>, number: u64)
    requires
        !name.contains('/'),
    ensures
        from_dir_spec(crate::paths::path_join_spec(dir, name + "-"@ + decimal(number as nat) + "-link"@)) == Some(
            number as nat,
        ),
{
    let d = decimal(number as nat);
    crate::num::lemma_decimal_digits(number as nat);
    crate::num::lemma_parse_decimal(number as nat, u64::MAX as nat);
    reveal_strlit("-link");
    reveal_strlit("-");
    let t = name + "-"@ + d;
    let entry = t + "-link"@;
    assert(name + "-"@ + d + "-link"@ =~= entry);
    assert(!d.contains('/') && !d.contains('-')) by {
        if d.contains('/') || d.contains('-') {
            let k = choose|k: int| 0 <= k < d.len() && (d[k] == '/' || d[k] == '-');
            assert(crate::num::char_digit(d[k]) is Some);
        }
    }
    assert(!entry.contains('/')) by {
        if entry.contains('/') {
            let k = choose|k: int| 0 <= k < entry.len() && entry[k] == '/';
            if k < name.len() {
                assert(name[k] == '/');
            } else if name.len() + 1 <= k < name.len() + 1 + d.len() {
                assert(d[k - name.len() - 1] == '/');
            }
        }
    }
    assert(entry.len() > 2);
    assert(entry != seq!['.'] && entry != seq!['.', '.']);
    crate::paths::lemma_file_name_of_path_join(dir, entry);
    assert(entry.take(entry.len() - 5) =~= t);
    assert(entry.skip(entry.len() - 5) =~= "-link"@);
    assert(d.len() > 0);
    assert(!(t.len() >= 5 && t.skip(t.len() - 5) == "-link"@)) by {
        assert(t.last() == d[d.len() - 1]);
        assert(crate::num::char_digit(d[d.len() - 1]) is Some);
        if t.len() >= 5 && t.skip(t.len() - 5) == "-link"@ {
            assert(t.skip(t.len() - 5)[4] == t.last());
            assert("-link"@[4] == 'k');
        }
    }
    assert(crate::os::trim_end_matches_spec(t, "-link"@) == t);
    assert(crate::os::trim_end_matches_spec(entry, "-link"@) == t);
    lemma_last_index_after(name + "-"@, d, '-');
    assert(t =~= (name + "-"@) + d);
    assert(t.skip((name + "-"@).len() as int) =~= d);
    assert(t.take((name + "-"@).len() - 1) =~= name);
}

} // verus!

verus! {

/// How a rollback ends after its switch ran.
#[derive(Debug, Clone)]
pub enum SwitchOutcome {
    /// The switch succeeded; report this message.
    Succeeded(String),
    /// The switch failed: point the system profile back at `restore` when
    /// there is one, then fail with `report`.
    Failed { restore: Option<String>, report: String },
}

/// How a rollback to generation `target` from the current generation ends,
/// given whether its switch succeeded (`error` holds the failure): on
/// success the rollback is reported; on failure the current generation's
/// link is restored (unless its number is 0) and the failure reported.
pub fn switch_outcome(error: Option<&str>, current: GenerationSummary, target: u64) -> (res: SwitchOutcome)
    ensures
        match error {
            None => res matches SwitchOutcome::Succeeded(m) && m@ == "Successfully rolled back to generation "@ + decimal(
                target as nat,
            ),
            Some(e) => res matches SwitchOutcome::Failed { restore, report } && report@ == "Activation (switch) failed: "@
                + e@ && (current.number > 0 ==> (restore matches Some(l) && l@ == generation_link_spec(current.number)))
                && (current.number == 0 ==> restore is None),
        },
{
    match error {
        None => SwitchOutcome::Succeeded(concat_str("Successfully rolled back to generation ", u64_to_decimal(target).as_str())),
        Some(e) => SwitchOutcome::Failed { restore: restore_link(current), report: activation_failure(e) },
    }
}

} // verus!
