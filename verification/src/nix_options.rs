//! Nix build options and the flags they stand for.

use vstd::prelude::*;

use crate::num::{decimal, usize_to_decimal};
use crate::text::{owned, strings_view};

verus! {

/// Options handed through to Nix builds.
#[derive(Clone, Debug)]
pub struct NixBuildOptions {
    pub max_jobs: Option<usize>,
    pub cores: Option<usize>,
    pub log_format: Option<String>,
    pub keep_going: bool,
    pub keep_failed: bool,
    pub fallback: bool,
    pub repair: bool,
    pub builders: Option<String>,
    pub include_paths: Vec<String>,
    pub print_build_logs: bool,
    pub show_trace: bool,
    pub accept_flake_config: bool,
    pub refresh: bool,
    pub impure: bool,
    pub offline: bool,
    pub no_net: bool,
    pub recreate_lock_file: bool,
    pub no_update_lock_file: bool,
    pub no_write_lock_file: bool,
    pub no_use_registries: bool,
    pub no_registries: bool,
    pub no_build_output: bool,
    pub json: bool,
    pub option: Vec<(String, String)>,
    pub override_input: Vec<(String, String)>,
}

impl Default for NixBuildOptions {
    fn default() -> (res: NixBuildOptions)
        ensures
            res.max_jobs is None && res.cores is None && res.log_format is None && res.builders is None,
            res.include_paths@.len() == 0 && res.option@.len() == 0 && res.override_input@.len() == 0,
            !res.keep_going && !res.keep_failed && !res.fallback && !res.repair && !res.print_build_logs,
            !res.show_trace && !res.accept_flake_config && !res.refresh && !res.impure && !res.offline,
            !res.no_net && !res.recreate_lock_file && !res.no_update_lock_file && !res.no_write_lock_file,
            !res.no_use_registries && !res.no_registries && !res.no_build_output && !res.json,
    {
        NixBuildOptions {
            max_jobs: None,
            cores: None,
            log_format: None,
            keep_going: false,
            keep_failed: false,
            fallback: false,
            repair: false,
            builders: None,
            include_paths: Vec::new(),
            print_build_logs: false,
            show_trace: false,
            accept_flake_config: false,
            refresh: false,
            impure: false,
            offline: false,
            no_net: false,
            recreate_lock_file: false,
            no_update_lock_file: false,
            no_write_lock_file: false,
            no_use_registries: false,
            no_registries: false,
            no_build_output: false,
            json: false,
            option: Vec::new(),
            override_input: Vec::new(),
        }
    }
}

/// Build options together with the workflow flags `nh` itself consumes.
#[derive(Clone, Debug)]
pub struct NixCliOptions {
    pub build: NixBuildOptions,
    pub commit_lock_file: bool,
}

/// `name` when `on`.
#[verifier::opaque]
pub open spec fn flag_spec(on: bool, name: Seq<char>) -> Seq<Seq<char>> {
    if on {
        seq![name]
    } else {
        Seq::empty()
    }
}

/// `name value` when there is a value.
#[verifier::opaque]
pub open spec fn valued_spec(name: Seq<char>, value: Option<Seq<char>>) -> Seq<Seq<char>> {
    match value {
        Some(v) => seq![name, v],
        None => Seq::empty(),
    }
}

/// `name item` for each item, in order.
pub open spec fn each_spec(name: Seq<char>, items: Seq<Seq<char>>) -> Seq<Seq<char>>
    decreases items.len(),
{
    if items.len() == 0 {
        Seq::empty()
    } else {
        each_spec(name, items.drop_last()) + seq![name, items.last()]
    }
}

/// `name first second` for each pair, in order.
pub open spec fn pairs_spec(name: Seq<char>, items: Seq<(Seq<char>, Seq<char>)>) -> Seq<Seq<char>>
    decreases items.len(),
{
    if items.len() == 0 {
        Seq::empty()
    } else {
        pairs_spec(name, items.drop_last()) + seq![name, items.last().0, items.last().1]
    }
}

/// The decimal spelling of an optional count.
pub open spec fn count_view(n: Option<usize>) -> Option<Seq<char>> {
    match n {
        Some(k) => Some(decimal(k as nat)),
        None => None,
    }
}

/// The view of an optional string.
pub open spec fn opt_view(o: Option<String>) -> Option<Seq<char>> {
    match o {
        Some(s) => Some(s@),
        None => None,
    }
}

/// The count, format, failure-handling, builder and include flags.
pub open spec fn args_a(o: NixBuildOptions) -> Seq<Seq<char>> {
    valued_spec("--max-jobs"@, count_view(o.max_jobs)) + valued_spec("--cores"@, count_view(o.cores)) + valued_spec(
        "--log-format"@,
        opt_view(o.log_format),
    ) + flag_spec(o.keep_going, "--keep-going"@) + flag_spec(o.keep_failed, "--keep-failed"@) + flag_spec(
        o.fallback,
        "--fallback"@,
    ) + flag_spec(o.repair, "--repair"@) + valued_spec("--builders"@, opt_view(o.builders)) + each_spec(
        "--include"@,
        strings_view(o.include_paths@),
    )
}

/// The output and evaluation flags.
pub open spec fn args_b(o: NixBuildOptions) -> Seq<Seq<char>> {
    flag_spec(o.print_build_logs, "--print-build-logs"@) + flag_spec(o.show_trace, "--show-trace"@) + flag_spec(
        o.accept_flake_config,
        "--accept-flake-config"@,
    ) + flag_spec(o.refresh, "--refresh"@) + flag_spec(o.impure, "--impure"@) + flag_spec(o.offline, "--offline"@)
        + flag_spec(o.no_net, "--no-net"@)
}

/// The lock-file, registry, quiet and JSON flags.
pub open spec fn args_c(o: NixBuildOptions) -> Seq<Seq<char>> {
    flag_spec(o.recreate_lock_file, "--recreate-lock-file"@) + flag_spec(o.no_update_lock_file, "--no-update-lock-file"@)
        + flag_spec(o.no_write_lock_file, "--no-write-lock-file"@) + flag_spec(
        o.no_use_registries,
        "--no-use-registries"@,
    ) + flag_spec(o.no_registries, "--no-use-registries"@) + flag_spec(o.no_build_output, "--quiet"@) + flag_spec(
        o.json,
        "--json"@,
    )
}

/// The `--option` and `--override-input` pairs.
pub open spec fn args_d(o: NixBuildOptions) -> Seq<Seq<char>> {
    pairs_spec("--option"@, crate::command::pairs_view(o.option@)) + pairs_spec(
        "--override-input"@,
        crate::command::pairs_view(o.override_input@),
    )
}

/// The Nix flags the options stand for, in a fixed order; the deprecated
/// `no_registries` also gives `--no-use-registries`, and suppressed build
/// output is `--quiet`.
pub open spec fn build_args_spec(o: NixBuildOptions) -> Seq<Seq<char>> {
    args_a(o) + args_b(o) + args_c(o) + args_d(o)
}

fn push_flag(args: &mut Vec<String>, on: bool, name: &str)
    ensures
        strings_view(final(args)@) == strings_view(old(args)@) + flag_spec(on, name@),
{
    let ghost prev = strings_view(args@);
    reveal(flag_spec);
    if on {
        args.push(owned(name));
    }
    assert(strings_view(args@) =~= prev + flag_spec(on, name@));
}

fn push_valued(args: &mut Vec<String>, name: &str, value: Option<&str>)
    ensures
        strings_view(final(args)@) == strings_view(old(args)@) + valued_spec(name@, crate::runtime::opt_str_view(value)),
{
    let ghost prev = strings_view(args@);
    reveal(valued_spec);
    match value {
        Some(v) => {
            args.push(owned(name));
            args.push(owned(v));
        },
        None => {},
    }
    assert(strings_view(args@) =~= prev + valued_spec(name@, crate::runtime::opt_str_view(value)));
}

fn push_count(args: &mut Vec<String>, name: &str, value: Option<usize>)
    ensures
        strings_view(final(args)@) == strings_view(old(args)@) + valued_spec(name@, count_view(value)),
{
    let ghost prev = strings_view(args@);
    reveal(valued_spec);
    match value {
        Some(v) => {
            args.push(owned(name));
            args.push(usize_to_decimal(v));
        },
        None => {},
    }
    assert(strings_view(args@) =~= prev + valued_spec(name@, count_view(value)));
}

fn opt_as_str(o: &Option<String>) -> (res: Option<&str>)
    ensures
        crate::runtime::opt_str_view(res) == opt_view(*o),
{
    match o {
        Some(s) => Some(s.as_str()),
        None => None,
    }
}

fn push_each(args: &mut Vec<String>, name: &str, items: &Vec<String>)
    ensures
        strings_view(final(args)@) == strings_view(old(args)@) + each_spec(name@, strings_view(items@)),
{
    let ghost start = strings_view(args@);
    let mut i: usize = 0;
    while i < items.len()
        invariant
            i <= items.len(),
            strings_view(args@) == start + each_spec(name@, strings_view(items@).take(i as int)),
        decreases items.len() - i,
    {
        let ghost prev = strings_view(args@);
        args.push(owned(name));
        let item = items[i].clone();
        args.push(item);
        assert(strings_view(items@).take(i + 1).drop_last() =~= strings_view(items@).take(i as int));
        assert(strings_view(args@) =~= prev + seq![name@, item@]);
        i = i + 1;
    }
    assert(strings_view(items@).take(items.len() as int) =~= strings_view(items@));
}

fn push_pairs(args: &mut Vec<String>, name: &str, items: &Vec<(String, String)>)
    ensures
        strings_view(final(args)@) == strings_view(old(args)@) + pairs_spec(name@, crate::command::pairs_view(items@)),
{
    let ghost start = strings_view(args@);
    let ghost pv = crate::command::pairs_view(items@);
    let mut i: usize = 0;
    while i < items.len()
        invariant
            i <= items.len(),
            pv == crate::command::pairs_view(items@),
            strings_view(args@) == start + pairs_spec(name@, pv.take(i as int)),
        decreases items.len() - i,
    {
        let ghost prev = strings_view(args@);
        args.push(owned(name));
        let a = items[i].0.clone();
        let b = items[i].1.clone();
        args.push(a);
        args.push(b);
        assert(pv.take(i + 1).drop_last() =~= pv.take(i as int));
        assert(pv.take(i + 1).last() == (a@, b@));
        assert(strings_view(args@) =~= prev + seq![name@, a@, b@]);
        i = i + 1;
    }
    assert(pv.take(items.len() as int) =~= pv);
}

impl NixBuildOptions {
    /// Appends the Nix flags the options stand for (see `build_args_spec`).
    pub fn append_args(&self, args: &mut Vec<String>)
        ensures
            strings_view(final(args)@) == strings_view(old(args)@) + build_args_spec(*self),
    {
        let v = self.to_args();
        crate::nix_command::extend_strings(args, &v);
    }

    fn part_a(&self, args: &mut Vec<String>)
        ensures
            strings_view(final(args)@) == strings_view(old(args)@) + args_a(*self),
    {
        let mut v: Vec<String> = Vec::new();
        let ghost start = strings_view(v@);
        push_count(&mut v, "--max-jobs", self.max_jobs);
        assert(strings_view(v@) =~= valued_spec("--max-jobs"@, count_view(self.max_jobs)));
        push_count(&mut v, "--cores", self.cores);
        push_valued(&mut v, "--log-format", opt_as_str(&self.log_format));
        push_flag(&mut v, self.keep_going, "--keep-going");
        push_flag(&mut v, self.keep_failed, "--keep-failed");
        push_flag(&mut v, self.fallback, "--fallback");
        push_flag(&mut v, self.repair, "--repair");
        push_valued(&mut v, "--builders", opt_as_str(&self.builders));
        push_each(&mut v, "--include", &self.include_paths);
        assert(strings_view(v@) == args_a(*self));
        crate::nix_command::extend_strings(args, &v);
    }

    fn part_b(&self, args: &mut Vec<String>)
        ensures
            strings_view(final(args)@) == strings_view(old(args)@) + args_b(*self),
    {
        let mut v: Vec<String> = Vec::new();
        let ghost start = strings_view(v@);
        push_flag(&mut v, self.print_build_logs, "--print-build-logs");
        assert(strings_view(v@) =~= flag_spec(self.print_build_logs, "--print-build-logs"@));
        push_flag(&mut v, self.show_trace, "--show-trace");
        push_flag(&mut v, self.accept_flake_config, "--accept-flake-config");
        push_flag(&mut v, self.refresh, "--refresh");
        push_flag(&mut v, self.impure, "--impure");
        push_flag(&mut v, self.offline, "--offline");
        push_flag(&mut v, self.no_net, "--no-net");
        assert(strings_view(v@) == args_b(*self));
        crate::nix_command::extend_strings(args, &v);
    }

    fn part_c(&self, args: &mut Vec<String>)
        ensures
            strings_view(final(args)@) == strings_view(old(args)@) + args_c(*self),
    {
        let mut v: Vec<String> = Vec::new();
        let ghost start = strings_view(v@);
        push_flag(&mut v, self.recreate_lock_file, "--recreate-lock-file");
        assert(strings_view(v@) =~= flag_spec(self.recreate_lock_file, "--recreate-lock-file"@));
        push_flag(&mut v, self.no_update_lock_file, "--no-update-lock-file");
        push_flag(&mut v, self.no_write_lock_file, "--no-write-lock-file");
        push_flag(&mut v, self.no_use_registries, "--no-use-registries");
        push_flag(&mut v, self.no_registries, "--no-use-registries");
        push_flag(&mut v, self.no_build_output, "--quiet");
        push_flag(&mut v, self.json, "--json");
        assert(strings_view(v@) == args_c(*self));
        crate::nix_command::extend_strings(args, &v);
    }

    fn part_d(&self, args: &mut Vec<String>)
        ensures
            strings_view(final(args)@) == strings_view(old(args)@) + args_d(*self),
    {
        let mut v: Vec<String> = Vec::new();
        let ghost start = strings_view(v@);
        push_pairs(&mut v, "--option", &self.option);
        assert(strings_view(v@) =~= pairs_spec("--option"@, crate::command::pairs_view(self.option@)));
        push_pairs(&mut v, "--override-input", &self.override_input);
        assert(strings_view(v@) == args_d(*self));
        crate::nix_command::extend_strings(args, &v);
    }

    /// The Nix flags the options stand for.
    pub fn to_args(&self) -> (res: Vec<String>)
        ensures
            strings_view(res@) == build_args_spec(*self),
    {
        let mut args: Vec<String> = Vec::new();
        self.part_a(&mut args);
        assert(strings_view(args@) =~= args_a(*self));
        self.part_b(&mut args);
        self.part_c(&mut args);
        self.part_d(&mut args);
        args
    }
}

/// `c` in lower case when it is an ASCII capital.
pub open spec fn ascii_lower(c: char) -> char {
    match c {
        'A' => 'a',
        'B' => 'b',
        'C' => 'c',
        'D' => 'd',
        'E' => 'e',
        'F' => 'f',
        'G' => 'g',
        'H' => 'h',
        'I' => 'i',
        'J' => 'j',
        'K' => 'k',
        'L' => 'l',
        'M' => 'm',
        'N' => 'n',
        'O' => 'o',
        'P' => 'p',
        'Q' => 'q',
        'R' => 'r',
        'S' => 's',
        'T' => 't',
        'U' => 'u',
        'V' => 'v',
        'W' => 'w',
        'X' => 'x',
        'Y' => 'y',
        'Z' => 'z',
        _ => c,
    }
}

/// Whether `a` equals `b` ignoring ASCII case.
pub open spec fn eq_ignore_ascii_case(a: Seq<char>, b: Seq<char>) -> bool {
    a.len() == b.len() && forall|i: int| 0 <= i < a.len() ==> ascii_lower(#[trigger] a[i]) == ascii_lower(b[i])
}

/// The words read as true.
pub open spec fn true_words() -> Seq<Seq<char>> {
    seq!["y"@, "yes"@, "t"@, "true"@, "on"@, "1"@]
}

/// The words read as false.
pub open spec fn false_words() -> Seq<Seq<char>> {
    seq!["n"@, "no"@, "f"@, "false"@, "off"@, "0"@]
}

/// A boolean-ish value: one of the true or false words in any case, or
/// nothing.
pub open spec fn boolish_spec(value: Seq<char>) -> Option<bool> {
    if exists|i: int| 0 <= i < true_words().len() && eq_ignore_ascii_case(value, #[trigger] true_words()[i]) {
        Some(true)
    } else if exists|i: int| 0 <= i < false_words().len() && eq_ignore_ascii_case(value, #[trigger] false_words()[i]) {
        Some(false)
    } else {
        None
    }
}

/// Whether `a` equals the lower-case ASCII word `b` ignoring ASCII case.
fn matches_word(a: &Vec<char>, b: &str) -> (res: bool)
    ensures
        res == eq_ignore_ascii_case(a@, b@),
{
    let bs = crate::text::chars_of(b);
    if a.len() != bs.len() {
        return false;
    }
    let mut i: usize = 0;
    while i < a.len()
        invariant
            i <= a.len() == bs.len(),
            bs@ == b@,
            forall|j: int| 0 <= j < i ==> ascii_lower(#[trigger] a@[j]) == ascii_lower(bs@[j]),
        decreases a.len() - i,
    {
        if lower_char(a[i]) != lower_char(bs[i]) {
            return false;
        }
        i = i + 1;
    }
    true
}

fn lower_char(c: char) -> (res: char)
    ensures
        res == ascii_lower(c),
{
    match c {
        'A' => 'a',
        'B' => 'b',
        'C' => 'c',
        'D' => 'd',
        'E' => 'e',
        'F' => 'f',
        'G' => 'g',
        'H' => 'h',
        'I' => 'i',
        'J' => 'j',
        'K' => 'k',
        'L' => 'l',
        'M' => 'm',
        'N' => 'n',
        'O' => 'o',
        'P' => 'p',
        'Q' => 'q',
        'R' => 'r',
        'S' => 's',
        'T' => 't',
        'U' => 'u',
        'V' => 'v',
        'W' => 'w',
        'X' => 'x',
        'Y' => 'y',
        'Z' => 'z',
        _ => c,
    }
}

fn in_words(a: &Vec<char>, words: &Vec<&'static str>) -> (res: bool)
    ensures
        res == exists|i: int| 0 <= i < words@.len() && eq_ignore_ascii_case(a@, #[trigger] words@[i]@),
{
    let mut i: usize = 0;
    while i < words.len()
        invariant
            i <= words.len(),
            forall|j: int| 0 <= j < i ==> !eq_ignore_ascii_case(a@, #[trigger] words@[j]@),
        decreases words.len() - i,
    {
        if matches_word(a, words[i]) {
            return true;
        }
        i = i + 1;
    }
    false
}

/// Reads a boolean-ish value as command-line switches take it from the
/// environment: `y`, `yes`, `t`, `true`, `on`, `1` are true, `n`, `no`,
/// `f`, `false`, `off`, `0` are false, in any letter case; anything else is
/// no value.
pub fn parse_boolish(value: &str) -> (res: Option<bool>)
    ensures
        res == boolish_spec(value@),
{
    let cs = crate::text::chars_of(value);
    let t: Vec<&'static str> = vec!["y", "yes", "t", "true", "on", "1"];
    let f: Vec<&'static str> = vec!["n", "no", "f", "false", "off", "0"];
    assert(t@.map_values(|w: &'static str| w@) =~= true_words());
    assert(f@.map_values(|w: &'static str| w@) =~= false_words());
    let is_true = in_words(&cs, &t);
    proof {
        if is_true {
            let i = choose|i: int| 0 <= i < t@.len() && eq_ignore_ascii_case(cs@, #[trigger] t@[i]@);
            assert(true_words()[i] == t@[i]@);
        } else {
            assert forall|i: int| 0 <= i < true_words().len() implies !eq_ignore_ascii_case(value@, #[trigger] true_words()[i]) by {
                assert(true_words()[i] == t@[i]@);
            }
        }
    }
    if is_true {
        return Some(true);
    }
    let is_false = in_words(&cs, &f);
    proof {
        if is_false {
            let i = choose|i: int| 0 <= i < f@.len() && eq_ignore_ascii_case(cs@, #[trigger] f@[i]@);
            assert(false_words()[i] == f@[i]@);
        } else {
            assert forall|i: int| 0 <= i < false_words().len() implies !eq_ignore_ascii_case(value@, #[trigger] false_words()[i]) by {
                assert(false_words()[i] == f@[i]@);
            }
        }
    }
    if is_false {
        Some(false)
    } else {
        None
    }
}

} // verus!
