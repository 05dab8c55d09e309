//! External commands, optionally run through an elevation program: which
//! environment the child sees, and how the elevated call is spelled.

use vstd::prelude::*;

use crate::elevation::{Elevation, StrategyView, opt_string_view, str_result_view};
use crate::order::{lemma_seq_lt_irreflexive, lemma_seq_lt_transitive, lemma_seq_lt_trichotomy, seq_lt, str_lt};
use crate::runtime::{Env, nix_child_env_names, present_spec};
use crate::text::{owned, str_eq, strings_view};

verus! {

/// The keys of keyed entries.
pub open spec fn keys_of<V>(s: Seq<(String, V)>) -> Seq<Seq<char>> {
    s.map_values(|p: (String, V)| p.0@)
}

/// Whether the keys come in strictly increasing order, so no key repeats.
pub open spec fn strictly_sorted(keys: Seq<Seq<char>>) -> bool {
    forall|i: int, j: int| 0 <= i < j < keys.len() ==> seq_lt(#[trigger] keys[i], #[trigger] keys[j])
}

/// The entries as pairs of character sequences.
pub open spec fn pairs_view(s: Seq<(String, String)>) -> Seq<(Seq<char>, Seq<char>)> {
    s.map_values(|p: (String, String)| (p.0@, p.1@))
}

/// Inserts `(key, value)` into the entries sorted by key; an entry with the
/// same key is replaced, every other entry is kept.
fn insert_entry<V>(v: &mut Vec<(String, V)>, key: String, value: V)
    requires
        strictly_sorted(keys_of(old(v)@)),
    ensures
        strictly_sorted(keys_of(final(v)@)),
        forall|k: Seq<char>| keys_of(final(v)@).contains(k) <==> (keys_of(old(v)@).contains(k) || k == key@),
        forall|i: int| 0 <= i < final(v)@.len() && final(v)@[i].0@ == key@ ==> final(v)@[i] == (key, value),
        forall|i: int|
            0 <= i < final(v)@.len() && final(v)@[i].0@ != key@ ==> old(v)@.contains(#[trigger] final(v)@[i]),
        forall|i: int| 0 <= i < old(v)@.len() && old(v)@[i].0@ != key@ ==> final(v)@.contains(#[trigger] old(v)@[i]),
{
    let ghost before = v@;
    let ghost bk = keys_of(before);
    let mut i: usize = 0;
    while i < v.len() && str_lt(v[i].0.as_str(), key.as_str())
        invariant
            i <= v.len(),
            v@ == before,
            bk == keys_of(before),
            strictly_sorted(bk),
            forall|j: int| 0 <= j < i ==> seq_lt(#[trigger] bk[j], key@),
        decreases v.len() - i,
    {
        assert(bk[i as int] == v@[i as int].0@);
        i = i + 1;
    }
    if i < v.len() && str_eq(v[i].0.as_str(), key.as_str()) {
        let ghost old_entry = v@[i as int];
        v.set(i, (key, value));
        proof {
            let fk = keys_of(v@);
            assert(fk =~= bk.update(i as int, key@));
            assert forall|a: int, b: int| 0 <= a < b < fk.len() implies seq_lt(#[trigger] fk[a], #[trigger] fk[b]) by {
                assert(seq_lt(bk[a], bk[b]));
            }
            assert forall|k: Seq<char>| fk.contains(k) <==> (bk.contains(k) || k == key@) by {
                if bk.contains(k) {
                    let j = choose|j: int| 0 <= j < bk.len() && bk[j] == k;
                    assert(fk[j] == k);
                }
                if k == key@ {
                    assert(fk[i as int] == k);
                }
            }
            assert forall|j: int| 0 <= j < v@.len() && v@[j].0@ != key@ implies before.contains(#[trigger] v@[j]) by {
                assert(j != i);
                assert(v@[j] == before[j]);
            }
            assert forall|j: int| 0 <= j < before.len() && before[j].0@ != key@ implies v@.contains(#[trigger] before[j]) by {
                assert(j != i);
                assert(v@[j] == before[j]);
            }
            assert forall|j: int| 0 <= j < v@.len() && v@[j].0@ == key@ implies v@[j] == (key, value) by {
                if j != i {
                    assert(v@[j] == before[j]);
                    assert(bk[j] == key@);
                    if j < i {
                        lemma_seq_lt_irreflexive(key@);
                    } else {
                        assert(seq_lt(bk[i as int], bk[j]));
                        lemma_seq_lt_irreflexive(key@);
                    }
                }
            }
        }
        return;
    }
    proof {
        if i < v.len() {
            lemma_seq_lt_trichotomy(bk[i as int], key@);
        }
    }
    v.insert(i, (key, value));
    proof {
        let fk = keys_of(v@);
        assert(fk =~= bk.insert(i as int, key@));
        assert forall|a: int, b: int| 0 <= a < b < fk.len() implies seq_lt(#[trigger] fk[a], #[trigger] fk[b]) by {
            if a < i && b == i {
            } else if a < i && b > i {
                assert(fk[b] == bk[b - 1]);
                if b - 1 > i {
                    assert(seq_lt(bk[i as int], bk[b - 1]));
                    lemma_seq_lt_transitive(key@, bk[i as int], bk[b - 1]);
                }
                lemma_seq_lt_transitive(bk[a], key@, bk[b - 1]);
            } else if a == i {
                assert(fk[b] == bk[b - 1]);
                if b - 1 > i {
                    assert(seq_lt(bk[i as int], bk[b - 1]));
                    lemma_seq_lt_transitive(key@, bk[i as int], bk[b - 1]);
                }
            } else if a > i {
                assert(fk[a] == bk[a - 1]);
                assert(fk[b] == bk[b - 1]);
                assert(seq_lt(bk[a - 1], bk[b - 1]));
            } else {
                assert(seq_lt(bk[a], bk[b]));
            }
        }
        assert forall|k: Seq<char>| fk.contains(k) <==> (bk.contains(k) || k == key@) by {
            if bk.contains(k) {
                let j = choose|j: int| 0 <= j < bk.len() && bk[j] == k;
                if j < i {
                    assert(fk[j] == k);
                } else {
                    assert(fk[j + 1] == k);
                }
            }
            if k == key@ {
                assert(fk[i as int] == k);
            }
            if fk.contains(k) {
                let j = choose|j: int| 0 <= j < fk.len() && fk[j] == k;
                if j < i {
                    assert(bk[j] == k);
                } else if j > i {
                    assert(bk[j - 1] == k);
                }
            }
        }
        assert forall|j: int| 0 <= j < v@.len() && v@[j].0@ == key@ implies v@[j] == (key, value) by {
            if j < i {
                assert(seq_lt(bk[j], key@));
                lemma_seq_lt_irreflexive(key@);
            } else if j > i {
                assert(v@[j] == before[j - 1]);
                assert(bk[j - 1] == key@);
                if j - 1 > i {
                    assert(seq_lt(bk[i as int], bk[j - 1]));
                    lemma_seq_lt_trichotomy(bk[i as int], key@);
                }
            }
        }
        assert forall|j: int| 0 <= j < v@.len() && v@[j].0@ != key@ implies before.contains(#[trigger] v@[j]) by {
            if j < i {
                assert(v@[j] == before[j]);
            } else if j > i {
                assert(v@[j] == before[j - 1]);
            }
        }
        assert forall|j: int| 0 <= j < before.len() && before[j].0@ != key@ implies v@.contains(#[trigger] before[j]) by {
            if j < i {
                assert(v@[j] == before[j]);
            } else {
                assert(v@[j + 1] == before[j]);
            }
        }
    }
}

/// The arguments of an invocation elevated through the program named
/// `name`: the prefix the policy `e` gives that program, then `env` with
/// the elevated environment (see `environment_spec`).
pub open spec fn elevated_args(
    e: &Elevation,
    env: &Env,
    preserved: Seq<Seq<char>>,
    overrides: Seq<(Seq<char>, Seq<char>)>,
    name: Seq<char>,
) -> Seq<Seq<char>> {
    elevation_prefix(name, e.spec_strategy() is Passwordless, e.spec_askpass(), e.spec_opts()).push("env"@)
        + environment_spec(env, e.spec_preserve_env(), preserved, overrides, true).map_values(
        |p: (Seq<char>, Seq<char>)| assignment(p),
    )
}

/// The program, arguments and askpass helper of an elevated invocation.
pub struct ElevationParts {
    pub program: String,
    pub args: Vec<String>,
    pub askpass: Option<String>,
}

/// How to start a process: the program, its arguments, and the variables
/// set for it on top of the inherited environment.
pub struct Invocation {
    pub program: String,
    pub args: Vec<String>,
    pub env: Vec<(String, String)>,
}

/// The variables set for an elevated child: `SUDO_ASKPASS` with the askpass
/// helper, where there is one.
pub open spec fn askpass_env(askpass: Option<Seq<char>>) -> Seq<(Seq<char>, Seq<char>)> {
    match askpass {
        Some(a) => seq![("SUDO_ASKPASS"@, a)],
        None => Seq::empty(),
    }
}

/// A builder for an external invocation.
pub struct Command<'env> {
    dry: bool,
    message: Option<String>,
    program: String,
    args: Vec<String>,
    elevate: bool,
    show_output: bool,
    preserved_env: Vec<(String, ())>,
    env_overrides: Vec<(String, String)>,
    env: &'env Env,
    elevation: &'env Elevation,
}

/// The environment a child sees: when elevated, `USER` and (if the policy
/// preserves the environment) the Nix variables; otherwise the identity and
/// Nix variables. Then the preserved variables that are set, unless elevated
/// under a policy that drops the environment, and last the overrides, each
/// in key order.
pub open spec fn environment_spec(
    env: &Env,
    preserves: bool,
    preserved: Seq<Seq<char>>,
    overrides: Seq<(Seq<char>, Seq<char>)>,
    elevated: bool,
) -> Seq<(Seq<char>, Seq<char>)> {
    (if elevated {
        present_spec(env, seq!["USER"@]) + if preserves {
            present_spec(env, nix_child_env_names())
        } else {
            Seq::empty()
        }
    } else {
        present_spec(env, seq!["USER"@, "HOME"@] + nix_child_env_names())
    }) + (if !elevated || preserves {
        present_spec(env, preserved)
    } else {
        Seq::empty()
    }) + overrides
}

/// `key=value`, the word `env` takes for one variable.
pub open spec fn assignment(p: (Seq<char>, Seq<char>)) -> Seq<char> {
    p.0 + "="@ + p.1
}

/// The arguments that go before `env`: `sudo` gets `-A` when an askpass
/// helper is set and a password may be asked, then the sudo options;
/// `run0` gets `--pty-late`; other programs get none.
pub open spec fn elevation_prefix(name: Seq<char>, passwordless: bool, askpass: Option<Seq<char>>, opts: Seq<Seq<char>>) -> Seq<Seq<char>> {
    if name == "sudo"@ {
        (if !passwordless && askpass is Some {
            seq!["-A"@]
        } else {
            Seq::empty()
        }) + opts
    } else if name == "run0"@ {
        seq!["--pty-late"@]
    } else {
        Seq::empty()
    }
}

/// The askpass helper handed to `sudo`.
pub open spec fn elevation_askpass(name: Seq<char>, passwordless: bool, askpass: Option<Seq<char>>) -> Option<Seq<char>> {
    if name == "sudo"@ && !passwordless {
        askpass
    } else {
        None
    }
}

impl<'env> Command<'env> {
    pub closed spec fn wf(&self) -> bool {
        &&& strictly_sorted(keys_of(self.preserved_env@))
        &&& strictly_sorted(keys_of(self.env_overrides@))
    }

    pub closed spec fn spec_preserved(&self) -> Seq<Seq<char>> {
        keys_of(self.preserved_env@)
    }

    pub closed spec fn spec_overrides(&self) -> Seq<(Seq<char>, Seq<char>)> {
        pairs_view(self.env_overrides@)
    }

    pub closed spec fn spec_env(&self) -> &'env Env {
        self.env
    }

    pub closed spec fn spec_elevation(&self) -> &'env Elevation {
        self.elevation
    }

    pub closed spec fn spec_program(&self) -> Seq<char> {
        self.program@
    }

    pub closed spec fn spec_args(&self) -> Seq<Seq<char>> {
        strings_view(self.args@)
    }

    pub closed spec fn spec_flags(&self) -> (bool, bool, bool) {
        (self.dry, self.elevate, self.show_output)
    }

    pub closed spec fn spec_message(&self) -> Option<Seq<char>> {
        opt_string_view(self.message)
    }

    /// A command running `command`, not elevated, with nothing preserved.
    pub fn new(command: &str, env: &'env Env, elevation: &'env Elevation) -> (res: Command<'env>)
        ensures
            res.wf(),
            res.spec_program() == command@,
            res.spec_args() == Seq::<Seq<char>>::empty(),
            res.spec_flags() == (false, false, false),
            res.spec_message() is None,
            res.spec_preserved() == Seq::<Seq<char>>::empty(),
            res.spec_overrides() == Seq::<(Seq<char>, Seq<char>)>::empty(),
            res.spec_env() == env,
            res.spec_elevation() == elevation,
    {
        let res = Command {
            dry: false,
            message: None,
            program: owned(command),
            args: Vec::new(),
            elevate: false,
            show_output: false,
            preserved_env: Vec::new(),
            env_overrides: Vec::new(),
            env,
            elevation,
        };
        assert(res.spec_args() =~= Seq::<Seq<char>>::empty());
        assert(res.spec_preserved() =~= Seq::<Seq<char>>::empty());
        assert(res.spec_overrides() =~= Seq::<(Seq<char>, Seq<char>)>::empty());
        res
    }

    /// Sets whether the command runs elevated.
    pub fn elevate(self, elevate: bool) -> (res: Command<'env>)
        requires
            self.wf(),
        ensures
            res.wf(),
            res.spec_flags() == (self.spec_flags().0, elevate, self.spec_flags().2),
            res.spec_program() == self.spec_program(),
            res.spec_args() == self.spec_args(),
            res.spec_message() == self.spec_message(),
            res.spec_preserved() == self.spec_preserved(),
            res.spec_overrides() == self.spec_overrides(),
            res.spec_env() == self.spec_env(),
            res.spec_elevation() == self.spec_elevation(),
    {
        let mut c = self;
        c.elevate = elevate;
        c
    }

    /// Sets whether this is a dry run.
    pub fn dry(self, dry: bool) -> (res: Command<'env>)
        requires
            self.wf(),
        ensures
            res.wf(),
            res.spec_flags() == (dry, self.spec_flags().1, self.spec_flags().2),
            res.spec_program() == self.spec_program(),
            res.spec_args() == self.spec_args(),
            res.spec_message() == self.spec_message(),
            res.spec_preserved() == self.spec_preserved(),
            res.spec_overrides() == self.spec_overrides(),
            res.spec_env() == self.spec_env(),
            res.spec_elevation() == self.spec_elevation(),
    {
        let mut c = self;
        c.dry = dry;
        c
    }

    /// Sets whether the command's output is shown.
    pub fn show_output(self, show_output: bool) -> (res: Command<'env>)
        requires
            self.wf(),
        ensures
            res.wf(),
            res.spec_flags() == (self.spec_flags().0, self.spec_flags().1, show_output),
            res.spec_program() == self.spec_program(),
            res.spec_args() == self.spec_args(),
            res.spec_message() == self.spec_message(),
            res.spec_preserved() == self.spec_preserved(),
            res.spec_overrides() == self.spec_overrides(),
            res.spec_env() == self.spec_env(),
            res.spec_elevation() == self.spec_elevation(),
    {
        let mut c = self;
        c.show_output = show_output;
        c
    }

    /// Appends one argument.
    pub fn arg(self, arg: &str) -> (res: Command<'env>)
        requires
            self.wf(),
        ensures
            res.wf(),
            res.spec_args() == self.spec_args().push(arg@),
            res.spec_flags() == self.spec_flags(),
            res.spec_program() == self.spec_program(),
            res.spec_message() == self.spec_message(),
            res.spec_preserved() == self.spec_preserved(),
            res.spec_overrides() == self.spec_overrides(),
            res.spec_env() == self.spec_env(),
            res.spec_elevation() == self.spec_elevation(),
    {
        let mut c = self;
        c.args.push(owned(arg));
        assert(strings_view(c.args@) =~= self.spec_args().push(arg@));
        c
    }

    /// Appends the arguments in order.
    pub fn args(self, args: &Vec<String>) -> (res: Command<'env>)
        requires
            self.wf(),
        ensures
            res.wf(),
            res.spec_args() == self.spec_args() + strings_view(args@),
            res.spec_flags() == self.spec_flags(),
            res.spec_program() == self.spec_program(),
            res.spec_message() == self.spec_message(),
            res.spec_preserved() == self.spec_preserved(),
            res.spec_overrides() == self.spec_overrides(),
            res.spec_env() == self.spec_env(),
            res.spec_elevation() == self.spec_elevation(),
    {
        let mut c = self;
        let mut i: usize = 0;
        while i < args.len()
            invariant
                i <= args.len(),
                c.wf(),
                strings_view(c.args@) == self.spec_args() + strings_view(args@.take(i as int)),
                c.spec_flags() == self.spec_flags(),
                c.spec_program() == self.spec_program(),
                c.spec_message() == self.spec_message(),
                c.spec_preserved() == self.spec_preserved(),
                c.spec_overrides() == self.spec_overrides(),
                c.spec_env() == self.spec_env(),
                c.spec_elevation() == self.spec_elevation(),
            decreases args.len() - i,
        {
            let ghost prev = c.args@;
            let a = args[i].clone();
            assert(a@ == args@[i as int]@);
            c.args.push(a);
            assert(c.args@ == prev.push(a));
            assert(strings_view(c.args@) =~= strings_view(prev).push(a@));
            assert(strings_view(args@.take(i + 1)) =~= strings_view(args@.take(i as int)).push(a@));
            i = i + 1;
            assert(strings_view(c.args@) =~= self.spec_args() + strings_view(args@.take(i as int)));
        }
        assert(args@.take(args.len() as int) =~= args@);
        c
    }

    /// Sets the message shown before the command runs.
    pub fn message(self, message: &str) -> (res: Command<'env>)
        requires
            self.wf(),
        ensures
            res.wf(),
            res.spec_message() == Some(message@),
            res.spec_flags() == self.spec_flags(),
            res.spec_program() == self.spec_program(),
            res.spec_args() == self.spec_args(),
            res.spec_preserved() == self.spec_preserved(),
            res.spec_overrides() == self.spec_overrides(),
            res.spec_env() == self.spec_env(),
            res.spec_elevation() == self.spec_elevation(),
    {
        let mut c = self;
        c.message = Some(owned(message));
        c
    }

    /// Preserves the captured values of the named variables; the preserved
    /// names form a set, kept in order.
    pub fn preserve_envs(self, keys: &Vec<String>) -> (res: Command<'env>)
        requires
            self.wf(),
        ensures
            res.wf(),
            forall|k: Seq<char>| res.spec_preserved().contains(k) <==> (self.spec_preserved().contains(k) || strings_view(keys@).contains(k)),
            res.spec_flags() == self.spec_flags(),
            res.spec_program() == self.spec_program(),
            res.spec_args() == self.spec_args(),
            res.spec_message() == self.spec_message(),
            res.spec_overrides() == self.spec_overrides(),
            res.spec_env() == self.spec_env(),
            res.spec_elevation() == self.spec_elevation(),
    {
        let mut c = self;
        let mut i: usize = 0;
        while i < keys.len()
            invariant
                i <= keys.len(),
                c.wf(),
                forall|k: Seq<char>| c.spec_preserved().contains(k) <==> (self.spec_preserved().contains(k) || strings_view(keys@.take(i as int)).contains(k)),
                c.spec_flags() == self.spec_flags(),
                c.spec_program() == self.spec_program(),
                c.spec_args() == self.spec_args(),
                c.spec_message() == self.spec_message(),
                c.spec_overrides() == self.spec_overrides(),
                c.spec_env() == self.spec_env(),
                c.spec_elevation() == self.spec_elevation(),
            decreases keys.len() - i,
        {
            let ghost before = c.spec_preserved();
            insert_entry(&mut c.preserved_env, keys[i].clone(), ());
            proof {
                let t = strings_view(keys@.take(i + 1));
                let p = strings_view(keys@.take(i as int));
                assert(t =~= p.push(keys@[i as int]@));
                assert forall|k: Seq<char>| t.contains(k) <==> (p.contains(k) || k == keys@[i as int]@) by {
                    if t.contains(k) {
                        let j = choose|j: int| 0 <= j < t.len() && t[j] == k;
                        if j < p.len() {
                            assert(p[j] == k);
                        }
                    }
                    if p.contains(k) {
                        let j = choose|j: int| 0 <= j < p.len() && p[j] == k;
                        assert(t[j] == k);
                    }
                    if k == keys@[i as int]@ {
                        assert(t[i as int] == k);
                    }
                }
            }
            i = i + 1;
        }
        assert(keys@.take(keys.len() as int) =~= keys@);
        c
    }

    /// Overrides a variable for the child; a later override of the same
    /// variable wins.
    pub fn set_env(self, key: &str, value: &str) -> (res: Command<'env>)
        requires
            self.wf(),
        ensures
            res.wf(),
            forall|k: Seq<char>| keys_of_pairs(res.spec_overrides()).contains(k) <==> (keys_of_pairs(self.spec_overrides()).contains(k) || k == key@),
            forall|i: int| 0 <= i < res.spec_overrides().len() && res.spec_overrides()[i].0 == key@ ==> res.spec_overrides()[i].1 == value@,
            forall|i: int| 0 <= i < res.spec_overrides().len() && res.spec_overrides()[i].0 != key@ ==> self.spec_overrides().contains(#[trigger] res.spec_overrides()[i]),
            forall|i: int| 0 <= i < self.spec_overrides().len() && self.spec_overrides()[i].0 != key@ ==> res.spec_overrides().contains(#[trigger] self.spec_overrides()[i]),
            res.spec_flags() == self.spec_flags(),
            res.spec_program() == self.spec_program(),
            res.spec_args() == self.spec_args(),
            res.spec_message() == self.spec_message(),
            res.spec_preserved() == self.spec_preserved(),
            res.spec_env() == self.spec_env(),
            res.spec_elevation() == self.spec_elevation(),
    {
        let mut c = self;
        let ghost before = c.env_overrides@;
        insert_entry(&mut c.env_overrides, owned(key), owned(value));
        proof {
            let a = pairs_view(c.env_overrides@);
            let b = pairs_view(before);
            assert(keys_of_pairs(a) =~= keys_of(c.env_overrides@));
            assert(keys_of_pairs(b) =~= keys_of(before));
            assert forall|i: int| 0 <= i < a.len() && a[i].0 != key@ implies b.contains(#[trigger] a[i]) by {
                assert(before.contains(c.env_overrides@[i]));
                let j = choose|j: int| 0 <= j < before.len() && before[j] == c.env_overrides@[i];
                assert(b[j] == a[i]);
            }
            assert forall|i: int| 0 <= i < b.len() && b[i].0 != key@ implies a.contains(#[trigger] b[i]) by {
                assert(c.env_overrides@.contains(before[i]));
                let j = choose|j: int| 0 <= j < c.env_overrides@.len() && c.env_overrides@[j] == before[i];
                assert(a[j] == b[i]);
            }
        }
        c
    }

    /// The program run.
    pub fn program(&self) -> (res: &str)
        ensures
            res@ == self.spec_program(),
    {
        self.program.as_str()
    }

    /// The arguments, in order.
    pub fn arguments(&self) -> (res: &Vec<String>)
        ensures
            strings_view(res@) == self.spec_args(),
    {
        &self.args
    }

    /// Whether this is a dry run.
    pub fn is_dry(&self) -> (res: bool)
        ensures
            res == self.spec_flags().0,
    {
        self.dry
    }

    /// Whether the command runs elevated.
    pub fn is_elevated(&self) -> (res: bool)
        ensures
            res == self.spec_flags().1,
    {
        self.elevate
    }

    /// Whether the command's output is shown.
    pub fn shows_output(&self) -> (res: bool)
        ensures
            res == self.spec_flags().2,
    {
        self.show_output
    }

    /// The message shown before the command runs, if any.
    pub fn message_text(&self) -> (res: Option<&str>)
        ensures
            crate::runtime::opt_str_view(res) == self.spec_message(),
    {
        match &self.message {
            Some(m) => Some(m.as_str()),
            None => None,
        }
    }

    /// The environment the child sees, as `env` assignments in order.
    pub fn environment(&self, elevated: bool) -> (res: Vec<(String, String)>)
        ensures
            pairs_view(res@) == environment_spec(
                self.spec_env(),
                self.spec_elevation().spec_preserve_env(),
                self.spec_preserved(),
                self.spec_overrides(),
                elevated,
            ),
    {
        let preserves = self.elevation.preserves_env();
        let mut vars: Vec<(String, String)> = Vec::new();
        if elevated {
            match self.env.var("USER") {
                Some(user) => {
                    vars.push((owned("USER"), owned(user)));
                },
                None => {},
            }
            proof {
                reveal_with_fuel(present_spec, 2);
                assert(seq!["USER"@].drop_last() =~= Seq::<Seq<char>>::empty());
                assert(pairs_view(vars@) =~= present_spec(self.env, seq!["USER"@]));
            }
            if preserves {
                let nix = self.env.nix_child_env();
                assert(pairs_view(nix@) =~= nix@.map_values(|p: (String, String)| (p.0@, p.1@)));
                let ghost start = pairs_view(vars@);
                let mut n: usize = 0;
                while n < nix.len()
                    invariant
                        n <= nix.len(),
                        pairs_view(vars@) == start + pairs_view(nix@).take(n as int),
                    decreases nix.len() - n,
                {
                    let ghost prev = vars@;
                    let item = (nix[n].0.clone(), nix[n].1.clone());
                    vars.push(item);
                    assert(pairs_view(vars@) =~= pairs_view(prev).push((item.0@, item.1@)));
                    assert(pairs_view(nix@).take(n + 1) =~= pairs_view(nix@).take(n as int).push((item.0@, item.1@)));
                    n = n + 1;
                }
                assert(pairs_view(nix@).take(nix.len() as int) =~= pairs_view(nix@));
            }
        } else {
            vars = self.env.child_env();
            assert(pairs_view(vars@) =~= vars@.map_values(|p: (String, String)| (p.0@, p.1@)));
        }
        let ghost head = pairs_view(vars@);
        if !elevated || preserves {
            let mut i: usize = 0;
            while i < self.preserved_env.len()
                invariant
                    i <= self.preserved_env.len(),
                    pairs_view(vars@) == head + present_spec(self.env, keys_of(self.preserved_env@).take(i as int)),
                decreases self.preserved_env.len() - i,
            {
                let ghost ks = keys_of(self.preserved_env@);
                assert(ks.take(i + 1).drop_last() =~= ks.take(i as int));
                assert(ks.take(i + 1).last() == self.preserved_env@[i as int].0@);
                match self.env.var(self.preserved_env[i].0.as_str()) {
                    Some(value) => {
                        let ghost prev = vars@;
                        let item = (self.preserved_env[i].0.clone(), owned(value));
                        vars.push(item);
                        assert(pairs_view(vars@) =~= pairs_view(prev).push((item.0@, item.1@)));
                        assert(pairs_view(vars@) =~= head + present_spec(self.env, ks.take(i + 1)));
                    },
                    None => {
                        assert(pairs_view(vars@) =~= head + present_spec(self.env, ks.take(i + 1)));
                    },
                }
                i = i + 1;
            }
            assert(keys_of(self.preserved_env@).take(self.preserved_env.len() as int) =~= keys_of(self.preserved_env@));
        } else {
            assert(pairs_view(vars@) =~= head + Seq::<(Seq<char>, Seq<char>)>::empty());
        }
        let ghost middle = pairs_view(vars@);
        let mut j: usize = 0;
        while j < self.env_overrides.len()
            invariant
                j <= self.env_overrides.len(),
                pairs_view(vars@) == middle + pairs_view(self.env_overrides@).take(j as int),
            decreases self.env_overrides.len() - j,
        {
            let ghost prev = vars@;
            let item = (self.env_overrides[j].0.clone(), self.env_overrides[j].1.clone());
            vars.push(item);
            assert(pairs_view(vars@) =~= pairs_view(prev).push((item.0@, item.1@)));
            assert(pairs_view(self.env_overrides@).take(j + 1) =~= pairs_view(self.env_overrides@).take(j as int).push((item.0@, item.1@)));
            j = j + 1;
            assert(pairs_view(vars@) =~= middle + pairs_view(self.env_overrides@).take(j as int));
        }
        assert(pairs_view(self.env_overrides@).take(self.env_overrides.len() as int) =~= pairs_view(self.env_overrides@));
        vars
    }

    /// `res` is the elevated invocation through `program`: its file name
    /// picks the prefix arguments, then `env` with the elevated
    /// environment; a program without a file name is refused.
    pub open spec fn parts_through(&self, program: Seq<char>, res: Result<ElevationParts, String>) -> bool {
        match crate::paths::file_name_spec(program) {
            None => res is Err && res->Err_0@ == "Failed to determine elevation program name"@,
            Some(name) => res matches Ok(parts) && {
                let e = self.spec_elevation();
                &&& parts.program@ == program
                &&& strings_view(parts.args@) == elevated_args(
                    e,
                    self.spec_env(),
                    self.spec_preserved(),
                    self.spec_overrides(),
                    name,
                )
                &&& opt_string_view(parts.askpass) == elevation_askpass(name, e.spec_strategy() is Passwordless, e.spec_askpass())
            },
        }
    }

    /// The elevated invocation through `program`, whose file name picks
    /// the prefix arguments; then `env` with the elevated environment.
    pub fn elevation_parts_for(&self, program: &str) -> (res: Result<ElevationParts, String>)
        ensures
            match crate::paths::file_name_spec(program@) {
                None => res is Err && res->Err_0@ == "Failed to determine elevation program name"@,
                Some(name) => res matches Ok(parts) && {
                    let e = self.spec_elevation();
                    &&& parts.program@ == program@
                    &&& strings_view(parts.args@) == elevation_prefix(
                        name,
                        e.spec_strategy() is Passwordless,
                        e.spec_askpass(),
                        e.spec_opts(),
                    ).push("env"@) + environment_spec(
                        self.spec_env(),
                        e.spec_preserve_env(),
                        self.spec_preserved(),
                        self.spec_overrides(),
                        true,
                    ).map_values(|p: (Seq<char>, Seq<char>)| assignment(p))
                    &&& opt_string_view(parts.askpass) == elevation_askpass(name, e.spec_strategy() is Passwordless, e.spec_askpass())
                },
            },
    {
        let name = match crate::paths::file_name(program) {
            Some(n) => n,
            None => return Err(owned("Failed to determine elevation program name")),
        };
        let passwordless = self.elevation.is_passwordless();
        let mut args: Vec<String> = Vec::new();
        let mut askpass: Option<String> = None;
        if str_eq(name.as_str(), "sudo") {
            if !passwordless {
                match self.elevation.askpass() {
                    Some(a) => {
                        args.push(owned("-A"));
                        askpass = Some(owned(a));
                    },
                    None => {},
                }
            }
            let opts = self.elevation.sudo_opts();
            let mut i: usize = 0;
            let ghost start = strings_view(args@);
            while i < opts.len()
                invariant
                    i <= opts.len(),
                    strings_view(args@) == start + strings_view(opts@).take(i as int),
                decreases opts.len() - i,
            {
                let ghost prev = args@;
                let item = opts[i].clone();
                args.push(item);
                assert(strings_view(args@) =~= strings_view(prev).push(item@));
                assert(strings_view(opts@).take(i + 1) =~= strings_view(opts@).take(i as int).push(item@));
                i = i + 1;
                assert(strings_view(args@) =~= start + strings_view(opts@).take(i as int));
            }
            assert(strings_view(opts@).take(opts.len() as int) =~= strings_view(opts@));
        } else if str_eq(name.as_str(), "run0") {
            args.push(owned("--pty-late"));
        }
        proof {
            reveal_strlit("-A");
            reveal_strlit("--pty-late");
        }
        assert(strings_view(args@) =~= elevation_prefix(
            name@,
            self.elevation.spec_strategy() is Passwordless,
            self.elevation.spec_askpass(),
            self.elevation.spec_opts(),
        ));
        args.push(owned("env"));
        let ghost prefix = strings_view(args@);
        let vars = self.environment(true);
        let mut k: usize = 0;
        while k < vars.len()
            invariant
                k <= vars.len(),
                strings_view(args@) == prefix + pairs_view(vars@).take(k as int).map_values(|p: (Seq<char>, Seq<char>)| assignment(p)),
            decreases vars.len() - k,
        {
            let mut word = vars[k].0.clone();
            word.append("=");
            word.append(vars[k].1.as_str());
            let ghost prev = args@;
            let ghost pk = (vars@[k as int].0@, vars@[k as int].1@);
            assert(word@ == assignment(pk));
            args.push(word);
            assert(strings_view(args@) =~= strings_view(prev).push(assignment(pk)));
            assert(pairs_view(vars@).take(k + 1) =~= pairs_view(vars@).take(k as int).push(pk));
            assert(pairs_view(vars@).take(k + 1).map_values(|p: (Seq<char>, Seq<char>)| assignment(p)) =~= pairs_view(vars@).take(k as int).map_values(|p: (Seq<char>, Seq<char>)| assignment(p)).push(assignment(pk)));
            k = k + 1;
            assert(strings_view(args@) =~= prefix + pairs_view(vars@).take(k as int).map_values(|p: (Seq<char>, Seq<char>)| assignment(p)));
        }
        assert(pairs_view(vars@).take(vars.len() as int) =~= pairs_view(vars@));
        Ok(ElevationParts { program: owned(program), args, askpass })
    }

    /// The elevated invocation through the policy's elevation program.
    pub fn elevation_parts(&self) -> (res: Result<ElevationParts, String>)
        ensures
            self.spec_elevation().spec_strategy() is Disabled ==> res is Err,
            exists|outcome: Result<Seq<char>, Seq<char>>|
                #![trigger crate::elevation::searched_outcome(self.spec_elevation().spec_strategy(), outcome)]
                crate::elevation::searched_outcome(self.spec_elevation().spec_strategy(), outcome) && match outcome {
                    Ok(program) => self.parts_through(program, res),
                    Err(e) => res is Err && res->Err_0@ == e,
                },
    {
        let found = self.elevation.program(self.env);
        proof {
            let outcome = crate::elevation::str_result_view(found);
            assert(crate::elevation::searched_outcome(self.spec_elevation().spec_strategy(), outcome));
        }
        match found {
            Ok(program) => self.elevation_parts_for(program.as_str()),
            Err(e) => Err(e),
        }
    }

    /// The invocation that runs this command elevated through `parts`: the
    /// elevation program, its arguments, then the program and its
    /// arguments; `SUDO_ASKPASS` is set to the askpass helper where there
    /// is one.
    pub fn elevated_invocation(&self, parts: ElevationParts) -> (res: Invocation)
        ensures
            res.program@ == parts.program@,
            strings_view(res.args@) == strings_view(parts.args@) + seq![self.spec_program()] + self.spec_args(),
            pairs_view(res.env@) == askpass_env(opt_string_view(parts.askpass)),
    {
        let ElevationParts { program, args: prefix, askpass } = parts;
        let mut args = prefix;
        args.push(owned(self.program.as_str()));
        let ghost start = strings_view(args@);
        let mut i: usize = 0;
        while i < self.args.len()
            invariant
                i <= self.args.len(),
                strings_view(args@) == start + strings_view(self.args@).take(i as int),
            decreases self.args.len() - i,
        {
            let ghost prev = args@;
            let item = self.args[i].clone();
            args.push(item);
            assert(strings_view(args@) =~= strings_view(prev).push(item@));
            assert(strings_view(self.args@).take(i + 1) =~= strings_view(self.args@).take(i as int).push(item@));
            i = i + 1;
        }
        assert(strings_view(self.args@).take(self.args.len() as int) =~= strings_view(self.args@));
        assert(start =~= strings_view(prefix@) + seq![self.spec_program()]);
        let mut env: Vec<(String, String)> = Vec::new();
        match askpass {
            Some(a) => {
                env.push((owned("SUDO_ASKPASS"), a));
            },
            None => {},
        }
        assert(pairs_view(env@) =~= askpass_env(opt_string_view(askpass)));
        Invocation { program, args, env }
    }

    /// `res` runs this command as its policy says: elevated through
    /// `program` (the elevation program that the search found), or, when
    /// not elevated, the program itself with its arguments and the child's
    /// variables.
    pub open spec fn invocation_through(&self, program: Seq<char>, res: Result<Invocation, String>) -> bool {
        if self.spec_flags().1 {
            match crate::paths::file_name_spec(program) {
                None => res is Err && res->Err_0@ == "Failed to determine elevation program name"@,
                Some(name) => res matches Ok(inv) && {
                    let e = self.spec_elevation();
                    &&& inv.program@ == program
                    &&& strings_view(inv.args@) == elevated_args(
                        e,
                        self.spec_env(),
                        self.spec_preserved(),
                        self.spec_overrides(),
                        name,
                    ) + seq![self.spec_program()] + self.spec_args()
                    &&& pairs_view(inv.env@) == askpass_env(
                        elevation_askpass(name, e.spec_strategy() is Passwordless, e.spec_askpass()),
                    )
                },
            }
        } else {
            res matches Ok(inv) && {
                &&& inv.program@ == self.spec_program()
                &&& strings_view(inv.args@) == self.spec_args()
                &&& pairs_view(inv.env@) == environment_spec(
                    self.spec_env(),
                    self.spec_elevation().spec_preserve_env(),
                    self.spec_preserved(),
                    self.spec_overrides(),
                    false,
                )
            }
        }
    }

    /// How to run this command: elevated, through the policy's elevation
    /// program; otherwise the program itself with the child's environment.
    pub fn invocation(&self) -> (res: Result<Invocation, String>)
        ensures
            !self.spec_flags().1 ==> self.invocation_through(Seq::empty(), res),
            self.spec_flags().1 && self.spec_elevation().spec_strategy() is Disabled ==> res is Err,
            self.spec_flags().1 ==> exists|outcome: Result<Seq<char>, Seq<char>>|
                #![trigger crate::elevation::searched_outcome(self.spec_elevation().spec_strategy(), outcome)]
                crate::elevation::searched_outcome(self.spec_elevation().spec_strategy(), outcome) && match outcome {
                    Ok(program) => self.invocation_through(program, res),
                    Err(e) => res is Err && res->Err_0@ == e,
                },
    {
        if self.elevate {
            let found = self.elevation.program(self.env);
            proof {
                let outcome = crate::elevation::str_result_view(found);
                assert(crate::elevation::searched_outcome(self.spec_elevation().spec_strategy(), outcome));
            }
            match found {
                Ok(program) => match self.elevation_parts_for(program.as_str()) {
                    Ok(parts) => Ok(self.elevated_invocation(parts)),
                    Err(e) => Err(e),
                },
                Err(e) => Err(e),
            }
        } else {
            let mut args: Vec<String> = Vec::new();
            let mut i: usize = 0;
            while i < self.args.len()
                invariant
                    i <= self.args.len(),
                    strings_view(args@) == strings_view(self.args@).take(i as int),
                decreases self.args.len() - i,
            {
                let ghost prev = args@;
                let item = self.args[i].clone();
                args.push(item);
                assert(strings_view(args@) =~= strings_view(prev).push(item@));
                assert(strings_view(self.args@).take(i + 1) =~= strings_view(self.args@).take(i as int).push(item@));
                i = i + 1;
            }
            assert(strings_view(self.args@).take(self.args.len() as int) =~= strings_view(self.args@));
            Ok(Invocation { program: owned(self.program.as_str()), args, env: self.environment(false) })
        }
    }
}

/// The shape of an elevated invocation through `program`, whose file name
/// is `name`: the program itself; then, for `sudo`, `-A` when an askpass
/// helper is set and a password may be asked, followed by the sudo options;
/// for `run0`, `--pty-late`; for any other program nothing; then `env` and
/// one `KEY=VALUE` word per variable of the elevated environment. The
/// askpass helper is handed on only to `sudo` when a password may be asked.
pub proof fn lemma_elevation_parts_shape(
    cmd: &Command,
    program: Seq<char>,
    name: Seq<char>,
    res: Result<ElevationParts, String>,
)
    requires
        cmd.parts_through(program, res),
        crate::paths::file_name_spec(program) == Some(name),
    ensures
        res matches Ok(parts) && {
            let e = cmd.spec_elevation();
            let pw = e.spec_strategy() is Passwordless;
            let askpass = e.spec_askpass();
            let x = if name == "sudo"@ {
                (if !pw && askpass is Some {
                    seq!["-A"@]
                } else {
                    Seq::empty()
                }) + e.spec_opts()
            } else if name == "run0"@ {
                seq!["--pty-late"@]
            } else {
                Seq::empty()
            };
            &&& parts.program@ == program
            &&& strings_view(parts.args@) == x + seq!["env"@] + environment_spec(
                cmd.spec_env(),
                e.spec_preserve_env(),
                cmd.spec_preserved(),
                cmd.spec_overrides(),
                true,
            ).map_values(|p: (Seq<char>, Seq<char>)| p.0 + "="@ + p.1)
            &&& opt_string_view(parts.askpass) == if name == "sudo"@ && !pw {
                askpass
            } else {
                None
            }
        },
{
    let e = cmd.spec_elevation();
    let vars = environment_spec(cmd.spec_env(), e.spec_preserve_env(), cmd.spec_preserved(), cmd.spec_overrides(), true);
    assert(vars.map_values(|p: (Seq<char>, Seq<char>)| assignment(p)) =~= vars.map_values(
        |p: (Seq<char>, Seq<char>)| p.0 + "="@ + p.1,
    ));
    let pre = elevation_prefix(name, e.spec_strategy() is Passwordless, e.spec_askpass(), e.spec_opts());
    assert(pre.push("env"@) =~= pre + seq!["env"@]);
}

/// The keys of string pairs.
pub open spec fn keys_of_pairs(s: Seq<(Seq<char>, Seq<char>)>) -> Seq<Seq<char>> {
    s.map_values(|p: (Seq<char>, Seq<char>)| p.0)
}

/// `parts` re-run the executable of `env` with its arguments, elevated
/// through `program` with nothing preserved or overridden.
pub open spec fn self_elevation_parts(elevation: &Elevation, env: &Env, program: Seq<char>, parts: ElevationParts) -> bool {
    match crate::paths::file_name_spec(program) {
        None => false,
        Some(name) => {
            &&& parts.program@ == program
            &&& strings_view(parts.args@) == elevated_args(elevation, env, Seq::empty(), Seq::empty(), name) + seq![
                env.spec_executable(),
            ] + strings_view(env.spec_arguments())
            &&& opt_string_view(parts.askpass) == elevation_askpass(
                name,
                elevation.spec_strategy() is Passwordless,
                elevation.spec_askpass(),
            )
        },
    }
}

/// The command that replaces the running process with an elevated copy:
/// the elevation parts of the running executable, then the executable and
/// its arguments.
pub fn self_elevate(elevation: &Elevation, env: &Env) -> (res: Result<ElevationParts, String>)
    ensures
        elevation.spec_strategy() is Disabled ==> res is Err,
        exists|outcome: Result<Seq<char>, Seq<char>>|
            #![trigger crate::elevation::searched_outcome(elevation.spec_strategy(), outcome)]
            crate::elevation::searched_outcome(elevation.spec_strategy(), outcome) && match outcome {
                Ok(program) => match crate::paths::file_name_spec(program) {
                    Some(_) => res matches Ok(parts) && self_elevation_parts(elevation, env, program, parts),
                    None => res is Err && res->Err_0@ == "Failed to determine elevation program name"@,
                },
                Err(e) => res is Err && res->Err_0@ == e,
            },
{
    let builder = Command::new(env.executable(), env, elevation).elevate(true);
    let found = builder.elevation_parts();
    let ghost outcome = choose|o: Result<Seq<char>, Seq<char>>|
        crate::elevation::searched_outcome(elevation.spec_strategy(), o) && match o {
            Ok(program) => builder.parts_through(program, found),
            Err(e) => found is Err && found->Err_0@ == e,
        };
    assert(crate::elevation::searched_outcome(elevation.spec_strategy(), outcome));
    let mut parts = match found {
        Ok(p) => p,
        Err(e) => return Err(e),
    };
    let ghost program = outcome->Ok_0;
    assert(builder.parts_through(program, Ok(parts)));
    let ghost before = strings_view(parts.args@);
    let ghost first = parts;
    parts.args.push(owned(env.executable()));
    let arguments = env.arguments();
    let mut i: usize = 0;
    while i < arguments.len()
        invariant
            i <= arguments.len(),
            arguments@ == env.spec_arguments(),
            strings_view(parts.args@) == before + seq![env.spec_executable()] + strings_view(arguments@.take(i as int)),
            parts.program == first.program,
            parts.askpass == first.askpass,
        decreases arguments.len() - i,
    {
        let ghost prev = parts.args@;
        let item = arguments[i].clone();
        parts.args.push(item);
        assert(strings_view(parts.args@) =~= strings_view(prev).push(item@));
        assert(strings_view(arguments@.take(i + 1)) =~= strings_view(arguments@.take(i as int)).push(item@));
        i = i + 1;
        assert(strings_view(parts.args@) =~= before + seq![env.spec_executable()] + strings_view(arguments@.take(i as int)));
    }
    assert(arguments@.take(arguments.len() as int) =~= arguments@);
    assert(self_elevation_parts(elevation, env, program, parts));
    Ok(parts)
}

} // verus!

verus! {

/// What a command does with one environment variable.
#[derive(Debug, Clone)]
pub enum EnvAction {
    /// Set the variable to this value.
    Assign(String),
    /// Keep the captured value, if there is one.
    Preserve,
    /// Leave the variable out.
    Remove,
}

/// The assignment an action gives the child for `key`, if any.
pub open spec fn env_action_spec(env: &Env, key: Seq<char>, action: EnvAction) -> Option<(Seq<char>, Seq<char>)> {
    match action {
        EnvAction::Assign(v) => Some((key, v@)),
        EnvAction::Preserve => match env.spec_var(key) {
            Some(v) => Some((key, v)),
            None => None,
        },
        EnvAction::Remove => None,
    }
}

/// The assignment an action gives the child for `key`, if any.
pub fn apply_env_action(env: &Env, key: &str, action: &EnvAction) -> (res: Option<(String, String)>)
    ensures
        match res {
            Some((k, v)) => env_action_spec(env, key@, *action) == Some((k@, v@)),
            None => env_action_spec(env, key@, *action) is None,
        },
{
    match action {
        EnvAction::Assign(v) => Some((owned(key), v.clone())),
        EnvAction::Preserve => match env.var(key) {
            Some(v) => Some((owned(key), owned(v))),
            None => None,
        },
        EnvAction::Remove => None,
    }
}

} // verus!

verus! {

/// The value a list of assignments leaves for `key`: the last assignment
/// of it wins, as with `env` and with a child's environment.
pub open spec fn last_value(pairs: Seq<(Seq<char>, Seq<char>)>, key: Seq<char>) -> Option<Seq<char>>
    decreases pairs.len(),
{
    if pairs.len() == 0 {
        None
    } else if pairs.last().0 == key {
        Some(pairs.last().1)
    } else {
        last_value(pairs.drop_last(), key)
    }
}

proof fn lemma_last_value_append(a: Seq<(Seq<char>, Seq<char>)>, b: Seq<(Seq<char>, Seq<char>)>, key: Seq<char>)
    ensures
        last_value(a + b, key) == match last_value(b, key) {
            Some(v) => Some(v),
            None => last_value(a, key),
        },
    decreases b.len(),
{
    if b.len() == 0 {
        assert(a + b =~= a);
    } else {
        assert((a + b).drop_last() =~= a + b.drop_last());
        assert((a + b).last() == b.last());
        lemma_last_value_append(a, b.drop_last(), key);
    }
}

proof fn lemma_last_value_unique(b: Seq<(Seq<char>, Seq<char>)>, key: Seq<char>, i: int)
    requires
        0 <= i < b.len(),
        b[i].0 == key,
        forall|x: int, y: int| 0 <= x < y < b.len() ==> b[x].0 != b[y].0,
    ensures
        last_value(b, key) == Some(b[i].1),
    decreases b.len(),
{
    if i < b.len() - 1 {
        let d = b.drop_last();
        assert(b.last().0 != key);
        assert forall|x: int, y: int| 0 <= x < y < d.len() implies d[x].0 != d[y].0 by {
            assert(d[x] == b[x] && d[y] == b[y]);
        }
        lemma_last_value_unique(d, key, i);
    }
}

impl<'env> Command<'env> {
    /// An explicit override wins: whatever the snapshot holds and whatever
    /// is preserved, the child sees the overriding value, elevated or not.
    pub proof fn lemma_override_wins(&self, key: Seq<char>, value: Seq<char>, elevated: bool)
        requires
            self.wf(),
            self.spec_overrides().contains((key, value)),
        ensures
            last_value(
                environment_spec(
                    self.spec_env(),
                    self.spec_elevation().spec_preserve_env(),
                    self.spec_preserved(),
                    self.spec_overrides(),
                    elevated,
                ),
                key,
            ) == Some(value),
    {
        let o = self.spec_overrides();
        let i = choose|i: int| 0 <= i < o.len() && o[i] == (key, value);
        let ks = keys_of(self.env_overrides@);
        assert forall|x: int, y: int| 0 <= x < y < o.len() implies o[x].0 != o[y].0 by {
            assert(o[x].0 == ks[x] && o[y].0 == ks[y]);
            assert(seq_lt(ks[x], ks[y]));
            lemma_seq_lt_irreflexive(ks[x]);
        }
        lemma_last_value_unique(o, key, i);
        let env = self.spec_env();
        let preserves = self.spec_elevation().spec_preserve_env();
        let p = self.spec_preserved();
        let head = (if elevated {
            present_spec(env, seq!["USER"@]) + if preserves {
                present_spec(env, nix_child_env_names())
            } else {
                Seq::empty()
            }
        } else {
            present_spec(env, seq!["USER"@, "HOME"@] + nix_child_env_names())
        }) + (if !elevated || preserves {
            present_spec(env, p)
        } else {
            Seq::empty()
        });
        assert(environment_spec(env, preserves, p, o, elevated) == head + o);
        lemma_last_value_append(head, o, key);
    }
}

} // verus!
