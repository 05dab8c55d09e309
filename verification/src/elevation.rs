//! Privilege elevation: the strategy a user selects, and the policy for a
//! run that combines it with the sudo-related environment.

use vstd::prelude::*;

use crate::runtime::{Env, opt_str_view, shell_words_spec};
use crate::text::{owned, str_eq};

verus! {

/// How `nh` elevates privileges for commands that need root.
#[derive(Debug, Clone, PartialEq, Eq)]
pub enum ElevationStrategy {
    /// Use no elevation program (`none` on the command line).
    Disabled,
    /// Use the first elevation program found (doas, sudo, run0, pkexec).
    Auto,
    /// Use an elevation program without prompting for a password.
    Passwordless,
    /// Use the named program, falling back to detection when it is absent.
    Program(String),
}

/// The mathematical form of a strategy.
pub enum StrategyView {
    Disabled,
    Auto,
    Passwordless,
    Program(Seq<char>),
}

impl View for ElevationStrategy {
    type V = StrategyView;

    open spec fn view(&self) -> StrategyView {
        match self {
            ElevationStrategy::Disabled => StrategyView::Disabled,
            ElevationStrategy::Auto => StrategyView::Auto,
            ElevationStrategy::Passwordless => StrategyView::Passwordless,
            ElevationStrategy::Program(p) => StrategyView::Program(p@),
        }
    }
}

/// The strategy a command-line or environment value names: the keywords
/// `none`, `auto` and `passwordless`, or else a program path, with an
/// optional `program:` prefix removed.
pub open spec fn strategy_from_spec(value: Seq<char>) -> StrategyView {
    if value == "none"@ {
        StrategyView::Disabled
    } else if value == "auto"@ {
        StrategyView::Auto
    } else if value == "passwordless"@ {
        StrategyView::Passwordless
    } else {
        match crate::text::strip_prefix_spec(value, "program:"@) {
            Some(rest) => StrategyView::Program(rest),
            None => StrategyView::Program(value),
        }
    }
}

impl ElevationStrategy {
    /// The strategy named by `value`.
    pub fn from_value(value: &str) -> (res: ElevationStrategy)
        ensures
            res@ == strategy_from_spec(value@),
    {
        if str_eq(value, "none") {
            ElevationStrategy::Disabled
        } else if str_eq(value, "auto") {
            ElevationStrategy::Auto
        } else if str_eq(value, "passwordless") {
            ElevationStrategy::Passwordless
        } else {
            let cs = crate::text::chars_of(value);
            match crate::text::strip_prefix_chars(&cs, "program:") {
                Some(rest) => ElevationStrategy::Program(crate::text::string_from_chars(&rest)),
                None => ElevationStrategy::Program(owned(value)),
            }
        }
    }

    /// A copy of the strategy.
    pub fn duplicate(&self) -> (res: ElevationStrategy)
        ensures
            res@ == self@,
    {
        match self {
            ElevationStrategy::Disabled => ElevationStrategy::Disabled,
            ElevationStrategy::Auto => ElevationStrategy::Auto,
            ElevationStrategy::Passwordless => ElevationStrategy::Passwordless,
            ElevationStrategy::Program(p) => ElevationStrategy::Program(p.clone()),
        }
    }
}

impl std::str::FromStr for ElevationStrategy {
    type Err = std::convert::Infallible;

    fn from_str(value: &str) -> (res: Result<ElevationStrategy, std::convert::Infallible>)
        ensures
            res matches Ok(s) && s@ == strategy_from_spec(value@),
    {
        Ok(ElevationStrategy::from_value(value))
    }
}

/// The message when elevation is disabled.
pub open spec fn disabled_message() -> Seq<char> {
    "Elevation disabled via --elevation-strategy=none"@
}

/// The message when no elevation program is installed.
pub open spec fn no_program_message() -> Seq<char> {
    "No elevation strategy found. Checked: doas, sudo, run0, pkexec"@
}

/// The elevation programs tried in turn, most likely first.
pub open spec fn candidate_programs() -> Seq<Seq<char>> {
    seq!["doas"@, "sudo"@, "run0"@, "pkexec"@]
}

/// The first candidate that was found, in the order of the candidates.
pub open spec fn first_found(found: Seq<Option<Seq<char>>>) -> Option<Seq<char>>
    decreases found.len(),
{
    if found.len() == 0 {
        None
    } else {
        match found[0] {
            Some(p) => Some(p),
            None => first_found(found.skip(1)),
        }
    }
}

/// The program a strategy resolves to, given where the preferred program
/// was found (`preferred`) and where each of `candidate_programs()` was
/// found (`found`, in that order).
pub open spec fn resolve_spec(
    strategy: StrategyView,
    preferred: Option<Seq<char>>,
    found: Seq<Option<Seq<char>>>,
) -> Result<Seq<char>, Seq<char>> {
    let detected = match first_found(found) {
        Some(p) => Ok(p),
        None => Err(no_program_message()),
    };
    match strategy {
        StrategyView::Disabled => Err(disabled_message()),
        StrategyView::Program(_) => match preferred {
            Some(p) => Ok(p),
            None => detected,
        },
        _ => detected,
    }
}

proof fn lemma_first_found_at(found: Seq<Option<Seq<char>>>, k: int)
    requires
        0 <= k <= found.len(),
        forall|i: int| 0 <= i < k ==> (#[trigger] found[i]) is None,
    ensures
        k < found.len() && found[k] is Some ==> first_found(found) == found[k],
        k == found.len() ==> first_found(found) is None,
    decreases k,
{
    if k > 0 {
        let rest = found.skip(1);
        assert forall|i: int| 0 <= i < k - 1 implies (#[trigger] rest[i]) is None by {
            assert(rest[i] == found[i + 1]);
        }
        lemma_first_found_at(rest, k - 1);
        assert(found[0] is None);
        if k < found.len() {
            assert(rest[k - 1] == found[k]);
        }
    }
}

/// How a strategy picks its program from the searches: the program a
/// `Program` strategy names is used whenever its search found it, whatever
/// else was found; otherwise (and for the other enabled strategies) the
/// first of the candidates found, in the order searched, is used, and when
/// none was found the run has no elevation program; a disabled strategy
/// never resolves.
pub proof fn lemma_resolve_prefers_named_program(
    strategy: StrategyView,
    preferred: Option<Seq<char>>,
    found: Seq<Option<Seq<char>>>,
    k: int,
)
    ensures
        strategy is Program && preferred is Some ==> resolve_spec(strategy, preferred, found) == Ok::<
            Seq<char>,
            Seq<char>,
        >(preferred->0),
        strategy is Disabled ==> resolve_spec(strategy, preferred, found) == Err::<Seq<char>, Seq<char>>(
            disabled_message(),
        ),
        !(strategy is Disabled) && (!(strategy is Program) || preferred is None) && 0 <= k <= found.len() && (
        forall|i: int| 0 <= i < k ==> (#[trigger] found[i]) is None) ==> {
            &&& k < found.len() && found[k] is Some ==> resolve_spec(strategy, preferred, found) == Ok::<
                Seq<char>,
                Seq<char>,
            >(found[k]->0)
            &&& k == found.len() ==> resolve_spec(strategy, preferred, found) == Err::<Seq<char>, Seq<char>>(
                no_program_message(),
            )
        },
{
    if 0 <= k <= found.len() && (forall|i: int| 0 <= i < k ==> (#[trigger] found[i]) is None) {
        lemma_first_found_at(found, k);
    }
}

/// `outcome` is what `resolve_spec` gives for some results of the
/// searches a strategy makes: one for the program a `Program` strategy
/// names, and one each for `doas`, `sudo`, `run0` and `pkexec` unless
/// elevation is disabled.
pub open spec fn searched_outcome(strategy: StrategyView, outcome: Result<Seq<char>, Seq<char>>) -> bool {
    exists|preferred: Option<Seq<char>>, found: Seq<Option<Seq<char>>>|
        #![trigger resolve_spec(strategy, preferred, found)]
        (strategy is Program || preferred is None) && found.len() == (if strategy is Disabled {
            0int
        } else {
            4int
        }) && resolve_spec(strategy, preferred, found) == outcome
}

/// The view of an optional strategy.
pub open spec fn opt_strategy_view(s: Option<ElevationStrategy>) -> Option<StrategyView> {
    match s {
        Some(s) => Some(s@),
        None => None,
    }
}

/// The view of an optional string.
pub open spec fn opt_string_view(o: Option<String>) -> Option<Seq<char>> {
    match o {
        Some(s) => Some(s@),
        None => None,
    }
}

/// The view of a result whose both sides are strings.
pub open spec fn str_result_view(r: Result<String, String>) -> Result<Seq<char>, Seq<char>> {
    match r {
        Ok(s) => Ok(s@),
        Err(e) => Err(e@),
    }
}

/// Calls `which::which_in`, which searches `path` (a `PATH`-style list,
/// relative entries taken from `cwd`) for an executable named `program`.
/// What it finds depends on the file system, so nothing is stated of it.
#[verifier::external_body]
fn which_in(program: &str, path: &str, cwd: &str) -> (res: Option<String>) {
    which::which_in(program, Some(path), cwd).ok().map(|p| p.to_string_lossy().into_owned())
}

/// Privilege-elevation policy for a run, captured once at startup.
pub struct Elevation {
    strategy: ElevationStrategy,
    opts: Vec<String>,
    askpass: Option<String>,
    preserve_env: bool,
}

/// The strategy a run uses: the one given on the command line, else the one
/// that the deprecated `NH_ELEVATION_PROGRAM` names, else detection.
pub open spec fn chosen_spec(strategy: Option<StrategyView>, program_var: Option<Seq<char>>) -> StrategyView {
    match strategy {
        Some(s) => s,
        None => match program_var {
            Some(v) => if v.len() > 0 {
                strategy_from_spec(v)
            } else {
                StrategyView::Auto
            },
            None => StrategyView::Auto,
        },
    }
}

/// Whether the child environment is kept across elevation: unless
/// `NH_PRESERVE_ENV` is exactly `0`.
pub open spec fn preserve_env_spec(value: Option<Seq<char>>) -> bool {
    match value {
        Some(v) => v != "0"@,
        None => true,
    }
}

impl Elevation {
    pub closed spec fn spec_strategy(&self) -> StrategyView {
        self.strategy@
    }

    pub closed spec fn spec_opts(&self) -> Seq<Seq<char>> {
        crate::text::strings_view(self.opts@)
    }

    pub closed spec fn spec_askpass(&self) -> Option<Seq<char>> {
        opt_string_view(self.askpass)
    }

    pub closed spec fn spec_preserve_env(&self) -> bool {
        self.preserve_env
    }

    /// The policy `e` is what the command-line `strategy` and the snapshot
    /// `env` select (see `new`).
    pub open spec fn from_env_spec(e: Elevation, strategy: Option<StrategyView>, env: &Env) -> bool {
        &&& e.spec_strategy() == chosen_spec(strategy, env.spec_var("NH_ELEVATION_PROGRAM"@))
        &&& shell_words_spec(
            "NH_SUDOOPTS"@,
            env.spec_var("NH_SUDOOPTS"@),
            "NIX_SUDOOPTS"@,
            env.spec_var("NIX_SUDOOPTS"@),
        ) == Ok::<Seq<Seq<char>>, Seq<char>>(e.spec_opts())
        &&& e.spec_askpass() == match env.spec_var("NH_SUDO_ASKPASS"@) {
            Some(v) => if v.len() > 0 {
                Some(v)
            } else {
                None
            },
            None => None,
        }
        &&& e.spec_preserve_env() == preserve_env_spec(env.spec_var("NH_PRESERVE_ENV"@))
    }

    /// The policy from the command-line strategy and the environment:
    /// `NH_SUDOOPTS` (or the legacy `NIX_SUDOOPTS`) shell-split,
    /// `NH_SUDO_ASKPASS` when not empty, and `NH_PRESERVE_ENV`.
    pub fn new(strategy: Option<ElevationStrategy>, env: &Env) -> (res: Result<Elevation, String>)
        ensures
            match res {
                Ok(e) => Elevation::from_env_spec(e, opt_strategy_view(strategy), env),
                Err(m) => shell_words_spec(
                    "NH_SUDOOPTS"@,
                    env.spec_var("NH_SUDOOPTS"@),
                    "NIX_SUDOOPTS"@,
                    env.spec_var("NIX_SUDOOPTS"@),
                ) == Err::<Seq<Seq<char>>, Seq<char>>(m@),
            },
    {
        let strategy = Self::chosen(strategy, env);
        let opts = match env.shell_words("NH_SUDOOPTS", "NIX_SUDOOPTS") {
            Ok(v) => v,
            Err(e) => return Err(e),
        };
        let askpass = match env.non_empty_var("NH_SUDO_ASKPASS") {
            Some(v) => Some(owned(v)),
            None => None,
        };
        let preserve_env = match env.var("NH_PRESERVE_ENV") {
            Some(v) => !str_eq(v, "0"),
            None => true,
        };
        Ok(Elevation { strategy, opts, askpass, preserve_env })
    }

    fn chosen(strategy: Option<ElevationStrategy>, env: &Env) -> (res: ElevationStrategy)
        ensures
            res@ == chosen_spec(
                match strategy {
                    Some(s) => Some(s@),
                    None => None,
                },
                env.spec_var("NH_ELEVATION_PROGRAM"@),
            ),
    {
        match strategy {
            Some(s) => s,
            None => match env.non_empty_var("NH_ELEVATION_PROGRAM") {
                Some(v) => ElevationStrategy::from_value(v),
                None => ElevationStrategy::Auto,
            },
        }
    }

    /// The strategy of the run.
    pub fn strategy(&self) -> (res: &ElevationStrategy)
        ensures
            res@ == self.spec_strategy(),
    {
        &self.strategy
    }

    /// Whether elevation is disabled via `--elevation-strategy=none`.
    pub fn is_disabled(&self) -> (res: bool)
        ensures
            res == (self.spec_strategy() is Disabled),
    {
        match self.strategy {
            ElevationStrategy::Disabled => true,
            _ => false,
        }
    }

    /// Whether the elevation program runs without password prompting.
    pub fn is_passwordless(&self) -> (res: bool)
        ensures
            res == (self.spec_strategy() is Passwordless),
    {
        match self.strategy {
            ElevationStrategy::Passwordless => true,
            _ => false,
        }
    }

    /// Extra arguments for `sudo`.
    pub fn sudo_opts(&self) -> (res: &Vec<String>)
        ensures
            crate::text::strings_view(res@) == self.spec_opts(),
    {
        &self.opts
    }

    /// The askpass helper, if one is configured.
    pub fn askpass(&self) -> (res: Option<&str>)
        ensures
            opt_str_view(res) == self.spec_askpass(),
    {
        match &self.askpass {
            Some(a) => Some(a.as_str()),
            None => None,
        }
    }

    /// Whether the child environment is preserved across elevation.
    pub fn preserves_env(&self) -> (res: bool)
        ensures
            res == self.spec_preserve_env(),
    {
        self.preserve_env
    }

    /// The path of the elevation program for the run's strategy, as
    /// `resolve_strategy` finds it.
    pub fn program(&self, env: &Env) -> (res: Result<String, String>)
        ensures
            self.spec_strategy() is Disabled ==> str_result_view(res) == Err::<Seq<char>, Seq<char>>(disabled_message()),
            !(self.spec_strategy() is Disabled) ==> (res is Ok || str_result_view(res) == Err::<Seq<char>, Seq<char>>(no_program_message())),
            searched_outcome(self.spec_strategy(), str_result_view(res)),
    {
        resolve_strategy(&self.strategy, env)
    }
}

/// The program a strategy resolves to, given the outcome of each search:
/// `preferred` for the program a `Program` strategy names, `found` for
/// `doas`, `sudo`, `run0` and `pkexec` in turn.
pub fn resolve_with(strategy: &ElevationStrategy, preferred: Option<String>, found: &Vec<Option<String>>) -> (res: Result<String, String>)
    ensures
        str_result_view(res) == resolve_spec(
            strategy@,
            opt_string_view(preferred),
            found@.map_values(|o: Option<String>| opt_string_view(o)),
        ),
{
    let ghost fv = found@.map_values(|o: Option<String>| opt_string_view(o));
    let mut detected: Result<String, String> = Err(owned("No elevation strategy found. Checked: doas, sudo, run0, pkexec"));
    let mut i: usize = found.len();
    assert(fv.skip(i as int) =~= Seq::<Option<Seq<char>>>::empty());
    while i > 0
        invariant
            i <= found.len(),
            fv == found@.map_values(|o: Option<String>| opt_string_view(o)),
            str_result_view(detected) == match first_found(fv.skip(i as int)) {
                Some(p) => Ok(p),
                None => Err(no_program_message()),
            },
        decreases i,
    {
        i = i - 1;
        assert(fv.skip(i as int).skip(1) =~= fv.skip(i + 1));
        assert(fv.skip(i as int)[0] == fv[i as int]);
        match &found[i] {
            Some(p) => {
                detected = Ok(p.clone());
            },
            None => {},
        }
    }
    assert(fv.skip(0) =~= fv);
    match strategy {
        ElevationStrategy::Disabled => Err(owned("Elevation disabled via --elevation-strategy=none")),
        ElevationStrategy::Program(_) => match preferred {
            Some(p) => Ok(p),
            None => detected,
        },
        _ => detected,
    }
}

/// The path of the elevation program for `strategy`: the program it names
/// searched on the captured `PATH`, else the first of `doas`, `sudo`,
/// `run0` and `pkexec` found there. Whether a search finds a program
/// depends on the file system; the outcome is what `resolve_with` gives
/// for the searches' results.
pub fn resolve_strategy(strategy: &ElevationStrategy, env: &Env) -> (res: Result<String, String>)
    ensures
        strategy@ is Disabled ==> str_result_view(res) == Err::<Seq<char>, Seq<char>>(disabled_message()),
        !(strategy@ is Disabled) ==> (res is Ok || str_result_view(res) == Err::<Seq<char>, Seq<char>>(no_program_message())),
        searched_outcome(strategy@, str_result_view(res)),
{
    let path = match env.var("PATH") {
        Some(p) => p,
        None => "",
    };
    let cwd = env.current_dir();
    let preferred = match strategy {
        ElevationStrategy::Program(p) => which_in(p.as_str(), path, cwd),
        _ => None,
    };
    let mut found: Vec<Option<String>> = Vec::new();
    match strategy {
        ElevationStrategy::Disabled => {},
        _ => {
            found.push(which_in("doas", path, cwd));
            found.push(which_in("sudo", path, cwd));
            found.push(which_in("run0", path, cwd));
            found.push(which_in("pkexec", path, cwd));
        },
    }
    let res = resolve_with(strategy, preferred, &found);
    proof {
        let fv = found@.map_values(|o: Option<String>| opt_string_view(o));
        assert(resolve_spec(strategy@, opt_string_view(preferred), fv) == str_result_view(res));
    }
    res
}

} // verus!

verus! {

/// A value with the `program:` prefix names the program after the prefix,
/// whatever it is.
pub proof fn lemma_program_prefix(path: Seq<char>)
    ensures
        strategy_from_spec("program:"@ + path) == StrategyView::Program(path),
{
    reveal_strlit("program:");
    reveal_strlit("none");
    reveal_strlit("auto");
    reveal_strlit("passwordless");
    let v = "program:"@ + path;
    assert(v[0] == 'p');
    assert(v != "none"@) by {
        if v == "none"@ {
            assert(v[0] == 'n');
        }
    }
    assert(v != "auto"@) by {
        if v == "auto"@ {
            assert(v[0] == 'a');
        }
    }
    assert(v != "passwordless"@) by {
        if v == "passwordless"@ {
            assert(v[1] == 'a');
            assert(v[1] == 'r');
        }
    }
    assert(v.take(8) =~= "program:"@);
    assert(v.skip(8) =~= path);
}

/// Resolution never finds a program when elevation is disabled, and a
/// program found under its own name wins over detection.
pub proof fn lemma_resolve_preference(strategy: StrategyView, preferred: Option<Seq<char>>, found: Seq<Option<Seq<char>>>)
    ensures
        strategy is Disabled ==> resolve_spec(strategy, preferred, found) == Err::<Seq<char>, Seq<char>>(
            disabled_message(),
        ),
        (strategy is Program && preferred is Some) ==> resolve_spec(strategy, preferred, found) == Ok::<
            Seq<char>,
            Seq<char>,
        >(preferred->0),
{
}

} // verus!
