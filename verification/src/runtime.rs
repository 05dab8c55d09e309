//! The startup snapshot of the environment and invocation.

use vstd::prelude::*;

use crate::text::owned;

verus! {

/// What `shlex::split` returns for `s`: the shell words of `s`, or `None`
/// when its quoting is unbalanced.
pub uninterp spec fn shlex_split_result(s: Seq<char>) -> Option<Seq<Seq<char>>>;

/// Calls `shlex::split`, which splits a string into words as a POSIX shell
/// would; the result is named by `shlex_split_result`.
#[verifier::external_body]
fn shlex_split(s: &str) -> (res: Option<Vec<String>>)
    ensures
        match res {
            Some(v) => shlex_split_result(s@) == Some(v@.map_values(|x: String| x@)),
            None => shlex_split_result(s@) is None,
        },
{
    shlex::split(s)
}

/// The variables that affect Nix child processes.
pub open spec fn nix_child_env_names() -> Seq<Seq<char>> {
    seq![
        "LOCALE_ARCHIVE"@,
        "PATH"@,
        "NIX_SSHOPTS"@,
        "NIX_CONFIG"@,
        "NIX_PATH"@,
        "NIX_REMOTE"@,
        "NIX_SSL_CERT_FILE"@,
        "NIX_USER_CONF_FILES"@,
    ]
}

/// Immutable snapshot of the process environment and invocation.
///
/// Captured once at startup; configuration and child-process environments
/// are read from the snapshot rather than from ambient process state.
pub struct Env {
    vars: Vec<(String, String)>,
    executable: String,
    arguments: Vec<String>,
    current_dir: String,
    current_machine_hostname: String,
}

/// The value bound to `name` in `vars`: the last binding wins.
pub open spec fn lookup_var(vars: Seq<(String, String)>, name: Seq<char>) -> Option<Seq<char>>
    decreases vars.len(),
{
    if vars.len() == 0 {
        None
    } else if vars.last().0@ == name {
        Some(vars.last().1@)
    } else {
        lookup_var(vars.drop_last(), name)
    }
}

/// The view of an optional string slice.
pub open spec fn opt_str_view(o: Option<&str>) -> Option<Seq<char>> {
    match o {
        Some(s) => Some(s@),
        None => None,
    }
}

/// The shell words of the preferred variable, or else of the fallback one;
/// an empty selected value gives no words.
pub open spec fn shell_words_spec(
    preferred_name: Seq<char>,
    preferred: Option<Seq<char>>,
    fallback_name: Seq<char>,
    fallback: Option<Seq<char>>,
) -> Result<Seq<Seq<char>>, Seq<char>> {
    let selected = match preferred {
        Some(v) => Some((preferred_name, v)),
        None => match fallback {
            Some(v) => Some((fallback_name, v)),
            None => None,
        },
    };
    match selected {
        None => Ok(Seq::empty()),
        Some((name, value)) => if value.len() == 0 {
            Ok(Seq::empty())
        } else {
            match shlex_split_result(value) {
                Some(words) => Ok(words),
                None => Err(name + " contains unmatched shell quoting"@),
            }
        },
    }
}

impl Env {
    /// A snapshot made of the given parts.
    pub fn new(
        vars: Vec<(String, String)>,
        executable: String,
        arguments: Vec<String>,
        current_dir: String,
        current_machine_hostname: String,
    ) -> (res: Env)
        ensures
            res.spec_vars() == vars@,
            res.spec_executable() == executable@,
            res.spec_arguments() == arguments@,
            res.spec_current_dir() == current_dir@,
            res.spec_hostname() == current_machine_hostname@,
    {
        Env { vars, executable, arguments, current_dir, current_machine_hostname }
    }

    /// A snapshot holding the given variables, for tests and tools.
    pub fn from_pairs(pairs: Vec<(String, String)>) -> (res: Env)
        ensures
            res.spec_vars() == pairs@,
            res.spec_executable() == "/proc/self/exe"@,
            res.spec_arguments() == Seq::<String>::empty(),
            res.spec_current_dir() == "/"@,
            res.spec_hostname() == "test-host"@,
    {
        Env {
            vars: pairs,
            executable: owned("/proc/self/exe"),
            arguments: Vec::new(),
            current_dir: owned("/"),
            current_machine_hostname: owned("test-host"),
        }
    }

    pub closed spec fn spec_vars(&self) -> Seq<(String, String)> {
        self.vars@
    }

    pub closed spec fn spec_hostname(&self) -> Seq<char> {
        self.current_machine_hostname@
    }

    pub closed spec fn spec_executable(&self) -> Seq<char> {
        self.executable@
    }

    pub closed spec fn spec_arguments(&self) -> Seq<String> {
        self.arguments@
    }

    pub closed spec fn spec_current_dir(&self) -> Seq<char> {
        self.current_dir@
    }

    /// The value of a captured variable.
    pub open spec fn spec_var(&self, name: Seq<char>) -> Option<Seq<char>> {
        lookup_var(self.spec_vars(), name)
    }

    /// The captured value of the variable `name`.
    pub fn var(&self, name: &str) -> (res: Option<&str>)
        ensures
            opt_str_view(res) == self.spec_var(name@),
    {
        let mut i = self.vars.len();
        assert(self.vars@.take(i as int) =~= self.vars@);
        while i > 0
            invariant
                i <= self.vars.len(),
                lookup_var(self.vars@, name@) == lookup_var(self.vars@.take(i as int), name@),
            decreases i,
        {
            let ghost prefix = self.vars@.take(i as int);
            assert(prefix.drop_last() =~= self.vars@.take(i - 1));
            assert(prefix.last() == self.vars@[i - 1]);
            if crate::text::str_eq(self.vars[i - 1].0.as_str(), name) {
                return Some(self.vars[i - 1].1.as_str());
            }
            i = i - 1;
        }
        None
    }

    /// The captured value of `name` when it is set and not empty.
    pub fn non_empty_var(&self, name: &str) -> (res: Option<&str>)
        ensures
            opt_str_view(res) == match self.spec_var(name@) {
                Some(v) => if v.len() > 0 {
                    Some(v)
                } else {
                    None
                },
                None => None,
            },
    {
        match self.var(name) {
            Some(v) => if v.is_empty() {
                None
            } else {
                Some(v)
            },
            None => None,
        }
    }

    /// The captured variables among `names` that are set, with their values.
    fn present_vars(&self, names: &Vec<&'static str>) -> (res: Vec<(String, String)>)
        ensures
            res@.map_values(|p: (String, String)| (p.0@, p.1@)) == present_spec(
                self,
                names@.map_values(|n: &'static str| n@),
            ),
    {
        let mut res: Vec<(String, String)> = Vec::new();
        let mut i: usize = 0;
        while i < names.len()
            invariant
                i <= names.len(),
                res@.map_values(|p: (String, String)| (p.0@, p.1@)) == present_spec(
                    self,
                    names@.map_values(|n: &'static str| n@).take(i as int),
                ),
            decreases names.len() - i,
        {
            let ghost ns = names@.map_values(|n: &'static str| n@);
            assert(ns.take(i + 1).drop_last() =~= ns.take(i as int));
            assert(ns.take(i + 1).last() == names@[i as int]@);
            let ghost prev = res@;
            match self.var(names[i]) {
                Some(v) => {
                    res.push((owned(names[i]), owned(v)));
                    assert(res@.map_values(|p: (String, String)| (p.0@, p.1@)) =~= prev.map_values(
                        |p: (String, String)| (p.0@, p.1@),
                    ).push((names@[i as int]@, v@)));
                },
                None => {},
            }
            i = i + 1;
        }
        assert(names@.map_values(|n: &'static str| n@).take(names.len() as int) =~= names@.map_values(
            |n: &'static str| n@,
        ));
        res
    }

    /// The captured variables that affect Nix child processes.
    pub fn nix_child_env(&self) -> (res: Vec<(String, String)>)
        ensures
            res@.map_values(|p: (String, String)| (p.0@, p.1@)) == present_spec(self, nix_child_env_names()),
    {
        let names: Vec<&'static str> = vec![
            "LOCALE_ARCHIVE",
            "PATH",
            "NIX_SSHOPTS",
            "NIX_CONFIG",
            "NIX_PATH",
            "NIX_REMOTE",
            "NIX_SSL_CERT_FILE",
            "NIX_USER_CONF_FILES",
        ];
        assert(names@.map_values(|n: &'static str| n@) =~= nix_child_env_names());
        self.present_vars(&names)
    }

    /// The captured identity and Nix variables for a non-elevated child.
    pub fn child_env(&self) -> (res: Vec<(String, String)>)
        ensures
            res@.map_values(|p: (String, String)| (p.0@, p.1@)) == present_spec(
                self,
                seq!["USER"@, "HOME"@] + nix_child_env_names(),
            ),
    {
        let names: Vec<&'static str> = vec![
            "USER",
            "HOME",
            "LOCALE_ARCHIVE",
            "PATH",
            "NIX_SSHOPTS",
            "NIX_CONFIG",
            "NIX_PATH",
            "NIX_REMOTE",
            "NIX_SSL_CERT_FILE",
            "NIX_USER_CONF_FILES",
        ];
        assert(names@.map_values(|n: &'static str| n@) =~= seq!["USER"@, "HOME"@] + nix_child_env_names());
        self.present_vars(&names)
    }

    /// The shell words of the preferred variable, or of the legacy
    /// fallback when the preferred one is unset.
    pub fn shell_words(&self, preferred: &'static str, fallback: &'static str) -> (res: Result<Vec<String>, String>)
        ensures
            match res {
                Ok(v) => shell_words_spec(
                    preferred@,
                    self.spec_var(preferred@),
                    fallback@,
                    self.spec_var(fallback@),
                ) == Ok::<Seq<Seq<char>>, Seq<char>>(v@.map_values(|x: String| x@)),
                Err(e) => shell_words_spec(
                    preferred@,
                    self.spec_var(preferred@),
                    fallback@,
                    self.spec_var(fallback@),
                ) == Err::<Seq<Seq<char>>, Seq<char>>(e@),
            },
    {
        let selected = match self.var(preferred) {
            Some(v) => Some((preferred, v)),
            None => match self.var(fallback) {
                Some(v) => Some((fallback, v)),
                None => None,
            },
        };
        match selected {
            None => {
                let v: Vec<String> = Vec::new();
                assert(v@.map_values(|x: String| x@) =~= Seq::<Seq<char>>::empty());
                Ok(v)
            },
            Some((name, value)) => {
                if value.is_empty() {
                    let v: Vec<String> = Vec::new();
                    assert(v@.map_values(|x: String| x@) =~= Seq::<Seq<char>>::empty());
                    return Ok(v);
                }
                match shlex_split(value) {
                    Some(words) => Ok(words),
                    None => Err(crate::text::concat_str(name, " contains unmatched shell quoting")),
                }
            },
        }
    }

    /// The running executable, as captured at startup.
    pub fn executable(&self) -> (res: &str)
        ensures
            res@ == self.spec_executable(),
    {
        self.executable.as_str()
    }

    /// The invocation arguments, excluding the program name.
    pub fn arguments(&self) -> (res: &Vec<String>)
        ensures
            res@ == self.spec_arguments(),
    {
        &self.arguments
    }

    /// The working directory, as captured at startup.
    pub fn current_dir(&self) -> (res: &str)
        ensures
            res@ == self.spec_current_dir(),
    {
        self.current_dir.as_str()
    }

    /// The machine's host name, as captured at startup.
    pub fn current_machine_hostname(&self) -> (res: &str)
        ensures
            res@ == self.spec_hostname(),
    {
        self.current_machine_hostname.as_str()
    }

    /// The number of captured variables, without exposing them.
    pub fn variable_count(&self) -> (res: usize)
        ensures
            res == self.spec_vars().len(),
    {
        self.vars.len()
    }

    /// A debugging description of the snapshot: the numbers of variables
    /// and arguments, the executable and the working directory; no name or
    /// value of a variable appears in it.
    pub fn debug_summary(&self) -> (res: String)
        ensures
            res@ == debug_summary_spec(
                self.spec_vars().len(),
                self.spec_executable(),
                self.spec_arguments().len(),
                self.spec_current_dir(),
            ),
    {
        let mut r = owned("Env { variable_count: ");
        r.append(crate::num::usize_to_decimal(self.vars.len()).as_str());
        r.append(", executable: ");
        r.append(debug_quoted(self.executable.as_str()).as_str());
        r.append(", argument_count: ");
        r.append(crate::num::usize_to_decimal(self.arguments.len()).as_str());
        r.append(", current_dir: ");
        r.append(debug_quoted(self.current_dir.as_str()).as_str());
        r.append(" }");
        r
    }
}

/// What `{:?}` displays for a string: it quoted, with characters escaped.
pub uninterp spec fn debug_text(s: Seq<char>) -> Seq<char>;

/// Calls the `Debug` formatting of `str` (`{:?}`), which quotes the text
/// and escapes its special characters.
#[verifier::external_body]
fn debug_quoted(s: &str) -> (res: String)
    ensures
        res@ == debug_text(s@),
{
    format!("{s:?}")
}

/// The debugging description of a snapshot with `variables` variables and
/// `arguments` arguments.
pub open spec fn debug_summary_spec(
    variables: nat,
    executable: Seq<char>,
    arguments: nat,
    current_dir: Seq<char>,
) -> Seq<char> {
    "Env { variable_count: "@ + crate::num::decimal(variables) + ", executable: "@ + debug_text(executable)
        + ", argument_count: "@ + crate::num::decimal(arguments) + ", current_dir: "@ + debug_text(current_dir) + " }"@
}

/// The pairs of those `names` that are set in `env`, with their values, in
/// the order of `names`.
pub open spec fn present_spec(env: &Env, names: Seq<Seq<char>>) -> Seq<(Seq<char>, Seq<char>)>
    decreases names.len(),
{
    if names.len() == 0 {
        Seq::empty()
    } else {
        let rest = present_spec(env, names.drop_last());
        match env.spec_var(names.last()) {
            Some(v) => rest.push((names.last(), v)),
            None => rest,
        }
    }
}

} // verus!
