//! `nix` invocations: the subcommand a kind contributes, and the argument
//! vector a command assembles.

use vstd::prelude::*;

use crate::text::{owned, str_eq, strings_view};

verus! {

#[verifier::external_type_specification]
#[verifier::external_body]
pub struct ExIoError(std::io::Error);

/// Why running a `nix` command failed.
pub enum NixCmdError {
    /// The process could not be started, waited for or read.
    Io(std::io::Error),
    /// The command outlived its time limit.
    Timeout { command: String, duration: std::time::Duration },
}

/// The `nix` subcommands used here.
#[derive(Clone, Copy, Debug, PartialEq, Eq, Structural)]
pub enum CommandKind {
    Build,
    Copy,
    Eval,
    Flake,
    PathInfo,
    Repl,
}

/// The word of a subcommand.
pub open spec fn kind_word(kind: CommandKind) -> Seq<char> {
    match kind {
        CommandKind::Build => "build"@,
        CommandKind::Copy => "copy"@,
        CommandKind::Eval => "eval"@,
        CommandKind::Flake => "flake"@,
        CommandKind::PathInfo => "path-info"@,
        CommandKind::Repl => "repl"@,
    }
}

impl CommandKind {
    /// The subcommand word.
    pub fn as_str(self) -> (res: &'static str)
        ensures
            res@ == kind_word(self),
    {
        match self {
            CommandKind::Build => "build",
            CommandKind::Copy => "copy",
            CommandKind::Eval => "eval",
            CommandKind::Flake => "flake",
            CommandKind::PathInfo => "path-info",
            CommandKind::Repl => "repl",
        }
    }

    /// Whether the kind prints build logs by default: only builds do.
    pub fn print_build_logs(self) -> (res: bool)
        ensures
            res == (self == CommandKind::Build),
    {
        match self {
            CommandKind::Build => true,
            _ => false,
        }
    }

    /// Whether the kind runs interactively: only the REPL does.
    pub fn interactive(self) -> (res: bool)
        ensures
            res == (self == CommandKind::Repl),
    {
        match self {
            CommandKind::Repl => true,
            _ => false,
        }
    }
}

/// The arguments after `nix`: the global arguments, the subcommand, then
/// `--print-build-logs` when logs are printed and the arguments do not ask
/// for `--no-build-output`, then the arguments.
pub open spec fn assemble_spec(
    kind: CommandKind,
    print_build_logs: bool,
    global_args: Seq<Seq<char>>,
    args: Seq<Seq<char>>,
) -> Seq<Seq<char>> {
    global_args.push(kind_word(kind)) + (if print_build_logs && !args.contains("--no-build-output"@) {
        seq!["--print-build-logs"@]
    } else {
        Seq::empty()
    }) + args
}

/// Whether `args` holds `word`.
fn holds_word(args: &Vec<String>, word: &str) -> (res: bool)
    ensures
        res == strings_view(args@).contains(word@),
{
    let mut i: usize = 0;
    while i < args.len()
        invariant
            i <= args.len(),
            forall|j: int| 0 <= j < i ==> strings_view(args@)[j] != word@,
        decreases args.len() - i,
    {
        if str_eq(args[i].as_str(), word) {
            assert(strings_view(args@)[i as int] == word@);
            return true;
        }
        i = i + 1;
    }
    false
}

/// Appends the strings of `extra` to `v`.
pub fn extend_strings(v: &mut Vec<String>, extra: &Vec<String>)
    ensures
        strings_view(final(v)@) == strings_view(old(v)@) + strings_view(extra@),
{
    let ghost start = strings_view(v@);
    let mut i: usize = 0;
    while i < extra.len()
        invariant
            i <= extra.len(),
            strings_view(v@) == start + strings_view(extra@.take(i as int)),
        decreases extra.len() - i,
    {
        let ghost prev = v@;
        let item = extra[i].clone();
        v.push(item);
        assert(strings_view(v@) =~= strings_view(prev).push(item@));
        assert(strings_view(extra@.take(i + 1)) =~= strings_view(extra@.take(i as int)).push(item@));
        i = i + 1;
    }
    assert(extra@.take(extra.len() as int) =~= extra@);
}

/// The arguments after `nix`, as `assemble_spec` describes them.
pub fn assemble_args(kind: CommandKind, print_build_logs: bool, global_args: &Vec<String>, args: &Vec<String>) -> (res: Vec<String>)
    ensures
        strings_view(res@) == assemble_spec(kind, print_build_logs, strings_view(global_args@), strings_view(args@)),
{
    let mut out: Vec<String> = Vec::new();
    extend_strings(&mut out, global_args);
    let ghost g = strings_view(out@);
    out.push(owned(kind.as_str()));
    assert(strings_view(out@) =~= g.push(kind_word(kind)));
    if print_build_logs && !holds_word(args, "--no-build-output") {
        let ghost prev = strings_view(out@);
        out.push(owned("--print-build-logs"));
        assert(strings_view(out@) =~= prev + seq!["--print-build-logs"@]);
    } else {
        assert(strings_view(out@) =~= strings_view(out@) + Seq::<Seq<char>>::empty());
    }
    extend_strings(&mut out, args);
    assert(Seq::<Seq<char>>::empty() + strings_view(global_args@) =~= strings_view(global_args@));
    out
}

/// A `nix <kind>` invocation being built.
pub struct NixCommand {
    kind: CommandKind,
    global_args: Vec<String>,
    args: Vec<String>,
    env: Vec<(String, String)>,
    print_build_logs: bool,
    interactive: bool,
    timeout: Option<std::time::Duration>,
}

impl NixCommand {
    pub closed spec fn spec_kind(&self) -> CommandKind {
        self.kind
    }

    pub closed spec fn spec_global_args(&self) -> Seq<Seq<char>> {
        strings_view(self.global_args@)
    }

    pub closed spec fn spec_args(&self) -> Seq<Seq<char>> {
        strings_view(self.args@)
    }

    pub closed spec fn spec_env(&self) -> Seq<(Seq<char>, Seq<char>)> {
        crate::command::pairs_view(self.env@)
    }

    pub closed spec fn spec_print_build_logs(&self) -> bool {
        self.print_build_logs
    }

    pub closed spec fn spec_interactive(&self) -> bool {
        self.interactive
    }

    pub closed spec fn spec_timeout(&self) -> Option<std::time::Duration> {
        self.timeout
    }

    /// The full argument vector, `nix` first.
    pub open spec fn spec_argv(&self) -> Seq<Seq<char>> {
        seq!["nix"@] + assemble_spec(self.spec_kind(), self.spec_print_build_logs(), self.spec_global_args(), self.spec_args())
    }

    /// A command of `kind` with no arguments, whose log printing and
    /// interactivity are the kind's defaults.
    pub fn new(kind: CommandKind) -> (res: NixCommand)
        ensures
            res.spec_kind() == kind,
            res.spec_global_args() == Seq::<Seq<char>>::empty(),
            res.spec_args() == Seq::<Seq<char>>::empty(),
            res.spec_env() == Seq::<(Seq<char>, Seq<char>)>::empty(),
            res.spec_print_build_logs() == (kind == CommandKind::Build),
            res.spec_interactive() == (kind == CommandKind::Repl),
            res.spec_timeout() is None,
    {
        let res = NixCommand {
            kind,
            global_args: Vec::new(),
            args: Vec::new(),
            env: Vec::new(),
            print_build_logs: kind.print_build_logs(),
            interactive: kind.interactive(),
            timeout: None,
        };
        assert(res.spec_global_args() =~= Seq::<Seq<char>>::empty());
        assert(res.spec_args() =~= Seq::<Seq<char>>::empty());
        assert(res.spec_env() =~= Seq::<(Seq<char>, Seq<char>)>::empty());
        res
    }

    /// Appends one argument after the subcommand.
    pub fn arg(self, arg: &str) -> (res: NixCommand)
        ensures
            res.spec_args() == self.spec_args().push(arg@),
            res.spec_kind() == self.spec_kind(),
            res.spec_global_args() == self.spec_global_args(),
            res.spec_env() == self.spec_env(),
            res.spec_print_build_logs() == self.spec_print_build_logs(),
            res.spec_interactive() == self.spec_interactive(),
            res.spec_timeout() == self.spec_timeout(),
    {
        let mut c = self;
        c.args.push(owned(arg));
        assert(strings_view(c.args@) =~= self.spec_args().push(arg@));
        c
    }

    /// Appends arguments after the subcommand.
    pub fn args(self, args: &Vec<String>) -> (res: NixCommand)
        ensures
            res.spec_args() == self.spec_args() + strings_view(args@),
            res.spec_kind() == self.spec_kind(),
            res.spec_global_args() == self.spec_global_args(),
            res.spec_env() == self.spec_env(),
            res.spec_print_build_logs() == self.spec_print_build_logs(),
            res.spec_interactive() == self.spec_interactive(),
            res.spec_timeout() == self.spec_timeout(),
    {
        let mut c = self;
        extend_strings(&mut c.args, args);
        c
    }

    /// Appends arguments before the subcommand.
    pub fn global_args(self, args: &Vec<String>) -> (res: NixCommand)
        ensures
            res.spec_global_args() == self.spec_global_args() + strings_view(args@),
            res.spec_kind() == self.spec_kind(),
            res.spec_args() == self.spec_args(),
            res.spec_env() == self.spec_env(),
            res.spec_print_build_logs() == self.spec_print_build_logs(),
            res.spec_interactive() == self.spec_interactive(),
            res.spec_timeout() == self.spec_timeout(),
    {
        let mut c = self;
        extend_strings(&mut c.global_args, args);
        c
    }

    /// Adds a variable to the child's environment.
    pub fn env(self, key: &str, value: &str) -> (res: NixCommand)
        ensures
            res.spec_env() == self.spec_env().push((key@, value@)),
            res.spec_kind() == self.spec_kind(),
            res.spec_global_args() == self.spec_global_args(),
            res.spec_args() == self.spec_args(),
            res.spec_print_build_logs() == self.spec_print_build_logs(),
            res.spec_interactive() == self.spec_interactive(),
            res.spec_timeout() == self.spec_timeout(),
    {
        let mut c = self;
        c.env.push((owned(key), owned(value)));
        assert(c.spec_env() =~= self.spec_env().push((key@, value@)));
        c
    }

    /// Adds variables to the child's environment, in order.
    pub fn envs(self, envs: &Vec<(String, String)>) -> (res: NixCommand)
        ensures
            res.spec_env() == self.spec_env() + crate::command::pairs_view(envs@),
            res.spec_kind() == self.spec_kind(),
            res.spec_global_args() == self.spec_global_args(),
            res.spec_args() == self.spec_args(),
            res.spec_print_build_logs() == self.spec_print_build_logs(),
            res.spec_interactive() == self.spec_interactive(),
            res.spec_timeout() == self.spec_timeout(),
    {
        let mut c = self;
        let mut i: usize = 0;
        while i < envs.len()
            invariant
                i <= envs.len(),
                c.spec_env() == self.spec_env() + crate::command::pairs_view(envs@).take(i as int),
                c.spec_kind() == self.spec_kind(),
                c.spec_global_args() == self.spec_global_args(),
                c.spec_args() == self.spec_args(),
                c.spec_print_build_logs() == self.spec_print_build_logs(),
                c.spec_interactive() == self.spec_interactive(),
                c.spec_timeout() == self.spec_timeout(),
            decreases envs.len() - i,
        {
            let ghost prev = c.spec_env();
            let item = (envs[i].0.clone(), envs[i].1.clone());
            c.env.push(item);
            assert(c.spec_env() =~= prev.push((item.0@, item.1@)));
            assert(crate::command::pairs_view(envs@).take(i + 1) =~= crate::command::pairs_view(envs@).take(i as int).push((item.0@, item.1@)));
            i = i + 1;
        }
        assert(crate::command::pairs_view(envs@).take(envs.len() as int) =~= crate::command::pairs_view(envs@));
        c
    }

    /// Sets whether build logs are printed.
    pub fn print_build_logs(self, yes: bool) -> (res: NixCommand)
        ensures
            res.spec_print_build_logs() == yes,
            res.spec_kind() == self.spec_kind(),
            res.spec_global_args() == self.spec_global_args(),
            res.spec_args() == self.spec_args(),
            res.spec_env() == self.spec_env(),
            res.spec_interactive() == self.spec_interactive(),
            res.spec_timeout() == self.spec_timeout(),
    {
        let mut c = self;
        c.print_build_logs = yes;
        c
    }

    /// Sets a time limit for the run.
    pub fn with_timeout(self, timeout: std::time::Duration) -> (res: NixCommand)
        ensures
            res.spec_timeout() == Some(timeout),
            res.spec_print_build_logs() == self.spec_print_build_logs(),
            res.spec_kind() == self.spec_kind(),
            res.spec_global_args() == self.spec_global_args(),
            res.spec_args() == self.spec_args(),
            res.spec_env() == self.spec_env(),
            res.spec_interactive() == self.spec_interactive(),
    {
        let mut c = self;
        c.timeout = Some(timeout);
        c
    }

    /// The full argument vector, `nix` first.
    pub fn argv(&self) -> (res: Vec<String>)
        ensures
            strings_view(res@) == self.spec_argv(),
    {
        let mut argv: Vec<String> = Vec::new();
        argv.push(owned("nix"));
        let rest = assemble_args(self.kind, self.print_build_logs, &self.global_args, &self.args);
        extend_strings(&mut argv, &rest);
        assert(strings_view(argv@) =~= self.spec_argv());
        argv
    }

    /// The arguments handed to the `nix` program, without its own name.
    pub fn program_args(&self) -> (res: Vec<String>)
        ensures
            strings_view(res@) == assemble_spec(self.spec_kind(), self.spec_print_build_logs(), self.spec_global_args(), self.spec_args()),
    {
        assemble_args(self.kind, self.print_build_logs, &self.global_args, &self.args)
    }

    /// The kind of the command.
    pub fn kind(&self) -> (res: CommandKind)
        ensures
            res == self.spec_kind(),
    {
        self.kind
    }

    /// Whether the command runs interactively.
    pub fn is_interactive(&self) -> (res: bool)
        ensures
            res == self.spec_interactive(),
    {
        self.interactive
    }

    /// The variables added to the child's environment.
    pub fn env_pairs(&self) -> (res: &Vec<(String, String)>)
        ensures
            crate::command::pairs_view(res@) == self.spec_env(),
    {
        &self.env
    }

    /// The time limit, if one is set.
    pub fn timeout(&self) -> (res: Option<std::time::Duration>)
        ensures
            res == self.spec_timeout(),
    {
        self.timeout
    }

    /// The error a run that outlived its time limit reports: the command is
    /// named `nix <kind>`.
    pub fn timeout_error(&self, duration: std::time::Duration) -> (res: NixCmdError)
        ensures
            res matches NixCmdError::Timeout { command, duration: d } && command@ == "nix "@ + kind_word(self.spec_kind())
                && d == duration,
    {
        NixCmdError::Timeout { command: crate::text::concat_str("nix ", self.kind.as_str()), duration }
    }
}

} // verus!

verus! {

/// What a time limit reports when it runs out: the command and the limit.
pub struct TimeoutContext {
    pub command: String,
    pub duration: std::time::Duration,
}

impl TimeoutContext {
    /// The time-out error of the context.
    pub fn into_error(self) -> (res: NixCmdError)
        ensures
            res matches NixCmdError::Timeout { command, duration } && command@ == self.command@ && duration
                == self.duration,
    {
        NixCmdError::Timeout { command: self.command, duration: self.duration }
    }
}

impl NixCommand {
    /// The context of the command's time limit, if it has one: the command
    /// is named `nix <kind>`.
    pub fn timeout_context(&self) -> (res: Option<TimeoutContext>)
        ensures
            res is Some == self.spec_timeout() is Some,
            res matches Some(t) ==> t.command@ == "nix "@ + kind_word(self.spec_kind()) && Some(t.duration)
                == self.spec_timeout(),
    {
        match self.timeout {
            Some(duration) => Some(
                TimeoutContext { command: crate::text::concat_str("nix ", self.kind.as_str()), duration },
            ),
            None => None,
        }
    }
}

} // verus!
