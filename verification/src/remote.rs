//! Remote hosts: parsing host specifications, the SSH options and store
//! URIs derived from them, and the shell commands run over SSH.

use vstd::prelude::*;
use vstd::string::StrSliceExecFns;

use crate::elevation::{ElevationStrategy, StrategyView, resolve_strategy, str_result_view};
use crate::installable::{Installable, InstallableView};
use crate::nix_command::{CommandKind, NixCommand};
use crate::paths::{file_name_spec, path_join, path_join_spec};
use crate::runtime::{Env, shell_words_spec};
use crate::text::{
    chars_of, concat_str, count_char, count_char_spec, join_spec, join_strings, last_index_of, owned, rfind_char,
    str_eq, strings_view, strip_prefix_spec, string_from_chars, first_index_of,
};

verus! {

/// The store protocol a host is reached with in Nix store URIs.
#[derive(Clone, Copy, Debug, PartialEq, Eq, Structural)]
pub enum NixStoreScheme {
    Ssh,
    SshNg,
}

/// The scheme's name in a URI.
pub open spec fn scheme_word(s: NixStoreScheme) -> Seq<char> {
    match s {
        NixStoreScheme::Ssh => "ssh"@,
        NixStoreScheme::SshNg => "ssh-ng"@,
    }
}

impl NixStoreScheme {
    /// The scheme's name.
    pub fn as_str(self) -> (res: &'static str)
        ensures
            res@ == scheme_word(self),
    {
        match self {
            NixStoreScheme::Ssh => "ssh",
            NixStoreScheme::SshNg => "ssh-ng",
        }
    }
}

/// A parsed remote host: `host`, `user@host`, with an optional `ssh://` or
/// `ssh-ng://` scheme that is kept for store URIs.
#[derive(Debug, Clone)]
pub struct Host {
    host: String,
    store_scheme: NixStoreScheme,
}

/// Remote hosts as the copy and build code names them.
pub type RemoteHost = Host;

/// The part of a host string after its last `@`.
pub open spec fn hostname_spec(h: Seq<char>) -> Seq<char> {
    match last_index_of(h, '@') {
        Some(i) => h.skip(i + 1),
        None => h,
    }
}

/// The host string and scheme that a specification names: `ssh-ng://` and
/// `ssh://` prefixes are removed and remembered; bare hosts use `ssh-ng`.
pub open spec fn split_scheme(input: Seq<char>) -> (Seq<char>, NixStoreScheme) {
    match strip_prefix_spec(input, "ssh-ng://"@) {
        Some(h) => (h, NixStoreScheme::SshNg),
        None => match strip_prefix_spec(input, "ssh://"@) {
            Some(h) => (h, NixStoreScheme::Ssh),
            None => (input, NixStoreScheme::SshNg),
        },
    }
}

/// Why a host string is refused, if it is: empty host or user, a `/` in
/// the host name, or a `:` outside one bracketed IPv6 address.
pub open spec fn host_error(input: Seq<char>, host: Seq<char>) -> Option<Seq<char>> {
    let hp = hostname_spec(host);
    if host.len() == 0 {
        Some("Empty hostname in host specification"@)
    } else if host[0] == '@' {
        Some("Empty username in host specification: "@ + input)
    } else if host.last() == '@' {
        Some("Empty hostname in host specification: "@ + input)
    } else if hp.contains('/') {
        Some("Invalid hostname '"@ + hp + "': contains '/'. Did you mean to use a bare hostname?"@)
    } else if hp.contains(':') {
        if !(hp[0] == '[' && hp.contains(']')) {
            Some(
                "Invalid hostname '"@ + hp
                    + "': contains ':'. Ports should be specified via NIX_SSHOPTS=\"-p 2222\" or ~/.ssh/config"@,
            )
        } else if hp.last() != ']' {
            Some("Invalid IPv6 address '"@ + hp + "': contains characters after closing bracket"@)
        } else if count_char_spec(hp, '[') != 1 || count_char_spec(hp, ']') != 1 {
            Some("Invalid IPv6 address '"@ + hp + "': mismatched brackets"@)
        } else {
            None
        }
    } else {
        None
    }
}

/// The host a specification parses to, or the reason it is refused.
pub open spec fn parse_host_spec(input: Seq<char>) -> Result<(Seq<char>, NixStoreScheme), Seq<char>> {
    let (host, scheme) = split_scheme(input);
    match host_error(input, host) {
        Some(e) => Err(e),
        None => Ok((host, scheme)),
    }
}

/// The address inside the brackets of `[address]`.
pub open spec fn bracketed_inner(hp: Seq<char>) -> Option<Seq<char>> {
    if hp.len() >= 2 && hp[0] == '[' && hp.last() == ']' {
        Some(hp.subrange(1, hp.len() - 1))
    } else {
        None
    }
}

/// The address part of `inner`, before any `%` zone.
pub open spec fn address_part(inner: Seq<char>) -> Seq<char> {
    match first_index_of(inner, '%') {
        Some(i) => inner.take(i),
        None => inner,
    }
}

/// The host string SSH is given: a bracketed IPv6 address loses its
/// brackets (keeping the zone and the user); anything else is unchanged.
pub open spec fn ssh_host_spec(host: Seq<char>, address_is_ipv6: bool) -> Seq<char> {
    match bracketed_inner(hostname_spec(host)) {
        Some(inner) => if address_is_ipv6 {
            match first_index_of(host, '@') {
                Some(i) => host.take(i) + "@"@ + inner,
                None => inner,
            }
        } else {
            host
        },
        None => host,
    }
}

/// Joins three strings.
fn cat3(a: &str, b: &str, c: &str) -> (res: String)
    ensures
        res@ == a@ + b@ + c@,
{
    let mut r = concat_str(a, b);
    r.append(c);
    r
}

impl Host {
    pub closed spec fn spec_host(&self) -> Seq<char> {
        self.host@
    }

    pub closed spec fn spec_scheme(&self) -> NixStoreScheme {
        self.store_scheme
    }

    /// Parses a host specification: `hostname`, `user@hostname`, or either
    /// behind `ssh://` or `ssh-ng://`.
    pub fn parse(input: &str) -> (res: Result<Host, String>)
        ensures
            match parse_host_spec(input@) {
                Ok((h, s)) => res matches Ok(host) && host.spec_host() == h && host.spec_scheme() == s,
                Err(e) => res matches Err(m) && m@ == e,
            },
    {
        let cs = chars_of(input);
        let (host_cs, scheme) = match crate::text::strip_prefix_chars(&cs, "ssh-ng://") {
            Some(h) => (h, NixStoreScheme::SshNg),
            None => match crate::text::strip_prefix_chars(&cs, "ssh://") {
                Some(h) => (h, NixStoreScheme::Ssh),
                None => (chars_of(input), NixStoreScheme::SshNg),
            },
        };
        let host = string_from_chars(&host_cs);
        let ghost hv = host@;
        assert(split_scheme(input@) == (hv, scheme));
        if host_cs.len() == 0 {
            return Err(owned("Empty hostname in host specification"));
        }
        if host_cs[0] == '@' {
            return Err(concat_str("Empty username in host specification: ", input));
        }
        if host_cs[host_cs.len() - 1] == '@' {
            return Err(concat_str("Empty hostname in host specification: ", input));
        }
        let hp_str = hostname_of(host.as_str());
        let hp = chars_of(hp_str);
        if crate::text::contains_char(&hp, '/') {
            return Err(cat3("Invalid hostname '", hp_str, "': contains '/'. Did you mean to use a bare hostname?"));
        }
        if crate::text::contains_char(&hp, ':') {
            let bracketed = hp[0] == '[' && crate::text::contains_char(&hp, ']');
            if !bracketed {
                return Err(
                    cat3(
                        "Invalid hostname '",
                        hp_str,
                        "': contains ':'. Ports should be specified via NIX_SSHOPTS=\"-p 2222\" or ~/.ssh/config",
                    ),
                );
            }
            if hp[hp.len() - 1] != ']' {
                return Err(cat3("Invalid IPv6 address '", hp_str, "': contains characters after closing bracket"));
            }
            if count_char(&hp, '[') != 1 || count_char(&hp, ']') != 1 {
                return Err(cat3("Invalid IPv6 address '", hp_str, "': mismatched brackets"));
            }
        }
        Ok(Host { host, store_scheme: scheme })
    }

    /// A copy of the host.
    pub fn duplicate(&self) -> (res: Host)
        ensures
            res.spec_host() == self.spec_host(),
            res.spec_scheme() == self.spec_scheme(),
    {
        Host { host: self.host.clone(), store_scheme: self.store_scheme }
    }

    /// The host name without any `user@` prefix; a bracketed IPv6 address
    /// keeps its brackets.
    pub fn hostname(&self) -> (res: &str)
        ensures
            res@ == hostname_spec(self.spec_host()),
    {
        hostname_of(self.host.as_str())
    }

    /// The host string as written, without the scheme.
    pub fn to_string(&self) -> (res: String)
        ensures
            res@ == self.spec_host(),
    {
        self.host.clone()
    }

    /// The address SSH would be given for a bracketed IPv6 host: the text
    /// inside the brackets up to any `%` zone. `None` when the host name is
    /// not bracketed.
    pub fn ipv6_candidate(&self) -> (res: Option<String>)
        ensures
            match bracketed_inner(hostname_spec(self.spec_host())) {
                Some(inner) => res matches Some(a) && a@ == address_part(inner),
                None => res is None,
            },
    {
        let hp = chars_of(self.hostname());
        if hp.len() >= 2 && hp[0] == '[' && hp[hp.len() - 1] == ']' {
            let inner = crate::text::slice_chars(&hp, 1, hp.len() - 1);
            match crate::text::find_char(&inner, '%') {
                Some(i) => {
                    let part = crate::text::slice_chars(&inner, 0, i);
                    assert(part@ =~= inner@.take(i as int));
                    Some(string_from_chars(&part))
                },
                None => Some(string_from_chars(&inner)),
            }
        } else {
            None
        }
    }

    /// The host string for SSH. `address_is_ipv6` says whether the
    /// candidate address (see `ipv6_candidate`) is a valid IPv6 address;
    /// only then are the brackets removed.
    pub fn ssh_host(&self, address_is_ipv6: bool) -> (res: String)
        ensures
            res@ == ssh_host_spec(self.spec_host(), address_is_ipv6),
    {
        let hp = chars_of(self.hostname());
        if hp.len() >= 2 && hp[0] == '[' && hp[hp.len() - 1] == ']' && address_is_ipv6 {
            let inner = crate::text::slice_chars(&hp, 1, hp.len() - 1);
            let inner_s = string_from_chars(&inner);
            let hs = chars_of(self.host.as_str());
            match crate::text::find_char(&hs, '@') {
                Some(i) => {
                    let user = crate::text::slice_chars(&hs, 0, i);
                    assert(user@ =~= hs@.take(i as int));
                    let user_s = string_from_chars(&user);
                    cat3(user_s.as_str(), "@", inner_s.as_str())
                },
                None => inner_s,
            }
        } else {
            self.host.clone()
        }
    }

    /// The store URI Nix store commands use: `<scheme>://<host>`.
    pub fn nix_store_uri(&self) -> (res: String)
        ensures
            res@ == scheme_word(self.spec_scheme()) + "://"@ + self.spec_host(),
    {
        cat3(self.store_scheme.as_str(), "://", self.host.as_str())
    }
}

/// The part of `h` after its last `@`.
fn hostname_of(h: &str) -> (res: &str)
    ensures
        res@ == hostname_spec(h@),
{
    let cs = chars_of(h);
    proof {
        crate::text::lemma_last_index_of(h@, '@');
    }
    match rfind_char(&cs, '@') {
        Some(i) => {
            let n = h.unicode_len();
            let r = h.substring_char(i + 1, n);
            assert(r@ =~= h@.skip(i + 1));
            r
        },
        None => h,
    }
}


/// What `shlex::try_quote` returns for a word: the shell-quoted word.
pub uninterp spec fn shlex_quote_result(s: Seq<char>) -> Seq<char>;

/// Whether `c` may stand unquoted in a shell word, as `shlex` decides it.
pub open spec fn unquoted_ok(c: char) -> bool {
    ('a' <= c && c <= 'z') || ('A' <= c && c <= 'Z') || ('0' <= c && c <= '9') || c == '+' || c == '-' || c == '.'
        || c == '/' || c == ':' || c == '@' || c == ']' || c == '_'
}

/// Calls `shlex::try_quote`. As its source shows, it refuses exactly the
/// words holding a NUL character; it gives `''` for the empty word and a
/// word made only of unquoted-safe ASCII characters back unchanged.
#[verifier::external_body]
fn try_quote(word: &str) -> (res: Option<String>)
    ensures
        res is None <==> (word@.len() > 0 && word@.contains('\0')),
        res matches Some(q) ==> q@ == shlex_quote_result(word@),
        (res is Some && word@.len() == 0) ==> res->0@ == "''"@,
        (res is Some && word@.len() > 0 && forall|i: int| 0 <= i < word@.len() ==> unquoted_ok(#[trigger] word@[i]))
            ==> res->0@ == word@,
{
    shlex::try_quote(word).ok().map(|q| q.into_owned())
}

/// A word quoted for a remote shell: `shlex`'s quoting, or for a word
/// `shlex` refuses, the word in single quotes with each `'` written `'\''`.
pub open spec fn shell_quote_spec(word: Seq<char>) -> Seq<char> {
    if word.len() > 0 && word.contains('\0') {
        "'"@ + crate::text::replace_char_spec(word, '\'', "'\\''"@) + "'"@
    } else {
        shlex_quote_result(word)
    }
}

/// Quotes a word for a remote shell.
pub fn shell_quote(word: &str) -> (res: String)
    ensures
        res@ == shell_quote_spec(word@),
        word@.len() > 0 && (forall|i: int| 0 <= i < word@.len() ==> unquoted_ok(#[trigger] word@[i])) ==> res@ == word@,
{
    match try_quote(word) {
        Some(q) => q,
        None => {
            let body = crate::text::replace_char(word, '\'', "'\\''");
            cat3("'", body.as_str(), "'")
        },
    }
}

/// The words quoted and joined with spaces: the command line a remote
/// shell runs.
pub open spec fn remote_command_spec(args: Seq<Seq<char>>) -> Seq<char> {
    join_spec(args.map_values(|a: Seq<char>| shell_quote_spec(a)), " "@)
}

/// The words quoted and joined with spaces.
pub fn remote_command_line(args: &Vec<String>) -> (res: String)
    ensures
        res@ == remote_command_spec(strings_view(args@)),
{
    let mut quoted: Vec<String> = Vec::new();
    let mut i: usize = 0;
    while i < args.len()
        invariant
            i <= args.len(),
            strings_view(quoted@) == strings_view(args@).take(i as int).map_values(|a: Seq<char>| shell_quote_spec(a)),
        decreases args.len() - i,
    {
        let ghost prev = quoted@;
        let q = shell_quote(args[i].as_str());
        quoted.push(q);
        assert(strings_view(quoted@) =~= strings_view(prev).push(q@));
        assert(strings_view(args@).take(i + 1) =~= strings_view(args@).take(i as int).push(args@[i as int]@));
        assert(strings_view(args@).take(i + 1).map_values(|a: Seq<char>| shell_quote_spec(a)) =~= strings_view(
            args@,
        ).take(i as int).map_values(|a: Seq<char>| shell_quote_spec(a)).push(q@));
        i = i + 1;
    }
    assert(strings_view(args@).take(args.len() as int) =~= strings_view(args@));
    join_strings(&quoted, " ")
}

/// SSH and remote-execution settings derived from the startup environment.
pub struct SshConfig {
    user_opts: Vec<String>,
    cleanup_remote: bool,
    control_dir: String,
    agent_socket: Option<String>,
    nixos_no_check: Option<String>,
}

/// The name of the control-socket directory of process `pid`.
pub open spec fn control_dir_name(pid: u32) -> Seq<char> {
    "nh-ssh-"@ + crate::num::decimal(pid as nat)
}

/// The view of an optional string.
pub open spec fn opt_view(o: Option<String>) -> Option<Seq<char>> {
    match o {
        Some(s) => Some(s@),
        None => None,
    }
}

/// The control directory `nh-ssh-<pid>` under `base`.
fn control_dir_under(base: &str, pid: u32) -> (res: String)
    ensures
        res@ == path_join_spec(base@, control_dir_name(pid)),
{
    let name = concat_str("nh-ssh-", crate::num::u64_to_decimal(pid as u64).as_str());
    proof {
        reveal_strlit("nh-ssh-");
    }
    assert(name@.len() > 0 && name@[0] == 'n');
    path_join(base, name.as_str())
}

impl SshConfig {
    pub closed spec fn spec_user_opts(&self) -> Seq<Seq<char>> {
        strings_view(self.user_opts@)
    }

    pub closed spec fn spec_cleanup_remote(&self) -> bool {
        self.cleanup_remote
    }

    pub closed spec fn spec_control_dir(&self) -> Seq<char> {
        self.control_dir@
    }

    pub closed spec fn spec_agent_socket(&self) -> Option<Seq<char>> {
        opt_view(self.agent_socket)
    }

    pub closed spec fn spec_nixos_no_check(&self) -> Option<Seq<char>> {
        opt_view(self.nixos_no_check)
    }

    /// The settings with nothing configured, for process `pid`: no user
    /// options, cleanup on, control sockets under `/tmp`.
    pub fn for_process(pid: u32) -> (res: SshConfig)
        ensures
            res.spec_user_opts() == Seq::<Seq<char>>::empty(),
            res.spec_cleanup_remote(),
            res.spec_control_dir() == path_join_spec("/tmp"@, control_dir_name(pid)),
            res.spec_agent_socket() is None,
            res.spec_nixos_no_check() is None,
    {
        let res = SshConfig {
            user_opts: Vec::new(),
            cleanup_remote: true,
            control_dir: control_dir_under("/tmp", pid),
            agent_socket: None,
            nixos_no_check: None,
        };
        assert(res.spec_user_opts() =~= Seq::<Seq<char>>::empty());
        res
    }

    /// The settings `c` are what the snapshot `env` selects for process
    /// `pid` (see `from_env`).
    pub open spec fn from_env_spec(c: SshConfig, env: &Env, pid: u32) -> bool {
        &&& shell_words_spec(
            "NH_SSHOPTS"@,
            env.spec_var("NH_SSHOPTS"@),
            "NIX_SSHOPTS"@,
            env.spec_var("NIX_SSHOPTS"@),
        ) == Ok::<Seq<Seq<char>>, Seq<char>>(c.spec_user_opts())
        &&& c.spec_cleanup_remote() == crate::elevation::preserve_env_spec(env.spec_var("NH_REMOTE_CLEANUP"@))
        &&& c.spec_control_dir() == path_join_spec(
            match env.spec_var("XDG_RUNTIME_DIR"@) {
                Some(d) => d,
                None => "/tmp"@,
            },
            control_dir_name(pid),
        )
        &&& c.spec_agent_socket() == env.spec_var("SSH_AUTH_SOCK"@)
        &&& c.spec_nixos_no_check() == match env.spec_var("NIXOS_NO_CHECK"@) {
            Some(v) => if v.len() > 0 {
                Some(v)
            } else {
                None
            },
            None => None,
        }
    }

    /// The settings from a startup snapshot, for process `pid`:
    /// `NH_SSHOPTS` (or the legacy `NIX_SSHOPTS`) shell-split, cleanup
    /// unless `NH_REMOTE_CLEANUP` is `0`, control sockets under
    /// `XDG_RUNTIME_DIR` (else `/tmp`), the agent socket `SSH_AUTH_SOCK`,
    /// and `NIXOS_NO_CHECK` when not empty.
    pub fn from_env(env: &Env, pid: u32) -> (res: Result<SshConfig, String>)
        ensures
            match res {
                Ok(c) => SshConfig::from_env_spec(c, env, pid),
                Err(m) => shell_words_spec(
                    "NH_SSHOPTS"@,
                    env.spec_var("NH_SSHOPTS"@),
                    "NIX_SSHOPTS"@,
                    env.spec_var("NIX_SSHOPTS"@),
                ) == Err::<Seq<Seq<char>>, Seq<char>>(m@),
            },
    {
        let base = match env.var("XDG_RUNTIME_DIR") {
            Some(d) => d,
            None => "/tmp",
        };
        let control_dir = control_dir_under(base, pid);
        let user_opts = match env.shell_words("NH_SSHOPTS", "NIX_SSHOPTS") {
            Ok(v) => v,
            Err(e) => return Err(e),
        };
        let cleanup_remote = match env.var("NH_REMOTE_CLEANUP") {
            Some(v) => !str_eq(v, "0"),
            None => true,
        };
        let agent_socket = match env.var("SSH_AUTH_SOCK") {
            Some(v) => Some(owned(v)),
            None => None,
        };
        let nixos_no_check = match env.non_empty_var("NIXOS_NO_CHECK") {
            Some(v) => Some(owned(v)),
            None => None,
        };
        Ok(SshConfig { user_opts, cleanup_remote, control_dir, agent_socket, nixos_no_check })
    }

    /// Whether an SSH agent can be used: a socket is configured and
    /// `socket_exists` says it exists.
    pub fn has_usable_agent(&self, socket_exists: bool) -> (res: bool)
        ensures
            res == (self.spec_agent_socket() is Some && socket_exists),
    {
        self.agent_socket.is_some() && socket_exists
    }

    /// The user's SSH options.
    pub fn user_opts(&self) -> (res: &Vec<String>)
        ensures
            strings_view(res@) == self.spec_user_opts(),
    {
        &self.user_opts
    }

    /// Whether an interrupted remote build is cleaned up on the remote.
    pub fn cleanup_remote(&self) -> (res: bool)
        ensures
            res == self.spec_cleanup_remote(),
    {
        self.cleanup_remote
    }

    /// The directory of the SSH control sockets.
    pub fn control_dir(&self) -> (res: &str)
        ensures
            res@ == self.spec_control_dir(),
    {
        self.control_dir.as_str()
    }

    /// The SSH agent socket, if one is set.
    pub fn agent_socket(&self) -> (res: Option<&str>)
        ensures
            crate::runtime::opt_str_view(res) == self.spec_agent_socket(),
    {
        match &self.agent_socket {
            Some(s) => Some(s.as_str()),
            None => None,
        }
    }

    /// The value handed to remote activations as `NIXOS_NO_CHECK`.
    pub fn nixos_no_check(&self) -> (res: Option<&str>)
        ensures
            crate::runtime::opt_str_view(res) == self.spec_nixos_no_check(),
    {
        match &self.nixos_no_check {
            Some(s) => Some(s.as_str()),
            None => None,
        }
    }
}

/// The options that multiplex connections through our control sockets.
pub open spec fn default_ssh_opts_spec(control_dir: Seq<char>) -> Seq<Seq<char>> {
    seq![
        "-o"@,
        "ControlMaster=auto"@,
        "-o"@,
        "ControlPath="@ + path_join_spec(control_dir, "ssh-%n"@),
        "-o"@,
        "ControlPersist=60"@,
    ]
}

/// The options that multiplex connections through our control sockets.
fn get_default_ssh_opts(config: &SshConfig) -> (res: Vec<String>)
    ensures
        strings_view(res@) == default_ssh_opts_spec(config.spec_control_dir()),
{
    proof {
        reveal_strlit("ssh-%n");
    }
    let path = path_join(config.control_dir(), "ssh-%n");
    let mut v: Vec<String> = Vec::new();
    v.push(owned("-o"));
    v.push(owned("ControlMaster=auto"));
    v.push(owned("-o"));
    v.push(concat_str("ControlPath=", path.as_str()));
    v.push(owned("-o"));
    v.push(owned("ControlPersist=60"));
    assert(strings_view(v@) =~= default_ssh_opts_spec(config.spec_control_dir()));
    v
}

/// The SSH options: the user's, then the multiplexing defaults.
pub fn get_ssh_opts(config: &SshConfig) -> (res: Vec<String>)
    ensures
        strings_view(res@) == config.spec_user_opts() + default_ssh_opts_spec(config.spec_control_dir()),
{
    let mut opts = config.user_opts().clone();
    let defaults = get_default_ssh_opts(config);
    crate::nix_command::extend_strings(&mut opts, &defaults);
    opts
}

/// The SSH options as one string for `NIX_SSHOPTS`: the user's options and
/// the defaults, each joined with spaces.
pub open spec fn nix_sshopts_env_spec(user: Seq<Seq<char>>, control_dir: Seq<char>) -> Seq<char> {
    if user.len() == 0 {
        join_spec(default_ssh_opts_spec(control_dir), " "@)
    } else {
        join_spec(user, " "@) + " "@ + join_spec(default_ssh_opts_spec(control_dir), " "@)
    }
}

/// The SSH options as one string for `NIX_SSHOPTS`.
pub fn get_nix_sshopts_env(config: &SshConfig) -> (res: String)
    ensures
        res@ == nix_sshopts_env_spec(config.spec_user_opts(), config.spec_control_dir()),
{
    let defaults = join_strings(&get_default_ssh_opts(config), " ");
    if config.user_opts().len() == 0 {
        defaults
    } else {
        let user = join_strings(config.user_opts(), " ");
        cat3(user.as_str(), " ", defaults.as_str())
    }
}

/// Whether an interrupted remote build is cleaned up on the remote.
pub fn should_cleanup_remote(config: &SshConfig) -> (res: bool)
    ensures
        res == config.spec_cleanup_remote(),
{
    config.cleanup_remote()
}

/// The experimental features remote deployment always enables.
pub open spec fn flake_flags_spec() -> Seq<Seq<char>> {
    seq!["--extra-experimental-features"@, "nix-command flakes"@]
}

/// The experimental features remote deployment always enables.
pub fn get_flake_flags() -> (res: Vec<String>)
    ensures
        strings_view(res@) == flake_flags_spec(),
{
    let v: Vec<String> = vec![owned("--extra-experimental-features"), owned("nix-command flakes")];
    assert(strings_view(v@) =~= flake_flags_spec());
    v
}


/// `sudo <prefix> [<quoted options>] <command>`.
pub open spec fn remote_sudo_spec(prefix: Seq<char>, base_cmd: Seq<char>, opts: Seq<Seq<char>>) -> Seq<char> {
    let quoted = join_spec(opts.map_values(|o: Seq<char>| shell_quote_spec(o)), " "@);
    if quoted.len() == 0 {
        "sudo "@ + prefix + " "@ + base_cmd
    } else {
        "sudo "@ + prefix + " "@ + quoted + " "@ + base_cmd
    }
}

/// The remote command run through `sudo` with its options.
pub fn remote_sudo_command(prefix: &str, base_cmd: &str, sudo_opts: &Vec<String>) -> (res: String)
    ensures
        res@ == remote_sudo_spec(prefix@, base_cmd@, strings_view(sudo_opts@)),
{
    let quoted = remote_command_line(sudo_opts);
    let mut r = concat_str("sudo ", prefix);
    r.append(" ");
    if quoted.as_str().unicode_len() != 0 {
        r.append(quoted.as_str());
        r.append(" ");
    }
    r.append(base_cmd);
    r
}

/// The activation command: `NIXOS_INSTALL_BOOTLOADER=1` when installing
/// the bootloader, `NIXOS_NO_CHECK=<value>` when configured, then the
/// quoted `switch-to-configuration` path and the action.
pub open spec fn activation_command_spec(
    switch_to_config: Seq<char>,
    action: Seq<char>,
    install_bootloader: bool,
    no_check: Option<Seq<char>>,
) -> Seq<char> {
    join_spec(
        (if install_bootloader {
            seq!["NIXOS_INSTALL_BOOTLOADER=1"@]
        } else {
            Seq::empty()
        }) + (match no_check {
            Some(v) => seq!["NIXOS_NO_CHECK="@ + shell_quote_spec(v)],
            None => Seq::empty(),
        }) + seq![shell_quote_spec(switch_to_config) + " "@ + action],
        " "@,
    )
}

/// Joining a word in front of at least one more word puts the separator
/// between it and the join of the rest.
pub proof fn lemma_join_cons(x: Seq<char>, rest: Seq<Seq<char>>, sep: Seq<char>)
    requires
        rest.len() > 0,
    ensures
        join_spec(seq![x] + rest, sep) == x + sep + join_spec(rest, sep),
    decreases rest.len(),
{
    let all = seq![x] + rest;
    assert(all.len() == rest.len() + 1);
    assert(join_spec(all, sep) == join_spec(all.drop_last(), sep) + sep + all.last());
    if rest.len() == 1 {
        assert(all.drop_last() =~= seq![x]);
        assert(join_spec(seq![x], sep) == x);
        assert(all.last() == rest[0]);
        assert(join_spec(rest, sep) == rest[0]);
    } else {
        assert(all.drop_last() =~= seq![x] + rest.drop_last());
        assert(all.last() == rest.last());
        assert(join_spec(rest, sep) == join_spec(rest.drop_last(), sep) + sep + rest.last());
        lemma_join_cons(x, rest.drop_last(), sep);
        assert(x + sep + join_spec(rest.drop_last(), sep) + sep + rest.last() =~= x + sep + (join_spec(
            rest.drop_last(),
            sep,
        ) + sep + rest.last()));
    }
}

/// The remote activation command spelled out: asking for the bootloader
/// to be installed puts `NIXOS_INSTALL_BOOTLOADER=1 ` in front of the
/// command that does not, and nothing else changes; the command that does
/// not is the quoted `switch-to-configuration` path and the action, after
/// `NIXOS_NO_CHECK=<quoted value>` when that variable is to be passed on.
pub proof fn lemma_activation_command_shape(
    switch_to_config: Seq<char>,
    action: Seq<char>,
    no_check: Option<Seq<char>>,
)
    ensures
        activation_command_spec(switch_to_config, action, true, no_check) == "NIXOS_INSTALL_BOOTLOADER=1 "@
            + activation_command_spec(switch_to_config, action, false, no_check),
        activation_command_spec(switch_to_config, action, false, no_check) == match no_check {
            None => shell_quote_spec(switch_to_config) + " "@ + action,
            Some(v) => "NIXOS_NO_CHECK="@ + shell_quote_spec(v) + " "@ + shell_quote_spec(switch_to_config) + " "@
                + action,
        },
{
    reveal_strlit("NIXOS_INSTALL_BOOTLOADER=1");
    reveal_strlit("NIXOS_INSTALL_BOOTLOADER=1 ");
    reveal_strlit(" ");
    let last = shell_quote_spec(switch_to_config) + " "@ + action;
    let nc: Seq<Seq<char>> = match no_check {
        Some(v) => seq!["NIXOS_NO_CHECK="@ + shell_quote_spec(v)],
        None => Seq::empty(),
    };
    let rest = nc + seq![last];
    assert(Seq::<Seq<char>>::empty() + nc + seq![last] =~= rest);
    assert(seq!["NIXOS_INSTALL_BOOTLOADER=1"@] + nc + seq![last] =~= seq!["NIXOS_INSTALL_BOOTLOADER=1"@] + rest);
    lemma_join_cons("NIXOS_INSTALL_BOOTLOADER=1"@, rest, " "@);
    assert("NIXOS_INSTALL_BOOTLOADER=1"@ + " "@ + join_spec(rest, " "@) =~= "NIXOS_INSTALL_BOOTLOADER=1 "@ + join_spec(
        rest,
        " "@,
    ));
    match no_check {
        None => {
            assert(rest =~= seq![last]);
        },
        Some(v) => {
            let w = "NIXOS_NO_CHECK="@ + shell_quote_spec(v);
            assert(rest =~= seq![w] + seq![last]);
            lemma_join_cons(w, seq![last], " "@);
            assert(w + " "@ + last =~= "NIXOS_NO_CHECK="@ + shell_quote_spec(v) + " "@ + shell_quote_spec(switch_to_config)
                + " "@ + action);
        },
    }
}

/// Only a boot installs the bootloader: the boot activation of a system
/// asked to install it is the one that is not asked, with
/// `NIXOS_INSTALL_BOOTLOADER=1 ` in front, after the same profile step; a
/// test or a switch runs the same command whether asked or not.
pub proof fn lemma_bootloader_only_on_boot(
    activation: ActivationType,
    system_profile: Seq<char>,
    no_check: Option<Seq<char>>,
)
    ensures
        activation is Boot ==> {
            let with = activation_base_commands(activation, true, system_profile, no_check);
            let without = activation_base_commands(activation, false, system_profile, no_check);
            &&& with.len() == 2 && without.len() == 2
            &&& with[0] == without[0]
            &&& with[1] == "NIXOS_INSTALL_BOOTLOADER=1 "@ + without[1]
        },
        !(activation is Boot) ==> activation_base_commands(activation, true, system_profile, no_check)
            == activation_base_commands(activation, false, system_profile, no_check),
{
    let switch = path_join_spec(system_profile, "bin/switch-to-configuration"@);
    lemma_activation_command_shape(switch, "boot"@, no_check);
}

/// The activation command run on a remote NixOS host.
pub fn nixos_activation_command(
    switch_to_config: &str,
    action: &str,
    install_bootloader: bool,
    ssh_config: &SshConfig,
) -> (res: String)
    ensures
        res@ == activation_command_spec(switch_to_config@, action@, install_bootloader, ssh_config.spec_nixos_no_check()),
{
    let mut parts: Vec<String> = Vec::new();
    if install_bootloader {
        parts.push(owned("NIXOS_INSTALL_BOOTLOADER=1"));
    }
    match ssh_config.nixos_no_check() {
        Some(v) => {
            parts.push(concat_str("NIXOS_NO_CHECK=", shell_quote(v).as_str()));
        },
        None => {},
    }
    parts.push(cat3(shell_quote(switch_to_config).as_str(), " ", action));
    assert(strings_view(parts@) =~= (if install_bootloader {
        seq!["NIXOS_INSTALL_BOOTLOADER=1"@]
    } else {
        Seq::empty()
    }) + (match ssh_config.spec_nixos_no_check() {
        Some(v) => seq!["NIXOS_NO_CHECK="@ + shell_quote_spec(v)],
        None => Seq::empty(),
    }) + seq![shell_quote_spec(switch_to_config@) + " "@ + action@]);
    join_strings(&parts, " ")
}

/// The message when `doas` would need a password on the remote.
pub open spec fn doas_password_message() -> Seq<char> {
    "doas does not support stdin password input for remote deployment. Use --elevation-strategy=passwordless if remote has NOPASSWD configured."@
}

/// The message when `run0` would need a password on the remote.
pub open spec fn run0_password_message() -> Seq<char> {
    "run0 does not support stdin password input for remote deployment. Use --elevation-strategy=passwordless if authentication is not required."@
}

/// The message for `pkexec`, which cannot be used over SSH.
pub open spec fn pkexec_message() -> Seq<char> {
    "pkexec does not support non-interactive password input for remote deployment. pkexec requires a polkit agent which is not available over SSH."@
}

/// The command run on the remote when elevating through the program named
/// `name`: `sudo` reads a password from stdin unless passwordless, `doas`
/// and `run0` work only passwordless, anything else is refused.
pub open spec fn remote_elevated_spec(
    name: Seq<char>,
    passwordless: bool,
    base_cmd: Seq<char>,
    opts: Seq<Seq<char>>,
) -> Result<Seq<char>, Seq<char>> {
    if name == "sudo"@ {
        if passwordless {
            Ok(remote_sudo_spec("--non-interactive"@, base_cmd, opts))
        } else {
            Ok(remote_sudo_spec("--prompt= --stdin"@, base_cmd, opts))
        }
    } else if name == "doas"@ {
        if passwordless {
            Ok("doas -n "@ + base_cmd)
        } else {
            Err(doas_password_message())
        }
    } else if name == "run0"@ {
        if passwordless {
            Ok("run0 --no-ask-password "@ + base_cmd)
        } else {
            Err(run0_password_message())
        }
    } else if name == "pkexec"@ {
        Err(pkexec_message())
    } else if passwordless {
        Err(
            "Unknown elevation program '"@ + name
                + "' does not have known passwordless support. Only sudo, doas, and run0 are supported with --elevation-strategy=passwordless"@,
        )
    } else {
        Err(
            "Unknown elevation program '"@ + name
                + "' does not support stdin password input for remote deployment. Only sudo supports password input over SSH. Use --elevation-strategy=passwordless if remote has passwordless elevation configured, or use a known elevation program (sudo/doas/run0)."@,
        )
    }
}

/// The remote command through the elevation program at `program`.
pub open spec fn remote_command_for_spec(
    program: Seq<char>,
    passwordless: bool,
    base_cmd: Seq<char>,
    opts: Seq<Seq<char>>,
) -> Result<Seq<char>, Seq<char>> {
    match file_name_spec(program) {
        Some(name) => remote_elevated_spec(name, passwordless, base_cmd, opts),
        None => Err("Failed to determine elevation program name"@),
    }
}

/// The remote command through the elevation program at `program`; only the
/// program's file name is used, so the remote resolves it on its own `PATH`.
pub fn remote_command_for(program: &str, passwordless: bool, base_cmd: &str, sudo_opts: &Vec<String>) -> (res: Result<
    String,
    String,
>)
    ensures
        str_result_view(res) == remote_command_for_spec(program@, passwordless, base_cmd@, strings_view(sudo_opts@)),
{
    let name = match crate::paths::file_name(program) {
        Some(n) => n,
        None => return Err(owned("Failed to determine elevation program name")),
    };
    let n = name.as_str();
    if str_eq(n, "sudo") {
        if passwordless {
            Ok(remote_sudo_command("--non-interactive", base_cmd, sudo_opts))
        } else {
            Ok(remote_sudo_command("--prompt= --stdin", base_cmd, sudo_opts))
        }
    } else if str_eq(n, "doas") {
        if passwordless {
            Ok(concat_str("doas -n ", base_cmd))
        } else {
            Err(owned("doas does not support stdin password input for remote deployment. Use --elevation-strategy=passwordless if remote has NOPASSWD configured."))
        }
    } else if str_eq(n, "run0") {
        if passwordless {
            Ok(concat_str("run0 --no-ask-password ", base_cmd))
        } else {
            Err(owned("run0 does not support stdin password input for remote deployment. Use --elevation-strategy=passwordless if authentication is not required."))
        }
    } else if str_eq(n, "pkexec") {
        Err(owned("pkexec does not support non-interactive password input for remote deployment. pkexec requires a polkit agent which is not available over SSH."))
    } else if passwordless {
        Err(cat3(
            "Unknown elevation program '",
            n,
            "' does not have known passwordless support. Only sudo, doas, and run0 are supported with --elevation-strategy=passwordless",
        ))
    } else {
        Err(cat3(
            "Unknown elevation program '",
            n,
            "' does not support stdin password input for remote deployment. Only sudo supports password input over SSH. Use --elevation-strategy=passwordless if remote has passwordless elevation configured, or use a known elevation program (sudo/doas/run0).",
        ))
    }
}

/// What `sudo` gets between its own flag and the command on the remote:
/// the options, each shell-quoted, joined by spaces, and a space after them
/// when there are any.
pub open spec fn sudo_options_text(opts: Seq<Seq<char>>) -> Seq<char> {
    let quoted = join_spec(opts.map_values(|o: Seq<char>| shell_quote_spec(o)), " "@);
    if quoted.len() == 0 {
        Seq::empty()
    } else {
        quoted + " "@
    }
}

/// The remote command per strategy and elevation program: the base command
/// unchanged without elevation or under the `none` strategy; the search's
/// error when no program was found; through `sudo`,
/// `sudo --non-interactive` when passwordless and `sudo --prompt= --stdin`
/// (the password comes on stdin) otherwise, then the options; through
/// `doas -n` and `run0 --no-ask-password` only when passwordless; any other
/// program is refused.
pub proof fn lemma_remote_command_table(
    strategy: Option<StrategyView>,
    base_cmd: Seq<char>,
    opts: Seq<Seq<char>>,
    outcome: Result<Seq<char>, Seq<char>>,
)
    ensures
        (strategy is None || strategy == Some(StrategyView::Disabled)) ==> remote_build_spec(
            strategy,
            base_cmd,
            opts,
            outcome,
        ) == Ok::<Seq<char>, Seq<char>>(base_cmd),
        match strategy {
            None => true,
            Some(s) => !(s is Disabled) ==> {
            let r = remote_build_spec(strategy, base_cmd, opts, outcome);
            let pw = s is Passwordless;
            match outcome {
                Err(e) => r == Err::<Seq<char>, Seq<char>>(e),
                Ok(program) => match file_name_spec(program) {
                    None => r is Err,
                    Some(name) => {
                        &&& (name == "sudo"@ && pw) ==> r == Ok::<Seq<char>, Seq<char>>(
                            "sudo --non-interactive "@ + sudo_options_text(opts) + base_cmd,
                        )
                        &&& (name == "sudo"@ && !pw) ==> r == Ok::<Seq<char>, Seq<char>>(
                            "sudo --prompt= --stdin "@ + sudo_options_text(opts) + base_cmd,
                        )
                        &&& (name == "doas"@ && pw) ==> r == Ok::<Seq<char>, Seq<char>>("doas -n "@ + base_cmd)
                        &&& (name == "doas"@ && !pw) ==> r == Err::<Seq<char>, Seq<char>>(doas_password_message())
                        &&& (name == "run0"@ && pw) ==> r == Ok::<Seq<char>, Seq<char>>(
                            "run0 --no-ask-password "@ + base_cmd,
                        )
                        &&& (name == "run0"@ && !pw) ==> r == Err::<Seq<char>, Seq<char>>(run0_password_message())
                        &&& (name != "sudo"@ && name != "doas"@ && name != "run0"@) ==> r is Err
                    },
                },
            }
        },
        },
{
    reveal_strlit("sudo");
    reveal_strlit("doas");
    reveal_strlit("run0");
    reveal_strlit("sudo ");
    reveal_strlit(" ");
    assert("doas"@[0] != "sudo"@[0] && "run0"@[0] != "sudo"@[0] && "run0"@[0] != "doas"@[0]);
    reveal_strlit("--non-interactive");
    reveal_strlit("--prompt= --stdin");
    reveal_strlit("sudo --non-interactive ");
    reveal_strlit("sudo --prompt= --stdin ");
    let quoted = join_spec(opts.map_values(|o: Seq<char>| shell_quote_spec(o)), " "@);
    let t = sudo_options_text(opts);
    if quoted.len() == 0 {
        assert(t =~= Seq::<char>::empty());
        assert(remote_sudo_spec("--non-interactive"@, base_cmd, opts) =~= "sudo --non-interactive "@ + t + base_cmd);
        assert(remote_sudo_spec("--prompt= --stdin"@, base_cmd, opts) =~= "sudo --prompt= --stdin "@ + t + base_cmd);
    } else {
        assert(t =~= quoted + " "@);
        assert(remote_sudo_spec("--non-interactive"@, base_cmd, opts) =~= "sudo --non-interactive "@ + t + base_cmd);
        assert(remote_sudo_spec("--prompt= --stdin"@, base_cmd, opts) =~= "sudo --prompt= --stdin "@ + t + base_cmd);
    }
}

/// The remote command for base command `base_cmd` under `strategy`, given
/// the outcome of resolving the strategy to a local program: unchanged
/// without elevation or with the `none` strategy; otherwise the resolution
/// error, or the command through the resolved program as
/// `remote_command_for_spec` spells it.
pub open spec fn remote_build_spec(
    strategy: Option<StrategyView>,
    base_cmd: Seq<char>,
    opts: Seq<Seq<char>>,
    outcome: Result<Seq<char>, Seq<char>>,
) -> Result<Seq<char>, Seq<char>> {
    match strategy {
        None => Ok(base_cmd),
        Some(StrategyView::Disabled) => Ok(base_cmd),
        Some(s) => match outcome {
            Err(e) => Err(e),
            Ok(program) => remote_command_for_spec(program, s is Passwordless, base_cmd, opts),
        },
    }
}

/// `res` is what `build_remote_command` gives for `base_cmd` under
/// `strategy` for some outcome of the strategy's program search (see
/// `searched_outcome`); which program the search finds depends on the file
/// system.
pub open spec fn remote_build_result(
    strategy: Option<StrategyView>,
    base_cmd: Seq<char>,
    opts: Seq<Seq<char>>,
    res: Result<Seq<char>, Seq<char>>,
) -> bool {
    exists|outcome: Result<Seq<char>, Seq<char>>|
        #![trigger remote_build_spec(strategy, base_cmd, opts, outcome)]
        (match strategy {
            None => true,
            Some(s) => crate::elevation::searched_outcome(s, outcome),
        }) && res == remote_build_spec(strategy, base_cmd, opts, outcome)
}

/// Builds the command run on the remote: unchanged without elevation or
/// with the `none` strategy; otherwise through the program the strategy
/// resolves to locally (see `resolve_strategy`), as `remote_command_for`
/// spells it.
pub fn build_remote_command(
    strategy: Option<&ElevationStrategy>,
    base_cmd: &str,
    env: &Env,
    sudo_opts: &Vec<String>,
) -> (res: Result<String, String>)
    ensures
        match strategy {
            None => res matches Ok(c) && c@ == base_cmd@,
            Some(s) => match s@ {
                StrategyView::Disabled => res matches Ok(c) && c@ == base_cmd@,
                _ => true,
            },
        },
        remote_build_result(
            match strategy {
                Some(s) => Some(s@),
                None => None,
            },
            base_cmd@,
            strings_view(sudo_opts@),
            str_result_view(res),
        ),
{
    let ghost sv: Option<StrategyView> = match strategy {
        Some(s) => Some(s@),
        None => None,
    };
    let ghost opts = strings_view(sudo_opts@);
    match strategy {
        None => {
            let r = owned(base_cmd);
            assert(remote_build_spec(sv, base_cmd@, opts, Ok::<Seq<char>, Seq<char>>(base_cmd@)) == str_result_view(Ok::<String, String>(r)));
            Ok(r)
        },
        Some(s) => match s {
            ElevationStrategy::Disabled => {
                let r = owned(base_cmd);
                let ghost o = Err::<Seq<char>, Seq<char>>(crate::elevation::disabled_message());
                assert(crate::elevation::resolve_spec(s@, None, Seq::empty()) == o);
                assert(crate::elevation::searched_outcome(s@, o));
                assert(remote_build_spec(sv, base_cmd@, opts, o) == str_result_view(Ok::<String, String>(r)));
                Ok(r)
            },
            _ => {
                let found = resolve_strategy(s, env);
                let ghost o = str_result_view(found);
                let program = match found {
                    Ok(p) => p,
                    Err(e) => {
                        assert(remote_build_spec(sv, base_cmd@, opts, o) == str_result_view(Err::<String, String>(e)));
                        return Err(e);
                    },
                };
                let passwordless = match s {
                    ElevationStrategy::Passwordless => true,
                    _ => false,
                };
                let r = remote_command_for(program.as_str(), passwordless, base_cmd, sudo_opts);
                assert(remote_build_spec(sv, base_cmd@, opts, o) == str_result_view(r));
                r
            },
        },
    }
}

/// The kind of activation to run on a remote system.
#[derive(Debug, Clone, Copy, PartialEq, Eq, Structural)]
pub enum ActivationType {
    Test,
    Switch,
    Boot,
}

/// The action word of an activation.
pub open spec fn activation_word(a: ActivationType) -> Seq<char> {
    match a {
        ActivationType::Test => "test"@,
        ActivationType::Switch => "switch"@,
        ActivationType::Boot => "boot"@,
    }
}

impl ActivationType {
    /// The action word the activation script takes.
    pub fn as_str(self) -> (res: &'static str)
        ensures
            res@ == activation_word(self),
    {
        match self {
            ActivationType::Test => "test",
            ActivationType::Switch => "switch",
            ActivationType::Boot => "boot",
        }
    }
}

/// The target platform of a remote operation.
#[derive(Debug, Clone, Copy, PartialEq, Eq, Structural)]
pub enum Platform {
    NixOS,
}

/// What a remote activation does.
pub struct ActivateRemoteConfig {
    pub platform: Platform,
    pub activation_type: ActivationType,
    pub install_bootloader: bool,
    pub show_logs: bool,
    pub elevation: Option<ElevationStrategy>,
}

/// Whether a remote activation must send a password: elevation through a
/// program that is neither disabled nor passwordless.
pub open spec fn needs_password_spec(elevation: Option<StrategyView>) -> bool {
    match elevation {
        Some(StrategyView::Disabled) | Some(StrategyView::Passwordless) | None => false,
        _ => true,
    }
}

/// The opt-in view of an optional strategy.
pub open spec fn opt_strategy_view(o: Option<ElevationStrategy>) -> Option<StrategyView> {
    match o {
        Some(s) => Some(s@),
        None => None,
    }
}

impl ActivateRemoteConfig {
    /// Whether the activation needs the remote elevation password.
    pub fn needs_password(&self) -> (res: bool)
        ensures
            res == needs_password_spec(opt_strategy_view(self.elevation)),
    {
        match &self.elevation {
            None => false,
            Some(ElevationStrategy::Disabled) => false,
            Some(ElevationStrategy::Passwordless) => false,
            Some(_) => true,
        }
    }
}

/// The system profile of NixOS.
pub open spec fn nixos_system_profile() -> Seq<char> {
    "/nix/var/nix/profiles/system"@
}

/// One command to run over SSH: the arguments of `ssh`, the remote
/// command among them, what goes to the command's standard input, and the
/// message that reports its failure.
pub struct RemoteStep {
    pub argv: Vec<String>,
    pub command: String,
    pub stdin: Option<String>,
    pub failure: String,
}

/// The arguments of `ssh` that run `command` on `ssh_host`: the configured
/// options, `-T` (no terminal, so that standard input reaches the
/// command), the host, then the command.
pub open spec fn ssh_step_argv(ssh_config: SshConfig, ssh_host: Seq<char>, command: Seq<char>) -> Seq<Seq<char>> {
    ssh_config.spec_user_opts() + default_ssh_opts_spec(ssh_config.spec_control_dir()) + seq!["-T"@, ssh_host, command]
}

/// The standard input of a remote step: the elevation password and a
/// newline, when one is sent.
pub open spec fn password_stdin(password: Option<Seq<char>>) -> Option<Seq<char>> {
    match password {
        Some(p) => Some(p + "\n"@),
        None => None,
    }
}

/// A step running `command` on `ssh_host`; the password, if any, goes only
/// to the standard input.
fn remote_step(ssh_config: &SshConfig, ssh_host: &str, command: String, password: Option<&str>, failure: String) -> (res:
    RemoteStep)
    ensures
        strings_view(res.argv@) == ssh_step_argv(*ssh_config, ssh_host@, command@),
        res.command@ == command@,
        opt_view(res.stdin) == password_stdin(crate::runtime::opt_str_view(password)),
        res.failure@ == failure@,
{
    let mut argv = get_ssh_opts(ssh_config);
    let ghost opts = strings_view(argv@);
    argv.push(owned("-T"));
    argv.push(owned(ssh_host));
    argv.push(command.clone());
    proof {
        reveal_strlit("-T");
    }
    assert(strings_view(argv@) =~= opts + seq!["-T"@, ssh_host@, command@]);
    let stdin = match password {
        Some(p) => Some(concat_str(p, "\n")),
        None => None,
    };
    RemoteStep { argv, command, stdin, failure }
}

/// The commands, before elevation, that activate `system_profile`: for a
/// test or switch, the activation itself; for a boot, setting the system
/// profile and then the boot activation.
pub open spec fn activation_base_commands(
    activation: ActivationType,
    install_bootloader: bool,
    system_profile: Seq<char>,
    no_check: Option<Seq<char>>,
) -> Seq<Seq<char>> {
    let switch = path_join_spec(system_profile, "bin/switch-to-configuration"@);
    match activation {
        ActivationType::Boot => seq![
            "nix build --no-link --profile "@ + nixos_system_profile() + " "@ + shell_quote_spec(system_profile),
            activation_command_spec(switch, "boot"@, install_bootloader, no_check),
        ],
        _ => seq![activation_command_spec(switch, activation_word(activation), false, no_check)],
    }
}

/// The message reporting that step `i` of an activation failed on `host`.
pub open spec fn activation_failure_spec(activation: ActivationType, i: int, host: Seq<char>) -> Seq<char> {
    match activation {
        ActivationType::Boot => if i == 0 {
            "Failed to set system profile on '"@ + host + "'"@
        } else {
            "Bootloader activation failed on '"@ + host + "'"@
        },
        _ => "Activation ("@ + activation_word(activation) + ") failed on '"@ + host + "'"@,
    }
}

/// The commands that activate `system_profile` on a remote host, each
/// wrapped in the configured elevation (see `build_remote_command`), with
/// their failure messages; the first elevation error is returned instead.
/// Each step runs over `ssh` to the host (`address_is_ipv6` says whether
/// its bracketed address is an IPv6 one, see `Host::ssh_host`); the
/// elevation password, when given, is sent to every step's standard input
/// followed by a newline, and the `ssh` arguments are built without it.
pub fn activation_steps(
    host: &Host,
    system_profile: &str,
    config: &ActivateRemoteConfig,
    env: &Env,
    ssh_config: &SshConfig,
    sudo_opts: &Vec<String>,
    address_is_ipv6: bool,
    password: Option<&str>,
) -> (res: Result<Vec<RemoteStep>, String>)
    ensures
        ({
            let bases = activation_base_commands(
                config.activation_type,
                config.install_bootloader,
                system_profile@,
                ssh_config.spec_nixos_no_check(),
            );
            let strategy = opt_strategy_view(config.elevation);
            let opts = strings_view(sudo_opts@);
            match res {
                Ok(steps) => {
                    &&& steps@.len() == bases.len()
                    &&& forall|i: int|
                        0 <= i < steps@.len() ==> remote_build_result(
                            strategy,
                            bases[i],
                            opts,
                            Ok::<Seq<char>, Seq<char>>((#[trigger] steps@[i]).command@),
                        ) && steps@[i].failure@ == activation_failure_spec(config.activation_type, i, host.spec_host())
                            && strings_view(steps@[i].argv@) == ssh_step_argv(
                            *ssh_config,
                            ssh_host_spec(host.spec_host(), address_is_ipv6),
                            steps@[i].command@,
                        ) && opt_view(steps@[i].stdin) == password_stdin(crate::runtime::opt_str_view(password))
                },
                Err(e) => remote_build_result(strategy, bases[0], opts, Err::<Seq<char>, Seq<char>>(e@)) || (bases.len()
                    == 2 && remote_build_result(strategy, bases[1], opts, Err::<Seq<char>, Seq<char>>(e@))),
            }
        }),
        (config.elevation is None || opt_strategy_view(config.elevation) == Some(StrategyView::Disabled)) ==> res is Ok,
        res matches Ok(steps) ==> (config.elevation is None || opt_strategy_view(config.elevation) == Some(
            StrategyView::Disabled,
        )) ==> forall|i: int| 0 <= i < steps@.len() ==> (#[trigger] steps@[i]).command@ == activation_base_commands(
            config.activation_type,
            config.install_bootloader,
            system_profile@,
            ssh_config.spec_nixos_no_check(),
        )[i],
{
    proof {
        reveal_strlit("bin/switch-to-configuration");
    }
    let ghost bases = activation_base_commands(
        config.activation_type,
        config.install_bootloader,
        system_profile@,
        ssh_config.spec_nixos_no_check(),
    );
    let ghost strategy = opt_strategy_view(config.elevation);
    let ghost opts = strings_view(sudo_opts@);
    let switch = path_join(system_profile, "bin/switch-to-configuration");
    let elevation = match &config.elevation {
        Some(s) => Some(s),
        None => None,
    };
    assert((match elevation {
        Some(s) => Some(s@),
        None => None,
    }) == strategy);
    let mut steps: Vec<RemoteStep> = Vec::new();
    let host_text = host.to_string();
    let ssh_host = host.ssh_host(address_is_ipv6);
    match config.activation_type {
        ActivationType::Boot => {
            let mut base = concat_str("nix build --no-link --profile /nix/var/nix/profiles/system ", shell_quote(system_profile).as_str());
            proof {
                reveal_strlit("nix build --no-link --profile /nix/var/nix/profiles/system ");
                reveal_strlit("nix build --no-link --profile ");
                reveal_strlit("/nix/var/nix/profiles/system");
                reveal_strlit(" ");
            }
            assert(base@ =~= "nix build --no-link --profile "@ + nixos_system_profile() + " "@ + shell_quote_spec(system_profile@));
            assert(base@ == bases[0]);
            let profile_cmd = match build_remote_command(elevation, base.as_str(), env, sudo_opts) {
                Ok(c) => c,
                Err(e) => {
                    assert(remote_build_result(strategy, bases[0], opts, Err::<Seq<char>, Seq<char>>(e@)));
                    assert(!(strategy is None || strategy == Some(StrategyView::Disabled)));
                    return Err(e);
                },
            };
            let f0 = cat3("Failed to set system profile on '", host_text.as_str(), "'");
            steps.push(remote_step(ssh_config, ssh_host.as_str(), profile_cmd, password, f0));
            let boot = nixos_activation_command(switch.as_str(), "boot", config.install_bootloader, ssh_config);
            assert(boot@ == bases[1]);
            let boot_cmd = match build_remote_command(elevation, boot.as_str(), env, sudo_opts) {
                Ok(c) => c,
                Err(e) => {
                    assert(remote_build_result(strategy, bases[1], opts, Err::<Seq<char>, Seq<char>>(e@)));
                    assert(0 <= 1 < bases.len());
                    assert(exists|i: int| 0 <= i < bases.len() && #[trigger] remote_build_result(strategy, bases[i], opts, Err::<Seq<char>, Seq<char>>(e@)));
                    return Err(e);
                },
            };
            let f1 = cat3("Bootloader activation failed on '", host_text.as_str(), "'");
            steps.push(remote_step(ssh_config, ssh_host.as_str(), boot_cmd, password, f1));
            assert(steps@.len() == 2);
            assert(steps@[0].failure@ == activation_failure_spec(config.activation_type, 0, host.spec_host()));
            assert(steps@[1].failure@ == activation_failure_spec(config.activation_type, 1, host.spec_host()));
            assert(remote_build_result(strategy, bases[0], opts, Ok::<Seq<char>, Seq<char>>(steps@[0].command@)));
            assert(remote_build_result(strategy, bases[1], opts, Ok::<Seq<char>, Seq<char>>(steps@[1].command@)));
        },
        _ => {
            let action = config.activation_type.as_str();
            let base = nixos_activation_command(switch.as_str(), action, false, ssh_config);
            assert(base@ == bases[0]);
            let cmd = match build_remote_command(elevation, base.as_str(), env, sudo_opts) {
                Ok(c) => c,
                Err(e) => {
                    assert(remote_build_result(strategy, bases[0], opts, Err::<Seq<char>, Seq<char>>(e@)));
                    assert(!(strategy is None || strategy == Some(StrategyView::Disabled)));
                    return Err(e);
                },
            };
            let mut failure = concat_str("Activation (", action);
            failure.append(") failed on '");
            failure.append(host_text.as_str());
            failure.append("'");
            steps.push(remote_step(ssh_config, ssh_host.as_str(), cmd, password, failure));
            assert(steps@.len() == 1);
            assert(steps@[0].failure@ == activation_failure_spec(config.activation_type, 0, host.spec_host()));
            assert(remote_build_result(strategy, bases[0], opts, Ok::<Seq<char>, Seq<char>>(steps@[0].command@)));
        },
    }
    Ok(steps)
}

/// The installable whose evaluation gives the derivation path: the same
/// installable with `drvPath` appended to its attribute path. Store paths
/// are already built and are refused.
pub open spec fn drv_installable_spec(i: InstallableView) -> Result<InstallableView, Seq<char>> {
    match i {
        InstallableView::Flake { reference, attribute } => Ok(
            InstallableView::Flake { reference, attribute: attribute.push("drvPath"@) },
        ),
        InstallableView::File { path, attribute } => Ok(InstallableView::File { path, attribute: attribute.push("drvPath"@) }),
        InstallableView::Expression { expression, attribute } => Ok(
            InstallableView::Expression { expression, attribute: attribute.push("drvPath"@) },
        ),
        InstallableView::Store { path } => Err(
            "Cannot perform remote build with store path '"@ + path + "'. Store paths are already built."@,
        ),
    }
}

/// Appends `drvPath` to an attribute path.
fn with_drv_path(attribute: &Vec<String>) -> (res: Vec<String>)
    ensures
        crate::attr::segments_of(res@) == crate::attr::segments_of(attribute@).push("drvPath"@),
{
    let mut v = attribute.clone();
    assert(v@ == attribute@);
    v.push(owned("drvPath"));
    assert(crate::attr::segments_of(v@) =~= crate::attr::segments_of(attribute@).push("drvPath"@));
    v
}

/// The installable whose evaluation gives the derivation path of
/// `installable`.
pub fn drv_installable(installable: &Installable) -> (res: Result<Installable, String>)
    ensures
        crate::installable::installable_result_view(res) == drv_installable_spec(installable@),
{
    match installable {
        Installable::Flake { reference, attribute } => Ok(
            Installable::Flake { reference: reference.clone(), attribute: with_drv_path(attribute) },
        ),
        Installable::File { path, attribute } => Ok(Installable::File { path: path.clone(), attribute: with_drv_path(attribute) }),
        Installable::Expression { expression, attribute } => Ok(
            Installable::Expression { expression: expression.clone(), attribute: with_drv_path(attribute) },
        ),
        Installable::Store { path } => Err(
            cat3("Cannot perform remote build with store path '", path.as_str(), "'. Store paths are already built."),
        ),
    }
}

/// The evaluation that yields the derivation path of `installable`:
/// `nix <flake flags> eval --raw <args of the drvPath installable>`.
pub fn eval_drv_path_command(installable: &Installable) -> (res: Result<NixCommand, String>)
    ensures
        match drv_installable_spec(installable@) {
            Ok(i) => res matches Ok(c) && c.spec_kind() == CommandKind::Eval && c.spec_global_args() == flake_flags_spec()
                && c.spec_args() == seq!["--raw"@] + crate::installable::installable_args_spec(i),
            Err(e) => res matches Err(m) && m@ == e,
        },
{
    let drv = match drv_installable(installable) {
        Ok(d) => d,
        Err(e) => return Err(e),
    };
    let args = drv.to_args();
    let cmd = NixCommand::new(CommandKind::Eval).global_args(&get_flake_flags()).arg("--raw").args(&args);
    assert(cmd.spec_args() =~= seq!["--raw"@] + strings_view(args@));
    Ok(cmd)
}


/// What a remote build does.
pub struct BuildConfig {
    pub build_host: Host,
    pub target_host: Option<Host>,
    pub use_nom: bool,
    pub use_substitutes: bool,
    pub extra_args: Vec<String>,
}

/// Where the result of a remote build goes after the build.
#[derive(Debug, Clone, Copy, PartialEq, Eq, Structural)]
pub enum Delivery {
    /// No target host: the result is copied to this machine.
    ToLocal,
    /// The target is the build host: the result stays there.
    StaysOnTarget,
    /// Another target: the result is copied from the build host to it.
    BetweenHosts,
}

/// Where the result goes, comparing host names without users.
pub open spec fn delivery_spec(build_host: Seq<char>, target_host: Option<Seq<char>>) -> Delivery {
    match target_host {
        None => Delivery::ToLocal,
        Some(t) => if hostname_spec(t) == hostname_spec(build_host) {
            Delivery::StaysOnTarget
        } else {
            Delivery::BetweenHosts
        },
    }
}

impl BuildConfig {
    /// Where the result of the build goes.
    pub fn delivery(&self) -> (res: Delivery)
        ensures
            res == delivery_spec(
                self.build_host.spec_host(),
                match self.target_host {
                    Some(t) => Some(t.spec_host()),
                    None => None,
                },
            ),
    {
        match &self.target_host {
            None => Delivery::ToLocal,
            Some(t) => if str_eq(t.hostname(), self.build_host.hostname()) {
                Delivery::StaysOnTarget
            } else {
                Delivery::BetweenHosts
            },
        }
    }
}

/// Whether the result must be copied to this machine: always without a
/// target, never when it stays on the build host, and for another target
/// when the direct copy failed or a local out-link is wanted.
pub open spec fn need_local_copy_spec(delivery: Delivery, direct_copy_succeeded: bool, out_link_requested: bool) -> bool {
    match delivery {
        Delivery::ToLocal => true,
        Delivery::StaysOnTarget => false,
        Delivery::BetweenHosts => !direct_copy_succeeded || out_link_requested,
    }
}

/// Whether the result must be copied to this machine.
pub fn need_local_copy(delivery: Delivery, direct_copy_succeeded: bool, out_link_requested: bool) -> (res: bool)
    ensures
        res == need_local_copy_spec(delivery, direct_copy_succeeded, out_link_requested),
{
    match delivery {
        Delivery::ToLocal => true,
        Delivery::StaysOnTarget => false,
        Delivery::BetweenHosts => if direct_copy_succeeded {
            out_link_requested
        } else {
            true
        },
    }
}

/// The derivation with all its outputs: `<drv>^*`.
pub fn drv_with_outputs(drv_path: &str) -> (res: String)
    ensures
        res@ == drv_path@ + "^*"@,
{
    concat_str(drv_path, "^*")
}

/// `nix <flake flags> build <drv> <flags> <extra>`, without build logs.
pub open spec fn remote_build_argv_spec(drv: Seq<char>, flags: Seq<Seq<char>>, extra: Seq<Seq<char>>) -> Seq<Seq<char>> {
    seq!["nix"@] + flake_flags_spec() + seq!["build"@, drv] + flags + extra
}

/// The argument vector of a build run on the remote.
pub fn remote_build_argv(drv: &str, flags: &Vec<String>, extra_args: &Vec<String>) -> (res: Vec<String>)
    ensures
        strings_view(res@) == remote_build_argv_spec(drv@, strings_view(flags@), strings_view(extra_args@)),
{
    let cmd = NixCommand::new(CommandKind::Build).print_build_logs(false).global_args(&get_flake_flags()).arg(drv).args(
        flags,
    ).args(extra_args);
    let argv = cmd.argv();
    proof {
        reveal_strlit("build");
    }
    assert(strings_view(argv@) =~= remote_build_argv_spec(drv@, strings_view(flags@), strings_view(extra_args@)));
    argv
}

/// The shell command of a plain remote build that prints the output paths.
pub fn simple_build_command(drv: &str, extra_args: &Vec<String>) -> (res: String)
    ensures
        res@ == remote_command_spec(remote_build_argv_spec(drv@, seq!["--print-out-paths"@], strings_view(extra_args@))),
{
    let flags: Vec<String> = vec![owned("--print-out-paths")];
    assert(strings_view(flags@) =~= seq!["--print-out-paths"@]);
    remote_command_line(&remote_build_argv(drv, &flags, extra_args))
}

/// The shell command of a remote build whose log goes to
/// nix-output-monitor as internal JSON.
pub fn nom_build_command(drv: &str, extra_args: &Vec<String>) -> (res: String)
    ensures
        res@ == remote_command_spec(
            remote_build_argv_spec(drv@, seq!["--log-format"@, "internal-json"@, "--verbose"@], strings_view(extra_args@)),
        ),
{
    let flags: Vec<String> = vec![owned("--log-format"), owned("internal-json"), owned("--verbose")];
    assert(strings_view(flags@) =~= seq!["--log-format"@, "internal-json"@, "--verbose"@]);
    remote_command_line(&remote_build_argv(drv, &flags, extra_args))
}

/// The first line of `output`, trimmed, if there is one.
pub open spec fn first_line_spec(output: Seq<char>) -> Option<Seq<char>> {
    let lines = crate::text::lines_spec(output);
    if lines.len() > 0 {
        Some(crate::text::trim_spec(lines[0]))
    } else {
        None
    }
}

/// The first line of `output`, trimmed: the output path a build printed.
pub fn first_output_line(output: &str) -> (res: Option<String>)
    ensures
        opt_view(res) == first_line_spec(output@),
{
    let lines = crate::text::split_lines(output);
    if lines.len() == 0 {
        return None;
    }
    assert(lines@[0]@ == crate::text::lines_spec(output@)[0]);
    let line = string_from_chars(&lines[0]);
    Some(crate::text::trim(line.as_str()))
}

/// Where `nix copy` copies a closure.
pub enum CopyDirection<'a> {
    FromRemote(&'a Host),
    ToRemote { host: &'a Host, use_substitutes: bool },
    BetweenRemotes { from_host: &'a Host, to_host: &'a Host, use_substitutes: bool },
}

/// The store URI of a host.
pub open spec fn store_uri_spec(host: &Host) -> Seq<char> {
    scheme_word(host.spec_scheme()) + "://"@ + host.spec_host()
}

/// The store URI of a host.
pub fn store_uri(host: &Host) -> (res: String)
    ensures
        res@ == store_uri_spec(host),
{
    host.nix_store_uri()
}

/// `--substitute-on-destination` when substitutes may be used.
pub open spec fn substitute_flag(use_substitutes: bool) -> Seq<Seq<char>> {
    if use_substitutes {
        seq!["--substitute-on-destination"@]
    } else {
        Seq::empty()
    }
}

/// Appends `--substitute-on-destination` when substitutes may be used.
pub fn push_substitute_on_destination(args: &mut Vec<String>, use_substitutes: bool)
    ensures
        strings_view(final(args)@) == strings_view(old(args)@) + substitute_flag(use_substitutes),
{
    let ghost prev = strings_view(args@);
    if use_substitutes {
        args.push(owned("--substitute-on-destination"));
    }
    assert(strings_view(args@) =~= prev + substitute_flag(use_substitutes));
}

/// The `nix copy` arguments of a direction.
pub open spec fn copy_args_spec(direction: CopyDirection) -> Seq<Seq<char>> {
    match direction {
        CopyDirection::FromRemote(host) => seq!["--no-check-sigs"@, "--from"@, store_uri_spec(host)],
        CopyDirection::ToRemote { host, use_substitutes } => seq!["--no-check-sigs"@, "--to"@, store_uri_spec(host)]
            + substitute_flag(use_substitutes),
        CopyDirection::BetweenRemotes { from_host, to_host, use_substitutes } => seq![
            "--no-check-sigs"@,
            "--from"@,
            store_uri_spec(from_host),
            "--to"@,
            store_uri_spec(to_host),
        ] + substitute_flag(use_substitutes),
    }
}

impl<'a> CopyDirection<'a> {
    /// The `nix copy` arguments: the source and destination store URIs;
    /// substitution on the destination only when copying to a remote.
    pub fn args(self) -> (res: Vec<String>)
        ensures
            strings_view(res@) == copy_args_spec(self),
    {
        match self {
            CopyDirection::FromRemote(host) => {
                let v: Vec<String> = vec![owned("--no-check-sigs"), owned("--from"), store_uri(host)];
                assert(strings_view(v@) =~= copy_args_spec(self));
                v
            },
            CopyDirection::ToRemote { host, use_substitutes } => {
                let mut v: Vec<String> = vec![owned("--no-check-sigs"), owned("--to"), store_uri(host)];
                let ghost first = strings_view(v@);
                push_substitute_on_destination(&mut v, use_substitutes);
                assert(strings_view(v@) =~= copy_args_spec(self));
                v
            },
            CopyDirection::BetweenRemotes { from_host, to_host, use_substitutes } => {
                let mut v: Vec<String> = vec![
                    owned("--no-check-sigs"),
                    owned("--from"),
                    store_uri(from_host),
                    owned("--to"),
                    store_uri(to_host),
                ];
                push_substitute_on_destination(&mut v, use_substitutes);
                assert(strings_view(v@) =~= copy_args_spec(self));
                v
            },
        }
    }
}

/// `nix <flake flags> copy <direction arguments> <path>`, with the SSH
/// options in `NIX_SSHOPTS`.
pub fn nix_copy_command(direction: CopyDirection, path: &str, ssh_config: &SshConfig) -> (res: NixCommand)
    ensures
        res.spec_kind() == CommandKind::Copy,
        res.spec_global_args() == flake_flags_spec(),
        res.spec_args() == copy_args_spec(direction).push(path@),
        res.spec_env() == seq![
            ("NIX_SSHOPTS"@, nix_sshopts_env_spec(ssh_config.spec_user_opts(), ssh_config.spec_control_dir())),
        ],
{
    let args = direction.args();
    let cmd = NixCommand::new(CommandKind::Copy).global_args(&get_flake_flags()).args(&args).arg(path).env(
        "NIX_SSHOPTS",
        get_nix_sshopts_env(ssh_config).as_str(),
    );
    assert(cmd.spec_args() =~= copy_args_spec(direction).push(path@));
    assert(cmd.spec_env() =~= seq![
        ("NIX_SSHOPTS"@, nix_sshopts_env_spec(ssh_config.spec_user_opts(), ssh_config.spec_control_dir())),
    ]);
    cmd
}

/// The report of a failed copy: the message and exit status, then the
/// trimmed standard error when there is any.
pub open spec fn copy_failure_spec(message: Seq<char>, status: Seq<char>, stderr: Seq<char>) -> Seq<char> {
    let err = crate::text::trim_spec(stderr);
    if err.len() == 0 {
        message + " (exit status: "@ + status + ")"@
    } else {
        message + " (exit status: "@ + status + ")\nstderr:\n"@ + err
    }
}

/// The report of a failed copy; `status` is the exit status as printed.
pub fn format_copy_failure(message: &str, status: &str, stderr: &str) -> (res: String)
    ensures
        res@ == copy_failure_spec(message@, status@, stderr@),
{
    let err = crate::text::trim(stderr);
    let mut r = concat_str(message, " (exit status: ");
    r.append(status);
    if err.as_str().unicode_len() == 0 {
        r.append(")");
    } else {
        r.append(")\nstderr:\n");
        r.append(err.as_str());
    }
    r
}

/// A remote store path after resolving symlinks such as
/// `/run/current-system`.
pub struct ResolvedRemoteStorePath {
    host: Host,
    path: String,
}

/// The outcome of looking at a remote path before querying it.
pub enum Resolution {
    /// The path is directly inside the store.
    Direct(ResolvedRemoteStorePath),
    /// The path must be resolved on the remote by running these words.
    Query(Vec<String>),
}

/// The path a `readlink -f` output names, or why it is refused: no line,
/// more than one line, or a path outside `/nix/store`.
pub open spec fn readlink_result_spec(output: Seq<char>, original: Seq<char>) -> Result<Seq<char>, Seq<char>> {
    let lines = crate::text::lines_spec(crate::text::trim_spec(output));
    if lines.len() == 0 {
        Err("readlink did not return a resolved path"@)
    } else if lines.len() > 1 {
        Err("readlink returned multiple paths for one requested path"@)
    } else if !crate::paths::components_start_with(crate::paths::components(lines[0]), crate::paths::components("/nix/store"@)) {
        Err("resolved remote path '"@ + lines[0] + "' for '"@ + original + "' is not in /nix/store"@)
    } else {
        Ok(lines[0])
    }
}

impl ResolvedRemoteStorePath {
    pub closed spec fn spec_path(&self) -> Seq<char> {
        self.path@
    }

    pub closed spec fn spec_host(&self) -> Seq<char> {
        self.host.spec_host()
    }

    /// A path directly inside `/nix/store` is kept; any other is resolved
    /// on the remote with `readlink -f -- <path>`.
    pub fn resolve(host: &Host, path: &str) -> (res: Resolution)
        ensures
            crate::paths::parent_is_spec(path@, "/nix/store"@) ==> (res matches Resolution::Direct(r) && r.spec_path()
                == path@ && r.spec_host() == host.spec_host()),
            !crate::paths::parent_is_spec(path@, "/nix/store"@) ==> (res matches Resolution::Query(words) && strings_view(
                words@,
            ) == seq!["readlink"@, "-f"@, "--"@, path@]),
    {
        if crate::paths::parent_is(path, "/nix/store") {
            Resolution::Direct(ResolvedRemoteStorePath { host: host.duplicate(), path: owned(path) })
        } else {
            let v: Vec<String> = vec![owned("readlink"), owned("-f"), owned("--"), owned(path)];
            assert(strings_view(v@) =~= seq!["readlink"@, "-f"@, "--"@, path@]);
            Resolution::Query(v)
        }
    }

    /// The resolved path from the standard output of `readlink -f` run for
    /// `original`.
    pub fn from_readlink_output(host: &Host, output: &str, original: &str) -> (res: Result<ResolvedRemoteStorePath, String>)
        ensures
            match readlink_result_spec(output@, original@) {
                Ok(p) => res matches Ok(r) && r.spec_path() == p && r.spec_host() == host.spec_host(),
                Err(e) => res matches Err(m) && m@ == e,
            },
    {
        let trimmed = crate::text::trim(output);
        let lines = crate::text::split_lines(trimmed.as_str());
        if lines.len() == 0 {
            return Err(owned("readlink did not return a resolved path"));
        }
        if lines.len() > 1 {
            return Err(owned("readlink returned multiple paths for one requested path"));
        }
        let p = string_from_chars(&lines[0]);
        assert(p@ == crate::text::lines_spec(trimmed@)[0]);
        if !crate::paths::path_starts_with(p.as_str(), "/nix/store") {
            let mut m = cat3("resolved remote path '", p.as_str(), "' for '");
            m.append(original);
            m.append("' is not in /nix/store");
            return Err(m);
        }
        Ok(ResolvedRemoteStorePath { host: host.duplicate(), path: p })
    }

    /// The resolved store path.
    pub fn path(&self) -> (res: &str)
        ensures
            res@ == self.spec_path(),
    {
        self.path.as_str()
    }

    /// The host the path lives on.
    pub fn host(&self) -> (res: &Host)
        ensures
            res.spec_host() == self.spec_host(),
    {
        &self.host
    }
}

} // verus!

verus! {

/// The SSH control-socket directory of a run, whose sockets are closed and
/// which is removed when the run ends.
pub struct SshControlGuard {
    control_dir: String,
}

impl SshControlGuard {
    /// The guard of the configured control directory.
    pub fn for_config(config: &SshConfig) -> (res: SshControlGuard)
        ensures
            res.spec_control_dir() == config.spec_control_dir(),
    {
        SshControlGuard { control_dir: owned(config.control_dir()) }
    }

    pub closed spec fn spec_control_dir(&self) -> Seq<char> {
        self.control_dir@
    }

    /// The guarded directory.
    pub fn control_dir(&self) -> (res: &str)
        ensures
            res@ == self.spec_control_dir(),
    {
        self.control_dir.as_str()
    }
}

/// Whether a directory entry is one of our control sockets: its name
/// starts with `ssh-`.
pub fn is_control_socket(file_name: &str) -> (res: bool)
    ensures
        res == (strip_prefix_spec(file_name@, "ssh-"@) is Some),
{
    let cs = chars_of(file_name);
    crate::text::strip_prefix_chars(&cs, "ssh-").is_some()
}

/// The `ssh` arguments that close the control master at `socket`.
pub fn close_control_args(socket: &str) -> (res: Vec<String>)
    ensures
        strings_view(res@) == seq!["-o"@, "ControlPath="@ + socket@, "-O"@, "exit"@, "dummyhost"@],
{
    let v: Vec<String> = vec![owned("-o"), concat_str("ControlPath=", socket), owned("-O"), owned("exit"), owned("dummyhost")];
    assert(strings_view(v@) =~= seq!["-o"@, "ControlPath="@ + socket@, "-O"@, "exit"@, "dummyhost"@]);
    v
}

} // verus!

verus! {

/// What `String::from_utf8_lossy` makes of bytes: the characters they
/// encode, each invalid sequence replaced.
pub uninterp spec fn lossy_text(bytes: Seq<u8>) -> Seq<char>;

/// Calls `String::from_utf8_lossy`; as its documentation says, valid UTF-8
/// is decoded unchanged.
#[verifier::external_body]
fn from_utf8_lossy(bytes: &[u8]) -> (res: String)
    ensures
        res@ == lossy_text(bytes@),
        vstd::utf8::valid_utf8(bytes@) ==> res@ == vstd::utf8::decode_utf8(bytes@),
{
    String::from_utf8_lossy(bytes).into_owned()
}

/// `s` without trailing carriage returns and line feeds.
pub open spec fn trim_end_crlf(s: Seq<char>) -> Seq<char>
    decreases s.len(),
{
    if s.len() > 0 && (s.last() == '\r' || s.last() == '\n') {
        trim_end_crlf(s.drop_last())
    } else {
        s
    }
}

/// `s` without trailing carriage returns and line feeds.
fn trim_end_crlf_exec(s: &str) -> (res: String)
    ensures
        res@ == trim_end_crlf(s@),
{
    let cs = chars_of(s);
    let mut j: usize = cs.len();
    assert(cs@.take(j as int) =~= cs@);
    while j > 0 && (cs[j - 1] == '\r' || cs[j - 1] == '\n')
        invariant
            j <= cs.len(),
            cs@ == s@,
            trim_end_crlf(s@) == trim_end_crlf(cs@.take(j as int)),
        decreases j,
    {
        assert(cs@.take(j as int).drop_last() =~= cs@.take(j - 1));
        j = j - 1;
    }
    let part = crate::text::slice_chars(&cs, 0, j);
    assert(part@ =~= cs@.take(j as int));
    string_from_chars(&part)
}

/// The position of the first line feed in `bytes`.
pub open spec fn first_newline(bytes: Seq<u8>) -> Option<int>
    decreases bytes.len(),
{
    if bytes.len() == 0 {
        None
    } else if bytes[0] == 10 {
        Some(0)
    } else {
        match first_newline(bytes.skip(1)) {
            Some(i) => Some(i + 1),
            None => None,
        }
    }
}

/// The complete lines of `pending` (each with its line feed) and what
/// follows the last line feed.
pub open spec fn complete_lines(pending: Seq<u8>) -> (Seq<Seq<u8>>, Seq<u8>)
    decreases pending.len(),
{
    match first_newline(pending) {
        Some(i) => if 0 <= i < pending.len() {
            let (lines, rest) = complete_lines(pending.skip(i + 1));
            (seq![pending.take(i + 1)] + lines, rest)
        } else {
            (Seq::empty(), pending)
        },
        None => (Seq::empty(), pending),
    }
}

proof fn lemma_first_newline(bytes: Seq<u8>)
    ensures
        match first_newline(bytes) {
            Some(i) => 0 <= i < bytes.len() && bytes[i] == 10 && forall|j: int| 0 <= j < i ==> bytes[j] != 10,
            None => forall|j: int| 0 <= j < bytes.len() ==> bytes[j] != 10,
        },
    decreases bytes.len(),
{
    if bytes.len() > 0 && bytes[0] != 10 {
        lemma_first_newline(bytes.skip(1));
        assert forall|j: int| 1 <= j < bytes.len() implies bytes[j] == bytes.skip(1)[j - 1] by {}
    }
}

/// The bytes of `lines`, one after another.
pub open spec fn flatten_lines(lines: Seq<Seq<u8>>) -> Seq<u8>
    decreases lines.len(),
{
    if lines.len() == 0 {
        Seq::empty()
    } else {
        lines[0] + flatten_lines(lines.skip(1))
    }
}

/// Splitting pending output loses and invents nothing: the complete lines
/// followed by the rest are exactly the pending bytes, every complete line
/// ends with its line feed, and the rest holds no line feed.
pub proof fn lemma_complete_lines_partition(pending: Seq<u8>)
    ensures
        flatten_lines(complete_lines(pending).0) + complete_lines(pending).1 == pending,
        forall|k: int|
            0 <= k < complete_lines(pending).0.len() ==> (#[trigger] complete_lines(pending).0[k]).len() > 0
                && complete_lines(pending).0[k].last() == 10,
        forall|j: int| 0 <= j < complete_lines(pending).1.len() ==> #[trigger] complete_lines(pending).1[j] != 10,
    decreases pending.len(),
{
    lemma_first_newline(pending);
    match first_newline(pending) {
        Some(i) => {
            let head = pending.take(i + 1);
            let tail = pending.skip(i + 1);
            lemma_complete_lines_partition(tail);
            let (lines, rest) = complete_lines(tail);
            let all = seq![head] + lines;
            assert(all[0] == head);
            assert(all.skip(1) =~= lines);
            assert(flatten_lines(all) == head + flatten_lines(lines));
            assert(head + (flatten_lines(lines) + rest) =~= pending);
            assert forall|k: int| 0 <= k < all.len() implies (#[trigger] all[k]).len() > 0 && all[k].last() == 10 by {
                if k > 0 {
                    assert(all[k] == lines[k - 1]);
                }
            }
        },
        None => {
            assert(flatten_lines(Seq::<Seq<u8>>::empty()) + pending =~= pending);
        },
    }
}

/// Collects streamed output, handing out complete lines as they arrive.
pub struct SpinnerWriter {
    pending: Vec<u8>,
    captured: Vec<u8>,
}

impl SpinnerWriter {
    pub closed spec fn spec_pending(&self) -> Seq<u8> {
        self.pending@
    }

    pub closed spec fn spec_captured(&self) -> Seq<u8> {
        self.captured@
    }

    /// A writer that has seen nothing.
    pub fn new() -> (res: SpinnerWriter)
        ensures
            res.spec_pending() == Seq::<u8>::empty(),
            res.spec_captured() == Seq::<u8>::empty(),
    {
        SpinnerWriter { pending: Vec::new(), captured: Vec::new() }
    }

    /// Takes `buf`: everything is kept, and the lines completed so far are
    /// returned, each decoded and without its line ending, for printing.
    pub fn write(&mut self, buf: &[u8]) -> (res: Vec<String>)
        ensures
            final(self).spec_captured() == old(self).spec_captured() + buf@,
            final(self).spec_pending() == complete_lines(old(self).spec_pending() + buf@).1,
            strings_view(res@) == complete_lines(old(self).spec_pending() + buf@).0.map_values(
                |l: Seq<u8>| trim_end_crlf(lossy_text(l)),
            ),
    {
        let mut i: usize = 0;
        while i < buf.len()
            invariant
                i <= buf.len(),
                self.captured@ == old(self).captured@ + buf@.take(i as int),
                self.pending@ == old(self).pending@ + buf@.take(i as int),
            decreases buf.len() - i,
        {
            self.captured.push(buf[i]);
            self.pending.push(buf[i]);
            i = i + 1;
            assert(self.captured@ =~= old(self).captured@ + buf@.take(i as int));
            assert(self.pending@ =~= old(self).pending@ + buf@.take(i as int));
        }
        assert(buf@.take(buf.len() as int) =~= buf@);
        self.print_complete_lines()
    }

    /// Hands out the complete lines of what is pending and keeps the rest.
    pub fn print_complete_lines(&mut self) -> (res: Vec<String>)
        ensures
            final(self).spec_captured() == old(self).spec_captured(),
            final(self).spec_pending() == complete_lines(old(self).spec_pending()).1,
            strings_view(res@) == complete_lines(old(self).spec_pending()).0.map_values(
                |l: Seq<u8>| trim_end_crlf(lossy_text(l)),
            ),
    {
        let ghost all = self.pending@;
        let mut out: Vec<String> = Vec::new();
        let mut consumed: usize = 0;
        let mut scan: usize = 0;
        assert(all.skip(0) =~= all);
        assert(strings_view(out@) + complete_lines(all).0.map_values(|l: Seq<u8>| trim_end_crlf(lossy_text(l)))
            =~= complete_lines(all).0.map_values(|l: Seq<u8>| trim_end_crlf(lossy_text(l))));
        let len = self.pending.len();
        loop
            invariant
                len == self.pending@.len(),
                consumed <= scan <= self.pending@.len(),
                self.pending@ == all,
                self.captured@ == old(self).captured@,
                forall|j: int| consumed <= j < scan ==> all[j] != 10,
                complete_lines(all).1 == complete_lines(all.skip(consumed as int)).1,
                complete_lines(all).0.map_values(|l: Seq<u8>| trim_end_crlf(lossy_text(l))) == strings_view(out@)
                    + complete_lines(all.skip(consumed as int)).0.map_values(|l: Seq<u8>| trim_end_crlf(lossy_text(l))),
            ensures
                consumed <= self.pending@.len(),
                self.pending@ == all,
                self.captured@ == old(self).captured@,
                complete_lines(all.skip(consumed as int)).0 == Seq::<Seq<u8>>::empty(),
                complete_lines(all.skip(consumed as int)).1 == all.skip(consumed as int),
                complete_lines(all).1 == complete_lines(all.skip(consumed as int)).1,
                complete_lines(all).0.map_values(|l: Seq<u8>| trim_end_crlf(lossy_text(l))) == strings_view(out@)
                    + complete_lines(all.skip(consumed as int)).0.map_values(|l: Seq<u8>| trim_end_crlf(lossy_text(l))),
            decreases self.pending@.len() - scan,
        {
            if scan == self.pending.len() {
                proof {
                    let r = all.skip(consumed as int);
                    lemma_first_newline(r);
                    match first_newline(r) {
                        Some(k) => {
                            assert(r[k] == all[consumed + k]);
                        },
                        None => {},
                    }
                    assert(first_newline(r) is None);
                    assert(complete_lines(r).0 =~= Seq::<Seq<u8>>::empty());
                    assert(complete_lines(r).1 == r);
                }
                break;
            }
            if self.pending[scan] == 10 {
                let mut line: Vec<u8> = Vec::new();
                let mut k: usize = consumed;
                while k <= scan
                    invariant
                        consumed <= k <= scan + 1,
                        scan < self.pending@.len(),
                        len == self.pending@.len(),
                        self.pending@ == all,
                        line@ == all.subrange(consumed as int, k as int),
                    decreases scan + 1 - k,
                {
                    line.push(self.pending[k]);
                    k = k + 1;
                    assert(line@ =~= all.subrange(consumed as int, k as int));
                }
                let text = from_utf8_lossy(line.as_slice());
                let msg = trim_end_crlf_exec(text.as_str());
                let ghost prev = out@;
                out.push(msg);
                proof {
                    let r = all.skip(consumed as int);
                    lemma_first_newline(r);
                    let i = (scan - consumed) as int;
                    assert(r[i] == all[scan as int]);
                    match first_newline(r) {
                        Some(f) => {
                            if f < i {
                                assert(r[f] == all[consumed + f]);
                            } else if f > i {
                                assert(r[i] == 10);
                            }
                        },
                        None => {
                            assert(r[i] == 10);
                        },
                    }
                    assert(r.take(i + 1) =~= line@);
                    assert(r.skip(i + 1) =~= all.skip(scan + 1));
                    assert(strings_view(out@) =~= strings_view(prev).push(msg@));
                    let f = |l: Seq<u8>| trim_end_crlf(lossy_text(l));
                    let rest = complete_lines(all.skip(scan + 1));
                    assert((seq![line@] + rest.0).map_values(f) =~= seq![f(line@)] + rest.0.map_values(f));
                    assert(strings_view(prev) + (seq![f(line@)] + rest.0.map_values(f)) =~= strings_view(out@)
                        + rest.0.map_values(f));
                }
                consumed = scan + 1;
            }
            scan = scan + 1;
        }
        let mut rest: Vec<u8> = Vec::new();
        let mut k: usize = consumed;
        while k < self.pending.len()
            invariant
                consumed <= k <= self.pending@.len(),
                self.pending@ == all,
                rest@ == all.subrange(consumed as int, k as int),
            decreases self.pending@.len() - k,
        {
            rest.push(self.pending[k]);
            k = k + 1;
            assert(rest@ =~= all.subrange(consumed as int, k as int));
        }
        assert(rest@ =~= all.skip(consumed as int));
        assert(complete_lines(all.skip(consumed as int)).0.map_values(|l: Seq<u8>| trim_end_crlf(lossy_text(l))) =~= Seq::<
            Seq<char>,
        >::empty());
        assert(strings_view(out@) + Seq::<Seq<char>>::empty() =~= strings_view(out@));
        self.pending = rest;
        out
    }

    /// Finishes the stream: the unfinished last line, decoded and without
    /// its line ending, when there is one; and all output, decoded.
    pub fn into_string(self) -> (res: (Option<String>, String))
        ensures
            self.spec_pending().len() > 0 ==> (res.0 matches Some(l) && l@ == trim_end_crlf(
                lossy_text(self.spec_pending()),
            )),
            self.spec_pending().len() == 0 ==> res.0 is None,
            res.1@ == lossy_text(self.spec_captured()),
    {
        let last = if self.pending.len() > 0 {
            let text = from_utf8_lossy(self.pending.as_slice());
            Some(trim_end_crlf_exec(text.as_str()))
        } else {
            None
        };
        (last, from_utf8_lossy(self.captured.as_slice()))
    }
}

} // verus!

verus! {

/// The characters of a plain host name: letters, digits, `_`, `.`, `-`.
pub open spec fn plain_host_char(c: char) -> bool {
    ('a' <= c && c <= 'z') || ('A' <= c && c <= 'Z') || ('0' <= c && c <= '9') || c == '_' || c == '.' || c == '-'
}

/// Whether `s` is a non-empty plain host name.
pub open spec fn plain_host(s: Seq<char>) -> bool {
    s.len() > 0 && forall|i: int| 0 <= i < s.len() ==> plain_host_char(#[trigger] s[i])
}

/// The host name of a host string is the part after its last `@`, so it
/// is a suffix of the host string.
pub proof fn lemma_hostname_is_suffix(h: Seq<char>)
    ensures
        hostname_spec(h).len() <= h.len(),
        h.skip(h.len() - hostname_spec(h).len()) == hostname_spec(h),
        !hostname_spec(h).contains('@'),
{
    crate::text::lemma_last_index_of(h, '@');
    match last_index_of(h, '@') {
        Some(i) => {
            assert(h.skip(h.len() - hostname_spec(h).len()) =~= h.skip(i + 1));
            assert forall|j: int| 0 <= j < hostname_spec(h).len() implies hostname_spec(h)[j] != '@' by {
                assert(hostname_spec(h)[j] == h[i + 1 + j]);
            }
        },
        None => {
            assert(h.skip(0) =~= h);
        },
    }
}

/// A host string without `@` is its own host name.
pub proof fn lemma_hostname_without_user(h: Seq<char>)
    requires
        !h.contains('@'),
    ensures
        hostname_spec(h) == h,
{
    crate::text::lemma_last_index_of(h, '@');
    match last_index_of(h, '@') {
        Some(i) => {
            assert(h.contains('@')) by {
                assert(h[i] == '@');
            }
        },
        None => {},
    }
}

/// The host name of `user@hostname` is `hostname`, when the host name has
/// no `@`.
pub proof fn lemma_hostname_with_user(user: Seq<char>, hostname: Seq<char>)
    requires
        !hostname.contains('@'),
    ensures
        hostname_spec(user + "@"@ + hostname) == hostname,
{
    let h = user + "@"@ + hostname;
    reveal_strlit("@");
    crate::text::lemma_last_index_of(h, '@');
    assert(h[user.len() as int] == '@');
    match last_index_of(h, '@') {
        Some(i) => {
            if i > user.len() {
                assert(hostname[i - user.len() - 1] == h[i]);
                assert(hostname.contains('@'));
            }
            assert(i == user.len());
            assert(h.skip(i + 1) =~= hostname);
        },
        None => {},
    }
}

/// A plain host name parses, as itself, with the `ssh-ng` store scheme.
pub proof fn lemma_parse_plain_host(hostname: Seq<char>)
    requires
        plain_host(hostname),
    ensures
        parse_host_spec(hostname) == Ok::<(Seq<char>, NixStoreScheme), Seq<char>>((hostname, NixStoreScheme::SshNg)),
        hostname_spec(hostname) == hostname,
{
    reveal_strlit("ssh-ng://");
    reveal_strlit("ssh://");
    assert(!hostname.contains('@')) by {
        if hostname.contains('@') {
            let j = choose|j: int| 0 <= j < hostname.len() && hostname[j] == '@';
            assert(plain_host_char(hostname[j]));
        }
    }
    assert(!hostname.contains('/')) by {
        if hostname.contains('/') {
            let j = choose|j: int| 0 <= j < hostname.len() && hostname[j] == '/';
            assert(plain_host_char(hostname[j]));
        }
    }
    assert(!hostname.contains(':')) by {
        if hostname.contains(':') {
            let j = choose|j: int| 0 <= j < hostname.len() && hostname[j] == ':';
            assert(plain_host_char(hostname[j]));
        }
    }
    assert(strip_prefix_spec(hostname, "ssh-ng://"@) is None) by {
        if 9 <= hostname.len() && hostname.take(9) == "ssh-ng://"@ {
            assert(hostname[6] == "ssh-ng://"@[6]);
            assert(plain_host_char(hostname[6]));
        }
    }
    assert(strip_prefix_spec(hostname, "ssh://"@) is None) by {
        if 6 <= hostname.len() && hostname.take(6) == "ssh://"@ {
            assert(hostname[3] == "ssh://"@[3]);
            assert(plain_host_char(hostname[3]));
        }
    }
    lemma_hostname_without_user(hostname);
    assert(plain_host_char(hostname[0]));
    assert(plain_host_char(hostname.last()));
}

/// `user@hostname` with a plain user and host name parses, keeping the
/// user, and its host name is `hostname`.
pub proof fn lemma_parse_user_at_host(user: Seq<char>, hostname: Seq<char>)
    requires
        plain_host(user),
        plain_host(hostname),
    ensures
        parse_host_spec(user + "@"@ + hostname) == Ok::<(Seq<char>, NixStoreScheme), Seq<char>>(
            (user + "@"@ + hostname, NixStoreScheme::SshNg),
        ),
        hostname_spec(user + "@"@ + hostname) == hostname,
{
    let h = user + "@"@ + hostname;
    reveal_strlit("ssh-ng://");
    reveal_strlit("ssh://");
    reveal_strlit("@");
    lemma_parse_plain_host(hostname);
    assert(!hostname.contains('@')) by {
        if hostname.contains('@') {
            let j = choose|j: int| 0 <= j < hostname.len() && hostname[j] == '@';
            assert(plain_host_char(hostname[j]));
        }
    }
    lemma_hostname_with_user(user, hostname);
    assert(h[0] == user[0]);
    assert(plain_host_char(user[0]));
    assert(h.last() == hostname.last());
    assert(plain_host_char(hostname.last()));
    assert(strip_prefix_spec(h, "ssh-ng://"@) is None) by {
        if 9 <= h.len() && h.take(9) == "ssh-ng://"@ {
            assert(h[6] == "ssh-ng://"@[6]);
            if user.len() > 6 {
                assert(h[6] == user[6]);
                assert(plain_host_char(user[6]));
            } else if user.len() == 6 {
                assert(h[6] == '@');
            } else {
                assert(h[6] == hostname[6 - user.len() - 1]);
                assert(plain_host_char(hostname[6 - user.len() - 1]));
            }
        }
    }
    assert(strip_prefix_spec(h, "ssh://"@) is None) by {
        if 6 <= h.len() && h.take(6) == "ssh://"@ {
            assert(h[3] == "ssh://"@[3]);
            if user.len() > 3 {
                assert(h[3] == user[3]);
                assert(plain_host_char(user[3]));
            } else if user.len() == 3 {
                assert(h[3] == '@');
            } else {
                assert(h[3] == hostname[3 - user.len() - 1]);
                assert(plain_host_char(hostname[3 - user.len() - 1]));
            }
        }
    }
}

/// A host given with an explicit store scheme gives the specification
/// back as its store URI; a bare host gets `ssh-ng://`.
pub proof fn lemma_store_uri_roundtrip(input: Seq<char>)
    requires
        parse_host_spec(input) is Ok,
    ensures
        ({
            let (host, scheme) = parse_host_spec(input)->Ok_0;
            let uri = scheme_word(scheme) + "://"@ + host;
            &&& (strip_prefix_spec(input, "ssh-ng://"@) is Some || strip_prefix_spec(input, "ssh://"@) is Some)
                ==> uri == input
            &&& (strip_prefix_spec(input, "ssh-ng://"@) is None && strip_prefix_spec(input, "ssh://"@) is None)
                ==> uri == "ssh-ng://"@ + input
        }),
{
    reveal_strlit("ssh-ng://");
    reveal_strlit("ssh://");
    reveal_strlit("ssh-ng");
    reveal_strlit("ssh");
    reveal_strlit("://");
    let (host, scheme) = parse_host_spec(input)->Ok_0;
    match strip_prefix_spec(input, "ssh-ng://"@) {
        Some(h) => {
            assert(input =~= "ssh-ng://"@ + h);
            assert(scheme_word(scheme) + "://"@ + host =~= input);
        },
        None => match strip_prefix_spec(input, "ssh://"@) {
            Some(h) => {
                assert(input =~= "ssh://"@ + h);
                assert(scheme_word(scheme) + "://"@ + host =~= input);
            },
            None => {
                assert(scheme_word(scheme) + "://"@ + host =~= "ssh-ng://"@ + input);
            },
        },
    }
}


/// Every path a remote store path resolves to lies in `/nix/store`: an
/// entry directly inside the store is kept as it is, and a `readlink`
/// answer is accepted only inside the store.
pub proof fn lemma_resolved_paths_in_store(path: Seq<char>, output: Seq<char>)
    ensures
        crate::paths::parent_is_spec(path, "/nix/store"@) ==> crate::paths::components_start_with(
            crate::paths::components(path),
            crate::paths::components("/nix/store"@),
        ),
        readlink_result_spec(output, path) matches Ok(p) ==> crate::paths::components_start_with(
            crate::paths::components(p),
            crate::paths::components("/nix/store"@),
        ),
{
    let cs = crate::paths::components(path);
    if crate::paths::parent_is_spec(path, "/nix/store"@) {
        assert(cs.take(cs.len() - 1) =~= cs.drop_last());
    }
}

} // verus!

verus! {

/// Elevation passwords of remote hosts, entered once per host.
pub struct PasswordCache {
    entries: Vec<(String, String)>,
}

impl PasswordCache {
    /// The password recorded for `host`; the latest one wins.
    pub closed spec fn spec_password(&self, host: Seq<char>) -> Option<Seq<char>> {
        crate::runtime::lookup_var(self.entries@, host)
    }

    /// A cache holding no password.
    pub fn new() -> (res: PasswordCache)
        ensures
            forall|h: Seq<char>| #[trigger] res.spec_password(h) is None,
    {
        PasswordCache { entries: Vec::new() }
    }

    /// The password recorded for `host`.
    pub fn get(&self, host: &str) -> (res: Option<String>)
        ensures
            opt_view(res) == self.spec_password(host@),
    {
        let mut i = self.entries.len();
        assert(self.entries@.take(i as int) =~= self.entries@);
        while i > 0
            invariant
                i <= self.entries.len(),
                crate::runtime::lookup_var(self.entries@, host@) == crate::runtime::lookup_var(
                    self.entries@.take(i as int),
                    host@,
                ),
            decreases i,
        {
            let ghost prefix = self.entries@.take(i as int);
            assert(prefix.drop_last() =~= self.entries@.take(i - 1));
            assert(prefix.last() == self.entries@[i - 1]);
            if str_eq(self.entries[i - 1].0.as_str(), host) {
                return Some(self.entries[i - 1].1.clone());
            }
            i = i - 1;
        }
        None
    }

    /// Records `password` for `host`; other hosts keep theirs.
    pub fn insert(&mut self, host: &str, password: &str)
        ensures
            forall|h: Seq<char>|
                #[trigger] final(self).spec_password(h) == if h == host@ {
                    Some(password@)
                } else {
                    old(self).spec_password(h)
                },
    {
        let ghost before = self.entries@;
        self.entries.push((owned(host), owned(password)));
        assert(self.entries@.drop_last() =~= before);
    }
}

/// What an activation does about the elevation password of a host.
#[derive(Debug, Clone)]
pub enum PasswordStep {
    /// No password is sent.
    NotNeeded,
    /// Send this password, entered earlier for the host.
    Use(String),
    /// Ask the user with this prompt.
    Prompt(String),
}

/// The prompt asking for the password of `host`.
pub open spec fn password_prompt(host: Seq<char>) -> Seq<char> {
    "[sudo] password for "@ + host + ":"@
}

/// The password step for a host reached as `ssh_host`: none unless the
/// activation needs a password (see `needs_password_spec`); else the
/// cached password, or a prompt when none is cached.
pub fn password_step(config: &ActivateRemoteConfig, ssh_host: &str, cache: &PasswordCache) -> (res: PasswordStep)
    ensures
        !needs_password_spec(opt_strategy_view(config.elevation)) ==> res is NotNeeded,
        needs_password_spec(opt_strategy_view(config.elevation)) ==> match cache.spec_password(ssh_host@) {
            Some(p) => res matches PasswordStep::Use(q) && q@ == p,
            None => res matches PasswordStep::Prompt(m) && m@ == password_prompt(ssh_host@),
        },
{
    if !config.needs_password() {
        return PasswordStep::NotNeeded;
    }
    match cache.get(ssh_host) {
        Some(p) => PasswordStep::Use(p),
        None => PasswordStep::Prompt(cat3("[sudo] password for ", ssh_host, ":")),
    }
}

/// The message refusing an empty password.
pub open spec fn empty_password_message() -> Seq<char> {
    "Password cannot be empty"@
}

/// Takes a password the user entered for `host`: an empty one is refused;
/// any other is recorded, so that the host is not asked again.
pub fn accept_password(cache: &mut PasswordCache, host: &str, entered: &str) -> (res: Result<(), String>)
    ensures
        entered@.len() == 0 ==> (res matches Err(m) && m@ == empty_password_message() && forall|h: Seq<char>|
            #[trigger] final(cache).spec_password(h) == old(cache).spec_password(h)),
        entered@.len() > 0 ==> (res is Ok && forall|h: Seq<char>|
            #[trigger] final(cache).spec_password(h) == if h == host@ {
                Some(entered@)
            } else {
                old(cache).spec_password(h)
            }),
{
    if entered.unicode_len() == 0 {
        return Err(owned("Password cannot be empty"));
    }
    cache.insert(host, entered);
    Ok(())
}

} // verus!
