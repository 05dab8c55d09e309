//! The configuration of a run, captured once after the command line is
//! parsed.

use vstd::prelude::*;

use crate::elevation::{Elevation, ElevationStrategy};
use crate::installable::FlakeConfig;
use crate::remote::SshConfig;
use crate::runtime::Env;
use crate::text::owned;

verus! {

/// The view of an optional non-empty variable.
pub open spec fn non_empty(v: Option<Seq<char>>) -> Option<Seq<char>> {
    match v {
        Some(s) => if s.len() > 0 {
            Some(s)
        } else {
            None
        },
        None => None,
    }
}

/// The flake settings a snapshot holds: `NH_OS_FLAKE`, `NH_FLAKE` and
/// `NH_FILE` when not empty, and `NH_ATTRP` (empty when unset).
pub open spec fn flake_config_spec(env: &Env, c: FlakeConfig) -> bool {
    &&& crate::remote::opt_view(c.os_flake) == non_empty(env.spec_var("NH_OS_FLAKE"@))
    &&& crate::remote::opt_view(c.flake) == non_empty(env.spec_var("NH_FLAKE"@))
    &&& crate::remote::opt_view(c.file) == non_empty(env.spec_var("NH_FILE"@))
    &&& c.attrp@ == match env.spec_var("NH_ATTRP"@) {
        Some(a) => a,
        None => Seq::empty(),
    }
}

/// The flake settings of a snapshot.
pub fn flake_config(env: &Env) -> (res: FlakeConfig)
    ensures
        flake_config_spec(env, res),
{
    let os_flake = match env.non_empty_var("NH_OS_FLAKE") {
        Some(v) => Some(owned(v)),
        None => None,
    };
    let flake = match env.non_empty_var("NH_FLAKE") {
        Some(v) => Some(owned(v)),
        None => None,
    };
    let file = match env.non_empty_var("NH_FILE") {
        Some(v) => Some(owned(v)),
        None => None,
    };
    let attrp = match env.var("NH_ATTRP") {
        Some(v) => owned(v),
        None => String::new(),
    };
    FlakeConfig { os_flake, flake, file, attrp }
}

/// The configuration of a run.
pub struct RuntimeConfig {
    pub process: Env,
    pub elevation: Elevation,
    pub flake: FlakeConfig,
    pub ssh: SshConfig,
}

impl RuntimeConfig {
    /// The configuration from a startup snapshot, the command-line
    /// elevation strategy and the process id: the elevation policy (see
    /// `Elevation::new`), the flake settings and the SSH settings (see
    /// `SshConfig::from_env`); the first error of these is returned.
    pub fn from_env(process: Env, elevation_strategy: Option<ElevationStrategy>, pid: u32) -> (res: Result<
        RuntimeConfig,
        String,
    >)
        ensures
            res matches Ok(c) ==> {
                &&& c.process == process
                &&& Elevation::from_env_spec(c.elevation, crate::elevation::opt_strategy_view(elevation_strategy), &process)
                &&& flake_config_spec(&process, c.flake)
                &&& SshConfig::from_env_spec(c.ssh, &process, pid)
            },
            res is Ok <==> (crate::runtime::shell_words_spec(
                "NH_SUDOOPTS"@,
                process.spec_var("NH_SUDOOPTS"@),
                "NIX_SUDOOPTS"@,
                process.spec_var("NIX_SUDOOPTS"@),
            ) is Ok && crate::runtime::shell_words_spec(
                "NH_SSHOPTS"@,
                process.spec_var("NH_SSHOPTS"@),
                "NIX_SSHOPTS"@,
                process.spec_var("NIX_SSHOPTS"@),
            ) is Ok),
            res matches Err(m) ==> match crate::runtime::shell_words_spec(
                "NH_SUDOOPTS"@,
                process.spec_var("NH_SUDOOPTS"@),
                "NIX_SUDOOPTS"@,
                process.spec_var("NIX_SUDOOPTS"@),
            ) {
                Err(e) => m@ == e,
                Ok(_) => crate::runtime::shell_words_spec(
                    "NH_SSHOPTS"@,
                    process.spec_var("NH_SSHOPTS"@),
                    "NIX_SSHOPTS"@,
                    process.spec_var("NIX_SSHOPTS"@),
                ) == Err::<Seq<Seq<char>>, Seq<char>>(m@),
            },
    {
        let elevation = match Elevation::new(elevation_strategy, &process) {
            Ok(e) => e,
            Err(e) => return Err(e),
        };
        let flake = flake_config(&process);
        let ssh = match SshConfig::from_env(&process, pid) {
            Ok(s) => s,
            Err(e) => return Err(e),
        };
        Ok(RuntimeConfig { process, elevation, flake, ssh })
    }
}


/// What startup does about the deprecated `FLAKE` variable.
pub struct FlakeMigration {
    /// The value to give `NH_FLAKE`, when it is to be set.
    pub set_nh_flake: Option<String>,
    /// Whether to warn that `FLAKE` is deprecated.
    pub warn: bool,
}

/// Whether any command-specific flake variable is set.
pub open spec fn specific_flake_set(env: &Env) -> bool {
    env.spec_var("NH_OS_FLAKE"@) is Some || env.spec_var("NH_HOME_FLAKE"@) is Some || env.spec_var(
        "NH_DARWIN_FLAKE"@,
    ) is Some
}

/// `FLAKE` is copied to `NH_FLAKE` when only the former is set; the warning
/// is given then, unless a command-specific flake variable is set.
pub fn flake_migration(env: &Env) -> (res: FlakeMigration)
    ensures
        match (env.spec_var("FLAKE"@), env.spec_var("NH_FLAKE"@)) {
            (Some(f), None) => res.set_nh_flake matches Some(v) && v@ == f && res.warn == !specific_flake_set(env),
            _ => res.set_nh_flake is None && !res.warn,
        },
{
    match env.var("FLAKE") {
        Some(f) => if env.var("NH_FLAKE").is_none() {
            let specific = env.var("NH_OS_FLAKE").is_some() || env.var("NH_HOME_FLAKE").is_some() || env.var(
                "NH_DARWIN_FLAKE",
            ).is_some();
            FlakeMigration { set_nh_flake: Some(owned(f)), warn: !specific }
        } else {
            FlakeMigration { set_nh_flake: None, warn: false }
        },
        None => FlakeMigration { set_nh_flake: None, warn: false },
    }
}

} // verus!
