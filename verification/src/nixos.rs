//! The `os` subcommands as options, and what a NixOS build builds and
//! runs after it.

use vstd::prelude::*;

use crate::nix_options::{count_view, flag_spec, valued_spec};
use crate::num::usize_to_decimal;
use crate::text::{concat_str, owned, strings_view};

verus! {

/// When to show a package diff.
#[derive(Clone, Copy, Debug, PartialEq, Eq, Structural)]
pub enum DiffType {
    /// Only when the deployed configuration is the current machine's: the
    /// configuration built is named after this machine, and it is neither
    /// deployed to nor built on another host.
    Auto,
    /// Always.
    Always,
    /// Never.
    Never,
}

impl Default for DiffType {
    fn default() -> (res: DiffType)
        ensures
            res == DiffType::Auto,
    {
        DiffType::Auto
    }
}

/// Nix build flags passed through from the command line.
#[derive(Clone, Debug)]
pub struct NixBuildPassthroughArgs {
    pub max_jobs: Option<usize>,
    pub cores: Option<usize>,
    pub keep_going: bool,
    pub keep_failed: bool,
    pub print_build_logs: bool,
    pub show_trace: bool,
    pub offline: bool,
}

/// The flags the pass-through arguments stand for.
pub open spec fn passthrough_spec(a: NixBuildPassthroughArgs) -> Seq<Seq<char>> {
    valued_spec("--max-jobs"@, count_view(a.max_jobs)) + valued_spec("--cores"@, count_view(a.cores)) + flag_spec(
        a.keep_going,
        "--keep-going"@,
    ) + flag_spec(a.keep_failed, "--keep-failed"@) + flag_spec(a.print_build_logs, "--print-build-logs"@) + flag_spec(
        a.show_trace,
        "--show-trace"@,
    ) + flag_spec(a.offline, "--offline"@)
}

impl NixBuildPassthroughArgs {
    /// The Nix flags the arguments stand for, in a fixed order.
    pub fn generate_passthrough_args(&self) -> (res: Vec<String>)
        ensures
            strings_view(res@) == passthrough_spec(*self),
    {
        reveal(flag_spec);
        reveal(valued_spec);
        let mut args: Vec<String> = Vec::new();
        match self.max_jobs {
            Some(j) => {
                args.push(owned("--max-jobs"));
                args.push(usize_to_decimal(j));
            },
            None => {},
        }
        let ghost a = strings_view(args@);
        match self.cores {
            Some(c) => {
                args.push(owned("--cores"));
                args.push(usize_to_decimal(c));
            },
            None => {},
        }
        let ghost b = strings_view(args@);
        if self.keep_going {
            args.push(owned("--keep-going"));
        }
        let ghost c = strings_view(args@);
        if self.keep_failed {
            args.push(owned("--keep-failed"));
        }
        let ghost d = strings_view(args@);
        if self.print_build_logs {
            args.push(owned("--print-build-logs"));
        }
        let ghost e = strings_view(args@);
        if self.show_trace {
            args.push(owned("--show-trace"));
        }
        let ghost f = strings_view(args@);
        if self.offline {
            args.push(owned("--offline"));
        }
        assert(a =~= valued_spec("--max-jobs"@, count_view(self.max_jobs)));
        assert(b =~= a + valued_spec("--cores"@, count_view(self.cores)));
        assert(c =~= b + flag_spec(self.keep_going, "--keep-going"@));
        assert(d =~= c + flag_spec(self.keep_failed, "--keep-failed"@));
        assert(e =~= d + flag_spec(self.print_build_logs, "--print-build-logs"@));
        assert(f =~= e + flag_spec(self.show_trace, "--show-trace"@));
        assert(strings_view(args@) =~= f + flag_spec(self.offline, "--offline"@));
        args
    }
}

/// The options of the building `os` subcommands.
#[derive(Clone, Debug)]
pub struct BuildOpts {
    pub dry: bool,
    pub diff: DiffType,
    pub passthrough: NixBuildPassthroughArgs,
    pub hostname: Option<String>,
    pub extra_args: Vec<String>,
    pub target_host: Option<String>,
    pub builders: Option<String>,
}

/// The options of `os vm`.
#[derive(Clone, Debug)]
pub struct BuildVmOpts {
    pub common: BuildOpts,
    pub with_bootloader: bool,
}

/// The options of `os rollback`.
#[derive(Clone, Debug)]
pub struct RollbackOpts {
    pub dry: bool,
    pub to: Option<u64>,
    pub diff: DiffType,
}

/// The options of `os repl`.
#[derive(Clone, Debug)]
pub struct ReplOpts {
    pub hostname: Option<String>,
}

/// The options of `os info`.
#[derive(Clone, Debug)]
pub struct OsGenerationsArgs {
    pub profile: Option<String>,
}

/// An `os` subcommand with its options.
#[derive(Clone, Debug)]
pub enum OsSubcmd {
    Switch(BuildOpts),
    Boot(BuildOpts),
    Test(BuildOpts),
    Build(BuildOpts),
    Repl(ReplOpts),
    Info(OsGenerationsArgs),
    Rollback(RollbackOpts),
    Vm(BuildVmOpts),
    Update { no_commit: bool },
}

/// What a NixOS build produces and whether it is activated.
#[derive(Clone, Copy, Debug, PartialEq, Eq, Structural)]
pub enum BuildVariant {
    Build,
    Switch,
    Boot,
    Test,
    Vm,
    VmWithBootloader,
}

/// The attribute under `config.system.build` a variant builds.
pub open spec fn variant_attr(v: BuildVariant) -> Seq<char> {
    match v {
        BuildVariant::Vm => "vm"@,
        BuildVariant::VmWithBootloader => "vmWithBootLoader"@,
        _ => "toplevel"@,
    }
}

impl BuildVariant {
    /// The attribute under `config.system.build` the variant builds.
    pub fn attr(self) -> (res: &'static str)
        ensures
            res@ == variant_attr(self),
    {
        match self {
            BuildVariant::Vm => "vm",
            BuildVariant::VmWithBootloader => "vmWithBootLoader",
            _ => "toplevel",
        }
    }
}

/// The subcommand's build variant, for the subcommands that build.
pub open spec fn subcommand_variant_spec(cmd: OsSubcmd) -> Option<BuildVariant> {
    match cmd {
        OsSubcmd::Switch(_) => Some(BuildVariant::Switch),
        OsSubcmd::Boot(_) => Some(BuildVariant::Boot),
        OsSubcmd::Test(_) => Some(BuildVariant::Test),
        OsSubcmd::Build(_) => Some(BuildVariant::Build),
        OsSubcmd::Vm(o) => Some(if o.with_bootloader {
            BuildVariant::VmWithBootloader
        } else {
            BuildVariant::Vm
        }),
        _ => None,
    }
}

impl OsSubcmd {
    /// The build variant of a building subcommand.
    pub fn variant(&self) -> (res: Option<BuildVariant>)
        ensures
            res == subcommand_variant_spec(*self),
    {
        match self {
            OsSubcmd::Switch(_) => Some(BuildVariant::Switch),
            OsSubcmd::Boot(_) => Some(BuildVariant::Boot),
            OsSubcmd::Test(_) => Some(BuildVariant::Test),
            OsSubcmd::Build(_) => Some(BuildVariant::Build),
            OsSubcmd::Vm(o) => Some(
                if o.with_bootloader {
                    BuildVariant::VmWithBootloader
                } else {
                    BuildVariant::Vm
                },
            ),
            _ => None,
        }
    }
}

/// Whether the build elevates: not when the root check is bypassed;
/// otherwise running as root is refused.
pub open spec fn build_elevation_spec(no_root_check: bool, is_root: bool) -> Result<bool, Seq<char>> {
    if no_root_check {
        Ok(false)
    } else if is_root {
        Err("Don't run nh os as root. I will call sudo internally as needed"@)
    } else {
        Ok(true)
    }
}

/// Whether the build elevates.
pub fn build_elevation(no_root_check: bool, is_root: bool) -> (res: Result<bool, String>)
    ensures
        match build_elevation_spec(no_root_check, is_root) {
            Ok(b) => res == Ok::<bool, String>(b),
            Err(e) => res matches Err(m) && m@ == e,
        },
{
    if no_root_check {
        Ok(false)
    } else if is_root {
        Err(owned("Don't run nh os as root. I will call sudo internally as needed"))
    } else {
        Ok(true)
    }
}

/// What a NixOS build does.
pub struct NixosBuildPlan {
    /// The installable built.
    pub drv: String,
    /// The message shown while building.
    pub message: String,
    /// Whether the out-link goes in a temporary directory rather than
    /// `result`.
    pub temporary_out_link: bool,
    /// Whether the result is activated now.
    pub activate_test: bool,
    /// Whether the result is made the boot default.
    pub activate_boot: bool,
    /// The `nix` arguments that copy the result to the target host.
    pub copy_args: Option<Vec<String>>,
    /// Whether the package diff against the running system is shown.
    pub show_diff: bool,
}

/// Whether the package diff is shown for a build of the configuration
/// named `target_hostname` on the machine named `local_hostname`.
pub open spec fn show_diff_spec(opts: BuildOpts, target_hostname: Seq<char>, local_hostname: Seq<char>) -> bool {
    match opts.diff {
        DiffType::Always => true,
        DiffType::Never => false,
        DiffType::Auto => target_hostname == local_hostname && opts.target_host is None && opts.builders is None,
    }
}

/// The installable of a NixOS configuration's build attribute.
pub open spec fn drv_spec(flake: Seq<char>, hostname: Seq<char>, v: BuildVariant) -> Seq<char> {
    flake + "#nixosConfigurations."@ + hostname + ".config.system.build."@ + variant_attr(v)
}

/// Whether a variant stops after the build: a plain build or a VM image.
/// A VM with a bootloader is still copied to the target host.
pub open spec fn build_only(v: BuildVariant) -> bool {
    v == BuildVariant::Build || v == BuildVariant::Vm
}

/// The plan of a NixOS build of `variant` from `flake`; the configuration
/// is the one named `--hostname`, else the local machine's. Dry runs and
/// build-only variants activate nothing and copy nothing.
pub fn build_plan(opts: &BuildOpts, variant: BuildVariant, flake: &str, local_hostname: &str, profile: &str) -> (res:
    NixosBuildPlan)
    ensures
        res.drv@ == drv_spec(
            flake@,
            match opts.hostname {
                Some(h) => h@,
                None => local_hostname@,
            },
            variant,
        ),
        res.message@ == if variant == BuildVariant::Vm {
            "Building NixOS VM image"@
        } else {
            "Building NixOS configuration"@
        },
        res.temporary_out_link == !(variant == BuildVariant::Vm || variant == BuildVariant::Build),
        res.activate_test == (!opts.dry && (variant == BuildVariant::Test || variant == BuildVariant::Switch)),
        res.activate_boot == (!opts.dry && (variant == BuildVariant::Boot || variant == BuildVariant::Switch)),
        (opts.dry || build_only(variant) || opts.target_host is None) ==> res.copy_args is None,
        res.show_diff == show_diff_spec(
            *opts,
            match opts.hostname {
                Some(h) => h@,
                None => local_hostname@,
            },
            local_hostname@,
        ),
        (!opts.dry && !build_only(variant)) ==> match opts.target_host {
            Some(t) => res.copy_args matches Some(a) && strings_view(a@) == seq!["copy"@, "--to"@, "ssh://"@ + t@, profile@],
            None => true,
        },
{
    let host = match &opts.hostname {
        Some(h) => h.as_str(),
        None => local_hostname,
    };
    let mut drv = concat_str(flake, "#nixosConfigurations.");
    drv.append(host);
    drv.append(".config.system.build.");
    drv.append(variant.attr());
    let message = match variant {
        BuildVariant::Vm => owned("Building NixOS VM image"),
        _ => owned("Building NixOS configuration"),
    };
    let temporary_out_link = match variant {
        BuildVariant::Vm | BuildVariant::Build => false,
        _ => true,
    };
    let stops = opts.dry || match variant {
        BuildVariant::Build | BuildVariant::Vm => true,
        _ => false,
    };
    let copy_args = if stops {
        None
    } else {
        match &opts.target_host {
            Some(t) => {
                let v: Vec<String> = vec![owned("copy"), owned("--to"), concat_str("ssh://", t.as_str()), owned(profile)];
                assert(strings_view(v@) =~= seq!["copy"@, "--to"@, "ssh://"@ + t@, profile@]);
                Some(v)
            },
            None => None,
        }
    };
    let activate_test = !opts.dry && match variant {
        BuildVariant::Test | BuildVariant::Switch => true,
        _ => false,
    };
    let activate_boot = !opts.dry && match variant {
        BuildVariant::Boot | BuildVariant::Switch => true,
        _ => false,
    };
    let show_diff = match opts.diff {
        DiffType::Always => true,
        DiffType::Never => false,
        DiffType::Auto => crate::text::str_eq(host, local_hostname) && opts.target_host.is_none() && opts.builders.is_none(),
    };
    NixosBuildPlan { drv, message, temporary_out_link, activate_test, activate_boot, copy_args, show_diff }
}

} // verus!

verus! {

/// Deploying a configuration to another host.
#[derive(Clone, Debug)]
pub struct Deploy {
    pub build_opts: BuildOpts,
}

/// Lists the NixOS configuration names; there is nothing to list yet.
pub fn list_nixos_names() {
}

} // verus!
