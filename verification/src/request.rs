//! The canonical requests the command line produces: rebuilds,
//! activations, rollbacks, REPL and generation listings, with the diff
//! and flake-update choices they carry.

use vstd::prelude::*;

use crate::info::Field;
use crate::nix_command::{CommandKind, NixCommand};
use crate::nix_options::NixBuildOptions;
use crate::os::{ActivationAction, SpecialisationSelection};
use crate::remote::Host;
use crate::target::{BuildTarget, BuildTargetView};
use crate::text::{concat_str, join_spec, join_strings, owned, str_eq, strings_view};

verus! {

/// When a package diff is shown.
#[derive(Clone, Copy, Debug, PartialEq, Eq, Structural)]
pub enum Mode {
    /// When the current and deployed configurations can be compared.
    Auto,
    /// Always.
    Always,
    /// Never.
    Never,
}

/// The mode a name selects, or the message for an unknown name.
pub open spec fn mode_spec(s: Seq<char>) -> Result<Mode, Seq<char>> {
    if s == "auto"@ {
        Ok(Mode::Auto)
    } else if s == "always"@ {
        Ok(Mode::Always)
    } else if s == "never"@ {
        Ok(Mode::Never)
    } else {
        Err("expected one of `auto`, `always`, `never`, got `"@ + s + "`"@)
    }
}

/// The name of a mode.
pub open spec fn mode_word(m: Mode) -> Seq<char> {
    match m {
        Mode::Auto => "auto"@,
        Mode::Always => "always"@,
        Mode::Never => "never"@,
    }
}

/// Whether a diff is shown, and if not, why.
#[derive(Clone, Copy, Debug, PartialEq, Eq, Structural)]
pub enum DiffDecision {
    Show,
    /// The flag says never.
    Disabled,
    /// The running system's profile does not exist.
    NoCurrentProfile,
    /// The new profile does not exist.
    NoTargetProfile,
}

/// Reading back the name of a mode gives the mode.
pub proof fn lemma_mode_roundtrip(m: Mode)
    ensures
        mode_spec(mode_word(m)) == Ok::<Mode, Seq<char>>(m),
{
    reveal_strlit("auto");
    reveal_strlit("always");
    reveal_strlit("never");
    assert("auto"@ != "always"@) by {
        assert("auto"@.len() != "always"@.len());
    }
    assert("auto"@ != "never"@) by {
        assert("auto"@.len() != "never"@.len());
    }
    assert("always"@ != "never"@) by {
        assert("always"@.len() != "never"@.len());
    }
}

impl Mode {
    /// The mode a name selects.
    pub fn from_name(s: &str) -> (res: Result<Mode, String>)
        ensures
            match mode_spec(s@) {
                Ok(m) => res == Ok::<Mode, String>(m),
                Err(e) => res matches Err(m) && m@ == e,
            },
    {
        if str_eq(s, "auto") {
            Ok(Mode::Auto)
        } else if str_eq(s, "always") {
            Ok(Mode::Always)
        } else if str_eq(s, "never") {
            Ok(Mode::Never)
        } else {
            let mut m = concat_str("expected one of `auto`, `always`, `never`, got `", s);
            m.append("`");
            Err(m)
        }
    }

    /// The mode's name.
    pub fn as_str(self) -> (res: &'static str)
        ensures
            res@ == mode_word(self),
    {
        match self {
            Mode::Auto => "auto",
            Mode::Always => "always",
            Mode::Never => "never",
        }
    }

    /// Whether to show the diff between the running system and a new
    /// profile: never when disabled; in auto mode only when both exist.
    pub fn decide(self, current_exists: bool, target_exists: bool) -> (res: DiffDecision)
        ensures
            res == match self {
                Mode::Never => DiffDecision::Disabled,
                Mode::Always => DiffDecision::Show,
                Mode::Auto => if !current_exists {
                    DiffDecision::NoCurrentProfile
                } else if !target_exists {
                    DiffDecision::NoTargetProfile
                } else {
                    DiffDecision::Show
                },
            },
    {
        match self {
            Mode::Never => DiffDecision::Disabled,
            Mode::Always => DiffDecision::Show,
            Mode::Auto => if !current_exists {
                DiffDecision::NoCurrentProfile
            } else if !target_exists {
                DiffDecision::NoTargetProfile
            } else {
                DiffDecision::Show
            },
        }
    }
}

impl std::str::FromStr for Mode {
    type Err = String;

    fn from_str(s: &str) -> (res: Result<Mode, String>)
        ensures
            match mode_spec(s@) {
                Ok(m) => res == Ok::<Mode, String>(m),
                Err(e) => res matches Err(m) && m@ == e,
            },
    {
        Mode::from_name(s)
    }
}

/// Which flake inputs are updated before a rebuild.
#[derive(Clone, Debug)]
pub enum Selection {
    All,
    Inputs(Vec<String>),
}

/// The update flags of the command line.
#[derive(Clone, Debug)]
pub struct Update {
    pub update_all: bool,
    pub update_input: Option<Vec<String>>,
}

impl Update {
    /// The selection the flags ask for: all inputs, the named ones (all
    /// when the list is empty), or no update.
    pub fn selection(&self) -> (res: Option<Selection>)
        ensures
            self.update_all ==> res matches Some(Selection::All),
            !self.update_all ==> match self.update_input {
                None => res is None,
                Some(v) => if v@.len() == 0 {
                    res matches Some(Selection::All)
                } else {
                    res matches Some(Selection::Inputs(w)) && w@ == v@
                },
            },
    {
        if self.update_all {
            return Some(Selection::All);
        }
        match &self.update_input {
            None => None,
            Some(v) => if v.len() == 0 {
                Some(Selection::All)
            } else {
                let w = v.clone();
                assert(w@ == v@);
                Some(Selection::Inputs(w))
            },
        }
    }
}

/// The message of an update.
pub open spec fn update_message_spec(selection: Selection) -> Seq<char> {
    match selection {
        Selection::All => "Updating all flake inputs"@,
        Selection::Inputs(inputs) => "Updating flake input"@ + (if inputs@.len() > 1 {
            "s"@
        } else {
            Seq::empty()
        }) + " "@ + join_spec(strings_view(inputs@), ", "@),
    }
}

/// What an update does.
pub enum UpdateStep {
    /// Only flake targets can be updated; the message says so.
    Unsupported(String),
    /// Run the command, announcing it with the message.
    Run { command: NixCommand, message: String },
}

/// The arguments of `nix flake update` for a flake: the lock-file commit
/// flag, the inputs, then `--flake` and the reference.
pub open spec fn update_args_spec(selection: Selection, commit_lock_file: bool, reference: Seq<char>) -> Seq<Seq<char>> {
    seq!["update"@] + (if commit_lock_file {
        seq!["--commit-lock-file"@]
    } else {
        Seq::empty()
    }) + (match selection {
        Selection::Inputs(inputs) => strings_view(inputs@),
        Selection::All => Seq::empty(),
    }) + seq!["--flake"@, reference]
}

/// The update of a target's flake inputs.
pub fn update_step(target: &BuildTarget, selection: &Selection, commit_lock_file: bool) -> (res: UpdateStep)
    ensures
        match target@ {
            BuildTargetView::Flake { reference, .. } => res matches UpdateStep::Run { command, message } && message@
                == update_message_spec(*selection) && command.spec_kind() == CommandKind::Flake && command.spec_args()
                == update_args_spec(*selection, commit_lock_file, reference) && command.spec_global_args().len() == 0,
            _ => res matches UpdateStep::Unsupported(m) && m@ == "Only flake targets can be updated, "@
                + match target {
                    BuildTarget::Flake { .. } => "flake"@,
                    BuildTarget::File { .. } => "file"@,
                    BuildTarget::Expression { .. } => "expression"@,
                    BuildTarget::StorePath(_) => "store path"@,
                } + " is not supported"@,
        },
{
    let reference = match target {
        BuildTarget::Flake { reference, .. } => reference,
        _ => {
            let mut m = concat_str("Only flake targets can be updated, ", target.kind());
            m.append(" is not supported");
            return UpdateStep::Unsupported(m);
        },
    };
    let mut cmd = NixCommand::new(CommandKind::Flake).arg("update");
    if commit_lock_file {
        cmd = cmd.arg("--commit-lock-file");
    }
    let message = match selection {
        Selection::Inputs(inputs) => {
            cmd = cmd.args(inputs);
            let mut m = owned("Updating flake input");
            if inputs.len() > 1 {
                m.append("s");
            }
            m.append(" ");
            m.append(join_strings(inputs, ", ").as_str());
            proof {
                reveal_strlit("");
            }
            assert(m@ =~= update_message_spec(*selection));
            m
        },
        Selection::All => owned("Updating all flake inputs"),
    };
    let cmd = cmd.arg("--flake").arg(reference.as_str());
    assert(cmd.spec_args() =~= update_args_spec(*selection, commit_lock_file, reference@));
    UpdateStep::Run { command: cmd, message }
}

/// The options of a build.
#[derive(Clone, Debug)]
pub struct BuildOptions {
    pub target: Option<BuildTarget>,
    pub no_nom: bool,
    pub out_link: Option<String>,
    pub diff: Mode,
    pub nix: NixBuildOptions,
}

/// A rebuild without activation.
#[derive(Clone, Debug)]
pub struct RebuildRequest {
    pub build: BuildOptions,
    pub update: Option<Selection>,
    pub hostname: Option<String>,
    pub specialisation: SpecialisationSelection,
    pub extra_args: Vec<String>,
    pub bypass_root_check: bool,
    pub target_host: Option<Host>,
    pub build_host: Option<Host>,
    pub commit_lock_file: bool,
    pub use_substitutes: bool,
}

/// How an activation runs.
#[derive(Clone, Copy, Debug)]
pub struct Activation {
    pub action: ActivationAction,
    pub dry: bool,
    pub ask: bool,
    pub no_validate: bool,
}

/// A rebuild followed by activation.
#[derive(Clone, Debug)]
pub struct ActivationRequest {
    pub rebuild: RebuildRequest,
    pub activation: Activation,
}

/// A rebuild, with or without activation.
#[derive(Clone, Debug)]
pub enum RebuildCommand {
    Build(RebuildRequest),
    Activate(ActivationRequest),
}

impl RebuildCommand {
    /// Whether the request opted out of the root guard.
    pub fn bypass_root_check(&self) -> (res: bool)
        ensures
            res == match self {
                RebuildCommand::Build(r) => r.bypass_root_check,
                RebuildCommand::Activate(a) => a.rebuild.bypass_root_check,
            },
    {
        match self {
            RebuildCommand::Build(r) => r.bypass_root_check,
            RebuildCommand::Activate(a) => a.rebuild.bypass_root_check,
        }
    }
}

/// The activation flags of the command line.
#[derive(Clone, Copy, Debug)]
pub struct ActivationFlags {
    pub dry: bool,
    pub ask: bool,
    pub no_validate: bool,
}

/// A rebuild request with its activation.
pub fn activation_request(rebuild: RebuildRequest, flags: ActivationFlags, action: ActivationAction) -> (res:
    RebuildCommand)
    ensures
        res matches RebuildCommand::Activate(a) && a.rebuild == rebuild && a.activation == (Activation {
            action,
            dry: flags.dry,
            ask: flags.ask,
            no_validate: flags.no_validate,
        }),
{
    RebuildCommand::Activate(
        ActivationRequest {
            rebuild,
            activation: Activation { action, dry: flags.dry, ask: flags.ask, no_validate: flags.no_validate },
        },
    )
}

/// The specialisation the flags select: none with `--no-specialisation`,
/// the named one, else the running system's.
pub fn specialisation_from_flags(specialisation: Option<String>, no_specialisation: bool) -> (res: SpecialisationSelection)
    ensures
        no_specialisation ==> res is Base,
        !no_specialisation ==> match specialisation {
            Some(n) => res == SpecialisationSelection::Named(n),
            None => res is Current,
        },
{
    if no_specialisation {
        SpecialisationSelection::Base
    } else {
        match specialisation {
            Some(n) => SpecialisationSelection::Named(n),
            None => SpecialisationSelection::Current,
        }
    }
}

/// A rollback request.
#[derive(Clone, Debug)]
pub struct RollbackRequest {
    pub dry: bool,
    pub ask: bool,
    pub specialisation: SpecialisationSelection,
    pub to: Option<u64>,
    pub bypass_root_check: bool,
    pub diff: Mode,
}

/// A REPL request.
#[derive(Clone, Debug)]
pub struct ReplRequest {
    pub target: Option<BuildTarget>,
    pub hostname: Option<String>,
}

/// A generations listing request.
#[derive(Clone, Debug)]
pub struct GenerationsRequest {
    pub profile: String,
    pub fields: Option<Vec<Field>>,
}

/// The options shared by the rebuild commands, as parsed.
#[derive(Clone, Debug)]
pub struct CommonRebuild {
    pub dry: bool,
    pub ask: bool,
    pub installable: crate::installable::InstallableArgs,
    pub no_nom: bool,
    pub out_link: Option<String>,
    pub diff: Mode,
    pub passthrough: NixBuildOptions,
}

/// The options of a rebuild, as parsed.
#[derive(Clone, Debug)]
pub struct Rebuild {
    pub common: CommonRebuild,
    pub update_args: Update,
    pub hostname: Option<String>,
    pub specialisation: Option<String>,
    pub no_specialisation: bool,
    pub install_bootloader: bool,
    pub extra_args: Vec<String>,
    pub bypass_root_check: bool,
    pub target_host: Option<Host>,
    pub build_host: Option<Host>,
    pub no_validate: bool,
}

/// The options of an activating rebuild, as parsed.
#[derive(Clone, Debug)]
pub struct RebuildActivate {
    pub rebuild: Rebuild,
    pub show_activation_logs: bool,
}

/// The options of a rollback, as parsed.
#[derive(Clone, Debug)]
pub struct Rollback {
    pub dry: bool,
    pub ask: bool,
    pub specialisation: Option<String>,
    pub no_specialisation: bool,
    pub to: Option<u64>,
    pub bypass_root_check: bool,
    pub diff: Mode,
}

/// The options of the REPL, as parsed.
#[derive(Clone, Debug)]
pub struct Repl {
    pub installable: crate::installable::InstallableArgs,
    pub hostname: Option<String>,
}

/// The options of a generations listing, as parsed.
#[derive(Clone, Debug)]
pub struct Generations {
    pub profile: Option<String>,
    pub fields: Option<Vec<Field>>,
}

impl Rollback {
    /// The canonical rollback request.
    pub fn into_request(self) -> (res: RollbackRequest)
        ensures
            res.dry == self.dry && res.ask == self.ask && res.to == self.to && res.bypass_root_check
                == self.bypass_root_check && res.diff == self.diff,
            self.no_specialisation ==> res.specialisation is Base,
            !self.no_specialisation ==> match self.specialisation {
                Some(n) => res.specialisation == SpecialisationSelection::Named(n),
                None => res.specialisation is Current,
            },
    {
        RollbackRequest {
            dry: self.dry,
            ask: self.ask,
            specialisation: specialisation_from_flags(self.specialisation, self.no_specialisation),
            to: self.to,
            bypass_root_check: self.bypass_root_check,
            diff: self.diff,
        }
    }
}

} // verus!
