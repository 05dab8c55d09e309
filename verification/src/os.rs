//! Managing a NixOS system: profile locations, generation numbers,
//! specialisation selection, the root guard, and what a rebuild builds and
//! activates.

use vstd::prelude::*;

use crate::attr::{join_attr, segments_of};
use crate::elevation::Elevation;
use crate::target::{AttrPath, BuildTarget, BuildTargetView};
use crate::text::{concat_str, owned, str_eq, strings_view};

verus! {

/// The NixOS system profile.
pub const SYSTEM_PROFILE: &'static str = "/nix/var/nix/profiles/system";

/// The running system.
pub const CURRENT_PROFILE: &'static str = "/run/current-system";

/// Where the running system records its specialisation.
pub const SPEC_LOCATION: &'static str = "/etc/specialisation";

/// Which specialisation of a configuration to select.
#[derive(Clone, Debug)]
pub enum SpecialisationSelection {
    /// The specialisation recorded in `/etc/specialisation`.
    Current,
    /// The base configuration.
    Base,
    /// A named specialisation.
    Named(String),
}

/// The specialisation a selection names; for the current one, the trimmed
/// contents of `/etc/specialisation` when it could be read.
pub open spec fn specialisation_spec(selection: SpecialisationSelection, recorded: Option<Seq<char>>) -> Option<Seq<char>> {
    match selection {
        SpecialisationSelection::Current => match recorded {
            Some(c) => Some(crate::text::trim_spec(c)),
            None => None,
        },
        SpecialisationSelection::Base => None,
        SpecialisationSelection::Named(n) => Some(n@),
    }
}

/// The specialisation a selection names. `recorded` is the contents of
/// `/etc/specialisation`, if it could be read.
pub fn resolve_specialisation(selection: &SpecialisationSelection, recorded: Option<&str>) -> (res: Option<String>)
    ensures
        crate::remote::opt_view(res) == specialisation_spec(*selection, crate::runtime::opt_str_view(recorded)),
{
    match selection {
        SpecialisationSelection::Current => match recorded {
            Some(c) => Some(crate::text::trim(c)),
            None => None,
        },
        SpecialisationSelection::Base => None,
        SpecialisationSelection::Named(n) => Some(n.clone()),
    }
}

/// The link of the named specialisation inside a system profile.
pub open spec fn specialisation_link_spec(profile: Seq<char>, spec: Seq<char>) -> Seq<char> {
    crate::paths::path_join_spec(crate::paths::path_join_spec(profile, "specialisation"@), spec)
}

/// The link of the named specialisation inside a system profile.
pub fn specialisation_link(profile: &str, spec: &str) -> (res: String)
    ensures
        res@ == specialisation_link_spec(profile@, spec@),
{
    proof {
        reveal_strlit("specialisation");
    }
    let dir = crate::paths::path_join(profile, "specialisation");
    crate::paths::path_join(dir.as_str(), spec)
}

/// The error when the built configuration lacks `switch-to-configuration`.
pub fn missing_switch_to_configuration_message() -> (res: String)
    ensures
        res@ == "The 'switch-to-configuration' binary is missing from the built configuration.\n\nThis typically happens when 'system.switch.enable' is set to false in your\nNixOS configuration. To fix this, please either:\n1. Remove 'system.switch.enable = false' from your configuration, or\n2. Set 'system.switch.enable = true' explicitly\n\nIf the problem persists, please open an issue on our issue tracker!"@,
{
    owned(
        "The 'switch-to-configuration' binary is missing from the built configuration.\n\nThis typically happens when 'system.switch.enable' is set to false in your\nNixOS configuration. To fix this, please either:\n1. Remove 'system.switch.enable = false' from your configuration, or\n2. Set 'system.switch.enable = true' explicitly\n\nIf the problem persists, please open an issue on our issue tracker!",
    )
}

/// The refusal to run the `os` commands as root.
pub open spec fn root_refusal() -> Seq<char> {
    "Don't run nh os as root. It will escalate its privileges internally as needed."@
}

/// Whether privileged commands must go through elevation: never when
/// elevation is disabled; otherwise running as root is refused unless the
/// check is bypassed, and elevation is needed exactly when not root.
pub open spec fn requires_elevation_spec(bypass_root_check: bool, disabled: bool, is_root: bool) -> Result<bool, Seq<char>> {
    if disabled {
        Ok(false)
    } else if is_root && !bypass_root_check {
        Err(root_refusal())
    } else {
        Ok(!is_root)
    }
}

/// Decides whether privileged commands must run through elevation, and
/// enforces the root guard; `is_root` says whether the process runs as
/// root.
pub fn requires_elevation(bypass_root_check: bool, elevation: &Elevation, is_root: bool) -> (res: Result<bool, String>)
    ensures
        match requires_elevation_spec(bypass_root_check, elevation.spec_strategy() is Disabled, is_root) {
            Ok(b) => res == Ok::<bool, String>(b),
            Err(e) => res matches Err(m) && m@ == e,
        },
{
    if elevation.is_disabled() {
        return Ok(false);
    }
    if is_root && !bypass_root_check {
        return Err(owned("Don't run nh os as root. It will escalate its privileges internally as needed."));
    }
    Ok(!is_root)
}

/// `s` without every trailing copy of `suffix`, as `trim_end_matches` does.
pub open spec fn trim_end_matches_spec(s: Seq<char>, suffix: Seq<char>) -> Seq<char>
    decreases s.len(),
{
    if suffix.len() > 0 && suffix.len() <= s.len() && s.skip(s.len() - suffix.len()) == suffix {
        trim_end_matches_spec(s.take(s.len() - suffix.len()), suffix)
    } else {
        s
    }
}

/// `s` split at its last `-`.
pub open spec fn rsplit_dash(s: Seq<char>) -> Option<(Seq<char>, Seq<char>)> {
    match crate::text::last_index_of(s, '-') {
        Some(i) => Some((s.take(i), s.skip(i + 1))),
        None => None,
    }
}

/// The generation number of a profile entry such as `system-42-link`: its
/// file name without trailing `-link`s, the part after the last `-`, read
/// as a number.
pub open spec fn from_dir_spec(path: Seq<char>) -> Option<nat> {
    match crate::paths::file_name_spec(path) {
        Some(name) => match rsplit_dash(trim_end_matches_spec(name, "-link"@)) {
            Some((_, num)) => match crate::num::parse_unsigned_spec(num, u64::MAX as nat) {
                Ok(n) => Some(n),
                Err(_) => None,
            },
            None => None,
        },
        None => None,
    }
}

/// `s` without every trailing copy of `suffix`.
fn trim_end_matches(s: &Vec<char>, suffix: &str) -> (res: Vec<char>)
    ensures
        res@ == trim_end_matches_spec(s@, suffix@),
    decreases s@.len(),
{
    let sfx = crate::text::chars_of(suffix);
    if sfx.len() > 0 && crate::text::ends_with_chars(s, &sfx) {
        let rest = crate::text::slice_chars(s, 0, s.len() - sfx.len());
        trim_end_matches(&rest, suffix)
    } else {
        s.clone()
    }
}

/// The generation number of a profile entry such as `system-42-link`.
pub fn from_dir(generation_dir: &str) -> (res: Option<u64>)
    ensures
        match from_dir_spec(generation_dir@) {
            Some(n) => res == Some(n as u64),
            None => res is None,
        },
{
    let name = match crate::paths::file_name(generation_dir) {
        Some(n) => n,
        None => return None,
    };
    let trimmed = trim_end_matches(&crate::text::chars_of(name.as_str()), "-link");
    proof {
        crate::text::lemma_last_index_of(trimmed@, '-');
    }
    let i = match crate::text::rfind_char(&trimmed, '-') {
        Some(i) => i,
        None => return None,
    };
    let num = crate::text::slice_chars(&trimmed, i + 1, trimmed.len());
    assert(num@ =~= trimmed@.skip(i + 1));
    let num_s = crate::text::string_from_chars(&num);
    match crate::num::parse_u64(num_s.as_str()) {
        Ok(n) => Some(n),
        Err(_) => None,
    }
}

/// What an activation does after the build.
#[derive(Clone, Copy, Debug, PartialEq, Eq, Structural)]
pub enum ActivationAction {
    Test { show_logs: bool },
    Boot { install_bootloader: bool },
    Switch { show_logs: bool, install_bootloader: bool },
}

impl ActivationAction {
    /// Whether the activation's output is shown; boot activations never
    /// show it.
    pub fn show_logs(self) -> (res: bool)
        ensures
            res == match self {
                ActivationAction::Test { show_logs } => show_logs,
                ActivationAction::Switch { show_logs, .. } => show_logs,
                ActivationAction::Boot { .. } => false,
            },
    {
        match self {
            ActivationAction::Test { show_logs } => show_logs,
            ActivationAction::Switch { show_logs, .. } => show_logs,
            ActivationAction::Boot { .. } => false,
        }
    }

    /// Whether the bootloader is installed; test activations never
    /// install it.
    pub fn install_bootloader(self) -> (res: bool)
        ensures
            res == match self {
                ActivationAction::Boot { install_bootloader } => install_bootloader,
                ActivationAction::Switch { install_bootloader, .. } => install_bootloader,
                ActivationAction::Test { .. } => false,
            },
    {
        match self {
            ActivationAction::Boot { install_bootloader } => install_bootloader,
            ActivationAction::Switch { install_bootloader, .. } => install_bootloader,
            ActivationAction::Test { .. } => false,
        }
    }

    /// The phases an activation runs, in order: a test activates now, a
    /// boot sets the boot default, a switch does both.
    pub fn phases(self) -> (res: Vec<ActivationPhase>)
        ensures
            res@ == match self {
                ActivationAction::Test { .. } => seq![ActivationPhase::Test],
                ActivationAction::Boot { .. } => seq![ActivationPhase::Boot],
                ActivationAction::Switch { .. } => seq![ActivationPhase::Test, ActivationPhase::Boot],
            },
    {
        let v: Vec<ActivationPhase> = match self {
            ActivationAction::Test { .. } => vec![ActivationPhase::Test],
            ActivationAction::Boot { .. } => vec![ActivationPhase::Boot],
            ActivationAction::Switch { .. } => vec![ActivationPhase::Test, ActivationPhase::Boot],
        };
        v
    }
}

/// A phase of activation.
#[derive(Clone, Copy, Debug, PartialEq, Eq, Structural)]
pub enum ActivationPhase {
    /// Run `switch-to-configuration test`.
    Test,
    /// Set the system profile, then run `switch-to-configuration boot`.
    Boot,
}

/// The attribute path of a NixOS system's toplevel derivation inside its
/// configuration.
pub open spec fn toplevel_attrs() -> Seq<Seq<char>> {
    seq!["config"@, "system"@, "build"@, "toplevel"@]
}

/// The message for a flake attribute path too specific to name a
/// configuration.
pub open spec fn too_specific_message(attribute: Seq<Seq<char>>) -> Seq<char> {
    "Attribute path is too specific: "@ + join_attr(attribute)
        + ". Please either:\n  1. Use the flake reference without attributes (e.g., '.')\n  2. Specify only the configuration name (e.g., '.#"@
        + attribute[1] + "')"@
}

/// The target completed to the NixOS toplevel: a flake's attribute path
/// becomes `nixosConfigurations.<name>.config.system.build.toplevel`,
/// inferring the host name when no configuration is named; file and
/// expression targets gain `config.system.build.toplevel`.
pub open spec fn select_toplevel_spec(t: BuildTargetView, hostname: Seq<char>) -> Result<BuildTargetView, Seq<char>> {
    match t {
        BuildTargetView::Flake { reference, attribute: a } => {
            let nc = "nixosConfigurations"@;
            if a.len() == 0 {
                Ok(BuildTargetView::Flake { reference, attribute: seq![nc, hostname] + toplevel_attrs() })
            } else if a.len() == 1 && a[0] == nc {
                Ok(BuildTargetView::Flake { reference, attribute: a.push(hostname) + toplevel_attrs() })
            } else if a.len() == 2 && a[0] == nc {
                Ok(BuildTargetView::Flake { reference, attribute: a + toplevel_attrs() })
            } else if a.len() > 2 && a[0] == nc {
                Err(too_specific_message(a))
            } else {
                Ok(BuildTargetView::Flake { reference, attribute: seq![nc] + a + toplevel_attrs() })
            }
        },
        BuildTargetView::File { path, attribute } => Ok(
            BuildTargetView::File { path, attribute: attribute + toplevel_attrs() },
        ),
        BuildTargetView::Expression { expression, attribute } => Ok(
            BuildTargetView::Expression { expression, attribute: attribute + toplevel_attrs() },
        ),
        BuildTargetView::StorePath(p) => Ok(BuildTargetView::StorePath(p)),
    }
}

/// `segments` followed by the toplevel attributes.
fn with_toplevel(segments: Vec<String>) -> (res: AttrPath)
    ensures
        res@ == segments_of(segments@) + toplevel_attrs(),
{
    let mut v = segments;
    let ghost start = segments_of(v@);
    v.push(owned("config"));
    v.push(owned("system"));
    v.push(owned("build"));
    v.push(owned("toplevel"));
    assert(segments_of(v@) =~= start + toplevel_attrs());
    AttrPath::from_segments(v)
}

/// Completes a resolved target so that building it builds the NixOS
/// toplevel derivation; `hostname` names the configuration when the
/// target does not.
pub fn select_toplevel(target: BuildTarget, hostname: &str) -> (res: Result<BuildTarget, String>)
    ensures
        crate::target::target_result_view(res) == select_toplevel_spec(target@, hostname@),
{
    match target {
        BuildTarget::Flake { reference, attribute } => {
            let segs = attribute.to_vec();
            let ghost a = attribute@;
            assert(segments_of(segs@) == a);
            let n = segs.len();
            let first_is_nc = n > 0 && str_eq(segs[0].as_str(), "nixosConfigurations");
            if n == 0 {
                let v: Vec<String> = vec![owned("nixosConfigurations"), owned(hostname)];
                assert(segments_of(v@) =~= seq!["nixosConfigurations"@, hostname@]);
                Ok(BuildTarget::Flake { reference, attribute: with_toplevel(v) })
            } else if n == 1 && first_is_nc {
                let mut v = segs;
                v.push(owned(hostname));
                assert(segments_of(v@) =~= a.push(hostname@));
                Ok(BuildTarget::Flake { reference, attribute: with_toplevel(v) })
            } else if n == 2 && first_is_nc {
                Ok(BuildTarget::Flake { reference, attribute: with_toplevel(segs) })
            } else if n > 2 && first_is_nc {
                let mut m = concat_str("Attribute path is too specific: ", attribute.to_string().as_str());
                m.append(
                    ". Please either:\n  1. Use the flake reference without attributes (e.g., '.')\n  2. Specify only the configuration name (e.g., '.#",
                );
                m.append(segs[1].as_str());
                m.append("')");
                Err(m)
            } else {
                let mut v: Vec<String> = vec![owned("nixosConfigurations")];
                crate::nix_command::extend_strings(&mut v, &segs);
                assert(segments_of(v@) =~= seq!["nixosConfigurations"@] + a);
                Ok(BuildTarget::Flake { reference, attribute: with_toplevel(v) })
            }
        },
        BuildTarget::File { path, attribute } => Ok(BuildTarget::File { path, attribute: with_toplevel(attribute.to_vec()) }),
        BuildTarget::Expression { expression, attribute } => Ok(
            BuildTarget::Expression { expression, attribute: with_toplevel(attribute.to_vec()) },
        ),
        BuildTarget::StorePath(p) => Ok(BuildTarget::StorePath(p)),
    }
}

/// The out-link a plain build leaves: the one asked for, else `result`.
pub fn build_out_link(explicit: Option<&str>) -> (res: String)
    ensures
        res@ == match explicit {
            Some(p) => p@,
            None => "result"@,
        },
{
    match explicit {
        Some(p) => owned(p),
        None => owned("result"),
    }
}

/// Files a complete NixOS system closure holds, with what they are.
pub open spec fn essential_files() -> Seq<(Seq<char>, Seq<char>)> {
    seq![
        ("bin/switch-to-configuration"@, "activation script"@),
        ("nixos-version"@, "system version identifier"@),
        ("init"@, "system init script"@),
        ("sw/bin"@, "system path"@),
    ]
}

/// The essential files of a system closure, with their descriptions.
pub fn essential_file_list() -> (res: Vec<(&'static str, &'static str)>)
    ensures
        res@.map_values(|p: (&'static str, &'static str)| (p.0@, p.1@)) == essential_files(),
{
    let v: Vec<(&'static str, &'static str)> = vec![
        ("bin/switch-to-configuration", "activation script"),
        ("nixos-version", "system version identifier"),
        ("init", "system init script"),
        ("sw/bin", "system path"),
    ];
    assert(v@.map_values(|p: (&'static str, &'static str)| (p.0@, p.1@)) =~= essential_files());
    v
}

/// The line listing one missing file.
pub open spec fn missing_line(file: Seq<char>, description: Seq<char>) -> Seq<char> {
    "  - "@ + file + " ("@ + description + ")"@
}

/// The report of a system closure missing some essential files; `None`
/// when nothing is missing. `missing` pairs each missing file with its
/// description.
pub open spec fn closure_validation_spec(missing: Seq<(Seq<char>, Seq<char>)>, system_path: Seq<char>) -> Option<Seq<char>> {
    if missing.len() == 0 {
        None
    } else {
        Some(
            "System closure validation failed. Missing essential files:\n"@ + crate::text::join_spec(
                missing.map_values(|p: (Seq<char>, Seq<char>)| missing_line(p.0, p.1)),
                "\n"@,
            )
                + "\n\nThis typically happens when:\n1. 'system.switch.enable' is set to false in your configuration\n2. The build was incomplete or corrupted\n3. You're using an incomplete derivation\n\nTo fix this:\n1. Check if 'system.switch.enable = false' is set and remove it\n2. Rebuild your system configuration\n3. If the problem persists, verify your system closure is complete\n\nSystem path checked: "@
                + system_path,
        )
    }
}

/// The report of a system closure missing essential files.
pub fn closure_validation_error(missing: &Vec<(String, String)>, system_path: &str) -> (res: Option<String>)
    ensures
        crate::remote::opt_view(res) == closure_validation_spec(crate::command::pairs_view(missing@), system_path@),
{
    if missing.len() == 0 {
        return None;
    }
    let ghost pv = crate::command::pairs_view(missing@);
    let mut lines: Vec<String> = Vec::new();
    let mut i: usize = 0;
    while i < missing.len()
        invariant
            i <= missing.len(),
            pv == crate::command::pairs_view(missing@),
            strings_view(lines@) == pv.take(i as int).map_values(|p: (Seq<char>, Seq<char>)| missing_line(p.0, p.1)),
        decreases missing.len() - i,
    {
        let ghost prev = lines@;
        let mut l = concat_str("  - ", missing[i].0.as_str());
        l.append(" (");
        l.append(missing[i].1.as_str());
        l.append(")");
        lines.push(l);
        assert(strings_view(lines@) =~= strings_view(prev).push(missing_line(pv[i as int].0, pv[i as int].1)));
        assert(pv.take(i + 1).map_values(|p: (Seq<char>, Seq<char>)| missing_line(p.0, p.1)) =~= pv.take(
            i as int,
        ).map_values(|p: (Seq<char>, Seq<char>)| missing_line(p.0, p.1)).push(missing_line(pv[i as int].0, pv[i as int].1)));
        i = i + 1;
    }
    assert(pv.take(missing.len() as int) =~= pv);
    let mut m = concat_str("System closure validation failed. Missing essential files:\n", crate::text::join_strings(&lines, "\n").as_str());
    m.append(
        "\n\nThis typically happens when:\n1. 'system.switch.enable' is set to false in your configuration\n2. The build was incomplete or corrupted\n3. You're using an incomplete derivation\n\nTo fix this:\n1. Check if 'system.switch.enable = false' is set and remove it\n2. Rebuild your system configuration\n3. If the problem persists, verify your system closure is complete\n\nSystem path checked: ",
    );
    m.append(system_path);
    Some(m)
}

} // verus!

verus! {

/// The link of a named specialisation in a profile when it exists there;
/// `exists` says whether it does.
pub fn specialisation_in(profile: &str, spec: &str, exists: bool) -> (res: Option<String>)
    ensures
        exists ==> (res matches Some(l) && l@ == specialisation_link_spec(profile@, spec@)),
        !exists ==> res is None,
{
    if exists {
        Some(specialisation_link(profile, spec))
    } else {
        None
    }
}

} // verus!

verus! {

/// The target the REPL loads: a flake without attribute path gets
/// `nixosConfigurations.<hostname>`; a store path cannot be loaded.
pub open spec fn repl_target_spec(t: BuildTargetView, hostname: Seq<char>) -> Result<BuildTargetView, Seq<char>> {
    match t {
        BuildTargetView::StorePath(_) => Err("Nix doesn't support store path targets."@),
        BuildTargetView::Flake { reference, attribute } => if attribute.len() == 0 {
            Ok(BuildTargetView::Flake { reference, attribute: seq!["nixosConfigurations"@, hostname] })
        } else {
            Ok(t)
        },
        _ => Ok(t),
    }
}

/// The target the REPL loads for `target`; `hostname` names the
/// configuration of a bare flake reference.
pub fn repl_target(target: BuildTarget, hostname: &str) -> (res: Result<BuildTarget, String>)
    ensures
        crate::target::target_result_view(res) == repl_target_spec(target@, hostname@),
{
    match target {
        BuildTarget::StorePath(_) => Err(owned("Nix doesn't support store path targets.")),
        BuildTarget::Flake { reference, attribute } => if attribute.is_empty() {
            let v: Vec<String> = vec![owned("nixosConfigurations"), owned(hostname)];
            let a = AttrPath::from_segments(v);
            assert(a@ =~= seq!["nixosConfigurations"@, hostname@]);
            Ok(BuildTarget::Flake { reference, attribute: a })
        } else {
            Ok(BuildTarget::Flake { reference, attribute })
        },
        other => Ok(other),
    }
}

} // verus!
