use noah::elevation::{Elevation, ElevationStrategy};
use noah::os::{
    build_out_link, closure_validation_error, essential_file_list, repl_target, requires_elevation,
    resolve_specialisation, select_toplevel, specialisation_in, specialisation_link, SpecialisationSelection,
};
use noah::runtime::Env;
use noah::target::{AttrPath, BuildTarget};

fn flake_target(segments: &[&str]) -> BuildTarget {
    BuildTarget::Flake {
        reference: String::from("."),
        attribute: AttrPath::from_segments(segments.iter().map(|s| String::from(*s)).collect()),
    }
}

fn flake_attribute(target: &BuildTarget) -> Vec<String> {
    let BuildTarget::Flake { attribute, .. } = target else { panic!("expected flake target") };
    attribute.to_vec()
}

const TOPLEVEL_HOST: [&str; 6] = ["nixosConfigurations", "host", "config", "system", "build", "toplevel"];

#[test]
fn bare_flake_reference_infers_hostname() {
    let target = select_toplevel(flake_target(&[]), "host").unwrap();
    assert_eq!(flake_attribute(&target), TOPLEVEL_HOST);
}

#[test]
fn bare_nixos_configurations_infers_hostname() {
    let target = select_toplevel(flake_target(&["nixosConfigurations"]), "host").unwrap();
    assert_eq!(flake_attribute(&target), TOPLEVEL_HOST);
}

#[test]
fn complete_configuration_path_only_gains_toplevel() {
    let target = select_toplevel(flake_target(&["nixosConfigurations", "host"]), "other").unwrap();
    assert_eq!(flake_attribute(&target), TOPLEVEL_HOST);
}

#[test]
fn bare_configuration_name_is_qualified() {
    let target = select_toplevel(flake_target(&["myhost"]), "host").unwrap();
    assert_eq!(
        flake_attribute(&target),
        ["nixosConfigurations", "myhost", "config", "system", "build", "toplevel"]
    );
}

#[test]
fn too_specific_path_is_rejected() {
    let error = select_toplevel(flake_target(&["nixosConfigurations", "host", "extra"]), "host").unwrap_err();
    assert!(error.contains("too specific"));
    assert!(error.contains("'.#host'"));
}

#[test]
fn file_target_gains_toplevel_attribute() {
    let target = BuildTarget::File {
        path: String::from("/etc/nixos/configuration.nix"),
        attribute: AttrPath::from_segments(Vec::new()),
    };
    let target = select_toplevel(target, "host").unwrap();
    let BuildTarget::File { attribute, .. } = &target else { panic!("expected file target") };
    assert_eq!(attribute.to_vec(), ["config", "system", "build", "toplevel"]);
}

#[test]
fn store_path_target_is_kept() {
    let target = select_toplevel(BuildTarget::StorePath("/nix/store/x".to_string()), "host").unwrap();
    assert_eq!(target.to_args(), ["/nix/store/x"]);
}

#[test]
fn build_out_link_defaults_to_result() {
    assert_eq!(build_out_link(None), "result");
    assert_eq!(build_out_link(Some("/tmp/out")), "/tmp/out");
}

#[test]
fn specialisation_selection() {
    assert_eq!(resolve_specialisation(&SpecialisationSelection::Current, Some("gaming\n")).as_deref(), Some("gaming"));
    assert_eq!(resolve_specialisation(&SpecialisationSelection::Current, None), None);
    assert_eq!(resolve_specialisation(&SpecialisationSelection::Base, Some("gaming")), None);
    assert_eq!(
        resolve_specialisation(&SpecialisationSelection::Named("work".to_string()), None).as_deref(),
        Some("work")
    );
}

#[test]
fn specialisation_link_is_inside_the_profile() {
    assert_eq!(specialisation_link("/nix/store/abc-toplevel", "foo"), "/nix/store/abc-toplevel/specialisation/foo");
    assert_eq!(
        specialisation_in("/nix/store/abc-toplevel", "foo", true).as_deref(),
        Some("/nix/store/abc-toplevel/specialisation/foo")
    );
}

#[test]
fn missing_specialisation_has_no_link() {
    assert_eq!(specialisation_in("/nix/store/abc-toplevel", "missing", false), None);
}

#[test]
fn root_guard_and_elevation_need() {
    let env = Env::from_pairs(Vec::new());
    let auto = Elevation::new(Some(ElevationStrategy::Auto), &env).unwrap();
    let none = Elevation::new(Some(ElevationStrategy::Disabled), &env).unwrap();
    assert_eq!(requires_elevation(false, &auto, false), Ok(true));
    assert_eq!(requires_elevation(true, &auto, true), Ok(false));
    assert!(requires_elevation(false, &auto, true).unwrap_err().starts_with("Don't run nh os as root."));
    assert_eq!(requires_elevation(false, &none, true), Ok(false));
}

#[test]
fn closure_validation_lists_missing_files() {
    assert_eq!(essential_file_list().len(), 4);
    assert_eq!(closure_validation_error(&Vec::new(), "/nix/store/x"), None);
    let missing = vec![("init".to_string(), "system init script".to_string())];
    let report = closure_validation_error(&missing, "/nix/store/x").unwrap();
    assert!(report.starts_with("System closure validation failed. Missing essential files:\n  - init (system init script)\n"));
    assert!(report.ends_with("System path checked: /nix/store/x"));
}

#[test]
fn repl_loads_the_hosts_configuration() {
    let target = repl_target(flake_target(&[]), "host").unwrap();
    assert_eq!(flake_attribute(&target), ["nixosConfigurations", "host"]);
    let named = repl_target(flake_target(&["nixosConfigurations", "other"]), "host").unwrap();
    assert_eq!(flake_attribute(&named), ["nixosConfigurations", "other"]);
    let err = repl_target(BuildTarget::StorePath(String::from("/nix/store/abc-system")), "host").unwrap_err();
    assert_eq!(err, "Nix doesn't support store path targets.");
}

#[test]
fn recorded_specialisation_is_trimmed_as_str_trim_does() {
    for code in 0..0x3100u32 {
        if let Some(c) = char::from_u32(code) {
            let recorded = format!("{c}{c}gaming{c}");
            let expected = recorded.trim().to_string();
            assert_eq!(
                resolve_specialisation(&SpecialisationSelection::Current, Some(&recorded)),
                Some(expected),
                "character {code:#x}"
            );
        }
    }
}
