use noah::os::SpecialisationSelection;
use noah::request::{specialisation_from_flags, update_step, DiffDecision, Mode, Rollback, Selection, Update, UpdateStep};
use noah::target::{AttrPath, BuildTarget};

#[test]
fn diff_modes_are_named() {
    assert_eq!("always".parse::<Mode>().unwrap(), Mode::Always);
    assert_eq!(Mode::from_name("never").unwrap(), Mode::Never);
    assert_eq!(Mode::Auto.as_str(), "auto");
    assert_eq!(Mode::from_name("sometimes").unwrap_err(), "expected one of `auto`, `always`, `never`, got `sometimes`");
}

#[test]
fn diff_is_shown_when_both_profiles_exist() {
    assert_eq!(Mode::Auto.decide(true, true), DiffDecision::Show);
    assert_eq!(Mode::Auto.decide(false, true), DiffDecision::NoCurrentProfile);
    assert_eq!(Mode::Auto.decide(true, false), DiffDecision::NoTargetProfile);
    assert_eq!(Mode::Never.decide(true, true), DiffDecision::Disabled);
    assert_eq!(Mode::Always.decide(false, false), DiffDecision::Show);
}

#[test]
fn update_flags_select_inputs() {
    assert!(matches!(Update { update_all: true, update_input: None }.selection(), Some(Selection::All)));
    assert!(matches!(Update { update_all: false, update_input: Some(vec![]) }.selection(), Some(Selection::All)));
    assert!(Update { update_all: false, update_input: None }.selection().is_none());
    let named = Update { update_all: false, update_input: Some(vec!["nixpkgs".to_string()]) }.selection();
    assert!(matches!(named, Some(Selection::Inputs(v)) if v == ["nixpkgs"]));
}

#[test]
fn flake_update_command_and_message() {
    let target = BuildTarget::Flake { reference: "/etc/nixos".to_string(), attribute: AttrPath::from_segments(vec![]) };
    let selection = Selection::Inputs(vec!["nixpkgs".to_string(), "home-manager".to_string()]);
    match update_step(&target, &selection, true) {
        UpdateStep::Run { command, message } => {
            assert_eq!(message, "Updating flake inputs nixpkgs, home-manager");
            assert_eq!(
                command.argv(),
                ["nix", "flake", "update", "--commit-lock-file", "nixpkgs", "home-manager", "--flake", "/etc/nixos"]
            );
        }
        UpdateStep::Unsupported(m) => panic!("unexpected: {m}"),
    }
    match update_step(&target, &Selection::All, false) {
        UpdateStep::Run { command, message } => {
            assert_eq!(message, "Updating all flake inputs");
            assert_eq!(command.argv(), ["nix", "flake", "update", "--flake", "/etc/nixos"]);
        }
        UpdateStep::Unsupported(m) => panic!("unexpected: {m}"),
    }
}

#[test]
fn only_flakes_can_be_updated() {
    let target = BuildTarget::File { path: "/etc/nixos/configuration.nix".to_string(), attribute: AttrPath::from_segments(vec![]) };
    match update_step(&target, &Selection::All, false) {
        UpdateStep::Unsupported(m) => assert_eq!(m, "Only flake targets can be updated, file is not supported"),
        UpdateStep::Run { .. } => panic!("a file cannot be updated"),
    }
}

#[test]
fn specialisation_flags_select_base_named_or_current() {
    assert!(matches!(specialisation_from_flags(Some("x".to_string()), true), SpecialisationSelection::Base));
    assert!(matches!(specialisation_from_flags(Some("x".to_string()), false), SpecialisationSelection::Named(n) if n == "x"));
    assert!(matches!(specialisation_from_flags(None, false), SpecialisationSelection::Current));
}

#[test]
fn rollback_request_keeps_its_flags() {
    let request = Rollback {
        dry: true,
        ask: false,
        specialisation: None,
        no_specialisation: true,
        to: Some(4),
        bypass_root_check: false,
        diff: Mode::Never,
    }
    .into_request();
    assert!(request.dry);
    assert_eq!(request.to, Some(4));
    assert_eq!(request.diff, Mode::Never);
    assert!(matches!(request.specialisation, SpecialisationSelection::Base));
}
