use noah::rollback::{switch_outcome, GenerationSummary as Summary, SwitchOutcome};
use noah::os::from_dir;
use noah::rollback::{
    activation_failure, current_generation, final_profile, find_previous_generation, generation_link,
    get_generation_by_number, list_generations, restore_link, rollback_target, set_profile_args, summarize,
    GenerationSummary,
};

fn gen(number: u64, current: bool) -> GenerationSummary {
    GenerationSummary { number, current }
}

fn entry(path: &str, current: bool) -> (String, bool) {
    (path.to_string(), current)
}

#[test]
fn generations_are_listed_in_number_order() {
    let entries = vec![
        entry("/nix/var/nix/profiles/system-12-link", false),
        entry("/nix/var/nix/profiles/system", false),
        entry("/nix/var/nix/profiles/system-3-link", true),
        entry("/nix/var/nix/profiles/per-user", false),
        entry("/nix/var/nix/profiles/system-7-link", false),
    ];
    let gens = list_generations(&entries).unwrap();
    assert_eq!(gens, vec![gen(3, true), gen(7, false), gen(12, false)]);
}

#[test]
fn no_generations_is_an_error() {
    let entries = vec![entry("/nix/var/nix/profiles/system", false)];
    assert_eq!(list_generations(&entries).unwrap_err(), "No generations found");
}

#[test]
fn previous_generation_is_the_latest_older_one() {
    let gens = vec![gen(3, false), gen(5, false), gen(9, true), gen(12, false)];
    assert_eq!(find_previous_generation(9, &gens).unwrap(), gen(5, false));
    assert_eq!(
        find_previous_generation(3, &gens).unwrap_err(),
        "No generation older than the current one exists"
    );
    assert_eq!(find_previous_generation(4, &gens).unwrap_err(), "Current generation not found");
}

#[test]
fn current_and_numbered_generations_are_found() {
    let gens = vec![gen(3, false), gen(9, true)];
    assert_eq!(current_generation(&gens).unwrap(), gen(9, true));
    assert_eq!(get_generation_by_number(3, &gens).unwrap(), gen(3, false));
    assert_eq!(get_generation_by_number(4, &gens).unwrap_err(), "Generation 4 not found");
    assert_eq!(current_generation(&vec![gen(3, false)]).unwrap_err(), "Current generation not found");
}

#[test]
fn rollback_targets_the_requested_or_previous_generation() {
    let gens = vec![gen(3, false), gen(5, false), gen(9, true)];
    let previous = rollback_target(None, &gens).unwrap();
    assert_eq!(previous.current, gen(9, true));
    assert_eq!(previous.target, gen(5, false));
    let requested = rollback_target(Some(3), &gens).unwrap();
    assert_eq!(requested.target, gen(3, false));
    assert_eq!(rollback_target(Some(4), &gens).unwrap_err(), "Generation 4 not found");
}

#[test]
fn generation_links_and_profile_arguments() {
    assert_eq!(generation_link(42), "/nix/var/nix/profiles/system-42-link");
    assert_eq!(
        set_profile_args("/nix/var/nix/profiles/system-42-link"),
        ["-sfn", "/nix/var/nix/profiles/system-42-link", "/nix/var/nix/profiles/system"]
    );
    assert_eq!(restore_link(gen(7, true)).as_deref(), Some("/nix/var/nix/profiles/system-7-link"));
    assert_eq!(restore_link(gen(0, true)), None);
}

#[test]
fn final_profile_uses_an_existing_specialisation() {
    let link = "/nix/var/nix/profiles/system-7-link";
    assert_eq!(final_profile(link, Some("gaming"), true), "/nix/var/nix/profiles/system-7-link/specialisation/gaming");
    assert_eq!(final_profile(link, Some("gaming"), false), link);
    assert_eq!(final_profile(link, None, true), link);
}

#[test]
fn generation_numbers_are_read_from_link_names() {
    assert_eq!(from_dir("/nix/var/nix/profiles/system-42-link"), Some(42));
    assert_eq!(from_dir("/nix/var/nix/profiles/system"), None);
    assert_eq!(from_dir("/home/u/.local/state/nix/profiles/home-manager-7-link"), Some(7));
    assert_eq!(from_dir("profiles/system-3-link"), Some(3));
    assert_eq!(from_dir("system-5-link"), Some(5));
    assert_eq!(from_dir("/nix/var/nix/profiles/system-abc-link"), None);
    assert_eq!(summarize("/nix/var/nix/profiles/system-8-link", true), Some(gen(8, true)));
    assert_eq!(activation_failure("boom"), "Activation (switch) failed: boom");
}

#[test]
fn a_failed_switch_restores_the_current_generation() {
    let current = Summary { number: 7, current: true };
    match switch_outcome(None, current, 6) {
        SwitchOutcome::Succeeded(m) => assert_eq!(m, "Successfully rolled back to generation 6"),
        other => panic!("expected success, got {other:?}"),
    }
    match switch_outcome(Some("boom"), current, 6) {
        SwitchOutcome::Failed { restore, report } => {
            assert_eq!(restore.as_deref(), Some("/nix/var/nix/profiles/system-7-link"));
            assert_eq!(report, "Activation (switch) failed: boom");
        }
        other => panic!("expected failure, got {other:?}"),
    }
    let first = Summary { number: 0, current: true };
    assert!(matches!(switch_outcome(Some("boom"), first, 6), SwitchOutcome::Failed { restore: None, .. }));
}
