use std::collections::BTreeMap;

use noah::command::{apply_env_action, self_elevate, Command, EnvAction};
use noah::elevation::{resolve_with, Elevation, ElevationStrategy};
use noah::runtime::Env;

fn env_of(pairs: &[(&str, &str)]) -> Env {
    Env::from_pairs(pairs.iter().map(|(k, v)| (k.to_string(), v.to_string())).collect())
}

fn environment(command: &Command<'_>, elevated: bool) -> BTreeMap<String, String> {
    command.environment(elevated).into_iter().collect()
}

fn strings(words: &[&str]) -> Vec<String> {
    words.iter().map(|w| w.to_string()).collect()
}

#[test]
fn child_environment_is_selected_from_the_startup_snapshot() {
    let env = env_of(&[
        ("USER", "teapot"),
        ("HOME", "/home/teapot"),
        ("PATH", "/run/current-system/sw/bin"),
        ("NIX_CONFIG", "experimental-features = nix-command flakes"),
        ("NH_FLAKE", "/configuration"),
    ]);
    let elevation = Elevation::new(Some(ElevationStrategy::Auto), &env).unwrap();
    let command = Command::new("true", &env, &elevation);

    let vars = environment(&command, false);
    assert_eq!(vars.get("USER").map(String::as_str), Some("teapot"));
    assert_eq!(vars.get("HOME").map(String::as_str), Some("/home/teapot"));
    assert_eq!(vars.get("PATH").map(String::as_str), Some("/run/current-system/sw/bin"));
    assert!(vars.contains_key("NIX_CONFIG"));
    assert!(!vars.contains_key("NH_FLAKE"));
}

#[test]
fn elevated_environment_honors_preservation_policy() {
    let env = env_of(&[
        ("USER", "teapot"),
        ("HOME", "/home/teapot"),
        ("PATH", "/bin"),
        ("NIXOS_NO_CHECK", "1"),
        ("NH_PRESERVE_ENV", "0"),
    ]);
    let elevation = Elevation::new(Some(ElevationStrategy::Auto), &env).unwrap();
    let command = Command::new("true", &env, &elevation)
        .preserve_envs(&strings(&["NIXOS_NO_CHECK"]))
        .set_env("NIXOS_INSTALL_BOOTLOADER", "1");

    let vars = environment(&command, true);
    assert_eq!(vars.get("USER").map(String::as_str), Some("teapot"));
    assert!(!vars.contains_key("HOME"));
    assert!(!vars.contains_key("PATH"));
    assert!(!vars.contains_key("NIXOS_NO_CHECK"));
    assert_eq!(vars.get("NIXOS_INSTALL_BOOTLOADER").map(String::as_str), Some("1"));
}

#[test]
fn explicit_environment_override_wins_over_captured_value() {
    let env = env_of(&[("NIXOS_NO_CHECK", "0")]);
    let elevation = Elevation::new(Some(ElevationStrategy::Auto), &env).unwrap();
    let command = Command::new("true", &env, &elevation)
        .preserve_envs(&strings(&["NIXOS_NO_CHECK"]))
        .set_env("NIXOS_NO_CHECK", "1");

    let vars = environment(&command, true);
    assert_eq!(vars.get("NIXOS_NO_CHECK").map(String::as_str), Some("1"));
}

#[test]
fn later_override_of_the_same_key_wins() {
    let env = env_of(&[]);
    let elevation = Elevation::new(Some(ElevationStrategy::Auto), &env).unwrap();
    let command = Command::new("true", &env, &elevation).set_env("A", "1").set_env("A", "2");
    let vars = command.environment(false);
    assert_eq!(vars.iter().filter(|(k, _)| k == "A").count(), 1);
    assert_eq!(environment(&command, false).get("A").map(String::as_str), Some("2"));
}

#[test]
fn sudo_invocation_carries_options_askpass_and_environment() {
    let env = env_of(&[
        ("USER", "teapot"),
        ("NH_SUDOOPTS", "-E --preserve-env"),
        ("NH_SUDO_ASKPASS", "/bin/askpass"),
    ]);
    let elevation = Elevation::new(Some(ElevationStrategy::Auto), &env).unwrap();
    let command = Command::new("true", &env, &elevation).elevate(true);
    let parts = command.elevation_parts_for("/run/wrappers/bin/sudo").ok().unwrap();
    assert_eq!(parts.program, "/run/wrappers/bin/sudo");
    assert_eq!(parts.askpass.as_deref(), Some("/bin/askpass"));
    assert_eq!(&parts.args[..4], &["-A", "-E", "--preserve-env", "env"]);
    assert!(parts.args.iter().any(|a| a == "USER=teapot"));
}

#[test]
fn run0_gets_a_late_pty() {
    let env = env_of(&[]);
    let elevation = Elevation::new(Some(ElevationStrategy::Auto), &env).unwrap();
    let command = Command::new("true", &env, &elevation);
    let parts = command.elevation_parts_for("/usr/bin/run0").ok().unwrap();
    assert_eq!(&parts.args[..2], &["--pty-late", "env"]);
    assert!(parts.askpass.is_none());
}

#[test]
fn disabled_elevation_cannot_self_elevate() {
    let env = env_of(&[]);
    let elevation = Elevation::new(Some(ElevationStrategy::Disabled), &env).unwrap();
    assert!(self_elevate(&elevation, &env).is_err());
}

#[test]
fn env_actions_assign_preserve_and_remove() {
    let env = env_of(&[("A", "x")]);
    assert_eq!(
        apply_env_action(&env, "B", &EnvAction::Assign("y".to_string())),
        Some(("B".to_string(), "y".to_string()))
    );
    assert_eq!(apply_env_action(&env, "A", &EnvAction::Preserve), Some(("A".to_string(), "x".to_string())));
    assert_eq!(apply_env_action(&env, "C", &EnvAction::Preserve), None);
    assert_eq!(apply_env_action(&env, "A", &EnvAction::Remove), None);
}

#[test]
fn elevation_configuration_uses_preferred_shell_words() {
    let env = env_of(&[
        ("NH_SUDOOPTS", "--preserve-env='NIX_CONFIG NIX_PATH'"),
        ("NIX_SUDOOPTS", "--legacy"),
        ("NH_SUDO_ASKPASS", "/bin/askpass"),
        ("NH_PRESERVE_ENV", "0"),
    ]);
    let elevation = Elevation::new(Some(ElevationStrategy::Auto), &env).unwrap();
    assert_eq!(elevation.sudo_opts(), &["--preserve-env=NIX_CONFIG NIX_PATH"]);
    assert_eq!(elevation.askpass(), Some("/bin/askpass"));
    assert!(!elevation.preserves_env());
}

#[test]
fn disabled_elevation_fails_to_resolve() {
    let env = env_of(&[("PATH", "/nonexistent")]);
    let elevation = Elevation::new(Some(ElevationStrategy::Disabled), &env).unwrap();
    let error = elevation.program(&env).unwrap_err();
    assert!(error.contains("Elevation disabled"));
}

#[test]
fn deprecated_env_var_fallback_selects_strategy() {
    let env = env_of(&[("NH_ELEVATION_PROGRAM", "none")]);
    let elevation = Elevation::new(None, &env).unwrap();
    assert!(elevation.is_disabled());
}

#[test]
fn elevation_program_prefix_is_parsed() {
    let parsed = "program:/path/to/bin".parse::<ElevationStrategy>().unwrap();
    assert_eq!(parsed, ElevationStrategy::Program("/path/to/bin".to_string()));
}

#[test]
fn strategy_names_are_parsed() {
    assert_eq!("none".parse::<ElevationStrategy>().unwrap(), ElevationStrategy::Disabled);
    assert_eq!("auto".parse::<ElevationStrategy>().unwrap(), ElevationStrategy::Auto);
    assert_eq!("passwordless".parse::<ElevationStrategy>().unwrap(), ElevationStrategy::Passwordless);
    assert_eq!(ElevationStrategy::from_value("doas"), ElevationStrategy::Program("doas".to_string()));
}

#[test]
fn detection_prefers_the_first_program_found() {
    let found = vec![None, Some("/usr/bin/sudo".to_string()), Some("/usr/bin/run0".to_string()), None];
    assert_eq!(resolve_with(&ElevationStrategy::Auto, None, &found).unwrap(), "/usr/bin/sudo");
    assert!(resolve_with(&ElevationStrategy::Disabled, None, &found).unwrap_err().contains("Elevation disabled"));
}

#[test]
fn plain_invocation_runs_the_program_with_the_child_environment() {
    let env = env_of(&[("USER", "teapot"), ("NH_FLAKE", "/configuration")]);
    let elevation = Elevation::new(Some(ElevationStrategy::Auto), &env).unwrap();
    let command = Command::new("nix", &env, &elevation).arg("build").set_env("A", "1");
    let invocation = command.invocation().ok().unwrap();
    assert_eq!(invocation.program, "nix");
    assert_eq!(invocation.args, strings(&["build"]));
    assert_eq!(invocation.env, command.environment(false));
    assert!(invocation.env.contains(&("A".to_string(), "1".to_string())));
}

#[test]
fn elevated_invocation_puts_the_program_after_the_elevation_prefix() {
    let env = env_of(&[("USER", "teapot"), ("NH_SUDO_ASKPASS", "/bin/askpass")]);
    let elevation = Elevation::new(Some(ElevationStrategy::Auto), &env).unwrap();
    let command = Command::new("switch-to-configuration", &env, &elevation).arg("switch").elevate(true);
    let parts = command.elevation_parts_for("/run/wrappers/bin/sudo").ok().unwrap();
    let prefix = parts.args.clone();
    let invocation = command.elevated_invocation(parts);
    assert_eq!(invocation.program, "/run/wrappers/bin/sudo");
    assert_eq!(&invocation.args[..prefix.len()], &prefix[..]);
    assert_eq!(&invocation.args[prefix.len()..], &strings(&["switch-to-configuration", "switch"])[..]);
    assert_eq!(invocation.env, vec![("SUDO_ASKPASS".to_string(), "/bin/askpass".to_string())]);
}

#[test]
fn disabled_elevation_refuses_an_elevated_invocation() {
    let env = env_of(&[]);
    let elevation = Elevation::new(Some(ElevationStrategy::Disabled), &env).unwrap();
    let command = Command::new("true", &env, &elevation).elevate(true);
    assert!(command.invocation().is_err());
}
