use noah::config::{flake_config, flake_migration, RuntimeConfig};
use noah::elevation::ElevationStrategy;
use noah::runtime::Env;

fn env_of(pairs: &[(&str, &str)]) -> Env {
    Env::from_pairs(pairs.iter().map(|(k, v)| (k.to_string(), v.to_string())).collect())
}

#[test]
fn setup_environment_flake_to_nh_flake_migration() {
    let m = flake_migration(&env_of(&[("FLAKE", "/test/flake")]));
    assert_eq!(m.set_nh_flake.as_deref(), Some("/test/flake"));
    assert!(m.warn);
}

#[test]
fn setup_environment_no_migration_when_nh_flake_exists() {
    let m = flake_migration(&env_of(&[("FLAKE", "/test/flake"), ("NH_FLAKE", "/existing/flake")]));
    assert_eq!(m.set_nh_flake, None);
    assert!(!m.warn);
}

#[test]
fn setup_environment_no_migration_when_specific_flake_vars_exist() {
    let m = flake_migration(&env_of(&[("FLAKE", "/test/flake"), ("NH_OS_FLAKE", "/os/flake")]));
    assert_eq!(m.set_nh_flake.as_deref(), Some("/test/flake"));
    assert!(!m.warn);
}

#[test]
fn flake_settings_skip_empty_values() {
    let c = flake_config(&env_of(&[("NH_FLAKE", ""), ("NH_OS_FLAKE", "/etc/nixos"), ("NH_ATTRP", "a.b")]));
    assert_eq!(c.flake, None);
    assert_eq!(c.os_flake.as_deref(), Some("/etc/nixos"));
    assert_eq!(c.file, None);
    assert_eq!(c.attrp, "a.b");
}

#[test]
fn runtime_configuration_is_assembled() {
    let env = env_of(&[("NH_FLAKE", "/srv/flake"), ("NH_SSHOPTS", "-p 22")]);
    let config = RuntimeConfig::from_env(env, Some(ElevationStrategy::Auto), 5).ok().unwrap();
    assert_eq!(config.flake.flake.as_deref(), Some("/srv/flake"));
    assert_eq!(config.ssh.user_opts(), &["-p", "22"]);
    assert!(!config.elevation.is_disabled());
    let bad = RuntimeConfig::from_env(env_of(&[("NH_SUDOOPTS", "'x")]), None, 5);
    assert!(bad.is_err());
}

#[test]
fn preferred_shell_words_override_legacy_value() {
    let env = env_of(&[("NH_OPTS", "--option 'two words'"), ("NIX_OPTS", "--legacy")]);
    assert_eq!(env.shell_words("NH_OPTS", "NIX_OPTS").unwrap(), ["--option", "two words"]);
}

#[test]
fn empty_preferred_shell_words_disable_legacy_value() {
    let env = env_of(&[("NH_OPTS", ""), ("NIX_OPTS", "--legacy")]);
    assert!(env.shell_words("NH_OPTS", "NIX_OPTS").unwrap().is_empty());
}

#[test]
fn legacy_shell_words_are_used_when_preferred_is_unset() {
    let env = env_of(&[("NIX_OPTS", "--legacy x")]);
    assert_eq!(env.shell_words("NH_OPTS", "NIX_OPTS").unwrap(), ["--legacy", "x"]);
}

#[test]
fn malformed_shell_words_are_rejected() {
    let env = env_of(&[("NH_OPTS", "'unterminated")]);
    let error = env.shell_words("NH_OPTS", "NIX_OPTS").unwrap_err();
    assert!(error.contains("NH_OPTS"));
}

#[test]
fn child_environment_keeps_only_known_variables() {
    let env = env_of(&[("USER", "u"), ("SECRET_TOKEN", "hunter2"), ("NIX_PATH", "nixpkgs=/x")]);
    let vars = env.child_env();
    assert!(vars.iter().any(|(k, v)| k == "USER" && v == "u"));
    assert!(vars.iter().any(|(k, _)| k == "NIX_PATH"));
    assert!(!vars.iter().any(|(k, _)| k == "SECRET_TOKEN"));
    assert_eq!(env.variable_count(), 3);
    assert_eq!(env.non_empty_var("USER"), Some("u"));
}

#[test]
fn debug_output_does_not_expose_environment_values() {
    let env = Env::from_pairs(vec![("SECRET_TOKEN".to_string(), "hunter2".to_string())]);
    let rendered = env.debug_summary();
    assert!(rendered.contains("variable_count"));
    assert!(!rendered.contains("SECRET_TOKEN"));
    assert!(!rendered.contains("hunter2"));
}
