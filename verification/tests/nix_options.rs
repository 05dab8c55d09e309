use noah::nix_options::{parse_boolish, NixBuildOptions};

fn rendered(options: &NixBuildOptions) -> Vec<String> {
    options.to_args()
}

#[test]
fn no_build_output_maps_to_nix_quiet_flag() {
    let options = NixBuildOptions { no_build_output: true, ..Default::default() };
    assert_eq!(rendered(&options), ["--quiet"]);
}

#[test]
fn option_pairs_are_emitted() {
    let options = NixBuildOptions {
        option: vec![("sandbox".into(), "false".into()), ("cores".into(), "4".into())],
        ..Default::default()
    };
    assert_eq!(rendered(&options), ["--option", "sandbox", "false", "--option", "cores", "4"]);
}

#[test]
fn override_input_pairs_are_emitted() {
    let options = NixBuildOptions {
        override_input: vec![("nixpkgs".into(), "github:NixOS/nixpkgs/nixos-unstable".into())],
        ..Default::default()
    };
    assert_eq!(
        rendered(&options),
        ["--override-input", "nixpkgs", "github:NixOS/nixpkgs/nixos-unstable"]
    );
}

#[test]
fn deprecated_no_registries_renders_the_new_flag() {
    let options = NixBuildOptions { no_registries: true, ..Default::default() };
    assert_eq!(rendered(&options), ["--no-use-registries"]);
}

#[test]
fn default_options_render_nothing() {
    assert!(rendered(&NixBuildOptions::default()).is_empty());
}

#[test]
fn appended_arguments_follow_existing_ones() {
    let options = NixBuildOptions { impure: true, max_jobs: Some(4), ..Default::default() };
    let mut args = vec!["build".to_string()];
    options.append_args(&mut args);
    assert_eq!(args[0], "build");
    assert_eq!(args[1..].to_vec(), options.to_args());
    assert!(args.iter().any(|a| a == "--impure"));
    assert!(args.windows(2).any(|w| w[0] == "--max-jobs" && w[1] == "4"));
}

#[test]
fn boolish_env_table_matches_clap() {
    for value in ["y", "yes", "t", "true", "on", "1", "TRUE", "Yes"] {
        assert_eq!(parse_boolish(value), Some(true), "value: {value}");
    }
    for value in ["n", "no", "f", "false", "off", "0", "OFF"] {
        assert_eq!(parse_boolish(value), Some(false), "value: {value}");
    }
    assert_eq!(parse_boolish("maybe"), None);
    assert_eq!(parse_boolish(""), None);
}
