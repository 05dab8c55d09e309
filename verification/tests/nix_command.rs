use noah::nix_command::{assemble_args, CommandKind, NixCmdError, NixCommand};

fn strings(words: &[&str]) -> Vec<String> {
    words.iter().map(|w| w.to_string()).collect()
}

#[test]
fn argv_is_deterministic_and_schema_driven() {
    let argv = NixCommand::new(CommandKind::Build).arg("--impure").arg("nixpkgs#hello").argv();
    assert_eq!(argv, ["nix", "build", "--print-build-logs", "--impure", "nixpkgs#hello"]);
}

#[test]
fn no_build_output_suppresses_print_build_logs() {
    let argv = NixCommand::new(CommandKind::Build).arg("--no-build-output").argv();
    assert_eq!(argv, ["nix", "build", "--no-build-output"]);
}

#[test]
fn eval_defaults_to_quiet_schema() {
    assert_eq!(NixCommand::new(CommandKind::Eval).argv(), ["nix", "eval"]);
}

#[test]
fn lib_interactive_defaults_are_schema_owned() {
    assert!(NixCommand::new(CommandKind::Repl).is_interactive());
    assert!(!NixCommand::new(CommandKind::Build).is_interactive());
}

#[test]
fn nix_command_interactive_defaults_are_schema_owned() {
    assert!(CommandKind::Repl.interactive());
    assert!(!CommandKind::Build.interactive());
}

#[test]
fn global_args_are_inserted_before_subcommand() {
    let argv = NixCommand::new(CommandKind::Eval)
        .global_args(&strings(&["--extra-experimental-features", "nix-command flakes"]))
        .arg("--raw")
        .arg("nixpkgs#hello")
        .argv();
    assert_eq!(
        argv,
        ["nix", "--extra-experimental-features", "nix-command flakes", "eval", "--raw", "nixpkgs#hello"]
    );
}

#[test]
fn print_build_logs_can_be_switched_off() {
    let argv = NixCommand::new(CommandKind::Build).print_build_logs(false).arg("x").argv();
    assert_eq!(argv, ["nix", "build", "x"]);
    let copy = NixCommand::new(CommandKind::Copy).arg("x").argv();
    assert_eq!(copy, ["nix", "copy", "x"]);
}

#[test]
fn assembled_words_follow_the_schema() {
    let words = assemble_args(CommandKind::PathInfo, false, &strings(&["-v"]), &strings(&["--json"]));
    assert_eq!(words, ["-v", "path-info", "--json"]);
}

#[test]
fn environment_and_timeout_are_kept() {
    let cmd = NixCommand::new(CommandKind::Build)
        .env("A", "1")
        .with_timeout(std::time::Duration::from_secs(3));
    assert_eq!(cmd.env_pairs(), &[("A".to_string(), "1".to_string())]);
    assert_eq!(cmd.timeout(), Some(std::time::Duration::from_secs(3)));
    assert_eq!(cmd.program_args(), ["build", "--print-build-logs"]);
    let ctx = cmd.timeout_context().unwrap();
    match ctx.into_error() {
        NixCmdError::Timeout { command, duration } => {
            assert_eq!(command, "nix build");
            assert_eq!(duration, std::time::Duration::from_secs(3));
        }
        NixCmdError::Io(_) => panic!("expected a timeout"),
    }
}
