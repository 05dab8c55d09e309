use noah::remote::{
    close_control_args, drv_with_outputs, first_output_line, format_copy_failure, is_control_socket,
    need_local_copy, remote_build_argv, remote_command_line, shell_quote, store_uri, CopyDirection,
    Delivery, Host, RemoteHost, Resolution, ResolvedRemoteStorePath, SpinnerWriter, SshConfig,
    SshControlGuard, accept_password, activation_steps, build_remote_command, password_step, remote_command_for, ActivateRemoteConfig,
    ActivationType, PasswordCache, PasswordStep, Platform,
};
use noah::elevation::ElevationStrategy;
use noah::runtime::Env;

fn env_of(pairs: &[(&str, &str)]) -> Env {
    Env::from_pairs(pairs.iter().map(|(k, v)| (k.to_string(), v.to_string())).collect())
}

/// The SSH host of a parsed host, with the IPv6 check answered for the
/// addresses these tests use (all bracketed ones are valid IPv6).
fn ssh_host_of(host: &Host) -> String {
    let is_ipv6 = host.ipv6_candidate().is_some();
    host.ssh_host(is_ipv6)
}

#[test]
fn parse_bare_hostname() {
    let host = Host::parse("buildserver").expect("should parse");
    assert_eq!(host.to_string(), "buildserver");
}

#[test]
fn parse_user_at_hostname() {
    let host = Host::parse("root@buildserver").expect("should parse");
    assert_eq!(host.to_string(), "root@buildserver");
}

#[test]
fn parse_ssh_uri_preserves_store_scheme() {
    let host = Host::parse("ssh://buildserver").expect("should parse");
    assert_eq!(host.to_string(), "buildserver");
    assert_eq!(host.nix_store_uri(), "ssh://buildserver");
}

#[test]
fn parse_ssh_ng_uri_stripped() {
    let host = Host::parse("ssh-ng://buildserver").expect("should parse");
    assert_eq!(host.to_string(), "buildserver");
}

#[test]
fn parse_ssh_uri_with_user_preserves_store_scheme() {
    let host = Host::parse("ssh://root@buildserver").expect("should parse");
    assert_eq!(host.to_string(), "root@buildserver");
    assert_eq!(host.nix_store_uri(), "ssh://root@buildserver");
}

#[test]
fn parse_ssh_ng_uri_with_user() {
    let host = Host::parse("ssh-ng://admin@buildserver").expect("should parse");
    assert_eq!(host.to_string(), "admin@buildserver");
}

#[test]
fn parse_empty_fails() {
    Host::parse("").unwrap_err();
}

#[test]
fn parse_empty_user_fails() {
    Host::parse("@hostname").unwrap_err();
}

#[test]
fn parse_empty_hostname_fails() {
    Host::parse("user@").unwrap_err();
}

#[test]
fn parse_port_rejected() {
    let Err(err) = Host::parse("hostname:22") else {
        panic!("expected error for port in hostname");
    };
    assert!(err.contains("NIX_SSHOPTS"));
}

#[test]
fn parse_ipv6_bracketed() {
    let host = Host::parse("[2001:db8::1]").expect("should parse IPv6");
    assert_eq!(host.to_string(), "[2001:db8::1]");
    assert_eq!(host.hostname(), "[2001:db8::1]");
}

#[test]
fn parse_ipv6_with_user() {
    let host = Host::parse("root@[2001:db8::1]").expect("should parse IPv6 with user");
    assert_eq!(host.to_string(), "root@[2001:db8::1]");
    assert_eq!(host.hostname(), "[2001:db8::1]");
}

#[test]
fn parse_ipv6_with_zone_id() {
    let host = Host::parse("[fe80::1%eth0]").expect("should parse IPv6 with zone");
    assert_eq!(host.to_string(), "[fe80::1%eth0]");
}

#[test]
fn parse_ipv6_ssh_ng_uri() {
    let host = Host::parse("ssh-ng://[2001:db8::1]").expect("should parse IPv6 SSH-NG URI");
    assert_eq!(host.to_string(), "[2001:db8::1]");
}

#[test]
fn parse_ipv6_ssh_ng_uri_with_user() {
    let host = Host::parse("ssh-ng://root@[2001:db8::1]").expect("should parse IPv6 SSH-NG URI with user");
    assert_eq!(host.to_string(), "root@[2001:db8::1]");
}

#[test]
fn parse_ipv6_ssh_uri_preserves_store_scheme() {
    let host = Host::parse("ssh://[2001:db8::1]").expect("should parse IPv6 SSH URI");
    assert_eq!(host.to_string(), "[2001:db8::1]");
    assert_eq!(host.nix_store_uri(), "ssh://[2001:db8::1]");
}

#[test]
fn parse_ipv6_ssh_uri_with_user_preserves_store_scheme() {
    let host = Host::parse("ssh://root@[2001:db8::1]").expect("should parse IPv6 SSH URI with user");
    assert_eq!(host.to_string(), "root@[2001:db8::1]");
    assert_eq!(host.nix_store_uri(), "ssh://root@[2001:db8::1]");
}

#[test]
fn parse_ipv6_localhost() {
    let host = Host::parse("[::1]").expect("should parse IPv6 localhost");
    assert_eq!(host.to_string(), "[::1]");
}

#[test]
fn parse_ipv6_compressed() {
    let host = Host::parse("[2001:db8::]").expect("should parse compressed IPv6");
    assert_eq!(host.to_string(), "[2001:db8::]");
}

#[test]
fn parse_ipv6_unbracketed_rejected() {
    let result = Host::parse("2001:db8::1");
    assert!(result.is_err());
    assert!(result.unwrap_err().contains("NIX_SSHOPTS"));
}

#[test]
fn parse_ipv6_mismatched_brackets_rejected() {
    Host::parse("[2001:db8::1").unwrap_err();
    Host::parse("2001:db8::1]").unwrap_err();
}

#[test]
fn parse_ipv6_extra_brackets_rejected() {
    Host::parse("[[2001:db8::1]]").unwrap_err();
    Host::parse("[2001:db8::[1]]").unwrap_err();
}

#[test]
fn parse_ipv6_with_port_rejected() {
    let result = Host::parse("[2001:db8::1]:22");
    result.unwrap_err();
}

#[test]
fn parse_ipv6_chars_after_bracket_rejected() {
    let result = Host::parse("[2001:db8::1]extra");
    result.unwrap_err();
}

#[test]
fn parse_ipv6_at_inside_brackets_rejected() {
    let result = Host::parse("[@2001:db8::1]");
    assert!(result.is_err(), "[@2001:db8::1] should be rejected");
    let result2 = Host::parse("[2001@db8::1]");
    assert!(result2.is_err(), "[2001@db8::1] should be rejected");
}

#[test]
fn ssh_host_ipv6_strips_brackets() {
    let host = Host::parse("[2001:db8::1]").expect("should parse IPv6");
    assert_eq!(host.ipv6_candidate().as_deref(), Some("2001:db8::1"));
    assert_eq!(ssh_host_of(&host), "2001:db8::1");
}

#[test]
fn ssh_host_ipv6_with_user() {
    let host = Host::parse("user@[2001:db8::1]").expect("should parse");
    assert_eq!(ssh_host_of(&host), "user@2001:db8::1");
}

#[test]
fn ssh_host_ipv6_with_zone_id() {
    let host = Host::parse("[fe80::1%eth0]").expect("should parse");
    assert_eq!(host.ipv6_candidate().as_deref(), Some("fe80::1"));
    assert_eq!(ssh_host_of(&host), "fe80::1%eth0");
}

#[test]
fn ssh_host_ipv6_with_zone_id_and_user() {
    let host = Host::parse("user@[fe80::1%eth0]").expect("should parse");
    assert_eq!(ssh_host_of(&host), "user@fe80::1%eth0");
}

#[test]
fn ssh_host_ipv6_localhost() {
    let host = Host::parse("[::1]").expect("should parse");
    assert_eq!(ssh_host_of(&host), "::1");
}

#[test]
fn ssh_host_non_ipv6_unchanged() {
    let host = Host::parse("host.example").expect("should parse");
    assert!(host.ipv6_candidate().is_none());
    assert_eq!(ssh_host_of(&host), "host.example");
}

#[test]
fn ssh_host_non_ipv6_with_user() {
    let host = Host::parse("user@host.example").expect("should parse");
    assert_eq!(ssh_host_of(&host), "user@host.example");
}

#[test]
fn ssh_host_ssh_ng_uri_ipv6() {
    let host = Host::parse("ssh-ng://[2001:db8::1]").expect("should parse");
    assert_eq!(ssh_host_of(&host), "2001:db8::1");
}

#[test]
fn ssh_host_ssh_ng_uri_ipv6_with_user() {
    let host = Host::parse("ssh-ng://root@[2001:db8::1]").expect("should parse");
    assert_eq!(ssh_host_of(&host), "root@2001:db8::1");
}

#[test]
fn ssh_host_ssh_uri_ipv6() {
    let host = Host::parse("ssh://[2001:db8::1]").expect("should parse");
    assert_eq!(ssh_host_of(&host), "2001:db8::1");
}

#[test]
fn ssh_host_ssh_uri_ipv6_with_user() {
    let host = Host::parse("ssh://root@[2001:db8::1]").expect("should parse");
    assert_eq!(ssh_host_of(&host), "root@2001:db8::1");
}

#[test]
fn ssh_host_keeps_brackets_of_invalid_address() {
    let host = Host::parse("[not-an-address]").expect("should parse");
    assert_eq!(host.ssh_host(false), "[not-an-address]");
}

#[test]
fn nix_store_uri_defaults_bare_host_to_ssh_ng() {
    let host = Host::parse("build.example").expect("should parse");
    assert_eq!(host.nix_store_uri(), "ssh-ng://build.example");
}

#[test]
fn nix_store_uri_for_user_host() {
    let host = Host::parse("user@build.example").expect("should parse");
    assert_eq!(host.nix_store_uri(), "ssh-ng://user@build.example");
}

#[test]
fn nix_store_uri_preserves_ipv6_brackets() {
    let host = Host::parse("[2001:db8::1]").expect("should parse");
    assert_eq!(host.nix_store_uri(), "ssh-ng://[2001:db8::1]");
}

#[test]
fn nix_store_uri_preserves_user_ipv6_brackets() {
    let host = Host::parse("user@[2001:db8::1]").expect("should parse");
    assert_eq!(host.nix_store_uri(), "ssh-ng://user@[2001:db8::1]");
}

#[test]
fn shell_quote_simple() {
    assert_eq!(shell_quote("simple"), "simple");
    assert_eq!(shell_quote("/nix/store/abc123-foo"), "/nix/store/abc123-foo");
}

#[test]
fn shell_quote_quotes_spaces_and_empty_words() {
    assert_eq!(shell_quote("two words"), "'two words'");
    assert_eq!(shell_quote(""), "''");
}

#[test]
fn remote_command_line_quotes_each_word() {
    let args = vec!["echo".to_string(), "a b".to_string(), "c".to_string()];
    assert_eq!(remote_command_line(&args), "echo 'a b' c");
}

#[test]
fn ssh_configuration_is_parsed_from_the_startup_snapshot() {
    let env = env_of(&[
        ("NH_SSHOPTS", "-p 2222 -o 'ProxyJump=bastion.example'"),
        ("NIX_SSHOPTS", "--legacy"),
        ("NH_REMOTE_CLEANUP", "0"),
        ("XDG_RUNTIME_DIR", "/run/user/1000"),
        ("SSH_AUTH_SOCK", "/tmp/ssh-agent.sock"),
        ("NIXOS_NO_CHECK", "1"),
    ]);

    let config = SshConfig::from_env(&env, 4242).unwrap();
    assert_eq!(config.user_opts(), &["-p", "2222", "-o", "ProxyJump=bastion.example"]);
    assert!(!config.cleanup_remote());
    assert_eq!(config.control_dir(), "/run/user/1000/nh-ssh-4242");
    assert_eq!(config.agent_socket(), Some("/tmp/ssh-agent.sock"));
    assert_eq!(config.nixos_no_check(), Some("1"));
}

#[test]
fn malformed_ssh_options_are_rejected_at_startup() {
    let env = env_of(&[("NH_SSHOPTS", "'unterminated")]);
    let error = SshConfig::from_env(&env, 1).err().unwrap();
    assert!(error.contains("NH_SSHOPTS"));
}

#[test]
fn ssh_configuration_defaults() {
    let config = SshConfig::for_process(7);
    assert!(config.user_opts().is_empty());
    assert!(config.cleanup_remote());
    assert_eq!(config.control_dir(), "/tmp/nh-ssh-7");
    assert_eq!(config.agent_socket(), None);
    assert!(!config.has_usable_agent(true));
}

#[test]
fn copy_direction_to_remote_args() {
    let host = RemoteHost::parse("build.example").unwrap();
    assert_eq!(
        CopyDirection::ToRemote { host: &host, use_substitutes: true }.args(),
        vec!["--no-check-sigs", "--to", "ssh-ng://build.example", "--substitute-on-destination"]
    );
}

#[test]
fn copy_direction_preserves_ssh_store_scheme() {
    let host = RemoteHost::parse("ssh://build.example").unwrap();
    assert_eq!(
        CopyDirection::ToRemote { host: &host, use_substitutes: true }.args(),
        vec!["--no-check-sigs", "--to", "ssh://build.example", "--substitute-on-destination"]
    );
}

#[test]
fn copy_direction_from_remote_cannot_take_substitute_policy() {
    let host = RemoteHost::parse("build.example").unwrap();
    assert_eq!(
        CopyDirection::FromRemote(&host).args(),
        vec!["--no-check-sigs", "--from", "ssh-ng://build.example"]
    );
}

#[test]
fn copy_direction_between_remotes_args() {
    let from_host = RemoteHost::parse("build.example").unwrap();
    let to_host = RemoteHost::parse("target.example").unwrap();
    assert_eq!(
        CopyDirection::BetweenRemotes { from_host: &from_host, to_host: &to_host, use_substitutes: true }.args(),
        vec![
            "--no-check-sigs",
            "--from",
            "ssh-ng://build.example",
            "--to",
            "ssh-ng://target.example",
            "--substitute-on-destination",
        ]
    );
}

#[test]
fn copy_direction_preserves_ipv6_store_uri_brackets() {
    let host = RemoteHost::parse("user@[2001:db8::1]").unwrap();
    assert_eq!(
        CopyDirection::ToRemote { host: &host, use_substitutes: false }.args(),
        vec!["--no-check-sigs", "--to", "ssh-ng://user@[2001:db8::1]"]
    );
}

#[test]
fn store_uri_matches_host_scheme() {
    let host = Host::parse("ssh://root@box").unwrap();
    assert_eq!(store_uri(&host), "ssh://root@box");
}

#[test]
fn resolved_remote_store_path_preserves_direct_store_entry() {
    const BASH: &str = "/nix/store/2123456789abcdefghijklmnopqrstuv-bash-5.3";
    let host = Host::parse("target.example").unwrap();
    match ResolvedRemoteStorePath::resolve(&host, BASH) {
        Resolution::Direct(root) => assert_eq!(root.path(), BASH),
        Resolution::Query(_) => panic!("a store entry needs no query"),
    }
}

#[test]
fn resolved_remote_store_path_queries_other_paths() {
    let host = Host::parse("target.example").unwrap();
    match ResolvedRemoteStorePath::resolve(&host, "/run/current-system") {
        Resolution::Query(words) => assert_eq!(words, vec!["readlink", "-f", "--", "/run/current-system"]),
        Resolution::Direct(_) => panic!("a link must be resolved remotely"),
    }
}

#[test]
fn readlink_output_is_checked() {
    let host = Host::parse("target.example").unwrap();
    let ok = ResolvedRemoteStorePath::from_readlink_output(&host, "/nix/store/abc-system\n", "/run/current-system")
        .ok()
        .unwrap();
    assert_eq!(ok.path(), "/nix/store/abc-system");
    assert_eq!(ok.host().to_string(), "target.example");
    let empty = ResolvedRemoteStorePath::from_readlink_output(&host, "  \n", "/x").err().unwrap();
    assert_eq!(empty, "readlink did not return a resolved path");
    let many = ResolvedRemoteStorePath::from_readlink_output(&host, "/nix/store/a\n/nix/store/b\n", "/x").err().unwrap();
    assert_eq!(many, "readlink returned multiple paths for one requested path");
    let outside = ResolvedRemoteStorePath::from_readlink_output(&host, "/etc/passwd\n", "/x").err().unwrap();
    assert_eq!(outside, "resolved remote path '/etc/passwd' for '/x' is not in /nix/store");
}

#[test]
fn control_sockets_are_recognised() {
    assert!(is_control_socket("ssh-abc"));
    assert!(!is_control_socket("other"));
    let config = SshConfig::for_process(9);
    let guard = SshControlGuard::for_config(&config);
    assert_eq!(guard.control_dir(), "/tmp/nh-ssh-9");
    let args = close_control_args("/tmp/nh-ssh-9/ssh-abc");
    assert_eq!(args, ["-o", "ControlPath=/tmp/nh-ssh-9/ssh-abc", "-O", "exit", "dummyhost"]);
}

#[test]
fn remote_build_words() {
    assert_eq!(drv_with_outputs("/nix/store/x.drv"), "/nix/store/x.drv^*");
    let argv = remote_build_argv("/nix/store/x.drv^*", &vec!["--a".to_string()], &vec!["--b".to_string()]);
    assert_eq!(argv.first().map(String::as_str), Some("nix"));
    assert!(argv.iter().any(|a| a == "/nix/store/x.drv^*"));
    assert_eq!(first_output_line("  /nix/store/out  \nrest\n").as_deref(), Some("/nix/store/out"));
    assert_eq!(first_output_line(""), None);
}

#[test]
fn local_copy_is_needed_only_when_asked_or_not_delivered() {
    assert!(need_local_copy(Delivery::ToLocal, true, false));
    assert!(!need_local_copy(Delivery::StaysOnTarget, false, true));
    assert!(!need_local_copy(Delivery::BetweenHosts, true, false));
    assert!(need_local_copy(Delivery::BetweenHosts, false, false));
    assert!(need_local_copy(Delivery::BetweenHosts, true, true));
}

#[test]
fn copy_failure_mentions_status_and_stderr() {
    let text = format_copy_failure("nix copy failed", "exit status: 1", "boom");
    assert!(text.contains("nix copy failed"));
    assert!(text.contains("exit status: 1"));
    assert!(text.contains("boom"));
}

#[test]
fn spinner_writer_emits_complete_lines() {
    let mut w = SpinnerWriter::new();
    let first = w.write(b"one\ntw");
    assert_eq!(first, vec!["one"]);
    let second = w.write(b"o\nthree");
    assert_eq!(second, vec!["two"]);
    let (last, all) = w.into_string();
    assert_eq!(last.as_deref(), Some("three"));
    assert_eq!(all, "one\ntwo\nthree");
}

fn remote_config(activation_type: ActivationType, elevation: Option<ElevationStrategy>) -> ActivateRemoteConfig {
    ActivateRemoteConfig { platform: Platform::NixOS, activation_type, install_bootloader: false, show_logs: false, elevation }
}

#[test]
fn passwords_are_asked_once_per_host() {
    let mut cache = PasswordCache::new();
    let config = remote_config(ActivationType::Switch, Some(ElevationStrategy::Auto));
    match password_step(&config, "box", &cache) {
        PasswordStep::Prompt(m) => assert_eq!(m, "[sudo] password for box:"),
        other => panic!("expected a prompt, got {other:?}"),
    }
    assert_eq!(accept_password(&mut cache, "box", ""), Err("Password cannot be empty".to_string()));
    assert!(matches!(password_step(&config, "box", &cache), PasswordStep::Prompt(_)));
    accept_password(&mut cache, "box", "secret").unwrap();
    match password_step(&config, "box", &cache) {
        PasswordStep::Use(p) => assert_eq!(p, "secret"),
        other => panic!("expected the cached password, got {other:?}"),
    }
    assert!(matches!(password_step(&config, "other", &cache), PasswordStep::Prompt(_)));
    let passwordless = remote_config(ActivationType::Switch, Some(ElevationStrategy::Passwordless));
    assert!(matches!(password_step(&passwordless, "box", &cache), PasswordStep::NotNeeded));
}

#[test]
fn unelevated_remote_commands_are_unchanged() {
    let env = env_of(&[]);
    let opts: Vec<String> = vec![];
    assert_eq!(build_remote_command(None, "echo hi", &env, &opts), Ok("echo hi".to_string()));
    assert_eq!(build_remote_command(Some(&ElevationStrategy::Disabled), "echo hi", &env, &opts), Ok("echo hi".to_string()));
}

#[test]
fn remote_activation_steps_carry_their_failure_messages() {
    let env = env_of(&[]);
    let ssh = SshConfig::from_env(&env, 1).unwrap();
    let host = Host::parse("root@box").unwrap();
    let boot = activation_steps(&host, "/nix/store/x-system", &remote_config(ActivationType::Boot, Some(ElevationStrategy::Disabled)), &env, &ssh, &vec![], false, None).unwrap();
    assert_eq!(boot.len(), 2);
    assert_eq!(boot[0].failure, "Failed to set system profile on 'root@box'");
    assert_eq!(boot[1].failure, "Bootloader activation failed on 'root@box'");
    assert!(boot[0].command.starts_with("nix build --no-link --profile /nix/var/nix/profiles/system "));
    let test = activation_steps(&host, "/nix/store/x-system", &remote_config(ActivationType::Test, None), &env, &ssh, &vec![], false, None).unwrap();
    assert_eq!(test.len(), 1);
    assert_eq!(test[0].failure, "Activation (test) failed on 'root@box'");
    assert!(test[0].command.ends_with("/nix/store/x-system/bin/switch-to-configuration test"));
}

#[test]
fn remote_activation_sends_the_password_on_stdin_only() {
    let env = env_of(&[]);
    let ssh = SshConfig::from_env(&env, 1).unwrap();
    let host = Host::parse("root@box").unwrap();
    let steps = activation_steps(
        &host,
        "/nix/store/x-system",
        &remote_config(ActivationType::Boot, Some(ElevationStrategy::Disabled)),
        &env,
        &ssh,
        &vec![],
        false,
        Some("s3cret"),
    )
    .unwrap();
    for step in &steps {
        assert_eq!(step.stdin.as_deref(), Some("s3cret\n"));
        let n = step.argv.len();
        assert_eq!(step.argv[n - 3], "-T");
        assert_eq!(step.argv[n - 2], "root@box");
        assert_eq!(step.argv[n - 1], step.command);
        assert!(step.argv.iter().all(|a| !a.contains("s3cret")));
    }
    let without = activation_steps(
        &host,
        "",
        &remote_config(ActivationType::Test, None),
        &env,
        &ssh,
        &vec![],
        false,
        None,
    )
    .unwrap();
    assert!(without[0].stdin.is_none());
    assert!(without[0].command.ends_with("bin/switch-to-configuration test"));
}

#[test]
fn remote_command_depends_on_the_elevation_program() {
    let opts = vec!["-E".to_string(), "a b".to_string()];
    let none: Vec<String> = Vec::new();
    assert_eq!(
        remote_command_for("/run/wrappers/bin/sudo", true, "echo hi", &opts),
        Ok("sudo --non-interactive -E 'a b' echo hi".to_string())
    );
    assert_eq!(
        remote_command_for("/run/wrappers/bin/sudo", false, "echo hi", &none),
        Ok("sudo --prompt= --stdin echo hi".to_string())
    );
    assert_eq!(remote_command_for("/usr/bin/doas", true, "echo hi", &opts), Ok("doas -n echo hi".to_string()));
    assert!(remote_command_for("/usr/bin/doas", false, "echo hi", &opts).is_err());
    assert_eq!(remote_command_for("/usr/bin/run0", true, "echo hi", &opts), Ok("run0 --no-ask-password echo hi".to_string()));
    assert!(remote_command_for("/usr/bin/run0", false, "echo hi", &opts).is_err());
    assert!(remote_command_for("/usr/bin/pkexec", true, "echo hi", &opts).is_err());
    assert!(remote_command_for("/usr/bin/please", true, "echo hi", &opts).is_err());
}
