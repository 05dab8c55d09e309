use noah::installable::{
    default_installable_for, local_flake_reference_path, FlakeConfig, FlakeDirLookup, Installable,
    InstallableArgs,
};

fn specified(installable: Installable) -> InstallableArgs {
    InstallableArgs::Specified(installable)
}

fn flake_parts(resolved: Installable) -> (String, Vec<String>) {
    match resolved {
        Installable::Flake { reference, attribute } => (reference, attribute),
        other => panic!("Expected Flake, got {other:?}"),
    }
}

#[test]
fn resolve_non_unspecified_returns_unchanged() {
    let config = FlakeConfig::default();
    let flake = Installable::Flake { reference: String::from("/path/to/flake"), attribute: vec![String::from("host")] };
    let resolved = specified(flake.clone()).resolve(&config).unwrap().unwrap();
    assert_eq!(flake.to_args(), resolved.to_args());

    let file = Installable::File { path: String::from("/path/to/file.nix"), attribute: vec![String::from("config")] };
    let resolved = specified(file.clone()).resolve(&config).unwrap().unwrap();
    assert_eq!(file.to_args(), resolved.to_args());

    let store = Installable::Store { path: String::from("/nix/store/abc") };
    let resolved = specified(store.clone()).resolve(&config).unwrap().unwrap();
    assert_eq!(store.to_args(), resolved.to_args());

    let expr = Installable::Expression { expression: String::from("{ pkgs }: pkgs.hello"), attribute: vec![] };
    let resolved = specified(expr.clone()).resolve(&config).unwrap().unwrap();
    assert_eq!(expr.to_args(), resolved.to_args());
}

#[test]
fn tests_resolve_rejects_empty_nh_flake() {
    let config = FlakeConfig { flake: Some(String::new()), ..Default::default() };
    let err = InstallableArgs::Unspecified.resolve(&config).unwrap_err();
    assert!(err.contains("NH_FLAKE is empty"));
}

#[test]
fn resolve_rejects_empty_command_specific_flake() {
    let config = FlakeConfig {
        os_flake: Some(String::new()),
        flake: Some(String::from("github:user/repo")),
        ..Default::default()
    };
    let err = InstallableArgs::Unspecified.resolve(&config).unwrap_err();
    assert!(err.contains("NH_OS_FLAKE is empty"));
}

#[test]
fn tests_resolve_rejects_env_flake_without_reference_before_attribute() {
    let config = FlakeConfig { flake: Some(String::from("#fallback")), ..Default::default() };
    let err = InstallableArgs::Unspecified.resolve(&config).unwrap_err();
    assert!(err.contains("NH_FLAKE missing reference part before `#`"));
}

#[test]
fn tests_resolve_rejects_malformed_nh_attrp() {
    let config = FlakeConfig {
        file: Some(String::from("/path/to/file.nix")),
        attrp: String::from(r#"foo."bar"#),
        ..Default::default()
    };
    let err = InstallableArgs::Unspecified.resolve(&config).unwrap_err();
    assert!(err.contains("NH_ATTRP contains an unclosed quoted attribute"));
}

#[test]
fn cli_installable_rejects_empty_flake_reference() {
    let err = InstallableArgs::from_cli(Some(String::new()), None, None, None).unwrap_err();
    assert!(err.contains("installable argument is empty"));
}

#[test]
fn cli_installable_rejects_attribute_without_reference() {
    let err = InstallableArgs::from_cli(Some("#fallback".to_string()), None, None, None).unwrap_err();
    assert!(err.contains("installable argument missing reference part before `#`"));
}

#[test]
fn tests_cli_file_rejects_malformed_attribute() {
    let err =
        InstallableArgs::from_cli(Some(r#"foo."bar"#.to_string()), None, Some("file.nix".to_string()), None)
            .unwrap_err();
    assert!(err.contains("attribute path contains an unclosed quoted attribute"));
}

#[test]
fn cli_store_path_wins_over_flake_reading() {
    let args = InstallableArgs::from_cli(
        Some("./result".to_string()),
        Some("/nix/store/abc-hello".to_string()),
        None,
        None,
    )
    .unwrap();
    let resolved = args.resolve(&FlakeConfig::default()).unwrap().unwrap();
    assert_eq!(resolved.to_args(), ["/nix/store/abc-hello"]);
}

#[test]
fn uses_flakes_checks_cli_and_env_inputs() {
    let config = FlakeConfig::default();
    assert!(!InstallableArgs::Unspecified.uses_flakes(&config));

    let file = specified(Installable::File { path: String::from("/path/to/file.nix"), attribute: vec![] });
    assert!(!file.uses_flakes(&config));

    let flake = specified(Installable::Flake { reference: String::from("github:user/repo"), attribute: vec![] });
    assert!(flake.uses_flakes(&config));

    let config = FlakeConfig { flake: Some(String::from("github:user/repo")), ..Default::default() };
    assert!(InstallableArgs::Unspecified.uses_flakes(&config));
}

#[test]
fn uses_flakes_respects_resolution_precedence() {
    let config = FlakeConfig { flake: Some(String::from("github:user/repo")), ..Default::default() };
    let file = specified(Installable::File { path: String::from("/path/to/file.nix"), attribute: vec![] });
    assert!(!file.uses_flakes(&config));

    let config = FlakeConfig {
        flake: Some(String::from("github:user/repo")),
        file: Some(String::from("/path/to/file.nix")),
        ..Default::default()
    };
    assert!(!InstallableArgs::Unspecified.uses_flakes(&config));

    let config = FlakeConfig {
        flake: Some(String::from("github:user/repo")),
        file: Some(String::from("/path/to/file.nix")),
        os_flake: Some(String::from("github:user/os")),
        ..Default::default()
    };
    assert!(InstallableArgs::Unspecified.uses_flakes(&config));
}

#[test]
fn uses_flakes_ignores_empty_env_values() {
    let config = FlakeConfig { os_flake: Some(String::new()), flake: Some(String::new()), ..Default::default() };
    assert!(!InstallableArgs::Unspecified.uses_flakes(&config));
}

#[test]
fn resolve_os_context_uses_nh_os_flake() {
    let config = FlakeConfig { os_flake: Some(String::from("/etc/nixos#myhost")), ..Default::default() };
    let (reference, attribute) = flake_parts(InstallableArgs::Unspecified.resolve(&config).unwrap().unwrap());
    assert_eq!(reference, "/etc/nixos");
    assert_eq!(attribute, vec!["myhost"]);
}

#[test]
fn resolve_os_context_prefers_os_flake_over_generic() {
    let config = FlakeConfig {
        os_flake: Some(String::from("/etc/nixos#myhost")),
        flake: Some(String::from("/home/user/flake#other")),
        ..Default::default()
    };
    let (reference, attribute) = flake_parts(InstallableArgs::Unspecified.resolve(&config).unwrap().unwrap());
    assert_eq!(reference, "/etc/nixos");
    assert_eq!(attribute, vec!["myhost"]);
}

#[test]
fn resolve_os_context_falls_back_to_nh_flake() {
    let config = FlakeConfig { flake: Some(String::from("/home/user/flake#fallback")), ..Default::default() };
    let (reference, attribute) = flake_parts(InstallableArgs::Unspecified.resolve(&config).unwrap().unwrap());
    assert_eq!(reference, "/home/user/flake");
    assert_eq!(attribute, vec!["fallback"]);
}

#[test]
fn resolve_no_env_vars_returns_unspecified() {
    let resolved = InstallableArgs::Unspecified.resolve(&FlakeConfig::default()).unwrap();
    assert!(resolved.is_none());
}

#[test]
fn resolve_with_empty_attribute() {
    let config = FlakeConfig { os_flake: Some(String::from("/etc/nixos")), ..Default::default() };
    let (reference, attribute) = flake_parts(InstallableArgs::Unspecified.resolve(&config).unwrap().unwrap());
    assert_eq!(reference, "/etc/nixos");
    assert!(attribute.is_empty());
}

#[test]
fn resolve_with_nested_attribute() {
    let config =
        FlakeConfig { os_flake: Some(String::from("/etc/nixos#nixosConfigurations.myhost")), ..Default::default() };
    let (reference, attribute) = flake_parts(InstallableArgs::Unspecified.resolve(&config).unwrap().unwrap());
    assert_eq!(reference, "/etc/nixos");
    assert_eq!(attribute, vec!["nixosConfigurations", "myhost"]);
}

#[test]
fn resolve_command_specific_isolation() {
    let config = FlakeConfig { os_flake: Some(String::from("/etc/nixos#myhost")), ..Default::default() };
    let (reference, attribute) = flake_parts(InstallableArgs::Unspecified.resolve(&config).unwrap().unwrap());
    assert_eq!(reference, "/etc/nixos");
    assert_eq!(attribute, vec!["myhost"]);
}

#[test]
fn resolve_or_default_non_unspecified_returns_unchanged() {
    let config = FlakeConfig::default();
    let flake = Installable::Flake { reference: String::from("github:user/repo"), attribute: vec![String::from("host")] };
    let resolved = specified(flake.clone()).resolve(&config).unwrap().unwrap();
    assert!(resolved.validate_local_flake_ref(&FlakeDirLookup::NotFound).is_ok());
    assert_eq!(flake.to_args(), resolved.to_args());
}

#[test]
fn resolve_or_default_ignores_registry_and_url_refs() {
    for reference in ["nixpkgs", "github:NixOS/nixpkgs"] {
        let installable = Installable::Flake { reference: reference.to_owned(), attribute: vec![] };
        assert!(installable.local_flake_path().is_none());
        installable.validate_local_flake_ref(&FlakeDirLookup::NotFound).unwrap();
    }
}

#[test]
fn local_flake_paths_are_recognised() {
    assert_eq!(local_flake_reference_path("/srv/flake").as_deref(), Some("/srv/flake"));
    assert_eq!(local_flake_reference_path("path:/srv/flake").as_deref(), Some("/srv/flake"));
    assert_eq!(local_flake_reference_path("path:/srv/flake?dir=x"), None);
    assert_eq!(local_flake_reference_path("nixpkgs"), None);
}

#[test]
fn missing_local_flake_is_reported() {
    let installable = Installable::Flake { reference: "/tmp/missing-flake".to_string(), attribute: vec![] };
    let err = installable.validate_local_flake_ref(&FlakeDirLookup::NotFound).unwrap_err();
    assert!(err.contains("Flake reference"));
    assert!(err.contains("does not exist or does not contain a flake.nix"));
    assert!(err.contains("NH_FLAKE"));
}

#[test]
fn default_installable_is_the_system_flake() {
    let found = default_installable_for(FlakeDirLookup::Found("/etc/nixos".to_string())).unwrap();
    assert_eq!(found.to_args(), ["/etc/nixos#"]);
    assert!(default_installable_for(FlakeDirLookup::NotFound).is_err());
}

/// Puts an empty `flake.nix` into `dir`.
fn write_flake(dir: &std::path::Path) {
    tempfile::NamedTempFile::new_in(dir).unwrap().persist(dir.join("flake.nix")).unwrap();
}

/// What looking for `flake.nix` in `dir` finds on this machine.
fn lookup_flake_dir(dir: &std::path::Path) -> FlakeDirLookup {
    let flake_nix = dir.join("flake.nix");
    match flake_nix.canonicalize() {
        Ok(resolved) if resolved.is_file() => {
            FlakeDirLookup::Found(resolved.parent().unwrap().to_string_lossy().into_owned())
        }
        Ok(_) => FlakeDirLookup::NotFound,
        Err(e) if e.kind() == std::io::ErrorKind::NotFound => FlakeDirLookup::NotFound,
        Err(e) if e.kind() == std::io::ErrorKind::PermissionDenied => {
            FlakeDirLookup::PermissionDenied(flake_nix.to_string_lossy().into_owned())
        }
        Err(e) => FlakeDirLookup::Io(e.to_string()),
    }
}

/// Resolution with the default as a fallback, the local flake reference
/// checked against the file system.
fn resolve_or_default(args: InstallableArgs, config: &FlakeConfig) -> Result<Installable, String> {
    match args.resolve(config)? {
        None => default_installable_for(lookup_flake_dir(std::path::Path::new("/etc/nixos"))),
        Some(installable) => {
            let lookup = match installable.local_flake_path() {
                Some(path) => lookup_flake_dir(std::path::Path::new(&path)),
                None => FlakeDirLookup::NotFound,
            };
            installable.validate_local_flake_ref(&lookup)?;
            Ok(installable)
        }
    }
}

#[test]
fn resolve_or_default_uses_env_before_default() {
    let flake_dir = tempfile::tempdir().unwrap();
    write_flake(flake_dir.path());
    let config = FlakeConfig { os_flake: Some(format!("{}#myhost", flake_dir.path().display())), ..Default::default() };
    let resolved = resolve_or_default(InstallableArgs::Unspecified, &config).unwrap();
    let (reference, attribute) = flake_parts(resolved);
    assert_eq!(reference, flake_dir.path().to_string_lossy());
    assert_eq!(attribute, vec!["myhost"]);
}

#[test]
fn resolve_or_default_accepts_existing_local_flake_path() {
    let config = FlakeConfig::default();
    let flake_dir = tempfile::tempdir().unwrap();
    write_flake(flake_dir.path());
    let installable = Installable::Flake { reference: flake_dir.path().to_string_lossy().into_owned(), attribute: vec![] };
    let resolved = resolve_or_default(specified(installable), &config).unwrap();
    assert_eq!(resolved.to_args(), vec![format!("{}#", flake_dir.path().display())]);
}

#[test]
fn resolve_or_default_rejects_missing_absolute_path() {
    let config = FlakeConfig::default();
    let parent = tempfile::tempdir().unwrap();
    let missing_path = parent.path().join("missing-flake");
    assert!(!missing_path.exists());
    let installable = Installable::Flake { reference: missing_path.to_string_lossy().into_owned(), attribute: vec![] };
    let err = resolve_or_default(specified(installable), &config).unwrap_err();
    assert!(err.contains("Flake reference"));
    assert!(err.contains("does not exist or does not contain a flake.nix"));
    assert!(err.contains("NH_FLAKE/NH_OS_FLAKE"));
}

#[test]
fn resolve_or_default_rejects_existing_dir_without_flake_nix() {
    let config = FlakeConfig::default();
    let dir = tempfile::tempdir().unwrap();
    let installable = Installable::Flake { reference: dir.path().to_string_lossy().into_owned(), attribute: vec![] };
    let err = resolve_or_default(specified(installable), &config).unwrap_err();
    assert!(err.contains("does not exist or does not contain a flake.nix"));
}

#[test]
fn resolve_or_default_rejects_subdir_inside_flake() {
    let config = FlakeConfig::default();
    let flake_dir = tempfile::tempdir().unwrap();
    write_flake(flake_dir.path());
    let modules = tempfile::Builder::new().prefix("modules").tempdir_in(flake_dir.path()).unwrap();
    let subdir = modules.path().to_path_buf();
    let installable = Installable::Flake { reference: subdir.to_string_lossy().into_owned(), attribute: vec![] };
    let err = resolve_or_default(specified(installable), &config).unwrap_err();
    assert!(err.contains("does not exist or does not contain a flake.nix"));
}

#[test]
fn resolve_or_default_rejects_missing_path_scheme() {
    let config = FlakeConfig::default();
    let parent = tempfile::tempdir().unwrap();
    let missing_path = parent.path().join("missing-flake");
    assert!(!missing_path.exists());
    let installable = Installable::Flake { reference: format!("path:{}", missing_path.display()), attribute: vec![] };
    let err = resolve_or_default(specified(installable), &config).unwrap_err();
    assert!(err.contains("NH_FLAKE/NH_OS_FLAKE"));
}

#[test]
fn resolve_or_default_defers_parameterized_local_flake_refs_to_nix() {
    let config = FlakeConfig::default();
    let source_dir = tempfile::tempdir().unwrap();
    for reference in [
        format!("path:{}?lastModified=1", source_dir.path().display()),
        format!("path:{}?dir=nix/flakes", source_dir.path().display()),
        format!("{}?submodules=1", source_dir.path().display()),
    ] {
        let installable = Installable::Flake { reference: reference.clone(), attribute: vec![] };
        let resolved = resolve_or_default(specified(installable), &config).unwrap();
        assert_eq!(resolved.to_args(), vec![format!("{reference}#")]);
    }
}
