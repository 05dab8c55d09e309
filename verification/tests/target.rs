use noah::installable::FlakeDirLookup;
use noah::runtime::Env;
use noah::target::{
    env_target, os_default_target, parse_flake_reference, resolve_cli, select_target, AttrPath,
    BuildTarget, CliSource,
};

/// Build an `AttrPath` from unquoted segments.
fn path(segments: &[&str]) -> AttrPath {
    AttrPath::from_segments(segments.iter().map(|s| (*s).to_owned()).collect())
}

fn env_of(pairs: &[(&str, &str)]) -> Env {
    Env::from_pairs(pairs.iter().map(|(k, v)| (k.to_string(), v.to_string())).collect())
}

fn empty_env() -> Env {
    env_of(&[])
}

#[test]
fn attrpath_parse() {
    assert_eq!(AttrPath::parse("foo.bar").unwrap().to_vec(), ["foo", "bar"]);
    assert_eq!(AttrPath::parse(r#"foo."bar.baz""#).unwrap().to_vec(), ["foo", "bar.baz"]);
    assert_eq!(
        AttrPath::parse(r#"foo."bar\"baz"."bar\\baz""#).unwrap().to_vec(),
        ["foo", "bar\"baz", "bar\\baz"]
    );
    assert!(AttrPath::parse("").unwrap().is_empty());
    AttrPath::parse(r#"foo."bar"#).unwrap_err();
    AttrPath::parse(r#"foo."bar\"#).unwrap_err();
}

#[test]
fn attrpath_display() {
    assert_eq!(path(&["foo", "bar"]).to_string(), "foo.bar");
    assert_eq!(path(&["foo", "bar.baz"]).to_string(), r#"foo."bar.baz""#);
    assert_eq!(
        path(&["foo", r#"bar"baz"#, r"bar\baz", ""]).to_string(),
        r#"foo."bar\"baz"."bar\\baz"."""#
    );
}

#[test]
fn attrpath_display_parses_back() {
    let p = path(&["a", "b.c", r#"d"e"#, ""]);
    assert_eq!(AttrPath::parse(&p.to_string()).unwrap().to_vec(), p.to_vec());
}

#[test]
fn target_to_args() {
    let flake = BuildTarget::Flake { reference: String::from("w"), attribute: path(&["x", "y.z"]) };
    assert_eq!(flake.to_args(), [r#"w#x."y.z""#]);

    let file = BuildTarget::File { path: String::from("w"), attribute: path(&["x", "y.z"]) };
    assert_eq!(file.to_args(), ["--file", "w", r#"x."y.z""#]);

    let expression = BuildTarget::Expression {
        expression: String::from("{ pkgs }: pkgs.hello"),
        attribute: path(&[]),
    };
    assert_eq!(expression.to_args(), ["--expr", "{ pkgs }: pkgs.hello", ""]);

    let store = BuildTarget::StorePath(String::from("/nix/store/abc"));
    assert_eq!(store.to_args(), ["/nix/store/abc"]);
}

#[test]
fn cli_target_rejects_empty_reference() {
    let err = resolve_cli(None, Some(String::new()), None).unwrap_err();
    assert!(err.contains("target argument is empty"));
}

#[test]
fn cli_target_rejects_attribute_without_reference() {
    let err = resolve_cli(None, Some("#fallback".to_string()), None).unwrap_err();
    assert!(err.contains("missing reference part before `#`"));
}

#[test]
fn target_cli_file_rejects_malformed_attribute() {
    let err = resolve_cli(
        Some(CliSource::File("file.nix".to_string())),
        Some(r#"foo."bar"#.to_string()),
        None,
    )
    .unwrap_err();
    assert!(err.contains("attribute path contains an unclosed quoted attribute"));
}

#[test]
fn cli_target_resolves_flake_reference() {
    let Some(BuildTarget::Flake { reference, attribute }) =
        resolve_cli(None, Some("github:user/repo#host".to_string()), None).unwrap()
    else {
        panic!("Expected a flake target");
    };
    assert_eq!(reference, "github:user/repo");
    assert_eq!(attribute.to_vec(), ["host"]);
}

#[test]
fn cli_target_is_optional() {
    assert!(resolve_cli(None, None, None).unwrap().is_none());
}

#[test]
fn cli_store_path_target_is_recognised() {
    let target = resolve_cli(None, Some("./result".to_string()), Some("/nix/store/abc-x".to_string())).unwrap();
    assert!(matches!(target, Some(BuildTarget::StorePath(p)) if p == "/nix/store/abc-x"));
}

#[test]
fn target_resolve_rejects_empty_nh_flake() {
    let err = select_target(None, &env_of(&[("NH_FLAKE", "")])).unwrap_err();
    assert!(err.contains("NH_FLAKE is empty"));
}

#[test]
fn resolve_rejects_empty_nh_file() {
    let err = select_target(None, &env_of(&[("NH_FILE", "")])).unwrap_err();
    assert!(err.contains("NH_FILE is empty"));
}

#[test]
fn target_resolve_rejects_env_flake_without_reference_before_attribute() {
    let err = select_target(None, &env_of(&[("NH_FLAKE", "#fallback")])).unwrap_err();
    assert!(err.contains("NH_FLAKE missing reference part before `#`"));
}

#[test]
fn target_resolve_rejects_malformed_nh_attrp() {
    let env = env_of(&[("NH_FILE", "/path/to/file.nix"), ("NH_ATTRP", r#"foo."bar"#)]);
    let err = select_target(None, &env).unwrap_err();
    assert!(err.contains("NH_ATTRP contains an unclosed quoted attribute"));
}

#[test]
fn resolve_prefers_nh_file_over_nh_flake() {
    let env = env_of(&[("NH_FILE", "/path/to/file.nix"), ("NH_FLAKE", "github:user/repo")]);
    let Some(BuildTarget::File { path, attribute }) = select_target(None, &env).unwrap() else {
        panic!("Expected a file target");
    };
    assert_eq!(path, "/path/to/file.nix");
    assert!(attribute.is_empty());
}

#[test]
fn resolve_env_flake_with_nested_attribute() {
    let env = env_of(&[("NH_FLAKE", "github:user/repo#nixosConfigurations.myhost")]);
    let Some(BuildTarget::Flake { reference, attribute }) = env_target(&env).unwrap() else {
        panic!("Expected a flake target");
    };
    assert_eq!(reference, "github:user/repo");
    assert_eq!(attribute.to_vec(), ["nixosConfigurations", "myhost"]);
}

#[test]
fn resolve_accepts_existing_local_flake_path() {
    let target = BuildTarget::Flake { reference: "/srv/flake".to_string(), attribute: path(&[]) };
    let resolved = select_target(Some(target), &empty_env()).unwrap().unwrap();
    resolved.validate_local_ref(&FlakeDirLookup::Found("/srv/flake".to_string())).unwrap();
    assert_eq!(resolved.to_args(), ["/srv/flake#"]);
}

#[test]
fn resolve_rejects_missing_absolute_path() {
    let target = BuildTarget::Flake { reference: "/tmp/parent/missing-flake".to_string(), attribute: path(&[]) };
    assert_eq!(target.local_flake_path().as_deref(), Some("/tmp/parent/missing-flake"));
    let err = target.validate_local_ref(&FlakeDirLookup::NotFound).unwrap_err();
    assert!(err.contains("Flake reference"));
    assert!(err.contains("does not exist or does not contain a flake.nix"));
    assert!(err.contains("NH_FLAKE"));
}

#[test]
fn resolve_rejects_missing_path_scheme() {
    let target = BuildTarget::Flake { reference: "path:/tmp/parent/missing-flake".to_string(), attribute: path(&[]) };
    assert_eq!(target.local_flake_path().as_deref(), Some("/tmp/parent/missing-flake"));
    let err = target.validate_local_ref(&FlakeDirLookup::NotFound).unwrap_err();
    assert!(err.contains("NH_FLAKE"));
}

#[test]
fn resolve_defers_parameterized_local_flake_refs_to_nix() {
    for reference in ["path:/tmp/src?lastModified=1", "path:/tmp/src?dir=nix/flakes", "/tmp/src?submodules=1"] {
        let target = BuildTarget::Flake { reference: reference.to_string(), attribute: path(&[]) };
        assert!(target.local_flake_path().is_none());
        target.validate_local_ref(&FlakeDirLookup::NotFound).unwrap();
        assert_eq!(target.to_args(), [format!("{reference}#")]);
    }
}

#[test]
fn resolve_ignores_registry_and_url_refs() {
    for reference in ["nixpkgs", "github:NixOS/nixpkgs"] {
        let target = BuildTarget::Flake { reference: reference.to_owned(), attribute: path(&[]) };
        assert!(target.local_flake_path().is_none());
        target.validate_local_ref(&FlakeDirLookup::NotFound).unwrap();
    }
}

#[test]
fn missing_default_flake_is_reported() {
    let err = os_default_target(FlakeDirLookup::NotFound).unwrap_err();
    assert!(err.starts_with("No target specified and no flake found at /etc/nixos/flake.nix."));
    let found = os_default_target(FlakeDirLookup::Found("/etc/nixos".to_string())).unwrap();
    assert_eq!(found.to_args(), ["/etc/nixos#"]);
}

#[test]
fn flake_reference_splits_at_hash() {
    let (reference, attribute) = parse_flake_reference("github:a/b#x.y").unwrap();
    assert_eq!(reference, "github:a/b");
    assert_eq!(attribute.to_vec(), ["x", "y"]);
    assert!(parse_flake_reference("").is_err());
}

/// Puts an empty `flake.nix` into `dir`.
fn write_flake(dir: &std::path::Path) {
    tempfile::NamedTempFile::new_in(dir).unwrap().persist(dir.join("flake.nix")).unwrap();
}

/// What looking for `flake.nix` in `dir` finds on this machine.
fn lookup_flake_dir(dir: &std::path::Path) -> FlakeDirLookup {
    match dir.join("flake.nix").canonicalize() {
        Ok(resolved) if resolved.is_file() => {
            FlakeDirLookup::Found(resolved.parent().unwrap().to_string_lossy().into_owned())
        }
        Ok(_) => FlakeDirLookup::NotFound,
        Err(e) if e.kind() == std::io::ErrorKind::NotFound => FlakeDirLookup::NotFound,
        Err(e) => FlakeDirLookup::Io(e.to_string()),
    }
}

/// An explicit target checked against the file system.
fn resolve_checked(target: BuildTarget) -> Result<BuildTarget, String> {
    let resolved = select_target(Some(target), &empty_env())?.unwrap();
    if let Some(path) = resolved.local_flake_path() {
        resolved.validate_local_ref(&lookup_flake_dir(std::path::Path::new(&path)))?;
    }
    Ok(resolved)
}

#[test]
fn resolve_rejects_existing_dir_without_flake_nix() {
    let dir = tempfile::tempdir().unwrap();
    let target = BuildTarget::Flake { reference: dir.path().to_string_lossy().into_owned(), attribute: path(&[]) };
    let err = resolve_checked(target).unwrap_err();
    assert!(err.contains("does not exist or does not contain a flake.nix"));
}

#[test]
fn resolve_rejects_subdir_inside_flake() {
    let flake_dir = tempfile::tempdir().unwrap();
    write_flake(flake_dir.path());
    let modules = tempfile::Builder::new().prefix("modules").tempdir_in(flake_dir.path()).unwrap();
    let subdir = modules.path().to_path_buf();
    let target = BuildTarget::Flake { reference: subdir.to_string_lossy().into_owned(), attribute: path(&[]) };
    let err = resolve_checked(target).unwrap_err();
    assert!(err.contains("does not exist or does not contain a flake.nix"));
}
