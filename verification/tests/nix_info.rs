use noah::nix_info::{ensure_flake_features, nix_version, normalize_version_string, NixVariant};

#[test]
fn normalize_version_string_with_real_nix_versions() {
    assert_eq!(normalize_version_string("2.30pre20250521_76a4d4c2"), "2.30.0");

    assert_eq!(normalize_version_string("2.25.0-pre"), "2.25.0");
    assert_eq!(normalize_version_string("2.24.14-1"), "2.24.14");
    assert_eq!(normalize_version_string("2.91.1"), "2.91.1");
    assert_eq!(normalize_version_string("2.18"), "2.18.0");

    assert_eq!(normalize_version_string("3.0dev"), "3.0.0");
    assert_eq!(normalize_version_string("2.22rc1"), "2.22.0");
    assert_eq!(normalize_version_string("2.19_git_abc123"), "2.19.0");

    assert_eq!(normalize_version_string("1.2-beta"), "1.2.0");
    assert_eq!(normalize_version_string("3.4+build.1"), "3.4.0");
    assert_eq!(normalize_version_string("5.6_alpha"), "5.6.0");

    assert_eq!(normalize_version_string("2-rc1"), "2.0.0");
    assert_eq!(normalize_version_string("4+build"), "4.0.0");
    assert_eq!(normalize_version_string("7_dev"), "7.0.0");
}

#[test]
fn normalize_version_string_on_sample_triples() {
    for (major, minor, patch) in [(0u32, 0u32, 0u32), (2, 18, 9), (10, 4, 123)] {
        let basic = format!("{major}.{minor}.{patch}");
        assert_eq!(normalize_version_string(&basic), basic);
        assert_eq!(normalize_version_string(&format!("{major}.{minor}.{patch}-1")), basic);
        assert_eq!(normalize_version_string(&format!("{major}.{minor}")), format!("{major}.{minor}.0"));
        assert_eq!(
            normalize_version_string(&format!("{major}.{minor}pre20250521_76a4d4c2")),
            format!("{major}.{minor}.0")
        );
    }
}

#[test]
fn variant_is_read_from_the_version_line() {
    assert_eq!(NixVariant::from_version_line("nix (Nix) 2.24.14"), NixVariant::Nix);
    assert_eq!(NixVariant::from_version_line("nix (Lix, like Nix) 2.91.1"), NixVariant::Lix);
    assert_eq!(NixVariant::from_version_line("nix (Determinate Nix 3.6.2) 2.29.0"), NixVariant::DetSys);
}

#[test]
fn version_line_is_the_first_line() {
    assert_eq!(nix_version("nix (Nix) 2.24.14\nmore\n").unwrap(), "nix (Nix) 2.24.14");
    assert_eq!(nix_version("").unwrap_err(), "No version string found");
}

#[test]
fn flake_features_must_both_be_enabled() {
    assert!(ensure_flake_features("nix-command flakes").is_ok());
    assert_eq!(ensure_flake_features("nix-command").unwrap_err(), "Flake features are not enabled");
}
