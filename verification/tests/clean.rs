use noah::clean::{
    direnv_regex_is_match, gcroot_matches_filter, gcroot_path_to_remove, gcroot_regexes,
    is_auto_gcroot_entry, is_build_result_link, is_nix_store_direct_child, GcRootTagged,
};

#[test]
fn store_direct_child_accepts_top_level_entry() {
    assert!(is_nix_store_direct_child("/nix/store/abc123zzz-foo-1.0"));
}

#[test]
fn store_direct_child_rejects_nested_path() {
    assert!(!is_nix_store_direct_child("/nix/store/abc123zzz-foo-1.0/bin/foo"));
}

#[test]
fn store_direct_child_rejects_store_root_itself() {
    assert!(!is_nix_store_direct_child("/nix/store"));
}

#[test]
fn store_direct_child_rejects_unrelated_paths() {
    assert!(!is_nix_store_direct_child("/home/user/result"));
    assert!(!is_nix_store_direct_child("/result"));
    assert!(!is_nix_store_direct_child("/nix/store-backup/abc"));
}

#[test]
fn direnv_regex_matches_dotdirenv_subpath() {
    assert!(direnv_regex_is_match("/home/user/project/.direnv/python3.11"));
}

#[test]
fn direnv_regex_matches_layouts_subpath() {
    assert!(direnv_regex_is_match("/home/user/project/direnv/layouts/python3.11"));
}

#[test]
fn direnv_regex_rejects_result_and_store_paths() {
    assert!(!direnv_regex_is_match("/home/user/project/result"));
    assert!(!direnv_regex_is_match("/nix/store/abc123zzz-foo-1.0"));
}

#[test]
fn gcroot_filter_passes_direnv_path() {
    let src = "/nix/var/nix/gcroots/project-direnv";
    let dst = "/home/user/project/.direnv/something";
    let regexes = gcroot_regexes(false);
    assert!(gcroot_matches_filter(src, dst, dst, &regexes));
}

#[test]
fn gcroot_filter_rejects_auto_store_direct_child_without_result_name() {
    let src = "/nix/var/nix/gcroots/auto/example";
    let dst = "/nix/store/abc123zzz-foo-1.0";
    let regexes = gcroot_regexes(false);
    assert!(!gcroot_matches_filter(src, dst, dst, &regexes));
}

#[test]
fn gcroot_filter_rejects_live_system_shaped_auto_root() {
    // The link `.../current-system` resolves into the store, but its name
    // is not a result link.
    let src = "/nix/var/nix/gcroots/auto/example";
    let link = "/tmp/example/current-system";
    let regexes = gcroot_regexes(false);
    assert!(!gcroot_matches_filter(src, link, "/nix/store/abc123zzz-foo-1.0", &regexes));
}

#[test]
fn build_result_link_matches_result_and_variants() {
    assert!(is_build_result_link("/home/user/project/result"));
    assert!(is_build_result_link("/home/user/project/result-dev"));
    assert!(is_build_result_link("/home/user/project/result-bin"));
}

#[test]
fn build_result_link_rejects_current_system() {
    assert!(!is_build_result_link("/run/current-system"));
    assert!(!is_build_result_link("/nix/store/abc123zzz-foo-1.0"));
}

#[test]
fn gcroot_filter_rejects_non_auto_store_direct_child() {
    let src = "/nix/var/nix/gcroots/current-system";
    let dst = "/nix/store/abc123zzz-foo-1.0";
    let regexes = gcroot_regexes(false);
    assert!(!gcroot_matches_filter(src, dst, dst, &regexes));
}

#[test]
fn gcroot_filter_passes_auto_symlink_to_store_direct_child() {
    let src = "/nix/var/nix/gcroots/auto/example";
    let link = "/tmp/example/result";
    let regexes = gcroot_regexes(false);
    assert!(gcroot_matches_filter(src, link, "/nix/store/abc123zzz-foo-1.0", &regexes));
}

#[test]
fn direct_store_filter_is_limited_to_auto_gcroots() {
    assert!(is_auto_gcroot_entry("/nix/var/nix/gcroots/auto/example"));
    assert!(!is_auto_gcroot_entry("/nix/var/nix/gcroots/current-system"));
    assert!(!is_auto_gcroot_entry("/nix/var/nix/gcroots/booted-system"));
    assert!(!is_auto_gcroot_entry("/nix/var/nix/gcroots/profiles/system"));
}

#[test]
fn gcroot_cleanup_removes_source_not_system_destination() {
    let gcroot = GcRootTagged {
        src: "/nix/var/nix/gcroots/auto/example".to_string(),
        dst: "/run/current-system".to_string(),
        tbr: true,
    };
    assert_eq!(gcroot_path_to_remove(&gcroot), "/nix/var/nix/gcroots/auto/example");
    assert_ne!(gcroot_path_to_remove(&gcroot), gcroot.dst.as_str());
}

#[test]
fn gcroot_cleanup_removes_source_not_profile_destination() {
    let gcroot = GcRootTagged {
        src: "/nix/var/nix/gcroots/auto/example".to_string(),
        dst: "/nix/var/nix/profiles/system-2-link".to_string(),
        tbr: true,
    };
    assert_eq!(gcroot_path_to_remove(&gcroot), "/nix/var/nix/gcroots/auto/example");
    assert_ne!(gcroot_path_to_remove(&gcroot), gcroot.dst.as_str());
}

#[test]
fn gcroot_filter_rejects_arbitrary_path() {
    let src = "/nix/var/nix/gcroots/auto/example";
    let dst = "/home/user/some-random-link";
    let regexes = gcroot_regexes(false);
    assert!(!gcroot_matches_filter(src, dst, dst, &regexes));
}

#[test]
fn gcroot_filter_without_direnv_ignores_direnv_paths() {
    let src = "/nix/var/nix/gcroots/project-direnv";
    let dst = "/home/user/project/.direnv/something";
    let regexes = gcroot_regexes(true);
    assert!(regexes.is_empty());
    assert!(!gcroot_matches_filter(src, dst, dst, &regexes));
}
