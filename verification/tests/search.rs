use noah::search::{
    option_lines, package_entry, package_lines, OptionSearchResult, PackageSearchResult, Piece, Style,
    backend_url, check_status, curl_args, next_version, normalize, source_url, split_curl_output, strip_html,
    BackendConfig, SearchFlags, SearchKind, Target,
};

fn flags(platforms: bool, default_search: SearchKind) -> SearchFlags {
    SearchFlags {
        limit: 30,
        platforms,
        backend_version: None,
        backend_fallbacks: 2,
        json: false,
        default_search,
    }
}

fn words(ws: &[&str]) -> Vec<String> {
    ws.iter().map(|w| w.to_string()).collect()
}

#[test]
fn shorthand_query_searches_verbatim_words() {
    let request = normalize(flags(false, SearchKind::Packages), None, words(&["hello", "world"])).unwrap();
    assert_eq!(request.target, Target::Packages { platforms: false });
    assert_eq!(request.query, ["hello", "world"]);
    assert_eq!(request.limit, 30);
    assert_eq!(request.backend, BackendConfig { version: None, fallbacks: 2 });
}

#[test]
fn default_search_selects_shorthand_target() {
    let request = normalize(flags(false, SearchKind::Options), None, words(&["boot"])).unwrap();
    assert_eq!(request.target, Target::Options);
}

#[test]
fn options_reject_platform_flag() {
    let err = normalize(flags(true, SearchKind::Packages), Some(SearchKind::Options), words(&["x"])).unwrap_err();
    assert_eq!(err, "`--platforms` only applies to package search");
}

#[test]
fn search_requires_query() {
    let err = normalize(flags(false, SearchKind::Packages), None, Vec::new()).unwrap_err();
    assert_eq!(err, "expected at least one search query term");
}

#[test]
fn search_kinds_are_named() {
    assert_eq!(SearchKind::from_name("options").unwrap(), SearchKind::Options);
    assert_eq!(SearchKind::Packages.as_str(), "packages");
    assert!(SearchKind::from_name("nope").is_err());
}

#[test]
fn backend_versions_are_tried_in_order() {
    let cfg = BackendConfig { version: Some(42), fallbacks: 2 };
    assert_eq!(cfg.version_range(40), (42, 44));
    assert_eq!(BackendConfig { version: None, fallbacks: 1 }.version_range(40), (40, 41));
    assert_eq!(BackendConfig { version: Some(u32::MAX), fallbacks: 3 }.version_range(0), (u32::MAX, u32::MAX));
    assert_eq!(next_version(42, 44, 42), Ok(43));
    assert!(next_version(42, 44, 44).unwrap_err().contains("backend versions 42 through 44"));
    assert!(next_version(42, 42, 42).unwrap_err().contains("at backend version 42. The version may be wrong."));
}

#[test]
fn backend_url_and_curl_arguments() {
    assert_eq!(backend_url(44), "https://search.nixos.org/backend/latest-44-nixos-unstable/_search");
    let args = curl_args("4.2.0", "https://example.invalid/_search");
    assert_eq!(args.last().map(String::as_str), Some("https://example.invalid/_search"));
    assert!(args.iter().any(|a| a == "nh/4.2.0"));
}

#[test]
fn curl_output_is_split_at_the_status_line() {
    let (body, status) = split_curl_output(&b"{\"hits\":1}\n200".to_vec()).unwrap();
    assert_eq!(body, b"{\"hits\":1}");
    assert_eq!(status, 200);
    assert_eq!(split_curl_output(&b"no status".to_vec()).unwrap_err(), "splitting curl's status code from the response body");
    assert_eq!(split_curl_output(&b"x\nabc".to_vec()).unwrap_err(), "parsing curl's status code");
}

#[test]
fn status_codes_are_classified() {
    assert_eq!(check_status(200), Ok(true));
    assert_eq!(check_status(404), Ok(false));
    assert!(check_status(500).unwrap_err().starts_with("search.nixos.org returned HTTP 500"));
}

#[test]
fn positions_link_to_nixpkgs() {
    assert_eq!(
        source_url("pkgs/tools/hello/default.nix:12"),
        "https://github.com/NixOS/nixpkgs/blob/nixos-unstable/pkgs/tools/hello/default.nix"
    );
}

#[test]
fn html_tags_are_removed() {
    assert_eq!(strip_html("  <p>Hello <b>world</b></p>\n"), "Hello world");
}

fn package(name: &str, version: &str) -> PackageSearchResult {
    PackageSearchResult {
        package_attr_name: name.to_string(),
        package_attr_set: "No package set".to_string(),
        package_pname: name.to_string(),
        package_pversion: version.to_string(),
        package_platforms: vec!["x86_64-linux".to_string(), "aarch64-linux".to_string()],
        package_outputs: vec!["out".to_string()],
        package_default_output: Some("out".to_string()),
        package_programs: vec![name.to_string()],
        package_main_program: Some(name.to_string()),
        package_license_set: vec![],
        package_description: Some("Foo   bar\nbaz".to_string()),
        package_long_description: None,
        package_system: "x86_64-linux".to_string(),
        package_homepage: vec!["https://example.org".to_string()],
        package_position: Some("pkgs/by-name/he/hello/package.nix:34".to_string()),
    }
}

fn texts(line: &[Piece]) -> String {
    line.iter().map(|p| p.text.as_str()).collect()
}

#[test]
fn package_results_render_most_relevant_last() {
    let docs = vec![package("hello", "2.12"), package("cowsay", "")];
    let lines = package_lines(true, &docs, 80);
    let rendered: Vec<String> = lines.iter().map(|l| texts(l)).collect();
    let first_title = rendered.iter().position(|l| l == "cowsay").unwrap();
    let second_title = rendered.iter().position(|l| l == "hello (2.12)").unwrap();
    assert!(first_title < second_title);
    assert_eq!(lines[1][0].style, Style::Blue);
    assert!(rendered.contains(&"  Foo   bar baz".to_string()));
    assert!(rendered.contains(&"  Main program: hello".to_string()));
    assert!(rendered.contains(&"  Platforms: x86_64-linux, aarch64-linux".to_string()));
    let github = lines.iter().find(|l| texts(l).starts_with("  GitHub link: ")).unwrap();
    assert_eq!(github[1].style, Style::Link);
    assert_eq!(
        github[1].text,
        "https://github.com/NixOS/nixpkgs/blob/nixos-unstable/pkgs/by-name/he/hello/package.nix"
    );
}

#[test]
fn narrow_terminals_wrap_descriptions() {
    let lines = package_entry(false, &package("hello", "1"), 10);
    let rendered: Vec<String> = lines.iter().map(|l| texts(l)).collect();
    assert!(rendered.contains(&"  Foo   bar".to_string()));
    assert!(rendered.contains(&"  baz".to_string()));
    assert!(!rendered.iter().any(|l| l.starts_with("  Platforms")));
}

#[test]
fn option_results_show_scope_and_stripped_description() {
    let doc = OptionSearchResult {
        option_type_kind: "option".to_string(),
        option_name: "services.foo.enable".to_string(),
        option_description: Some("<p>Whether to enable foo.</p>".to_string()),
        option_type: Some("boolean".to_string()),
        option_default: Some("false".to_string()),
        option_example: Some("true".to_string()),
        option_source: Some("nixos/modules/foo.nix".to_string()),
        option_flake: None,
        flake_name: None,
        flake_description: None,
    };
    let lines = option_lines(&vec![doc], 80);
    let rendered: Vec<String> = lines.iter().map(|l| texts(l)).collect();
    assert_eq!(rendered[1], "services.foo.enable :: boolean (example: true)");
    assert_eq!(rendered[2], "  Scope: option");
    assert_eq!(rendered[3], "  Whether to enable foo.");
    assert_eq!(rendered[4], "  Default: false");
    assert_eq!(rendered[5], "  Source: https://github.com/NixOS/nixpkgs/blob/nixos-unstable/nixos/modules/foo.nix");
}
