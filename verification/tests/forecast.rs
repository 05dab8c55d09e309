use noah::forecast::{
    collect_big_parallel, derivation_has_feature, derivation_name, derivation_source, has_ascii_word, parse_plan,
    plural, render_forecast, value_has_feature, DerivationFeatures, DerivationSource, EncodedAttrs, FeatureValue,
    ForecastOptions, VersionField, BIG_PARALLEL,
};

const FIREFOX_DRV: &str = "/nix/store/wi7bg5haxa3mbr9977x57j7qr6cafbmq-firefox-unwrapped-155.0.drv";
const FETCHED_PATH: &str = "/nix/store/603yaax3l2jmc0hfv6g3hgjr1qk5jfxk-clang-21.1.8";
const FETCHED_DOC: &str = "/nix/store/8glg7jn1763pqjj5473zpgnh5phmq326-shellcheck-0.11.0-doc";
const PLAN: &str = "warning: sample diagnostic\n\
these 2 derivations will be built:\n  \
/nix/store/rkalfnd132n0r10jm0jbn5y1g5n8yzcd-distribution.ini.drv\n  \
/nix/store/wi7bg5haxa3mbr9977x57j7qr6cafbmq-firefox-unwrapped-155.0.drv\n\
these 2 paths will be fetched (1050.61 MiB download, 3168.50 MiB unpacked):\n  \
/nix/store/603yaax3l2jmc0hfv6g3hgjr1qk5jfxk-clang-21.1.8\n  \
/nix/store/8glg7jn1763pqjj5473zpgnh5phmq326-shellcheck-0.11.0-doc\n";

#[test]
fn forecast_keeps_build_names_and_summarizes_fetches() {
    let parsed = parse_plan(PLAN).unwrap();
    let big_parallel = vec![FIREFOX_DRV.to_string()];
    let output = render_forecast(&parsed.plan, &big_parallel, ForecastOptions::new(false));

    assert!(output.contains("Builds: 2 derivations"));
    assert!(output.contains("\n  distribution.ini\n"));
    assert!(output.contains("\n  firefox-unwrapped-155.0  [big-parallel]\n"));
    assert!(output.contains("1050.61 MiB download"));
    assert!(output.contains("3168.50 MiB unpacked"));
    assert!(!output.contains(FETCHED_PATH));
    assert!(!output.contains(FETCHED_DOC));
}

#[test]
fn requested_fetch_details_preserve_store_paths() {
    let parsed = parse_plan(PLAN).unwrap();
    let output = render_forecast(&parsed.plan, &Vec::new(), ForecastOptions::new(true));

    assert!(output.contains(FETCHED_PATH));
    assert!(output.contains(FETCHED_DOC));
    assert!(!output.contains("Paths hidden"));
}

#[test]
fn singular_plan_is_accepted() {
    let plan = format!(
        "this derivation will be built:\n  {FIREFOX_DRV}\n\
this path will be fetched (0.01 MiB download, 0.02 MiB unpacked):\n  {FETCHED_DOC}\n"
    );
    let parsed = parse_plan(&plan).unwrap();

    assert_eq!(parsed.plan.derivations, [FIREFOX_DRV]);
    assert_eq!(parsed.plan.fetch.unwrap().paths, [FETCHED_DOC]);
}

#[test]
fn truncated_plan_is_rejected_instead_of_underreporting() {
    let error = parse_plan(
        "these 2 derivations will be built:\n  \
/nix/store/wi7bg5haxa3mbr9977x57j7qr6cafbmq-firefox-unwrapped-155.0.drv\n",
    )
    .unwrap_err();

    assert!(error.contains("declared 2 paths"));
}

#[test]
fn unknown_paths_make_the_forecast_incomplete() {
    let error = parse_plan(
        "don't know how to build these paths:\n  \
/nix/store/00000000000000000000000000000000-missing.drv\n",
    )
    .unwrap_err();

    assert!(error.contains("unknown"));
}

#[test]
fn diagnostics_are_kept_apart_from_the_plan() {
    let parsed = parse_plan(PLAN).unwrap();
    assert_eq!(parsed.diagnostics, ["warning: sample diagnostic"]);
    assert_eq!(parsed.plan.derivations.len(), 2);
    let fetch = parsed.plan.fetch.unwrap();
    assert_eq!(fetch.download_size, "1050.61 MiB");
    assert_eq!(fetch.unpacked_size, "3168.50 MiB");
}

#[test]
fn empty_output_has_an_empty_plan() {
    let parsed = parse_plan("").unwrap();
    assert!(parsed.plan.derivations.is_empty());
    assert!(parsed.plan.fetch.is_none());
    assert!(parsed.diagnostics.is_empty());
}

#[test]
fn derivation_names_drop_hash_and_suffix() {
    assert_eq!(derivation_name(FIREFOX_DRV), "firefox-unwrapped-155.0");
    assert_eq!(derivation_name("not-a-store-path"), "not-a-store-path");
    assert_eq!(plural(1, "derivation", "derivations"), "derivation");
    assert_eq!(plural(2, "derivation", "derivations"), "derivations");
}

/// A derivation whose environment lists `features`.
fn with_env_features(features: &str) -> DerivationFeatures {
    DerivationFeatures {
        env: FeatureValue::Text(features.to_string()),
        structured: FeatureValue::Missing,
        encoded_attrs: EncodedAttrs::Missing,
    }
}

#[test]
fn big_parallel_is_read_from_plain_and_structured_attributes() {
    let plain = with_env_features("kvm big-parallel");
    let structured = DerivationFeatures {
        env: FeatureValue::Missing,
        structured: FeatureValue::Missing,
        encoded_attrs: EncodedAttrs::Text("{\"requiredSystemFeatures\":[\"big-parallel\"]}".to_string()),
    };
    assert!(derivation_has_feature(&plain, BIG_PARALLEL).unwrap());
    assert!(derivation_has_feature(&structured, BIG_PARALLEL).unwrap());
}

#[test]
fn absent_and_malformed_features_remain_distinct() {
    let absent = DerivationFeatures {
        env: FeatureValue::Missing,
        structured: FeatureValue::Missing,
        encoded_attrs: EncodedAttrs::Missing,
    };
    let malformed = DerivationFeatures { encoded_attrs: EncodedAttrs::NotText, ..absent.clone() };
    assert!(!derivation_has_feature(&absent, BIG_PARALLEL).unwrap());
    derivation_has_feature(&malformed, BIG_PARALLEL).unwrap_err();
}

#[test]
fn big_parallel_metadata_accepts_legacy_and_version_four() {
    assert_eq!(derivation_source(true, VersionField::Missing, false), Ok(DerivationSource::Root));
    assert_eq!(derivation_source(true, VersionField::Number(4), true), Ok(DerivationSource::Derivations));
    let paths = vec![FIREFOX_DRV.to_string()];
    let marked = collect_big_parallel(&paths, &vec![Some(with_env_features("big-parallel"))]).unwrap();
    assert_eq!(marked, [FIREFOX_DRV]);
}

#[test]
fn feature_words_are_whole_words() {
    assert!(has_ascii_word("kvm big-parallel", "big-parallel"));
    assert!(has_ascii_word("\tbig-parallel\n", "big-parallel"));
    assert!(!has_ascii_word("big-parallelism", "big-parallel"));
    assert!(!has_ascii_word("not-big-parallel", "big-parallel"));
    assert!(!has_ascii_word("a  b", ""));
    assert!(!has_ascii_word("big parallel", "big parallel"));
}

#[test]
fn feature_lists_must_hold_strings() {
    let listed = FeatureValue::List(vec![Some("kvm".to_string()), Some("big-parallel".to_string())]);
    assert_eq!(value_has_feature(&listed, BIG_PARALLEL), Ok(true));
    let unlisted = FeatureValue::List(vec![Some("kvm".to_string())]);
    assert_eq!(value_has_feature(&unlisted, BIG_PARALLEL), Ok(false));
    let mixed = FeatureValue::List(vec![Some("big-parallel".to_string()), None]);
    assert_eq!(
        value_has_feature(&mixed, BIG_PARALLEL),
        Err("nix derivation show returned a non-string system feature".to_string())
    );
    assert_eq!(
        value_has_feature(&FeatureValue::Other, BIG_PARALLEL),
        Err("nix derivation show returned invalid system features".to_string())
    );
}

#[test]
fn encoded_attributes_are_parsed() {
    let text = |json: &str| DerivationFeatures {
        env: FeatureValue::Missing,
        structured: FeatureValue::Missing,
        encoded_attrs: EncodedAttrs::Text(json.to_string()),
    };
    assert_eq!(derivation_has_feature(&text("{\"requiredSystemFeatures\":\"kvm\"}"), BIG_PARALLEL), Ok(false));
    assert_eq!(derivation_has_feature(&text("[]"), BIG_PARALLEL), Ok(false));
    assert!(derivation_has_feature(&text("{not json"), BIG_PARALLEL).is_err());
    assert_eq!(
        derivation_has_feature(&text("{\"requiredSystemFeatures\":1}"), BIG_PARALLEL),
        Err("nix derivation show returned invalid system features".to_string())
    );
}

#[test]
fn derivation_output_shapes_are_checked() {
    assert_eq!(
        derivation_source(false, VersionField::Missing, false),
        Err("nix derivation show returned a non-object".to_string())
    );
    assert_eq!(
        derivation_source(true, VersionField::NotNumber, true),
        Err("nix derivation show returned a non-numeric version".to_string())
    );
    assert_eq!(
        derivation_source(true, VersionField::Number(3), true),
        Err("unsupported nix derivation JSON version 3".to_string())
    );
    assert_eq!(
        derivation_source(true, VersionField::Number(4), false),
        Err("nix derivation show version 4 omitted derivations".to_string())
    );
}

#[test]
fn omitted_derivations_are_reported_in_plan_order() {
    let paths = vec!["/nix/store/a.drv".to_string(), "/nix/store/b.drv".to_string(), "/nix/store/c.drv".to_string()];
    let found = vec![Some(with_env_features("big-parallel")), None, Some(with_env_features("kvm"))];
    assert_eq!(
        collect_big_parallel(&paths, &found),
        Err("nix derivation show omitted planned derivation /nix/store/b.drv".to_string())
    );
    let found = vec![Some(with_env_features("kvm")), Some(with_env_features("big-parallel")), Some(with_env_features(""))];
    assert_eq!(collect_big_parallel(&paths, &found), Ok(vec!["/nix/store/b.drv".to_string()]));
}
