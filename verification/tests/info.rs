use noah::info::{closure_size, closure_sizes, info_table, parse_field_selection, Field, GenerationInfo, PathInfoSizes};

fn info(number: u64, current: bool, version: &str) -> GenerationInfo {
    GenerationInfo {
        number,
        date: "2024-01-01 00:00:00".to_string(),
        nixos_version: version.to_string(),
        kernel_version: "6.6.1".to_string(),
        configuration_revision: None,
        specialisations: None,
        current,
        closure_size: "1.0 GiB".to_string(),
    }
}

#[test]
fn info_fields_split_on_commas() {
    let fields = parse_field_selection(&vec!["id,date".to_string(), "size".to_string()]).unwrap();
    assert_eq!(fields, vec![Field::Id, Field::Date, Field::Size]);
}

#[test]
fn unknown_field_is_rejected() {
    let err = parse_field_selection(&vec!["id,bogus".to_string()]).unwrap_err();
    assert_eq!(err, "expected one of `id`, `date`, `nver`, `kernel`, `confRev`, `spec`, `size`, got `bogus`");
    assert_eq!(Field::from_name("confRev").unwrap(), Field::Confrev);
}

#[test]
fn table_lists_newest_generation_first() {
    let gens = vec![info(3, false, "24.05"), info(9, true, "24.11"), info(5, false, "24.05")];
    let fields = vec![Field::Id, Field::Nver];
    let table = info_table(gens, Some(&fields));
    assert_eq!(table.current_version.as_deref(), Some("24.11"));
    assert_eq!(table.lines.len(), 4);
    assert!(table.lines[0].starts_with("Generation No"));
    assert!(table.lines[0].contains("NixOS Version"));
    assert!(table.lines[1].starts_with("9 (current)"));
    assert!(table.lines[2].starts_with("5 "));
    assert!(table.lines[3].starts_with("3 "));
}

#[test]
fn default_columns_skip_empty_optional_fields() {
    let table = info_table(vec![info(1, false, "24.05")], None);
    assert_eq!(table.current_version, None);
    assert!(table.lines[0].contains("Kernel"));
    assert!(table.lines[0].contains("Closure Size"));
    assert!(!table.lines[0].contains("Specialisations"));
    assert!(!table.lines[0].contains("Configuration Revision"));
}

#[test]
fn specialisations_are_starred() {
    let mut g = info(2, true, "24.11");
    g.specialisations = Some(vec!["gaming".to_string(), "work".to_string()]);
    let table = info_table(vec![g], Some(&vec![Field::Spec]));
    assert!(table.lines[1].starts_with("*gaming *work"));
}

fn paths(items: &[&str]) -> Vec<String> {
    items.iter().map(|p| p.to_string()).collect()
}

#[test]
fn closure_sizes_are_read_from_the_list_form() {
    let output = r#"[{"path":"/nix/store/aaa-system","closureSize":1073741824},{"path":"/nix/store/bbb-system","closureSize":5}]"#;
    let sizes = closure_sizes(output, &paths(&["/nix/store/bbb-system", "/nix/store/aaa-system", "/nix/store/ccc"]));
    assert_eq!(sizes, vec![Some(5), Some(1073741824), None]);
}

#[test]
fn closure_sizes_are_read_from_the_object_form() {
    let output = r#"{"/nix/store/aaa-system":{"closureSize":42},"/nix/store/bbb-system":{"narSize":3}}"#;
    let sizes = closure_sizes(output, &paths(&["/nix/store/aaa-system", "/nix/store/bbb-system"]));
    assert_eq!(sizes, vec![Some(42), None]);
}

#[test]
fn closure_sizes_of_invalid_output_are_unknown() {
    assert_eq!(closure_sizes("not json", &paths(&["/nix/store/aaa"])), vec![None]);
    assert_eq!(closure_sizes("42", &paths(&["/nix/store/aaa"])), vec![None]);
}

#[test]
fn list_entry_without_a_size_is_skipped() {
    let sizes = PathInfoSizes::List(vec![
        (Some("/nix/store/aaa".to_string()), None),
        (Some("/nix/store/aaa".to_string()), Some(7)),
    ]);
    assert_eq!(closure_size(&sizes, "/nix/store/aaa"), Some(7));
    assert_eq!(closure_size(&PathInfoSizes::Other, "/nix/store/aaa"), None);
    let keyed = PathInfoSizes::Keyed(vec![("/nix/store/aaa".to_string(), None)]);
    assert_eq!(closure_size(&keyed, "/nix/store/aaa"), None);
}
