use city3d_stac::config::{CatalogConfigFile, ProviderConfig};
use city3d_stac::validation::{
    catalog_dry_run_exit_code, catalog_semantic_errors, config_semantic_errors, join, ValidationResult,
};

#[test]
fn test_validation_result_default() {
    let result = ValidationResult::new();
    assert!(result.is_valid());
    assert_eq!(result.exit_code(), 0);
}

#[test]
fn test_validation_result_config_error() {
    let mut result = ValidationResult::new();
    result.config_valid = false;
    result.config_error = Some("Parse error".to_string());

    assert!(!result.is_valid());
    assert_eq!(result.exit_code(), 1);
}

#[test]
fn test_validation_result_missing_paths() {
    let mut result = ValidationResult::new();
    result.paths_found = 1;
    result.paths_total = 2;
    result.missing_paths.push("missing.json".to_string());

    assert!(!result.is_valid());
    assert_eq!(result.exit_code(), 2);
}

#[test]
fn test_validation_result_url_error() {
    let mut result = ValidationResult::new();
    result.base_url_valid = false;
    result.base_url_error = Some("Connection refused".to_string());

    assert!(!result.is_valid());
    assert_eq!(result.exit_code(), 3);
}

#[test]
fn url_marked_valid_with_message_is_valid_but_exits_with_url_error() {
    let mut result = ValidationResult::new();
    result.base_url_error = Some("slow".to_string());
    assert!(result.is_valid());
    assert_eq!(result.exit_code(), 3);
}

#[test]
fn success_exit_code_implies_valid() {
    let mut result = ValidationResult::new();
    result.base_url_valid = false;
    assert_eq!(result.exit_code(), 0);
    assert!(result.is_valid());
    result.remote_url_errors.push(("u".to_string(), "e".to_string()));
    assert_eq!(result.exit_code(), 3);
    assert!(!result.is_valid());
}

#[test]
fn record_paths_counts_found_and_lists_missing() {
    let mut result = ValidationResult::new();
    let paths = vec!["a.json".to_string(), "b.json".to_string(), "c.json".to_string()];
    result.record_paths(&paths, &vec![true, false, false]);
    assert_eq!(result.paths_total, 3);
    assert_eq!(result.paths_found, 1);
    assert_eq!(result.missing_paths, vec!["b.json".to_string(), "c.json".to_string()]);
    assert_eq!(result.exit_code(), 2);
}

#[test]
fn semantic_errors_of_collection_config() {
    let providers = vec![
        ProviderConfig { name: "  ".to_string(), url: Some("ftp://x".to_string()), roles: None, description: None },
        ProviderConfig { name: "Org".to_string(), url: Some("https://org".to_string()), roles: None, description: None },
    ];
    let errors = config_semantic_errors(&Some(" ".to_string()), &Some(providers));
    assert_eq!(
        errors,
        vec![
            "Missing required field: 'id'".to_string(),
            "Provider #1 has empty 'name'".to_string(),
            "Provider #1 has invalid URL 'ftp://x': must start with http:// or https://".to_string(),
        ]
    );
    let none = config_semantic_errors(&Some("id".to_string()), &None);
    assert!(none.is_empty());
    let empty = config_semantic_errors(&Some("id".to_string()), &Some(vec![]));
    assert_eq!(
        empty,
        vec!["Field 'providers' is empty (should contain at least one provider)".to_string()]
    );
}

#[test]
fn record_config_joins_semantic_errors() {
    let mut result = ValidationResult::new();
    result.record_config(None, &vec!["a".to_string(), "b".to_string()]);
    assert!(!result.config_valid);
    assert_eq!(result.config_error, Some("Semantic errors:\n  a\n  b".to_string()));
    assert_eq!(result.exit_code(), 1);

    let mut syntax = ValidationResult::new();
    syntax.record_config(Some("bad yaml".to_string()), &vec![]);
    assert_eq!(syntax.config_error, Some("bad yaml".to_string()));
    assert!(!syntax.is_valid());
}

#[test]
fn join_puts_separator_between_parts() {
    assert_eq!(join(&vec![], ", "), "");
    assert_eq!(join(&vec!["x".to_string()], ", "), "x");
    assert_eq!(join(&vec!["x".to_string(), "y".to_string(), "z".to_string()], ", "), "x, y, z");
}

#[test]
fn catalog_config_semantic_errors() {
    let config = CatalogConfigFile {
        id: None,
        title: Some("  ".to_string()),
        description: Some("A catalog".to_string()),
        collections: None,
        base_url: None,
        concurrency: None,
    };
    assert_eq!(
        catalog_semantic_errors(&config),
        vec![
            "Missing required field: 'id'".to_string(),
            "Missing recommended field: 'title'".to_string(),
        ]
    );
    assert_eq!(catalog_dry_run_exit_code(0), 0);
    assert_eq!(catalog_dry_run_exit_code(3), 2);
}
