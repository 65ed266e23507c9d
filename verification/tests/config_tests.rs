use city3d_stac::config::{CatalogCliArgs, CatalogConfigFile, ProviderConfig};
use city3d_stac::lines::parse_input_list;
use city3d_stac::stac::Provider;
use city3d_stac::config::{CollectionCliArgs, CollectionSettings};

#[test]
fn test_provider_conversion() {
    let config = ProviderConfig {
        name: "Test Provider".to_string(),
        url: Some("https://example.com".to_string()),
        roles: Some(vec!["producer".to_string(), "licensor".to_string()]),
        description: Some("A test provider".to_string()),
    };

    let provider: Provider = config.into();

    assert_eq!(provider.name, "Test Provider");
    assert_eq!(provider.url, Some("https://example.com".to_string()));
    assert_eq!(
        provider.roles,
        Some(vec!["producer".to_string(), "licensor".to_string()])
    );
    assert_eq!(provider.description, Some("A test provider".to_string()));
}

fn file_config() -> CatalogConfigFile {
    CatalogConfigFile {
        id: Some("from-file".to_string()),
        title: Some("File Title".to_string()),
        description: Some("File Description".to_string()),
        collections: Some(vec!["a.yaml".to_string()]),
        base_url: Some("https://file.example.com/".to_string()),
        concurrency: Some(2),
    }
}

#[test]
fn catalog_config_merge_prefers_cli_values() {
    let cli = CatalogCliArgs {
        id: Some("from-cli".to_string()),
        title: None,
        description: None,
        base_url: Some("https://cli.example.com/".to_string()),
        concurrency: Some(8),
    };
    let merged = file_config().merge_with_cli(&cli);
    assert_eq!(merged.id, Some("from-cli".to_string()));
    assert_eq!(merged.title, Some("File Title".to_string()));
    assert_eq!(merged.description, Some("File Description".to_string()));
    assert_eq!(merged.collections, Some(vec!["a.yaml".to_string()]));
    assert_eq!(merged.base_url, Some("https://cli.example.com/".to_string()));
    assert_eq!(merged.concurrency, Some(8));
}

#[test]
fn catalog_config_merge_without_overrides_keeps_file() {
    let cli = CatalogCliArgs { id: None, title: None, description: None, base_url: None, concurrency: None };
    let merged = file_config().merge_with_cli(&cli);
    let original = file_config();
    assert_eq!(merged.id, original.id);
    assert_eq!(merged.title, original.title);
    assert_eq!(merged.description, original.description);
    assert_eq!(merged.collections, original.collections);
    assert_eq!(merged.base_url, original.base_url);
    assert_eq!(merged.concurrency, original.concurrency);
}

#[test]
fn inputs_file_lines_skip_blank_lines_and_comments() {
    let content = "url1.json\nurl2.json\n# comment\n\nurl3.json\n";
    let resolved = parse_input_list(content);
    assert_eq!(resolved.len(), 3);
    assert_eq!(resolved[0], "url1.json");
    assert_eq!(resolved[1], "url2.json");
    assert_eq!(resolved[2], "url3.json");
}

#[test]
fn inputs_file_entries_are_trimmed() {
    let content = "  a.json \r\n\t#x\r\n   \r\nb.json";
    assert_eq!(parse_input_list(content), vec!["a.json".to_string(), "b.json".to_string()]);
}

#[test]
fn collection_cli_values_take_precedence() {
    let file = CollectionSettings {
        id: Some("file-id".to_string()),
        title: Some("File title".to_string()),
        description: None,
        license: Some("CC-BY-4.0".to_string()),
        base_url: None,
        concurrency: Some(2),
    };
    let cli = CollectionCliArgs {
        id: Some("cli-id".to_string()),
        title: None,
        description: Some("From CLI".to_string()),
        license: None,
        base_url: Some("https://x/".to_string()),
        concurrency: None,
    };
    let merged = file.merge_with_cli(&cli);
    assert_eq!(merged.id, Some("cli-id".to_string()));
    assert_eq!(merged.title, Some("File title".to_string()));
    assert_eq!(merged.description, Some("From CLI".to_string()));
    assert_eq!(merged.license, Some("CC-BY-4.0".to_string()));
    assert_eq!(merged.base_url, Some("https://x/".to_string()));
    assert_eq!(merged.concurrency, Some(2));
}
