use city3d_stac::catalog::{
    catalog_description, catalog_href, catalog_id, child_href, child_title, collection_base_url, collection_folder,
    generated_collection_title, is_config_extension, normalized_base,
};

#[test]
fn base_urls_get_one_trailing_slash() {
    assert_eq!(normalized_base("https://x.org/stac"), "https://x.org/stac/");
    assert_eq!(normalized_base("https://x.org/stac/"), "https://x.org/stac/");
}

#[test]
fn collections_link_to_their_catalog() {
    assert_eq!(catalog_href(&None), "../catalog.json");
    assert_eq!(catalog_href(&Some("https://x.org/stac".to_string())), "https://x.org/stac/catalog.json");
}

#[test]
fn catalogs_link_to_their_collections() {
    assert_eq!(child_href(&None, "delft"), "./delft/collection.json");
    assert_eq!(child_href(&Some("https://x.org/".to_string()), "delft"), "https://x.org/delft/collection.json");
    assert_eq!(child_href(&Some("https://x.org".to_string()), "delft"), "https://x.org/delft/collection.json");
    assert_ne!(child_href(&None, "a"), child_href(&None, "b"));
}

#[test]
fn collection_asset_base_joins_as_given() {
    assert_eq!(collection_base_url(&None, "delft"), None);
    assert_eq!(collection_base_url(&Some("https://x.org/".to_string()), "delft"), Some("https://x.org/delft/".to_string()));
}

#[test]
fn catalog_defaults() {
    assert_eq!(catalog_id(Some("cat".to_string()), Some("out".to_string())), "cat");
    assert_eq!(catalog_id(None, Some("out".to_string())), "out");
    assert_eq!(catalog_id(None, None), "catalog");
    assert_eq!(catalog_description(None), "Root catalog");
    assert_eq!(catalog_description(Some("Mine".to_string())), "Mine");
    assert_eq!(generated_collection_title("delft"), "Collection from delft");
    assert_eq!(child_title(None, "id".to_string()), "id");
    assert_eq!(child_title(Some("T".to_string()), "id".to_string()), "T");
}

#[test]
fn configuration_files_and_folders() {
    assert!(is_config_extension("yaml"));
    assert!(is_config_extension("yml"));
    assert!(is_config_extension("toml"));
    assert!(!is_config_extension("YAML"));
    assert!(!is_config_extension("json"));
    assert_eq!(collection_folder(Some("My Data/2024".to_string()), "x.yaml".to_string()), "My_Data_2024");
    assert_eq!(collection_folder(None, "x.yaml".to_string()), "x.yaml");
}
