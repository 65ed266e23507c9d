use city3d_stac::layout::{fallback_folder_name, make_geoparquet_asset, sanitize_folder_name};

#[test]
fn test_sanitize_folder_name_basic() {
    assert_eq!(sanitize_folder_name("my-collection"), "my-collection");
    assert_eq!(sanitize_folder_name("my_collection"), "my_collection");
    assert_eq!(sanitize_folder_name("my.collection"), "my.collection");
    assert_eq!(sanitize_folder_name("collection123"), "collection123");
}

#[test]
fn test_sanitize_folder_name_spaces() {
    assert_eq!(sanitize_folder_name("my collection"), "my_collection");
    assert_eq!(sanitize_folder_name("my  collection"), "my__collection");
}

#[test]
fn test_sanitize_folder_name_special_chars() {
    assert_eq!(sanitize_folder_name("my@collection"), "my_collection");
    assert_eq!(sanitize_folder_name("my/collection"), "my_collection");
    assert_eq!(sanitize_folder_name("my\\collection"), "my_collection");
    assert_eq!(sanitize_folder_name("my:collection"), "my_collection");
    assert_eq!(sanitize_folder_name("my*collection"), "my_collection");
    assert_eq!(sanitize_folder_name("my?collection"), "my_collection");
    assert_eq!(sanitize_folder_name("my<collection"), "my_collection");
    assert_eq!(sanitize_folder_name("my>collection"), "my_collection");
    assert_eq!(sanitize_folder_name("my|collection"), "my_collection");
}

#[test]
fn test_sanitize_folder_name_unicode() {
    assert_eq!(sanitize_folder_name("münchen"), "münchen");
    assert_eq!(sanitize_folder_name("東京"), "東京");
    assert_eq!(sanitize_folder_name("hello★world"), "hello_world");
}

#[test]
fn test_sanitize_folder_name_mixed() {
    assert_eq!(
        sanitize_folder_name("my awesome collection!"),
        "my_awesome_collection_"
    );
    assert_eq!(sanitize_folder_name("collection (v1.0)"), "collection__v1.0_");
}

#[test]
fn test_fallback_folder_name() {
    assert_eq!(fallback_folder_name("path/to/config.yaml"), "config.yaml");
    assert_eq!(
        fallback_folder_name("./opendata/vienna-config.yaml"),
        "vienna-config.yaml"
    );
    assert_eq!(fallback_folder_name("config"), "config");
}

#[test]
fn fallback_folder_name_without_final_component() {
    assert_eq!(fallback_folder_name(".."), "collection");
    assert_eq!(fallback_folder_name("/"), "collection");
}

#[test]
fn sanitizing_twice_changes_nothing() {
    for name in ["my awesome collection!", "hello★world", "a/b\\c:d", "東京 tower"] {
        let once = sanitize_folder_name(name);
        assert_eq!(sanitize_folder_name(&once), once);
        assert_eq!(once.chars().count(), name.chars().count());
    }
}

#[test]
fn geoparquet_asset_points_at_the_items_mirror() {
    let asset = make_geoparquet_asset();
    assert_eq!(asset.href, "./items.parquet");
    assert_eq!(asset.title, Some("STAC GeoParquet items".to_string()));
    assert_eq!(asset.media_type, Some("application/vnd.apache.parquet".to_string()));
    assert_eq!(asset.roles, vec!["collection-mirror".to_string()]);
    assert!(asset.description.is_none());
}
