use city3d_stac::accumulator::ReaderReport;
use city3d_stac::crs::CRS;
use city3d_stac::item::{
    asset_href, collection_extensions, data_media_type, item_extensions, properties_from_report,
    reference_datetime, resolve_crs,
};
use city3d_stac::stac::CityObjectsCount;

#[test]
fn crs_resolution_prefers_a_known_reader_crs() {
    let over = Some(CRS::from_epsg(7415));
    assert_eq!(resolve_crs(Some(CRS::from_epsg(28992)), &over).epsg, Some(28992));
    assert_eq!(resolve_crs(Some(CRS::unknown()), &over).epsg, Some(7415));
    assert_eq!(resolve_crs(None, &over).epsg, Some(7415));
    assert_eq!(resolve_crs(None, &None).epsg, None);
}

#[test]
fn asset_links_and_media_types() {
    assert_eq!(asset_href(&Some("https://h/data".to_string()), &None, "a.json"), "https://h/data/a.json");
    assert_eq!(asset_href(&Some("https://h/data/".to_string()), &None, "a.json"), "https://h/data/a.json");
    assert_eq!(asset_href(&None, &Some("https://o/a.json".to_string()), "a.json"), "https://o/a.json");
    assert_eq!(asset_href(&None, &None, "a.json"), "a.json");
    assert_eq!(data_media_type(true, "CityJSON"), "application/zip");
    assert_eq!(data_media_type(false, "CityJSON"), "application/city+json");
    assert_eq!(data_media_type(false, "CityGML"), "application/gml+xml");
}

#[test]
fn reference_dates_become_datetimes() {
    assert_eq!(reference_datetime("2023-05-01"), "2023-05-01T00:00:00Z");
    assert_eq!(reference_datetime("2023-05-01T12:00:00Z"), "2023-05-01T12:00:00Z");
}

#[test]
fn declared_extensions() {
    assert_eq!(
        item_extensions(true, false),
        vec![
            "https://cityjson.github.io/stac-city3d/v0.2.0/schema.json".to_string(),
            "https://stac-extensions.github.io/projection/v2.0.0/schema.json".to_string(),
        ]
    );
    assert_eq!(item_extensions(false, false).len(), 1);
    let c = collection_extensions(false, true, false, true);
    assert_eq!(
        c,
        vec![
            "https://cityjson.github.io/stac-city3d/v0.2.0/schema.json".to_string(),
            "https://stac-extensions.github.io/item-assets/v1.0.0/schema.json".to_string(),
            "https://stac-extensions.github.io/file/v2.1.0/schema.json".to_string(),
        ]
    );
}

#[test]
fn properties_keep_what_the_reader_answered() {
    let report = ReaderReport {
        version: Some("2.0".to_string()),
        lods: None,
        city_object_types: Some(vec!["Building".to_string()]),
        city_object_count: Some(7),
        semantic_surfaces: Some(false),
        textures: None,
        materials: Some(true),
        crs: None,
        attributes: None,
    };
    let p = properties_from_report(&report);
    assert_eq!(p.version, Some("2.0".to_string()));
    assert!(p.lods.is_empty());
    assert_eq!(p.co_types, vec!["Building".to_string()]);
    assert_eq!(p.city_objects, Some(CityObjectsCount::Integer(7)));
    assert_eq!(p.semantic_surfaces, Some(false));
    assert_eq!(p.textures, None);
    assert_eq!(p.materials, Some(true));
    assert!(p.attributes.is_empty());
}
