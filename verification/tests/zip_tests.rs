use city3d_stac::attributes::{AttributeDefinition, AttributeType};
use city3d_stac::crs::CRS;
use city3d_stac::zip::{aggregate_zip_entries, ZipEntryReport};

fn entry(encoding: &str, count: usize, types: &[&str], version: Option<&str>) -> ZipEntryReport {
    ZipEntryReport {
        encoding: encoding.to_string(),
        city_object_count: Some(count),
        city_object_types: Some(types.iter().map(|s| s.to_string()).collect()),
        lods: Some(vec!["2".to_string()]),
        attributes: None,
        textures: Some(false),
        materials: None,
        semantic_surfaces: Some(true),
        version: version.map(|v| v.to_string()),
        crs: None,
    }
}

#[test]
fn archive_metadata_combines_its_files() {
    let mut first = entry("CityJSON", 2, &["Building"], Some("2.0"));
    first.attributes = Some(vec![
        AttributeDefinition::new("height", AttributeType::Number),
        AttributeDefinition::new("function", AttributeType::String),
    ]);
    let mut second = entry("CityGML", 3, &["Road", "Building"], Some("3.0"));
    second.crs = Some(CRS::from_epsg(28992));
    second.textures = Some(true);
    second.attributes = Some(vec![AttributeDefinition::new("height", AttributeType::String)]);
    let entries = vec![Some(first), None, Some(second)];

    let meta = aggregate_zip_entries(&entries);
    assert_eq!(meta.city_object_count, 5);
    assert_eq!(meta.city_object_types, vec!["Building".to_string(), "Road".to_string()]);
    assert_eq!(meta.lods, vec!["2".to_string()]);
    assert_eq!(meta.primary_encoding, "CityJSON");
    assert_eq!(meta.version, "2.0");
    assert_eq!(meta.crs.unwrap().epsg, Some(28992));
    assert!(meta.has_textures);
    assert!(!meta.has_materials);
    assert!(meta.has_semantic_surfaces);
    assert_eq!(meta.attributes.len(), 2);
    assert_eq!(meta.attributes[0].name, "function");
    assert_eq!(meta.attributes[1].name, "height");
    assert_eq!(meta.attributes[1].attr_type, AttributeType::String);
}

#[test]
fn unreadable_first_file_leaves_the_default_encoding() {
    let entries = vec![None, Some(entry("CityGML", 1, &[], None))];
    let meta = aggregate_zip_entries(&entries);
    assert_eq!(meta.primary_encoding, "CityJSON");
    assert_eq!(meta.version, "");
    assert_eq!(meta.city_object_count, 1);
    let empty = aggregate_zip_entries(&vec![]);
    assert_eq!(empty.city_object_count, 0);
    assert!(empty.attributes.is_empty());
}
