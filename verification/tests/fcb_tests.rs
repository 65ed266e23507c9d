use city3d_stac::attributes::AttributeType;
use city3d_stac::fcb::{
    column_definitions, fcb_crs, map_column_type, object_type_name, FcbColumn, FcbContent, FcbHeader,
    FlatCityBufReader,
};
use city3d_stac::sorted::sort_strings;
use fcb_core::ColumnType;
use std::path::Path;

#[test]
fn test_map_column_type() {
    assert_eq!(map_column_type(ColumnType::String.0), AttributeType::String);
    assert_eq!(map_column_type(ColumnType::Int.0), AttributeType::Number);
    assert_eq!(map_column_type(ColumnType::Bool.0), AttributeType::Boolean);
    assert_eq!(map_column_type(ColumnType::Json.0), AttributeType::Object);
}

#[test]
fn every_column_type_maps_as_the_schema_defines() {
    for t in [
        ColumnType::Byte,
        ColumnType::UByte,
        ColumnType::Short,
        ColumnType::UShort,
        ColumnType::Int,
        ColumnType::UInt,
        ColumnType::Long,
        ColumnType::ULong,
        ColumnType::Float,
        ColumnType::Double,
    ] {
        assert_eq!(map_column_type(t.0), AttributeType::Number);
    }
    assert_eq!(map_column_type(ColumnType::DateTime.0), AttributeType::Date);
    assert_eq!(map_column_type(ColumnType::Binary.0), AttributeType::String);
    assert_eq!(map_column_type(200), AttributeType::String);
}

#[test]
fn test_reader_file_not_found() {
    let path = "nonexistent.fcb";
    let result = FlatCityBufReader::new(path, Path::new(path).exists());
    assert!(result.is_err());
}

fn column(name: &str, column_type: u8, nullable: bool) -> FcbColumn {
    FcbColumn { name: name.to_string(), column_type, nullable, description: None }
}

#[test]
fn columns_become_definitions_sorted_by_name() {
    let mut with_doc = column("height", ColumnType::Double.0, true);
    with_doc.description = Some("Roof height".to_string());
    let defs = column_definitions(&vec![column("yearOfConstruction", ColumnType::Int.0, false), with_doc, column("function", ColumnType::String.0, true)]);
    let names: Vec<&str> = defs.iter().map(|d| d.name.as_str()).collect();
    assert_eq!(names, vec!["function", "height", "yearOfConstruction"]);
    assert_eq!(defs[1].attr_type, AttributeType::Number);
    assert_eq!(defs[1].description, Some("Roof height".to_string()));
    assert_eq!(defs[1].required, Some(false));
    assert_eq!(defs[2].required, Some(true));
}

#[test]
fn extension_objects_are_named_by_their_extension_type() {
    assert_eq!(object_type_name(Some("ExtensionObject"), true, Some("+NoiseBarrier")), Some("+NoiseBarrier".to_string()));
    assert_eq!(object_type_name(Some("ExtensionObject"), true, None), Some("ExtensionObject".to_string()));
    assert_eq!(object_type_name(Some("Building"), false, None), Some("Building".to_string()));
    assert_eq!(object_type_name(None, false, None), None);
}

#[test]
fn streamed_objects_are_summarized() {
    let mut content = FcbContent::new();
    content.add_object(Some("Building".to_string()), &vec!["2.2".to_string(), "1.2".to_string()], false);
    content.add_object(Some("Road".to_string()), &vec![], true);
    content.add_object(Some("Building".to_string()), &vec!["2.2".to_string()], false);
    content.add_object(None, &vec![], false);
    assert_eq!(content.city_object_count, 4);
    assert_eq!(content.lods, vec!["1.2", "2.2"]);
    assert_eq!(content.city_object_types, vec!["Building", "Road"]);
    assert!(content.semantic_surfaces);
}

#[test]
fn reader_reports_header_and_content() {
    let mut reader = FlatCityBufReader::new("delft.fcb", true).unwrap();
    assert!(reader.version().is_err());
    assert!(reader.lods().is_err());
    reader.load_header(FcbHeader {
        version: "2.0".to_string(),
        reference_system_code: Some(7415),
        columns: vec![column("b", ColumnType::Bool.0, false), column("a", ColumnType::Json.0, true)],
        extensions: vec!["https://z/ext.json".to_string(), "https://a/ext.json".to_string()],
    });
    let mut content = FcbContent::new();
    content.add_object(Some("Building".to_string()), &vec!["2".to_string()], false);
    reader.load_content(content);
    assert_eq!(reader.file_path(), "delft.fcb");
    assert_eq!(reader.encoding(), "FlatCityBuf");
    assert_eq!(reader.version().unwrap(), "2.0");
    assert_eq!(reader.crs().unwrap().epsg, Some(7415));
    assert_eq!(reader.city_object_count().unwrap(), 1);
    assert_eq!(reader.lods().unwrap(), vec!["2"]);
    assert_eq!(reader.extensions().unwrap(), vec!["https://a/ext.json", "https://z/ext.json"]);
    let attrs = reader.attributes().unwrap();
    assert_eq!(attrs[0].name, "a");
    assert_eq!(attrs[0].attr_type, AttributeType::Object);
    assert_eq!(attrs[1].attr_type, AttributeType::Boolean);
    assert_eq!(reader.textures().unwrap(), false);
    assert_eq!(reader.materials().unwrap(), false);
    assert!(!reader.semantic_surfaces().unwrap());
}

#[test]
fn reference_system_codes() {
    assert_eq!(fcb_crs(Some(28992)).epsg, Some(28992));
    assert_eq!(fcb_crs(Some(0)).epsg, None);
    assert_eq!(fcb_crs(Some(-1)).epsg, None);
    assert_eq!(fcb_crs(None).epsg, None);
}

#[test]
fn strings_sort_with_repetitions_kept() {
    let v: Vec<String> = ["b", "a", "b", "c"].iter().map(|s| s.to_string()).collect();
    assert_eq!(sort_strings(&v), vec!["a", "b", "b", "c"]);
}
