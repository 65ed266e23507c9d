use city3d_stac::reader::{CityJSONReader, CityJSONSeqReader};
use std::path::Path;
use city3d_stac::model::{CityFeature, CityModel, CityObjectInfo};
use city3d_stac::model::GeometryInfo;

#[test]
fn test_cityjson_reader_not_found() {
    let path = "/nonexistent/file.json";
    let reader = CityJSONReader::new(path, Path::new(path).exists());
    assert!(reader.is_err());
}

#[test]
fn test_cityjsonseq_reader_not_found() {
    let path = "/nonexistent/file.jsonl";
    let reader = CityJSONSeqReader::check_exists(path, Path::new(path).exists());
    assert!(reader.is_err());
}

#[test]
fn reader_of_existing_file_is_not_loaded_yet() {
    let reader = CityJSONReader::new("model.city.json", true).unwrap();
    assert_eq!(reader.file_path(), "model.city.json");
    assert!(!reader.is_loaded());
    assert!(reader.version().is_err());
    assert_eq!(reader.encoding(), "CityJSON");
    assert!(!reader.streamable());
}

fn building(lod: &str, semantics: bool) -> city3d_stac::model::CityObjectInfo {
    CityObjectInfo {
        object_type: "Building".to_string(),
        geometry: Some(vec![GeometryInfo { lod: Some(lod.to_string()), has_semantics: semantics }]),
        attributes: None,
    }
}

#[test]
fn sequence_content_aggregates_its_features() {
    let header = CityModel {
        version: "2.0".to_string(),
        reference_system: None,
        city_objects: vec![],
        extensions: None,
        has_textures: false,
        has_materials: false,
    };
    let features = vec![
        CityFeature { city_objects: vec![building("2.2", true)], has_textures: false, has_materials: true },
        CityFeature {
            city_objects: vec![
                building("1.2", false),
                CityObjectInfo { object_type: "Road".to_string(), geometry: None, attributes: None },
            ],
            has_textures: false,
            has_materials: false,
        },
    ];
    let reader = CityJSONSeqReader::from_parsed(Some(header), &features, "tiles.city.jsonl").unwrap();
    assert_eq!(reader.version(), "2.0");
    assert_eq!(reader.city_object_count(), 3);
    assert_eq!(reader.lods(), vec!["1.2".to_string(), "2.2".to_string()]);
    assert_eq!(reader.city_object_types(), vec!["Building".to_string(), "Road".to_string()]);
    assert!(reader.semantic_surfaces());
    assert!(reader.materials());
    assert!(!reader.textures());
}

#[test]
fn empty_sequence_content_is_an_error() {
    let err = CityJSONSeqReader::from_parsed(None, &vec![], "empty.city.jsonl").err().unwrap();
    assert_eq!(err.message(), "Empty CityJSONSeq file");
}

#[test]
fn test_cityjson_from_content() {
    let cityjson = r#"{
            "type": "CityJSON",
            "version": "2.0",
            "transform": {
                "scale": [0.01, 0.01, 0.01],
                "translate": [100000, 200000, 0]
            },
            "metadata": {
                "geographicalExtent": [1.0, 2.0, 0.0, 10.0, 20.0, 30.0],
                "referenceSystem": "https://www.opengis.net/def/crs/EPSG/0/7415"
            },
            "CityObjects": {
                "building1": {
                    "type": "Building",
                    "geometry": [{
                        "type": "Solid",
                        "lod": "2",
                        "boundaries": [[[[0,0,0]]]]
                    }],
                    "attributes": {
                        "yearOfConstruction": 2020
                    }
                }
            },
            "vertices": [[0,0,0]]
        }"#;

    let reader = CityJSONReader::from_content(cityjson, "remote.city.json").unwrap();

    assert_eq!(reader.version().unwrap(), "2.0");
    assert_eq!(reader.city_object_count().unwrap(), 1);
    assert_eq!(reader.city_object_types().unwrap(), vec!["Building"]);
    assert_eq!(reader.crs().unwrap().epsg, Some(7415));
    assert_eq!(reader.file_path(), "remote.city.json");
    assert_eq!(reader.encoding(), "CityJSON");
}

#[test]
fn test_cityjson_from_content_invalid() {
    let result = CityJSONReader::from_content("not valid json", "bad.json");
    assert!(result.is_err());
}

#[test]
fn test_cityjsonseq_from_content() {
    let content = [
        r#"{"type":"CityJSON","version":"2.0","transform":{"scale":[0.01,0.01,0.01],"translate":[100000,200000,0]},"CityObjects":{},"vertices":[],"metadata":{"geographicalExtent":[1.0,2.0,0.0,10.0,20.0,30.0],"referenceSystem":"https://www.opengis.net/def/crs/EPSG/0/7415"}}"#,
        r#"{"type":"CityJSONFeature","id":"building1","CityObjects":{"building1":{"type":"Building","geometry":[{"type":"Solid","lod":"2","boundaries":[[[[0,0,0]]]]}],"attributes":{"yearOfConstruction":2020}}},"vertices":[[1000,2000,3000]]}"#,
        r#"{"type":"CityJSONFeature","id":"building2","CityObjects":{"building2":{"type":"Building","geometry":[{"type":"Solid","lod":"2.2","boundaries":[[[[0,0,0]]]]}]}},"vertices":[[2000,3000,4000]]}"#,
    ]
    .join("\n");

    let reader = CityJSONSeqReader::from_content(&content, "remote.city.jsonl").unwrap();

    assert_eq!(reader.version(), "2.0");
    assert_eq!(reader.city_object_count(), 2);
    assert_eq!(reader.city_object_types(), vec!["Building"]);
    assert_eq!(reader.crs().epsg, Some(7415));
    assert_eq!(reader.file_path(), "remote.city.jsonl");
    assert_eq!(reader.encoding(), "CityJSONSeq");

    let lods = reader.lods();
    assert!(lods.contains(&"2".to_string()));
    assert!(lods.contains(&"2.2".to_string()));
}

#[test]
fn test_cityjsonseq_from_content_empty() {
    let result = CityJSONSeqReader::from_content("", "empty.jsonl");
    assert!(result.is_err());
}

#[test]
fn test_cityjsonseq_from_content_invalid_header() {
    let result = CityJSONSeqReader::from_content("not valid json", "bad.jsonl");
    assert!(result.is_err());
}

#[test]
fn test_cityjsonseq_from_content_streamable() {
    let content = [
        r#"{"type":"CityJSON","version":"2.0","transform":{"scale":[1.0,1.0,1.0],"translate":[0,0,0]},"CityObjects":{},"vertices":[],"metadata":{"geographicalExtent":[0,0,0,1,1,1]}}"#,
        r#"{"type":"CityJSONFeature","id":"b1","CityObjects":{"b1":{"type":"Building","geometry":[]}},"vertices":[]}"#,
    ]
    .join("\n");

    let reader = CityJSONSeqReader::from_content(&content, "test.jsonl").unwrap();
    assert!(reader.streamable());
}

#[test]
fn sequence_text_errors_name_their_cause() {
    assert_eq!(CityJSONSeqReader::from_content("", "e.jsonl").err().unwrap().message(), "Empty CityJSONSeq content");
    let header = r#"{"type":"CityJSON","version":"2.0","transform":{"scale":[1.0,1.0,1.0],"translate":[0,0,0]},"CityObjects":{},"vertices":[]}"#;
    let bad_feature = format!("{header}\n\n   \nnot a feature");
    let err = CityJSONSeqReader::from_content(&bad_feature, "f.jsonl").err().unwrap();
    assert!(err.message().starts_with("Failed to parse CityJSONFeature: "));
    let blank_lines_only = format!("{header}\n\n  \n");
    assert_eq!(CityJSONSeqReader::from_content(&blank_lines_only, "f.jsonl").unwrap().city_object_count(), 0);
}

#[test]
fn test_cityjson_integer_version_normalized() {
    // Some real-world CityJSON files have "version": 1 (integer) instead of "1.0" (string)
    let content = r#"{
            "type": "CityJSON",
            "version": 1,
            "transform": {
                "scale": [0.01, 0.01, 0.01],
                "translate": [100000, 200000, 0]
            },
            "CityObjects": {},
            "vertices": []
        }"#;
    let reader = CityJSONReader::from_content(content, "test.json").unwrap();
    let version = reader.version().unwrap();
    assert_eq!(version, "1.0");
}

#[test]
fn test_file_path() {
    let path = "tests/data/delft.city.json";
    let reader = CityJSONReader::new(path, true).expect("Failed to create reader");
    assert_eq!(reader.file_path(), path);
}

#[test]
fn integer_lods_and_urn_reference_systems_are_rewritten() {
    let content = r#"{"type":"CityJSON","version":"1.0","transform":{"scale":[1.0,1.0,1.0],"translate":[0,0,0]},
        "metadata":{"referenceSystem":"urn:ogc:def:crs:EPSG::3414"},
        "CityObjects":{"b":{"type":"Building","geometry":[{"type":"Solid","lod":2,"boundaries":[]}]}},
        "vertices":[]}"#;
    let reader = CityJSONReader::from_content(content, "old.json").unwrap();
    assert_eq!(reader.lods().unwrap(), vec!["2".to_string()]);
    assert_eq!(reader.crs().unwrap().epsg, Some(3414));
}

#[test]
fn reference_systems_that_cjseq_would_slice_out_of_range_are_refused() {
    for rs in ["http://www.opengis.net/def/crs", "http://www.opengis.net/def/crsé/EPSG/0/7415"] {
        let content = format!(
            r#"{{"type":"CityJSON","version":"2.0","transform":{{"scale":[1.0,1.0,1.0],"translate":[0,0,0]}},"metadata":{{"referenceSystem":"{rs}"}},"CityObjects":{{}},"vertices":[]}}"#
        );
        assert!(CityJSONReader::from_content(&content, "bad.json").is_err());
        let seq = format!("{content}\n");
        assert!(CityJSONSeqReader::from_content(&seq, "bad.jsonl").is_err());
    }
}
