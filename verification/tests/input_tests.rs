use city3d_stac::input::{normalize_crs_urn_to_url, remote_reader_kind, InputSource, ReaderKind};
use city3d_stac::input::get_inner_filename;

#[test]
fn test_input_source_local() {
    let source = InputSource::from_str_input("tests/data/delft.city.json").unwrap();
    assert!(matches!(source, InputSource::Local(_)));
}

#[test]
fn test_input_source_remote_https() {
    let source = InputSource::from_str_input("https://example.com/data/city.json").unwrap();
    assert!(matches!(source, InputSource::Remote(_)));
}

#[test]
fn test_input_source_remote_s3() {
    let source = InputSource::from_str_input("s3://bucket/path/city.json").unwrap();
    assert!(matches!(source, InputSource::Remote(_)));
}

#[test]
fn test_input_source_remote_azure() {
    let source = InputSource::from_str_input("az://container/city.json").unwrap();
    assert!(matches!(source, InputSource::Remote(_)));
}

#[test]
fn test_input_source_remote_gcs() {
    let source = InputSource::from_str_input("gs://bucket/city.json").unwrap();
    assert!(matches!(source, InputSource::Remote(_)));
}

#[test]
fn test_normalize_crs_urn_to_url() {
    assert_eq!(
        normalize_crs_urn_to_url("urn:ogc:def:crs:EPSG::3414"),
        Some("https://www.opengis.net/def/crs/EPSG/0/3414".to_string())
    );
    assert_eq!(
        normalize_crs_urn_to_url("urn:ogc:def:crs:EPSG:0:7415"),
        Some("https://www.opengis.net/def/crs/EPSG/0/7415".to_string())
    );
    assert_eq!(
        normalize_crs_urn_to_url("https://www.opengis.net/def/crs/EPSG/0/3414"),
        None
    );
}

#[test]
fn test_get_inner_filename() {
    assert_eq!(get_inner_filename("data.city.json.gz"), "data.city.json");
    assert_eq!(get_inner_filename("data.jsonl.gz"), "data.jsonl");
    assert_eq!(get_inner_filename("data.gml.gz"), "data.gml");
    assert_eq!(get_inner_filename("data.GZ"), "data");
}

#[test]
fn remote_inputs_are_checked_by_extension_before_download() {
    assert_eq!(remote_reader_kind("json").unwrap(), ReaderKind::CityJSON);
    assert_eq!(remote_reader_kind("cjseq").unwrap(), ReaderKind::CityJSONSeq);
    assert_eq!(remote_reader_kind("xml").unwrap(), ReaderKind::CityGML);
    assert_eq!(remote_reader_kind("gz").unwrap(), ReaderKind::Gzip);
    let err = remote_reader_kind("fcb").err().unwrap();
    assert_eq!(
        err.message(),
        "Invalid CityJSON structure: Unsupported remote file extension: fcb. Supported: .json, .jsonl, .cjseq, .gml, .xml, .zip, .gz"
    );
}
