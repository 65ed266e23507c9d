use city3d_stac::error::{CityJsonStacError, Result};

#[test]
fn test_unsupported_format_error() {
    let err = CityJsonStacError::UnsupportedFormat(".xyz".to_string());
    let msg = err.message();
    assert!(msg.contains("Unsupported file format"));
    assert!(msg.contains(".xyz"));
}

#[test]
fn test_metadata_error() {
    let err = CityJsonStacError::MetadataError("no bbox found".to_string());
    let msg = err.message();
    assert!(msg.contains("Failed to extract metadata"));
    assert!(msg.contains("no bbox found"));
}

#[test]
fn test_invalid_cityjson_error() {
    let err = CityJsonStacError::InvalidCityJson("missing type field".to_string());
    let msg = err.message();
    assert!(msg.contains("Invalid CityJSON structure"));
    assert!(msg.contains("missing type field"));
}

#[test]
fn test_missing_field_error() {
    let err = CityJsonStacError::MissingField("version".to_string());
    let msg = err.message();
    assert!(msg.contains("Missing required field"));
    assert!(msg.contains("version"));
}

#[test]
fn test_stac_error() {
    let err = CityJsonStacError::StacError("invalid bbox".to_string());
    let msg = err.message();
    assert!(msg.contains("STAC generation error"));
    assert!(msg.contains("invalid bbox"));
}

#[test]
fn test_geojson_error() {
    let err = CityJsonStacError::GeoJsonError("invalid coordinates".to_string());
    let msg = err.message();
    assert!(msg.contains("GeoJSON error"));
    assert!(msg.contains("invalid coordinates"));
}

#[test]
fn test_no_files_found_error() {
    let err = CityJsonStacError::NoFilesFound;
    let msg = err.message();
    assert!(msg.contains("No supported files found"));
}

#[test]
fn test_other_error() {
    let err = CityJsonStacError::Other("custom error message".to_string());
    let msg = err.message();
    assert!(msg.contains("custom error message"));
}

#[test]
fn test_error_from_string() {
    let err: CityJsonStacError = "error from string".to_string().into();
    let msg = err.message();
    assert!(msg.contains("error from string"));
}

#[test]
fn test_error_is_debug() {
    let err = CityJsonStacError::NoFilesFound;
    let debug = format!("{:?}", err);
    assert!(debug.contains("NoFilesFound"));
}

#[test]
fn test_error_is_display() {
    let err = CityJsonStacError::MissingField("test".to_string());
    let display = err.message();
    assert!(!display.is_empty());
}

#[test]
fn test_unsupported_format_shows_supported_formats() {
    let err = CityJsonStacError::UnsupportedFormat(".foo".to_string());
    let msg = err.message();
    assert!(msg.contains(".json") || msg.contains("CityJSON"));
}

#[test]
fn test_result_ok() {
    let result: Result<i32> = Ok(42);
    assert!(result.is_ok());
    if let Ok(val) = result {
        assert_eq!(val, 42);
    }
}

#[test]
fn test_result_err() {
    let result: Result<i32> = Err(CityJsonStacError::NoFilesFound);
    assert!(result.is_err());
}

#[test]
fn io_error_message_has_its_prefix() {
    let err = CityJsonStacError::IoError("file not found".to_string());
    assert_eq!(err.message(), "IO error: file not found");
    let err = CityJsonStacError::MetadataError("CRS not found".to_string());
    assert_eq!(
        err.message(),
        "Failed to extract metadata: CRS not found\nThe file may be corrupted or invalid"
    );
}
