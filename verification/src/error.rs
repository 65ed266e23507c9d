//! Error types for the library
use vstd::prelude::*;

use crate::text::push_str;

verus! {

/// Errors that can occur when processing CityJSON files and generating STAC metadata
#[derive(Debug)]
pub enum CityJsonStacError {
    /// Unsupported file format
    UnsupportedFormat(String),
    /// IO error (file not found, permission denied, etc.)
    IoError(String),
    /// JSON parsing error
    JsonError(String),
    /// Failed to extract metadata from file
    MetadataError(String),
    /// Invalid CityJSON structure
    InvalidCityJson(String),
    /// Missing required field
    MissingField(String),
    /// STAC generation error
    StacError(String),
    /// URL parsing error
    UrlError(String),
    /// GeoJSON error
    GeoJsonError(String),
    /// No supported files found in directory
    NoFilesFound,
    /// Object storage error (unified error for HTTP, S3, Azure, GCS, local)
    ObjectStoreError(String),
    /// Path parsing error for object storage
    PathError(String),
    /// Generic network/storage error
    StorageError(String),
    /// Generic error with custom message
    Other(String),
}

/// Result type alias for library operations
pub type Result<T> = core::result::Result<T, CityJsonStacError>;

/// `prefix` followed by `rest`.
pub fn concat(prefix: &str, rest: &str) -> (r: String)
    ensures
        r@ == prefix@ + rest@,
{
    let mut s = prefix.to_owned();
    push_str(&mut s, rest);
    s
}

/// The supported formats, as error messages list them.
pub open spec fn supported_formats_note() -> Seq<char> {
    "\nSupported formats: .json (CityJSON), .jsonl (CityJSONSeq), .gml (CityGML), .fcb (FlatCityBuf)"@
}

/// The message of an error.
pub open spec fn error_message(e: CityJsonStacError) -> Seq<char> {
    match e {
        CityJsonStacError::UnsupportedFormat(m) => "Unsupported file format: "@ + m@
            + supported_formats_note(),
        CityJsonStacError::IoError(m) => "IO error: "@ + m@,
        CityJsonStacError::JsonError(m) => "JSON parsing error: "@ + m@,
        CityJsonStacError::MetadataError(m) => "Failed to extract metadata: "@ + m@
            + "\nThe file may be corrupted or invalid"@,
        CityJsonStacError::InvalidCityJson(m) => "Invalid CityJSON structure: "@ + m@,
        CityJsonStacError::MissingField(m) => "Missing required field: "@ + m@,
        CityJsonStacError::StacError(m) => "STAC generation error: "@ + m@,
        CityJsonStacError::UrlError(m) => "Invalid URL: "@ + m@,
        CityJsonStacError::GeoJsonError(m) => "GeoJSON error: "@ + m@,
        CityJsonStacError::NoFilesFound => "No supported files found in directory"@,
        CityJsonStacError::ObjectStoreError(m) => "Object storage error: "@ + m@,
        CityJsonStacError::PathError(m) => "Path error: "@ + m@,
        CityJsonStacError::StorageError(m) => "Storage/network error: "@ + m@,
        CityJsonStacError::Other(m) => m@,
    }
}

impl CityJsonStacError {
    /// The message of this error, as its `Display` form reads.
    pub fn message(&self) -> (r: String)
        ensures
            r@ == error_message(*self),
    {
        match self {
            CityJsonStacError::UnsupportedFormat(m) => {
                let mut s = concat("Unsupported file format: ", m.as_str());
                push_str(
                    &mut s,
                    "\nSupported formats: .json (CityJSON), .jsonl (CityJSONSeq), .gml (CityGML), .fcb (FlatCityBuf)",
                );
                s
            },
            CityJsonStacError::IoError(m) => concat("IO error: ", m.as_str()),
            CityJsonStacError::JsonError(m) => concat("JSON parsing error: ", m.as_str()),
            CityJsonStacError::MetadataError(m) => {
                let mut s = concat("Failed to extract metadata: ", m.as_str());
                push_str(&mut s, "\nThe file may be corrupted or invalid");
                s
            },
            CityJsonStacError::InvalidCityJson(m) => concat("Invalid CityJSON structure: ", m.as_str()),
            CityJsonStacError::MissingField(m) => concat("Missing required field: ", m.as_str()),
            CityJsonStacError::StacError(m) => concat("STAC generation error: ", m.as_str()),
            CityJsonStacError::UrlError(m) => concat("Invalid URL: ", m.as_str()),
            CityJsonStacError::GeoJsonError(m) => concat("GeoJSON error: ", m.as_str()),
            CityJsonStacError::NoFilesFound => "No supported files found in directory".to_owned(),
            CityJsonStacError::ObjectStoreError(m) => concat("Object storage error: ", m.as_str()),
            CityJsonStacError::PathError(m) => concat("Path error: ", m.as_str()),
            CityJsonStacError::StorageError(m) => concat("Storage/network error: ", m.as_str()),
            CityJsonStacError::Other(m) => crate::text::copy_string(m),
        }
    }
}

impl From<String> for CityJsonStacError {
    fn from(s: String) -> (r: Self) {
        CityJsonStacError::Other(s)
    }
}

impl vstd::std_specs::convert::FromSpecImpl<String> for CityJsonStacError {
    open spec fn obeys_from_spec() -> bool {
        true
    }

    open spec fn from_spec(s: String) -> CityJsonStacError {
        CityJsonStacError::Other(s)
    }
}

} // verus!
