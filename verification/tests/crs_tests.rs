use city3d_stac::crs::CRS;

#[test]
fn crs_test_crs_from_epsg() {
    let crs = CRS::from_epsg(7415);
    assert_eq!(crs.epsg, Some(7415));
    assert_eq!(crs.authority, Some("EPSG".to_string()));
    assert_eq!(crs.identifier, Some("7415".to_string()));
}

#[test]
fn crs_test_crs_from_cityjson_url() {
    let url = "https://www.opengis.net/def/crs/EPSG/0/7415";
    let crs = CRS::from_cityjson_url(url).unwrap();
    assert_eq!(crs.epsg, Some(7415));
}

#[test]
fn crs_test_crs_to_stac_epsg() {
    let crs = CRS::from_epsg(7415);
    assert_eq!(crs.to_stac_epsg(), Some(7415));
}

#[test]
fn test_crs_to_stac_proj_code() {
    let crs = CRS::from_epsg(7415);
    assert_eq!(crs.to_stac_proj_code(), Some("EPSG:7415".to_string()));
}

#[test]
fn test_crs_to_stac_proj_code_unknown() {
    let crs = CRS::unknown();
    assert_eq!(crs.to_stac_proj_code(), None);
}

#[test]
fn crs_test_crs_to_cityjson_url() {
    let crs = CRS::from_epsg(7415);
    assert_eq!(
        crs.to_cityjson_url(),
        Some("https://www.opengis.net/def/crs/EPSG/0/7415".to_string())
    );
}

#[test]
fn crs_test_crs_default() {
    let crs = CRS::default();
    assert_eq!(crs.epsg, None);
    assert!(!crs.is_known());
}

#[test]
fn test_crs_unknown() {
    let crs = CRS::unknown();
    assert_eq!(crs.epsg, None);
    assert!(!crs.is_known());
}

#[test]
fn test_crs_wgs84() {
    let crs = CRS::wgs84();
    assert_eq!(crs.epsg, Some(4326));
    assert!(crs.is_known());
    assert!(crs.is_wgs84());
}

#[test]
fn test_crs_is_wgs84_false_for_other_epsg() {
    let crs = CRS::from_epsg(28992);
    assert!(!crs.is_wgs84());
}

#[test]
fn test_crs_from_citygml_srs_name_urn_comma() {
    let srs = "urn:ogc:def:crs,crs:EPSG::31256";
    let crs = CRS::from_citygml_srs_name(srs).unwrap();
    assert_eq!(crs.epsg, Some(31256));
}

#[test]
fn test_crs_from_citygml_srs_name_urn_colon() {
    let srs = "urn:ogc:def:crs:EPSG::4326";
    let crs = CRS::from_citygml_srs_name(srs).unwrap();
    assert_eq!(crs.epsg, Some(4326));
}

#[test]
fn test_crs_from_citygml_srs_name_simple() {
    let srs = "EPSG:25832";
    let crs = CRS::from_citygml_srs_name(srs).unwrap();
    assert_eq!(crs.epsg, Some(25832));
}

#[test]
fn test_crs_from_citygml_srs_name_http_url() {
    let srs = "http://www.opengis.net/def/crs/EPSG/0/7415";
    let crs = CRS::from_citygml_srs_name(srs).unwrap();
    assert_eq!(crs.epsg, Some(7415));
}

#[test]
fn test_crs_from_citygml_srs_name_with_whitespace() {
    let srs = "  urn:ogc:def:crs,crs:EPSG::31256  ";
    let crs = CRS::from_citygml_srs_name(srs).unwrap();
    assert_eq!(crs.epsg, Some(31256));
}

#[test]
fn test_crs_from_citygml_srs_name_invalid() {
    assert!(CRS::from_citygml_srs_name("INVALID").is_none());
    assert!(CRS::from_citygml_srs_name("").is_none());
}

#[test]
fn metadata_tests_test_crs_from_epsg() {
    let crs = CRS::from_epsg(7415);
    assert_eq!(crs.epsg, Some(7415));
    assert_eq!(crs.authority, Some("EPSG".to_string()));
    assert_eq!(crs.identifier, Some("7415".to_string()));
}

#[test]
fn metadata_tests_test_crs_from_cityjson_url() {
    let url = "https://www.opengis.net/def/crs/EPSG/0/7415";
    let crs = CRS::from_cityjson_url(url).expect("Failed to parse CRS URL");
    assert_eq!(crs.epsg, Some(7415));
}

#[test]
fn test_crs_from_cityjson_url_wgs84() {
    let url = "https://www.opengis.net/def/crs/EPSG/0/4326";
    let crs = CRS::from_cityjson_url(url).expect("Failed to parse CRS URL");
    assert_eq!(crs.epsg, Some(4326));
}

#[test]
fn metadata_tests_test_crs_to_stac_epsg() {
    let crs = CRS::from_epsg(7415);
    assert_eq!(crs.to_stac_epsg(), Some(7415));
}

#[test]
fn metadata_tests_test_crs_to_cityjson_url() {
    let crs = CRS::from_epsg(7415);
    let url = crs.to_cityjson_url().expect("Failed to generate URL");
    assert_eq!(url, "https://www.opengis.net/def/crs/EPSG/0/7415");
}

#[test]
fn metadata_tests_test_crs_default() {
    let crs = CRS::default();
    assert_eq!(crs.epsg, None);
    assert!(!crs.is_known());
}

#[test]
fn test_crs_from_invalid_url() {
    let url = "invalid-url";
    let result = CRS::from_cityjson_url(url);
    assert!(result.is_none());
}

#[test]
fn test_crs_roundtrip() {
    let original = CRS::from_epsg(28992);
    let url = original.to_cityjson_url().expect("Failed to generate URL");
    let parsed = CRS::from_cityjson_url(&url).expect("Failed to parse URL");
    assert_eq!(original.epsg, parsed.epsg);
}

#[test]
fn proj_code_roundtrip_for_large_code() {
    let crs = CRS::from_epsg(4294967295);
    assert_eq!(crs.to_stac_proj_code(), Some("EPSG:4294967295".to_string()));
    let url = crs.to_cityjson_url().unwrap();
    assert_eq!(CRS::from_cityjson_url(&url).unwrap().epsg, Some(4294967295));
}

#[test]
fn every_srs_name_spelling_names_the_epsg_crs() {
    let spellings = [
        "EPSG:4978",
        "\turn:ogc:def:crs:EPSG::4978 ",
        " urn:ogc:def:crs,crs:EPSG::4978\n",
        "  http://www.opengis.net/def/crs/EPSG/0/4978",
    ];
    for s in spellings {
        let crs = CRS::from_citygml_srs_name(s).unwrap();
        assert_eq!(crs, CRS::from_epsg(4978));
        assert_eq!(crs.authority.as_deref(), Some("EPSG"));
        assert_eq!(crs.identifier.as_deref(), Some("4978"));
    }
}
