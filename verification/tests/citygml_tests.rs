use city3d_stac::citygml::{element_lod, local_name, CityGMLVersion, CityGmlScan, XmlAttribute, XmlEvent};

fn start(name: &str, attrs: &[(&str, &str)]) -> XmlEvent {
    XmlEvent::Start {
        name: Some(name.to_string()),
        attributes: attrs
            .iter()
            .map(|(k, v)| XmlAttribute { key: k.to_string(), value: Some(v.to_string()) })
            .collect(),
    }
}

fn end(name: &str) -> XmlEvent {
    XmlEvent::End(Some(name.to_string()))
}

fn text(t: &str) -> XmlEvent {
    XmlEvent::Text(Some(t.to_string()))
}

/// Feeds events to a scan the way the reader does, parsing corner texts
/// with three numbers as the reader's float parsing would accept them.
fn run(events: Vec<XmlEvent>) -> (CityGmlScan, bool) {
    let mut scan = CityGmlScan::new();
    let mut bbox = false;
    for e in &events {
        let step = scan.step(e);
        if let Some((lower, t)) = step.corner_text {
            if t.split_whitespace().filter(|w| w.parse::<f64>().is_ok()).count() >= 3 {
                scan.note_corner(lower);
            }
        }
        if step.bbox_ready {
            bbox = true;
        }
        if step.stop {
            break;
        }
    }
    (scan, bbox)
}

#[test]
fn scans_a_citygml_2_document() {
    let events = vec![
        start("core:CityModel", &[("xmlns:core", "http://www.opengis.net/citygml/2.0")]),
        start("gml:boundedBy", &[]),
        start("gml:Envelope", &[("srsName", "urn:ogc:def:crs,crs:EPSG::31256")]),
        start("gml:lowerCorner", &[]),
        text(" 1.0 2.0 3.0 "),
        end("gml:lowerCorner"),
        start("gml:upperCorner", &[]),
        text("4 5 6"),
        end("gml:upperCorner"),
        end("gml:Envelope"),
        end("gml:boundedBy"),
        start("core:cityObjectMember", &[]),
        start("bldg:Building", &[]),
        start("gen:stringAttribute", &[("name", "function")]),
        end("gen:stringAttribute"),
        start("bldg:lod2Solid", &[]),
        end("bldg:lod2Solid"),
        start("bldg:WallSurface", &[]),
        end("bldg:WallSurface"),
        end("bldg:Building"),
        end("core:cityObjectMember"),
        start("core:cityObjectMember", &[]),
        start("tran:Road", &[]),
        start("app:ParameterizedTexture", &[]),
        end("app:ParameterizedTexture"),
        end("tran:Road"),
        end("core:cityObjectMember"),
        end("core:CityModel"),
        XmlEvent::Eof,
    ];
    let (scan, bbox) = run(events);
    assert!(bbox);
    let meta = scan.finish();
    assert_eq!(meta.version, CityGMLVersion::V2_0);
    assert_eq!(meta.version.as_string(), "2.0");
    assert_eq!(meta.city_object_count, 2);
    assert_eq!(meta.city_object_types, vec!["Building".to_string(), "Road".to_string()]);
    assert_eq!(meta.lods, vec!["2".to_string()]);
    assert_eq!(meta.attributes.len(), 1);
    assert_eq!(meta.attributes[0].name, "function");
    assert!(meta.has_semantic_surfaces);
    assert!(meta.has_textures);
    assert!(!meta.has_materials);
    assert_eq!(meta.crs.as_ref().unwrap().epsg, Some(31256));
    assert_eq!(scan.depth, 0);
}

#[test]
fn scans_citygml_3_generic_attributes() {
    let events = vec![
        start("CityModel", &[("xmlns", "http://www.opengis.net/citygml/3.0")]),
        start("cityObjectMember", &[]),
        start("bldg:Building", &[]),
        start("genericAttribute", &[]),
        start("gen:StringAttribute", &[]),
        start("gen:name", &[]),
        text("  usage  "),
        end("gen:name"),
        start("gen:value", &[]),
        text("residential"),
        end("gen:value"),
        end("gen:StringAttribute"),
        end("genericAttribute"),
        start("app:X3DMaterial", &[]),
        end("app:X3DMaterial"),
        end("bldg:Building"),
        end("cityObjectMember"),
        end("CityModel"),
    ];
    let (scan, bbox) = run(events);
    assert!(!bbox);
    let meta = scan.finish();
    assert_eq!(meta.version, CityGMLVersion::V3_0);
    assert_eq!(meta.attributes.len(), 1);
    assert_eq!(meta.attributes[0].name, "usage");
    assert!(meta.has_materials);
    assert!(meta.crs.is_none());
    assert!(meta.crs_result().is_err());
}

#[test]
fn local_names_and_lods() {
    assert_eq!(local_name("bldg:Building"), "Building");
    assert_eq!(local_name("a:b:c"), "c");
    assert_eq!(local_name("plain"), "plain");
    assert_eq!(local_name("trailing:"), "");
    assert_eq!(element_lod("bldg:lod2Solid"), Some('2'));
    assert_eq!(element_lod("lod"), None);
    assert_eq!(element_lod("bldg:lod"), None);
    assert_eq!(element_lod("lodlod3"), None);
    assert_eq!(element_lod("building"), None);
}
