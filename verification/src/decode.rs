//! Decoding CityJSON text with `cjseq`: what a parsed document and a parsed
//! CityJSONFeature line hold for metadata extraction. `cjseq` keeps the city
//! objects in a hash map, so their order is left open: the content of a
//! decoded document is stated with its city objects as a multiset.
use vstd::prelude::*;
use crate::attributes::JsonKind;
use crate::crs::opt_view;
use crate::model::{CityFeature, CityModel, CityObjectInfo, GeometryInfo, ReferenceSystem};
use crate::text::{contains_seq, find_from_spec, views};
use vstd::multiset::Multiset;

verus! {

/// `cjseq::CityJSON`, carried through without inspection.
#[verifier::external_type_specification]
#[verifier::external_body]
pub struct ExCityJSON(cjseq::CityJSON);

/// `cjseq::CityJSONFeature`, carried through without inspection.
#[verifier::external_type_specification]
#[verifier::external_body]
pub struct ExCityJSONFeature(cjseq::CityJSONFeature);

/// `cjseq::CityObject`, carried through without inspection.
#[verifier::external_type_specification]
#[verifier::external_body]
pub struct ExCityObject(cjseq::CityObject);

/// The content of a city object: its type, the level of detail and
/// semantics flag of each geometry, and its attribute names with the kinds
/// of their values.
pub struct ObjectView {
    pub object_type: Seq<char>,
    pub geometry: Option<Seq<(Option<Seq<char>>, bool)>>,
    pub attributes: Option<Seq<(Seq<char>, JsonKind)>>,
}

/// The content of a decoded CityJSON document.
pub struct ModelFacts {
    pub version: Seq<char>,
    /// Authority and code of the metadata's reference system.
    pub reference_system: Option<(Seq<char>, Seq<char>)>,
    pub city_objects: Multiset<ObjectView>,
    pub extensions: Option<Seq<Seq<char>>>,
    pub has_textures: bool,
    pub has_materials: bool,
}

/// The content of a decoded CityJSONFeature line.
pub struct FeatureFacts {
    pub city_objects: Multiset<ObjectView>,
    pub has_textures: bool,
    pub has_materials: bool,
}

/// The content of a geometry.
pub open spec fn geometry_view(g: GeometryInfo) -> (Option<Seq<char>>, bool) {
    (opt_view(g.lod), g.has_semantics)
}

/// The content of a city object.
pub open spec fn object_view(o: CityObjectInfo) -> ObjectView {
    ObjectView {
        object_type: o.object_type@,
        geometry: match o.geometry {
            Some(g) => Some(g@.map_values(|x: GeometryInfo| geometry_view(x))),
            None => None,
        },
        attributes: match o.attributes {
            Some(a) => Some(a@.map_values(|p: (String, JsonKind)| (p.0@, p.1))),
            None => None,
        },
    }
}

/// The city objects of a list, as a multiset of their contents.
pub open spec fn objects_multiset(objs: Seq<CityObjectInfo>) -> Multiset<ObjectView> {
    objs.map_values(|o: CityObjectInfo| object_view(o)).to_multiset()
}

/// The content of a document model.
pub open spec fn model_facts(m: CityModel) -> ModelFacts {
    ModelFacts {
        version: m.version@,
        reference_system: match m.reference_system {
            Some(rs) => Some((rs.authority@, rs.code@)),
            None => None,
        },
        city_objects: objects_multiset(m.city_objects@),
        extensions: match m.extensions {
            Some(e) => Some(views(e@)),
            None => None,
        },
        has_textures: m.has_textures,
        has_materials: m.has_materials,
    }
}

/// The content of a feature model.
pub open spec fn feature_facts(f: CityFeature) -> FeatureFacts {
    FeatureFacts {
        city_objects: objects_multiset(f.city_objects@),
        has_textures: f.has_textures,
        has_materials: f.has_materials,
    }
}

/// What `cjseq::CityJSON::from_str` makes of a text, as far as metadata
/// extraction reads it; `None` when it refuses the text.
pub uninterp spec fn cityjson_text_model(content: Seq<char>) -> Option<ModelFacts>;

/// What `cjseq::CityJSONFeature::from_str` makes of a line; `None` when it
/// refuses the line.
pub uninterp spec fn cityjson_feature_text(line: Seq<char>) -> Option<FeatureFacts>;

/// Converts a `cjseq` city object: its type, each geometry's level of
/// detail and whether it has semantics, and its attributes' kinds.
#[verifier::external_body]
fn object_info(co: &cjseq::CityObject) -> (r: CityObjectInfo) {
    CityObjectInfo {
        object_type: co.thetype.clone(),
        geometry: co.geometry.as_ref().map(
            |gs| gs.iter().map(|g| GeometryInfo { lod: g.lod.clone(), has_semantics: g.semantics.is_some() }).collect(),
        ),
        attributes: co.attributes.as_ref().and_then(|a| a.as_object()).map(
            |o| o.iter().map(|(k, v)| (k.clone(), JsonKind::of_value(v))).collect(),
        ),
    }
}

/// Converts a parsed `cjseq` document, field by field.
#[verifier::external_body]
fn model_of(cj: &cjseq::CityJSON) -> (r: CityModel) {
    let rs = cj.metadata.as_ref().and_then(|m| m.reference_system.as_ref());
    let ap = cj.appearance.as_ref();
    CityModel {
        version: cj.version.clone(),
        reference_system: rs.map(|r| ReferenceSystem { authority: r.authority.clone(), code: r.code.clone() }),
        city_objects: cj.city_objects.values().map(object_info).collect(),
        extensions: cj.extensions.as_ref().and_then(|e| e.as_object()).map(|o| o.keys().cloned().collect()),
        has_textures: ap.is_some_and(|a| a.textures.is_some()),
        has_materials: ap.is_some_and(|a| a.materials.is_some()),
    }
}

/// Converts a parsed `cjseq` feature, field by field.
#[verifier::external_body]
fn feature_of(f: &cjseq::CityJSONFeature) -> (r: CityFeature) {
    let ap = f.appearance.as_ref();
    CityFeature {
        city_objects: f.city_objects.values().map(object_info).collect(),
        has_textures: ap.is_some_and(|a| a.textures.is_some()),
        has_materials: ap.is_some_and(|a| a.materials.is_some()),
    }
}

/// The value of the first member with a key.
pub open spec fn member_named(ms: Seq<(Seq<char>, serde_json::Value)>, key: Seq<char>) -> Option<serde_json::Value>
    decreases ms.len(),
{
    if ms.len() == 0 {
        None
    } else if ms[0].0 == key {
        Some(ms[0].1)
    } else {
        member_named(ms.drop_first(), key)
    }
}

/// The text of a document's `metadata.referenceSystem`, when it is a string.
pub open spec fn document_reference_system(d: serde_json::Value) -> Option<Seq<char>> {
    match json_members(d) {
        Some(ms) => match member_named(ms, "metadata"@) {
            Some(m) => match json_members(m) {
                Some(mm) => match member_named(mm, "referenceSystem"@) {
                    Some(rs) => json_as_str(rs),
                    None => None,
                },
                None => None,
            },
            None => None,
        },
        None => None,
    }
}

/// A reference-system text on which `cjseq`'s `ReferenceSystem::from_url`
/// slices out of range: it holds `//www.opengis.net/def/crs`, and the first
/// `crs` in it ends the text or is followed by a character of more than one
/// UTF-8 byte (the slice starts one byte after `crs`).
pub open spec fn url_unsliceable(s: Seq<char>) -> bool {
    &&& contains_seq(s, "//www.opengis.net/def/crs"@)
    &&& match find_from_spec(s, "crs"@, 0) {
        Some(i) => i + 3 >= s.len() || (s[i + 3] as u32) >= 128,
        None => false,
    }
}

/// A document whose reference system `cjseq` cannot read without slicing
/// out of range.
pub open spec fn document_unreadable(d: serde_json::Value) -> bool {
    match document_reference_system(d) {
        Some(s) => url_unsliceable(s),
        None => false,
    }
}

/// Calls `cjseq::CityJSON::from_str`: the document it parses is named by
/// `cityjson_text_model`; on a refusal, its error's message. The text is
/// one that `serde_json` wrote for a value, so its object keys are unique,
/// and its reference system is one that `ReferenceSystem::from_url` reads
/// without slicing out of range (that function is the only place where
/// parsing can panic).
#[verifier::external_body]
pub(crate) fn parse_city_model(content: &str) -> (r: Result<CityModel, String>)
    requires
        exists|d: serde_json::Value| content@ == json_value_text(d) && !document_unreadable(d),
    ensures
        r is Ok <==> cityjson_text_model(content@) is Some,
        r matches Ok(m) ==> cityjson_text_model(content@) == Some(model_facts(m)),
{
    cjseq::CityJSON::from_str(content).map(|cj| model_of(&cj)).map_err(|e| e.to_string())
}

/// Calls `cjseq::CityJSONFeature::from_str`: the feature it parses is named
/// by `cityjson_feature_text`; on a refusal, its error's message.
#[verifier::external_body]
pub(crate) fn parse_city_feature(line: &str) -> (r: Result<CityFeature, String>)
    ensures
        r is Ok <==> cityjson_feature_text(line@) is Some,
        r matches Ok(f) ==> cityjson_feature_text(line@) == Some(feature_facts(f)),
{
    cjseq::CityJSONFeature::from_str(line).map(|f| feature_of(&f)).map_err(|e| e.to_string())
}


/// The JSON value that `serde_json::from_str` parses from a text; `None`
/// when it refuses the text.
pub uninterp spec fn json_text_value(content: Seq<char>) -> Option<serde_json::Value>;

/// The compact JSON text of a value (`serde_json::Value`'s `Display`, which
/// `serde_json::to_string` also writes).
pub uninterp spec fn json_value_text(v: serde_json::Value) -> Seq<char>;

/// The members of a JSON object, in the map's order (`Value::as_object`);
/// `None` for any other value.
pub uninterp spec fn json_members(v: serde_json::Value) -> Option<Seq<(Seq<char>, serde_json::Value)>>;

/// The JSON object made of members (`Value::Object` of the collected map).
pub uninterp spec fn json_object(members: Seq<(Seq<char>, serde_json::Value)>) -> serde_json::Value;

/// The elements of a JSON array (`Value::as_array`); `None` for any other
/// value.
pub uninterp spec fn json_elements(v: serde_json::Value) -> Option<Seq<serde_json::Value>>;

/// The JSON array of elements (`Value::Array`).
pub uninterp spec fn json_array(elements: Seq<serde_json::Value>) -> serde_json::Value;

/// A JSON number that fits an `i64` (`Value::as_i64`).
pub uninterp spec fn json_as_i64(v: serde_json::Value) -> Option<i64>;

/// The text of a JSON string (`Value::as_str`).
pub uninterp spec fn json_as_str(v: serde_json::Value) -> Option<Seq<char>>;

/// The JSON string of a text (`Value::String`).
pub uninterp spec fn json_string(s: Seq<char>) -> serde_json::Value;

/// Members with their keys taken by view.
pub open spec fn members_view(ms: Seq<(String, serde_json::Value)>) -> Seq<(Seq<char>, serde_json::Value)> {
    ms.map_values(|m: (String, serde_json::Value)| (m.0@, m.1))
}

/// Calls `serde_json::from_str` for a `Value`; on a refusal, its error's
/// message.
#[verifier::external_body]
pub(crate) fn parse_json_text(content: &str) -> (r: Result<serde_json::Value, String>)
    ensures
        r is Ok <==> json_text_value(content@) is Some,
        r matches Ok(v) ==> json_text_value(content@) == Some(v),
{
    serde_json::from_str(content).map_err(|e: serde_json::Error| e.to_string())
}

/// Writes a value as compact JSON text (`Value`'s `Display`).
#[verifier::external_body]
pub(crate) fn json_text_of(v: &serde_json::Value) -> (r: String)
    ensures
        r@ == json_value_text(*v),
{
    v.to_string()
}

/// The members of an object, moved out of it (`Value::Object`'s map, in its
/// order); any other value is handed back.
#[verifier::external_body]
pub(crate) fn into_members(v: serde_json::Value) -> (r: Result<Vec<(String, serde_json::Value)>, serde_json::Value>)
    ensures
        match r {
            Ok(ms) => json_members(v) == Some(members_view(ms@)),
            Err(w) => w == v && json_members(v) is None,
        },
{
    match v {
        serde_json::Value::Object(m) => Ok(m.into_iter().collect()),
        other => Err(other),
    }
}

/// The object made of members (`Value::Object`).
#[verifier::external_body]
pub(crate) fn object_of(ms: Vec<(String, serde_json::Value)>) -> (r: serde_json::Value)
    ensures
        r == json_object(members_view(ms@)),
{
    serde_json::Value::Object(ms.into_iter().collect())
}

/// A copy of the value of an object's member (`Value::get`); an object's
/// keys are unique, so it is the member of that key.
#[verifier::external_body]
pub(crate) fn member_of(v: &serde_json::Value, key: &str) -> (r: Option<serde_json::Value>)
    ensures
        r == match json_members(*v) {
            Some(ms) => member_named(ms, key@),
            None => None,
        },
{
    v.get(key).cloned()
}

/// The elements of an array, moved out of it (`Value::Array`); any other
/// value is handed back.
#[verifier::external_body]
pub(crate) fn into_elements(v: serde_json::Value) -> (r: Result<Vec<serde_json::Value>, serde_json::Value>)
    ensures
        match r {
            Ok(es) => json_elements(v) == Some(es@),
            Err(w) => w == v && json_elements(v) is None,
        },
{
    match v {
        serde_json::Value::Array(es) => Ok(es),
        other => Err(other),
    }
}

/// The array of elements (`Value::Array`).
#[verifier::external_body]
pub(crate) fn array_of(es: Vec<serde_json::Value>) -> (r: serde_json::Value)
    ensures
        r == json_array(es@),
{
    serde_json::Value::Array(es)
}

/// A number that fits an `i64` (`Value::as_i64`).
#[verifier::external_body]
pub(crate) fn value_as_i64(v: &serde_json::Value) -> (r: Option<i64>)
    ensures
        r == json_as_i64(*v),
{
    v.as_i64()
}

/// The text of a string value (`Value::as_str`).
#[verifier::external_body]
pub(crate) fn value_as_str(v: &serde_json::Value) -> (r: Option<String>)
    ensures
        opt_view(r) == json_as_str(*v),
{
    v.as_str().map(|s| s.to_string())
}

/// The string value of a text (`Value::String`).
#[verifier::external_body]
pub(crate) fn string_value(s: String) -> (r: serde_json::Value)
    ensures
        r == json_string(s@),
{
    serde_json::Value::String(s)
}

} // verus!
