//! Reading CityJSON text: the text is parsed as JSON, the members that
//! older or careless writers leave non-conforming are rewritten (an integer
//! `version`, an integer `lod` of a geometry, a URN `referenceSystem`), and
//! the JSON written back is decoded with `cjseq`.
use vstd::prelude::*;
use serde_json::Value;
use crate::decode::{
    array_of, cityjson_text_model, document_unreadable, into_elements, into_members, json_array, json_as_i64,
    json_as_str, json_elements, json_members, json_object, json_string, json_text_of, json_text_value,
    json_value_text, member_of, members_view, model_facts, object_of, parse_city_model, parse_json_text,
    string_value, url_unsliceable, value_as_i64, value_as_str, ModelFacts,
};
use crate::error::concat;
use crate::input::{normalize_crs_urn_to_url, normalize_integer_version, signed_decimal, signed_decimal_string, urn_to_url};
use crate::model::CityModel;
use crate::text::{chars_of, contains_str, find_from, find_from_spec, occurs_at, str_eq};

verus! {

/// The objects of a CityJSON document whose members are rewritten.
#[derive(Clone, Copy, PartialEq, Eq, Structural)]
pub enum Level {
    /// The document itself.
    Document,
    /// Its `metadata`.
    Metadata,
    /// Its `CityObjects`.
    CityObjects,
    /// One city object.
    CityObject,
    /// One geometry of a city object.
    Geometry,
}

/// How deep a level lies below the document, counted upwards.
pub open spec fn rank(level: Level) -> nat {
    match level {
        Level::Document => 4,
        Level::CityObjects => 3,
        Level::CityObject => 2,
        Level::Metadata => 0,
        Level::Geometry => 0,
    }
}

/// An integer number written as a string with a suffix; any other value is
/// kept.
pub open spec fn integer_as_text(x: Value, suffix: Seq<char>) -> Value {
    match json_as_i64(x) {
        Some(n) => json_string(signed_decimal(n as int) + suffix),
        None => x,
    }
}

/// A URN reference system written as the URL of the same CRS; any other
/// value is kept.
pub open spec fn urn_as_url(x: Value) -> Value {
    match json_as_str(x) {
        Some(s) => match urn_to_url(s) {
            Some(u) => json_string(u),
            None => x,
        },
        None => x,
    }
}

/// The rewritten value of the member `k` of an object at a level.
pub open spec fn member_rule(level: Level, k: Seq<char>, x: Value) -> Value
    decreases rank(level), 1nat,
{
    match level {
        Level::Document => if k == "version"@ {
            integer_as_text(x, ".0"@)
        } else if k == "CityObjects"@ {
            normalized_object(Level::CityObjects, x)
        } else if k == "metadata"@ {
            normalized_object(Level::Metadata, x)
        } else {
            x
        },
        Level::Metadata => if k == "referenceSystem"@ {
            urn_as_url(x)
        } else {
            x
        },
        Level::CityObjects => normalized_object(Level::CityObject, x),
        Level::CityObject => if k == "geometry"@ {
            normalized_geometries(x)
        } else {
            x
        },
        Level::Geometry => if k == "lod"@ {
            integer_as_text(x, Seq::empty())
        } else {
            x
        },
    }
}

/// The members of an object at a level, each rewritten.
pub open spec fn rewritten_members(level: Level, ms: Seq<(Seq<char>, Value)>) -> Seq<(Seq<char>, Value)>
    decreases rank(level), 2nat,
{
    ms.map_values(|m: (Seq<char>, Value)| (m.0, member_rule(level, m.0, m.1)))
}

/// An object at a level with each member rewritten; any other value is
/// kept.
pub open spec fn normalized_object(level: Level, v: Value) -> Value
    decreases rank(level), 3nat,
{
    match json_members(v) {
        Some(ms) => json_object(rewritten_members(level, ms)),
        None => v,
    }
}

/// Geometries, each rewritten.
pub open spec fn rewritten_geometries(es: Seq<Value>) -> Seq<Value>
    decreases 1nat, 3nat,
{
    es.map_values(|g: Value| normalized_object(Level::Geometry, g))
}

/// The geometries of a city object with each rewritten; any other value is
/// kept.
pub open spec fn normalized_geometries(x: Value) -> Value
    decreases 1nat, 4nat,
{
    match json_elements(x) {
        Some(es) => json_array(rewritten_geometries(es)),
        None => x,
    }
}

/// What reading a CityJSON text gives: the JSON value of the text with its
/// members rewritten, decoded by `cjseq` from the JSON written back; `None`
/// when the text is not JSON, when the reference system is one that `cjseq`
/// cannot read, or when `cjseq` refuses the document.
pub open spec fn read_document(content: Seq<char>) -> Option<ModelFacts> {
    match json_text_value(content) {
        None => None,
        Some(d) => {
            let n = normalized_object(Level::Document, d);
            if document_unreadable(n) {
                None
            } else {
                cityjson_text_model(json_value_text(n))
            }
        },
    }
}

/// Reverses a vector.
fn reversed<T>(v: Vec<T>) -> (r: Vec<T>)
    ensures
        r@ == v@.reverse(),
{
    let mut v = v;
    let ghost orig = v@;
    let mut r: Vec<T> = Vec::new();
    while v.len() > 0
        invariant
            v@.len() + r@.len() == orig.len(),
            v@ == orig.subrange(0, v@.len() as int),
            forall|j: int| 0 <= j < r@.len() ==> r@[j] == orig[orig.len() - 1 - j],
        decreases v@.len(),
    {
        let x = v.pop().unwrap();
        r.push(x);
    }
    assert(r@ =~= orig.reverse());
    r
}

/// Rewrites an integer number as a string with a suffix.
fn integer_text(x: Value, suffix: bool) -> (r: Value)
    ensures
        r == integer_as_text(x, if suffix { ".0"@ } else { Seq::empty() }),
{
    match value_as_i64(&x) {
        Some(n) => {
            if suffix {
                let s = normalize_integer_version(n);
                string_value(s)
            } else {
                let s = signed_decimal_string(n);
                proof {
                    assert(signed_decimal(n as int) + Seq::<char>::empty() =~= signed_decimal(n as int));
                }
                string_value(s)
            }
        },
        None => x,
    }
}

/// Rewrites a URN reference system as a URL.
fn urn_url(x: Value) -> (r: Value)
    ensures
        r == urn_as_url(x),
{
    match value_as_str(&x) {
        Some(s) => match normalize_crs_urn_to_url(s.as_str()) {
            Some(u) => string_value(u),
            None => x,
        },
        None => x,
    }
}

/// Rewrites the member `k` of an object at a level.
fn rewrite_member(level: Level, k: &String, x: Value) -> (r: Value)
    ensures
        r == member_rule(level, k@, x),
    decreases rank(level), 1nat,
{
    proof {
        reveal_strlit("version");
        reveal_strlit("CityObjects");
        reveal_strlit("metadata");
        reveal_strlit("referenceSystem");
        reveal_strlit("geometry");
        reveal_strlit("lod");
    }
    match level {
        Level::Document => if str_eq(k.as_str(), "version") {
            integer_text(x, true)
        } else if str_eq(k.as_str(), "CityObjects") {
            rewrite_object(Level::CityObjects, x)
        } else if str_eq(k.as_str(), "metadata") {
            rewrite_object(Level::Metadata, x)
        } else {
            x
        },
        Level::Metadata => if str_eq(k.as_str(), "referenceSystem") {
            urn_url(x)
        } else {
            x
        },
        Level::CityObjects => rewrite_object(Level::CityObject, x),
        Level::CityObject => if str_eq(k.as_str(), "geometry") {
            rewrite_geometries(x)
        } else {
            x
        },
        Level::Geometry => if str_eq(k.as_str(), "lod") {
            integer_text(x, false)
        } else {
            x
        },
    }
}

/// Rewrites each member of an object at a level.
fn rewrite_object(level: Level, v: Value) -> (r: Value)
    ensures
        r == normalized_object(level, v),
    decreases rank(level), 2nat,
{
    match into_members(v) {
        Err(w) => w,
        Ok(ms) => {
            let ghost src = members_view(ms@);
            let mut rest = reversed(ms);
            let mut out: Vec<(String, Value)> = Vec::new();
            while rest.len() > 0
                invariant
                    rest@.len() + out@.len() == src.len(),
                    forall|j: int|
                        0 <= j < rest@.len() ==> (#[trigger] rest@[j]).0@ == src[src.len() - 1 - j].0
                            && rest@[j].1 == src[src.len() - 1 - j].1,
                    forall|j: int|
                        0 <= j < out@.len() ==> (#[trigger] out@[j]).0@ == src[j].0 && out@[j].1
                            == member_rule(level, src[j].0, src[j].1),
                decreases rest@.len(),
            {
                let (k, x) = rest.pop().unwrap();
                let y = rewrite_member(level, &k, x);
                out.push((k, y));
            }
            assert(members_view(out@) =~= rewritten_members(level, src));
            object_of(out)
        },
    }
}

/// Rewrites each geometry of a city object.
fn rewrite_geometries(x: Value) -> (r: Value)
    ensures
        r == normalized_geometries(x),
    decreases 1nat, 3nat,
{
    match into_elements(x) {
        Err(w) => w,
        Ok(es) => {
            let ghost src = es@;
            let mut rest = reversed(es);
            let mut out: Vec<Value> = Vec::new();
            while rest.len() > 0
                invariant
                    rest@.len() + out@.len() == src.len(),
                    forall|j: int| 0 <= j < rest@.len() ==> #[trigger] rest@[j] == src[src.len() - 1 - j],
                    forall|j: int|
                        0 <= j < out@.len() ==> #[trigger] out@[j] == normalized_object(Level::Geometry, src[j]),
                decreases rest@.len(),
            {
                let g = rest.pop().unwrap();
                let y = rewrite_object(Level::Geometry, g);
                out.push(y);
            }
            assert(out@ =~= rewritten_geometries(src));
            array_of(out)
        },
    }
}

/// Whether `cjseq` would slice a reference-system text out of range.
fn unsliceable_url(s: &str) -> (r: bool)
    ensures
        r == url_unsliceable(s@),
{
    if !contains_str(s, "//www.opengis.net/def/crs") {
        return false;
    }
    let v = chars_of(s);
    let p = chars_of("crs");
    proof {
        reveal_strlit("crs");
    }
    match find_from(&v, &p, 0) {
        Some(i) => {
            proof {
                lemma_found_occurs(v@, p@, 0, i as int);
                assert(p@.len() == 3);
                assert(i + 3 <= v@.len());
                assert(v@.len() == v.len());
            }
            let j: usize = i + 3;
            j >= v.len() || (v[j] as u32) >= 128
        },
        None => false,
    }
}

/// A position that the search finds holds an occurrence.
proof fn lemma_found_occurs(s: Seq<char>, p: Seq<char>, from: int, i: int)
    requires
        find_from_spec(s, p, from) == Some(i),
    ensures
        occurs_at(s, p, i),
    decreases s.len() + 1 - from,
{
    if 0 <= from <= s.len() && !occurs_at(s, p, from) {
        lemma_found_occurs(s, p, from + 1, i);
    }
}

/// Whether a document's reference system is one that `cjseq` cannot read
/// without slicing out of range.
fn unreadable_document(d: &Value) -> (r: bool)
    ensures
        r == document_unreadable(*d),
{
    match member_of(d, "metadata") {
        None => false,
        Some(m) => match member_of(&m, "referenceSystem") {
            None => false,
            Some(rs) => match value_as_str(&rs) {
                None => false,
                Some(s) => unsliceable_url(s.as_str()),
            },
        },
    }
}

/// The JSON text of CityJSON text with an integer `version`, integer
/// geometry `lod`s and a URN `referenceSystem` rewritten; text that is not
/// JSON is an error.
pub fn normalized_cityjson_text(content: &str) -> (r: Result<String, String>)
    ensures
        match json_text_value(content@) {
            None => r is Err,
            Some(d) => r matches Ok(t) && t@ == json_value_text(normalized_object(Level::Document, d)),
        },
{
    match parse_json_text(content) {
        Ok(d) => {
            let n = rewrite_object(Level::Document, d);
            Ok(json_text_of(&n))
        },
        Err(e) => Err(concat("Failed to parse JSON: ", e.as_str())),
    }
}

/// Parses CityJSON text, rewriting an integer `version`, integer geometry
/// `lod`s and a URN `referenceSystem` into the strings CityJSON asks for.
/// Text that is not JSON, a reference system that `cjseq` cannot read, and a
/// document that `cjseq` refuses are errors.
pub fn parse_cityjson(content: &str) -> (r: Result<CityModel, String>)
    ensures
        r is Ok <==> read_document(content@) is Some,
        r matches Ok(m) ==> read_document(content@) == Some(model_facts(m)),
{
    let d = match parse_json_text(content) {
        Ok(d) => d,
        Err(e) => return Err(concat("Failed to parse JSON: ", e.as_str())),
    };
    let n = rewrite_object(Level::Document, d);
    if unreadable_document(&n) {
        return Err(crate::stac::owned("Failed to parse CityJSON: invalid reference system URL"));
    }
    let text = json_text_of(&n);
    match parse_city_model(text.as_str()) {
        Ok(m) => Ok(m),
        Err(e) => Err(concat("Failed to parse CityJSON after normalization: ", e.as_str())),
    }
}

} // verus!
