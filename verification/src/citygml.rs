//! CityGML metadata scanning (versions 2.0 and 3.0).
//!
//! The document is read as a stream of XML events by the caller; this
//! module decides, event by event, what each one tells about the dataset:
//! version, reference system, city objects and their types, levels of
//! detail, appearance, generic attributes, and where the root envelope's
//! corner coordinates are.
use vstd::prelude::*;
use crate::attributes::{AttributeDefinition, AttributeType};
use crate::crs::{CRS, CrsView, opt_view, opt_crs_view, srs_name_crs};
use crate::error::{CityJsonStacError, Result};
use crate::sorted::{insert_sorted, view_set, copy_strings};
use crate::stac::owned;
use crate::text::{
    chars_of, chars_start_with_at, contains_seq, contains_str, copy_string, ends_with, ends_with_str,
    occurs_at, starts_with, starts_with_str, str_eq, string_from_chars, strictly_sorted, trim, trim_bounds,
    views, find_from, find_from_spec,
};

verus! {

/// CityGML version detected in a file.
#[derive(Debug, Clone, Copy, PartialEq, Eq, Structural)]
pub enum CityGMLVersion {
    V2_0,
    V3_0,
}

/// An attribute of an XML start tag: its name, and its value when that is
/// valid UTF-8.
pub struct XmlAttribute {
    pub key: String,
    pub value: Option<String>,
}

/// The content of an attribute.
pub struct AttrView {
    pub key: Seq<char>,
    pub value: Option<Seq<char>>,
}

impl View for XmlAttribute {
    type V = AttrView;

    open spec fn view(&self) -> AttrView {
        AttrView { key: self.key@, value: opt_view(self.value) }
    }
}

/// The views of the attributes of a tag.
pub open spec fn attr_views(v: Seq<XmlAttribute>) -> Seq<AttrView> {
    v.map_values(|a: XmlAttribute| a@)
}

/// An event of the XML stream, as the scan reads it. Names and texts are
/// `None` where they are not valid UTF-8 (or, for text, cannot be
/// unescaped).
pub enum XmlEvent {
    Start { name: Option<String>, attributes: Vec<XmlAttribute> },
    Text(Option<String>),
    End(Option<String>),
    Eof,
    Other,
}

/// The part of a qualified name after its last `:` (all of it without one).
pub open spec fn local_part(name: Seq<char>) -> Seq<char>
    decreases name.len(),
{
    if name.len() == 0 {
        name
    } else if name.last() == ':' {
        seq![]
    } else {
        local_part(name.drop_last()).push(name.last())
    }
}

/// The local part of a name, as text.
pub fn local_name(name: &str) -> (r: String)
    ensures
        r@ == local_part(name@),
{
    let v = chars_of(name);
    let mut i: usize = v.len();
    assert(v@.take(v.len() as int) =~= v@);
    assert(v@.subrange(v.len() as int, v.len() as int) =~= Seq::<char>::empty());
    while i > 0 && v[i - 1] != ':'
        invariant
            i <= v.len(),
            v@ == name@,
            local_part(name@) == local_part(v@.take(i as int)) + v@.subrange(i as int, v.len() as int),
        decreases i,
    {
        let ghost t = v@.take(i as int);
        assert(t.drop_last() =~= v@.take(i - 1));
        assert(local_part(t) == local_part(t.drop_last()).push(v@[i - 1]));
        assert(local_part(t.drop_last()).push(v@[i - 1]) + v@.subrange(i as int, v.len() as int)
            =~= local_part(t.drop_last()) + v@.subrange(i - 1, v.len() as int));
        i = i - 1;
    }
    proof {
        let t = v@.take(i as int);
        if i == 0 {
            assert(t.len() == 0);
        }
        assert(local_part(t) =~= Seq::<char>::empty());
        assert(Seq::<char>::empty() + v@.subrange(i as int, v.len() as int) =~= v@.subrange(
            i as int,
            v.len() as int,
        ));
    }
    string_from_chars(&v, i, v.len())
}

/// The local part of an optional name.
pub open spec fn opt_local(name: Option<Seq<char>>) -> Option<Seq<char>> {
    match name {
        Some(n) => Some(local_part(n)),
        None => None,
    }
}

/// An attribute that declares a namespace.
pub open spec fn is_namespace_key(k: Seq<char>) -> bool {
    k == "xmlns"@ || starts_with(k, "xmlns:"@)
}

/// The version after the namespace declarations of a root element: each
/// declaration of a CityGML 3.0 or 2.0 namespace sets it, the last one
/// deciding.
pub open spec fn version_after(v: CityGMLVersion, attrs: Seq<AttrView>) -> CityGMLVersion
    decreases attrs.len(),
{
    if attrs.len() == 0 {
        v
    } else {
        let before = version_after(v, attrs.drop_last());
        let a = attrs.last();
        let value = match a.value {
            Some(x) => x,
            None => seq![],
        };
        if !is_namespace_key(a.key) {
            before
        } else if contains_seq(value, "/citygml/3.0"@) {
            CityGMLVersion::V3_0
        } else if contains_seq(value, "/citygml/2.0"@) {
            CityGMLVersion::V2_0
        } else {
            before
        }
    }
}

/// The reference system name after the attributes of an envelope: the last
/// `srsName` with a valid value.
pub open spec fn srs_after(cur: Option<Seq<char>>, attrs: Seq<AttrView>) -> Option<Seq<char>>
    decreases attrs.len(),
{
    if attrs.len() == 0 {
        cur
    } else {
        let before = srs_after(cur, attrs.drop_last());
        let a = attrs.last();
        if a.key == "srsName"@ && a.value is Some {
            a.value
        } else {
            before
        }
    }
}

/// The values of the `name` attributes.
pub open spec fn name_values(attrs: Seq<AttrView>) -> Set<Seq<char>>
    decreases attrs.len(),
{
    if attrs.len() == 0 {
        Set::empty()
    } else {
        let before = name_values(attrs.drop_last());
        let a = attrs.last();
        if a.key == "name"@ && a.value is Some {
            before.insert(a.value->0)
        } else {
            before
        }
    }
}

/// The root element's namespace declarations applied to a version.
fn scan_version(v: CityGMLVersion, attrs: &Vec<XmlAttribute>) -> (r: CityGMLVersion)
    ensures
        r == version_after(v, attr_views(attrs@)),
{
    let mut r = v;
    let mut i: usize = 0;
    assert(attr_views(attrs@).take(0) =~= Seq::<AttrView>::empty());
    while i < attrs.len()
        invariant
            i <= attrs.len(),
            r == version_after(v, attr_views(attrs@).take(i as int)),
        decreases attrs.len() - i,
    {
        let ghost pre = attr_views(attrs@).take(i + 1);
        assert(pre.drop_last() =~= attr_views(attrs@).take(i as int));
        assert(pre.last() == attrs@[i as int]@);
        let a = &attrs[i];
        if str_eq(a.key.as_str(), "xmlns") || starts_with_str(a.key.as_str(), "xmlns:") {
            let value = match &a.value {
                Some(x) => x.as_str(),
                None => "",
            };
            proof {
                reveal_strlit("");
                reveal_strlit("/citygml/3.0");
                reveal_strlit("/citygml/2.0");
            }
            if contains_str(value, "/citygml/3.0") {
                r = CityGMLVersion::V3_0;
            } else if contains_str(value, "/citygml/2.0") {
                r = CityGMLVersion::V2_0;
            }
        }
        i = i + 1;
    }
    assert(attr_views(attrs@).take(attrs.len() as int) =~= attr_views(attrs@));
    r
}

/// The `srsName` of an envelope, over a previous one.
fn scan_srs(cur: Option<String>, attrs: &Vec<XmlAttribute>) -> (r: Option<String>)
    ensures
        opt_view(r) == srs_after(opt_view(cur), attr_views(attrs@)),
{
    let mut r = cur;
    let mut i: usize = 0;
    assert(attr_views(attrs@).take(0) =~= Seq::<AttrView>::empty());
    while i < attrs.len()
        invariant
            i <= attrs.len(),
            opt_view(r) == srs_after(opt_view(cur), attr_views(attrs@).take(i as int)),
        decreases attrs.len() - i,
    {
        let ghost pre = attr_views(attrs@).take(i + 1);
        assert(pre.drop_last() =~= attr_views(attrs@).take(i as int));
        assert(pre.last() == attrs@[i as int]@);
        let a = &attrs[i];
        if str_eq(a.key.as_str(), "srsName") {
            if let Some(x) = &a.value {
                r = Some(copy_string(x));
            }
        }
        i = i + 1;
    }
    assert(attr_views(attrs@).take(attrs.len() as int) =~= attr_views(attrs@));
    r
}

/// Adds the values of the `name` attributes to a sorted set of names.
fn scan_names(names: &mut Vec<String>, attrs: &Vec<XmlAttribute>)
    requires
        strictly_sorted(views(old(names)@)),
    ensures
        strictly_sorted(views(final(names)@)),
        view_set(final(names)@) == view_set(old(names)@).union(name_values(attr_views(attrs@))),
{
    let mut i: usize = 0;
    assert(attr_views(attrs@).take(0) =~= Seq::<AttrView>::empty());
    assert(view_set(names@).union(Set::empty()) =~= view_set(names@));
    while i < attrs.len()
        invariant
            i <= attrs.len(),
            strictly_sorted(views(names@)),
            view_set(names@) == view_set(old(names)@).union(name_values(attr_views(attrs@).take(i as int))),
        decreases attrs.len() - i,
    {
        let ghost pre = attr_views(attrs@).take(i + 1);
        assert(pre.drop_last() =~= attr_views(attrs@).take(i as int));
        assert(pre.last() == attrs@[i as int]@);
        let a = &attrs[i];
        if str_eq(a.key.as_str(), "name") {
            if let Some(x) = &a.value {
                insert_sorted(names, copy_string(x));
                assert(view_set(names@) =~= view_set(old(names)@).union(name_values(pre)));
            }
        }
        i = i + 1;
    }
    assert(attr_views(attrs@).take(attrs.len() as int) =~= attr_views(attrs@));
}

/// The level of detail an element name announces: the first character after
/// the first `lod` in it (names containing `lod` other than `lod` itself),
/// unless another `lod` follows right away.
pub open spec fn lod_of(name: Seq<char>) -> Option<char> {
    match find_from_spec(name, "lod"@, 0) {
        Some(i) => if name == "lod"@ || i + 3 >= name.len() || occurs_at(name, "lod"@, i + 3) {
            None
        } else {
            Some(name[i + 3])
        },
        None => None,
    }
}

/// The level of detail an element name announces, if any.
pub fn element_lod(name: &str) -> (r: Option<char>)
    ensures
        r == lod_of(name@),
{
    let v = chars_of(name);
    let lod = chars_of("lod");
    proof {
        reveal_strlit("lod");
    }
    match find_from(&v, &lod, 0) {
        Some(i) => {
            assert(lod@.len() == 3);
            assert(occurs_at(v@, lod@, i as int));
            assert(i + 3 <= v@.len());
            let n = v.len();
            assert(i + 3 <= n);
            if str_eq(name, "lod") || i + 3 >= v.len() || chars_start_with_at(&v, i + 3, &lod) {
                None
            } else {
                Some(v[i + 3])
            }
        },
        None => None,
    }
}

/// The city object types counted at the top level of a model.
pub open spec fn is_object_type(t: Seq<char>) -> bool {
    ||| t == "Building"@
    ||| t == "Road"@
    ||| t == "Railway"@
    ||| t == "TransportationComplex"@
    ||| t == "Tunnel"@
    ||| t == "Bridge"@
    ||| t == "WaterBody"@
    ||| t == "PlantCover"@
    ||| t == "SolitaryVegetationObject"@
    ||| t == "LandUse"@
    ||| t == "CityFurniture"@
    ||| t == "GenericCityObject"@
}

/// The elements that are semantic surfaces.
pub open spec fn is_semantic_surface(t: Seq<char>) -> bool {
    ||| t == "WallSurface"@
    ||| t == "RoofSurface"@
    ||| t == "GroundSurface"@
    ||| t == "ClosureSurface"@
    ||| t == "OuterCeilingSurface"@
    ||| t == "OuterFloorSurface"@
    ||| t == "CeilingSurface"@
    ||| t == "FloorSurface"@
    ||| t == "InteriorWallSurface"@
    ||| t == "Window"@
    ||| t == "Door"@
    ||| t == "WaterSurface"@
    ||| t == "WaterGroundSurface"@
    ||| t == "WaterClosureSurface"@
}

/// Whether a local name is a city object type.
fn object_type(t: &str) -> (r: bool)
    ensures
        r == is_object_type(t@),
{
    str_eq(t, "Building") || str_eq(t, "Road") || str_eq(t, "Railway") || str_eq(t, "TransportationComplex")
        || str_eq(t, "Tunnel") || str_eq(t, "Bridge") || str_eq(t, "WaterBody") || str_eq(t, "PlantCover")
        || str_eq(t, "SolitaryVegetationObject") || str_eq(t, "LandUse") || str_eq(t, "CityFurniture")
        || str_eq(t, "GenericCityObject")
}

/// Whether a local name is a semantic surface.
fn semantic_surface(t: &str) -> (r: bool)
    ensures
        r == is_semantic_surface(t@),
{
    str_eq(t, "WallSurface") || str_eq(t, "RoofSurface") || str_eq(t, "GroundSurface") || str_eq(
        t,
        "ClosureSurface",
    ) || str_eq(t, "OuterCeilingSurface") || str_eq(t, "OuterFloorSurface") || str_eq(t, "CeilingSurface")
        || str_eq(t, "FloorSurface") || str_eq(t, "InteriorWallSurface") || str_eq(t, "Window") || str_eq(
        t,
        "Door",
    ) || str_eq(t, "WaterSurface") || str_eq(t, "WaterGroundSurface") || str_eq(t, "WaterClosureSurface")
}

/// The state of a scan through a CityGML document.
pub struct CityGmlScan {
    pub version: CityGMLVersion,
    pub depth: i64,
    pub city_object_count: usize,
    pub city_object_types: Vec<String>,
    pub lods: Vec<String>,
    pub attribute_names: Vec<String>,
    pub has_textures: bool,
    pub has_materials: bool,
    pub has_semantic_surfaces: bool,
    pub in_lower_corner: bool,
    pub in_upper_corner: bool,
    pub lower_known: bool,
    pub upper_known: bool,
    pub found_root_bbox: bool,
    pub root_srs_name: Option<String>,
    pub in_generic_attribute: bool,
    pub in_attribute_name: bool,
}

/// The content of a scan state.
pub struct ScanView {
    pub version: CityGMLVersion,
    pub depth: int,
    pub count: int,
    pub types: Set<Seq<char>>,
    pub lods: Set<Seq<char>>,
    pub names: Set<Seq<char>>,
    pub textures: bool,
    pub materials: bool,
    pub semantic: bool,
    pub in_lower: bool,
    pub in_upper: bool,
    pub lower_known: bool,
    pub upper_known: bool,
    pub found: bool,
    pub srs: Option<Seq<char>>,
    pub in_generic: bool,
    pub in_attr_name: bool,
}

impl View for CityGmlScan {
    type V = ScanView;

    open spec fn view(&self) -> ScanView {
        ScanView {
            version: self.version,
            depth: self.depth as int,
            count: self.city_object_count as int,
            types: view_set(self.city_object_types@),
            lods: view_set(self.lods@),
            names: view_set(self.attribute_names@),
            textures: self.has_textures,
            materials: self.has_materials,
            semantic: self.has_semantic_surfaces,
            in_lower: self.in_lower_corner,
            in_upper: self.in_upper_corner,
            lower_known: self.lower_known,
            upper_known: self.upper_known,
            found: self.found_root_bbox,
            srs: opt_view(self.root_srs_name),
            in_generic: self.in_generic_attribute,
            in_attr_name: self.in_attribute_name,
        }
    }
}

/// The scan state before the first event.
pub open spec fn initial_scan() -> ScanView {
    ScanView {
        version: CityGMLVersion::V2_0,
        depth: 0,
        count: 0,
        types: Set::empty(),
        lods: Set::empty(),
        names: Set::empty(),
        textures: false,
        materials: false,
        semantic: false,
        in_lower: false,
        in_upper: false,
        lower_known: false,
        upper_known: false,
        found: false,
        srs: None,
        in_generic: false,
        in_attr_name: false,
    }
}

/// A start tag opens one more level.
#[verifier::opaque]
pub open spec fn start_depth(s: ScanView) -> ScanView {
    ScanView { depth: s.depth + 1, ..s }
}

/// Version (from a root element's namespaces) and reference system (from
/// the root envelope's `srsName`).
#[verifier::opaque]
pub open spec fn header_step(s: ScanView, lp: Option<Seq<char>>, attrs: Seq<AttrView>) -> ScanView {
    ScanView {
        version: if lp == Some("CityModel"@) { version_after(s.version, attrs) } else { s.version },
        srs: if lp == Some("Envelope"@) && s.depth == 3 { srs_after(s.srs, attrs) } else { s.srs },
        ..s
    }
}

/// City object members, their types, and levels of detail.
#[verifier::opaque]
pub open spec fn objects_step(s: ScanView, name: Option<Seq<char>>, lp: Option<Seq<char>>) -> ScanView {
    ScanView {
        count: if lp == Some("cityObjectMember"@) { s.count + 1 } else { s.count },
        types: match lp {
            Some(t) => if is_object_type(t) && s.depth == 3 { s.types.insert(t) } else { s.types },
            None => s.types,
        },
        lods: match name {
            Some(n) => match lod_of(n) {
                Some(c) => s.lods.insert(seq![c]),
                None => s.lods,
            },
            None => s.lods,
        },
        ..s
    }
}

/// Entering the corners of the root envelope.
#[verifier::opaque]
pub open spec fn corners_step(s: ScanView, lp: Option<Seq<char>>) -> ScanView {
    ScanView {
        in_lower: s.in_lower || (!s.found && lp == Some("lowerCorner"@) && s.depth == 4),
        in_upper: s.in_upper || (!s.found && lp == Some("upperCorner"@) && s.depth == 4),
        ..s
    }
}

/// Semantic surfaces, textures and materials.
#[verifier::opaque]
pub open spec fn appearance_step(s: ScanView, lp: Option<Seq<char>>) -> ScanView {
    ScanView {
        textures: s.textures || lp == Some("ParameterizedTexture"@) || lp == Some("GeoreferencedTexture"@),
        materials: s.materials || lp == Some("X3DMaterial"@),
        semantic: s.semantic || (lp matches Some(t) && is_semantic_surface(t)),
        ..s
    }
}

/// Whether a start tag declares generic attributes the CityGML 2.0 way
/// (`gen:stringAttribute name="..."`).
pub open spec fn is_v2_attribute(lp: Option<Seq<char>>) -> bool {
    lp matches Some(t) && ends_with(t, "Attribute"@) && t != "genericAttribute"@
}

/// Generic attribute names (2.0: the `name` attributes of `*Attribute`
/// tags) and entering a 3.0 generic attribute or its name.
#[verifier::opaque]
pub open spec fn attributes_step(s: ScanView, lp: Option<Seq<char>>, attrs: Seq<AttrView>) -> ScanView {
    ScanView {
        names: if s.version == CityGMLVersion::V2_0 && is_v2_attribute(lp) {
            s.names.union(name_values(attrs))
        } else {
            s.names
        },
        in_generic: s.in_generic || (s.version == CityGMLVersion::V3_0 && lp == Some("genericAttribute"@)),
        in_attr_name: s.in_attr_name || (s.version == CityGMLVersion::V3_0 && lp == Some("name"@) && s.in_generic),
        ..s
    }
}

/// The scan state after a start tag.
#[verifier::opaque]
pub open spec fn after_start(s: ScanView, name: Option<Seq<char>>, attrs: Seq<AttrView>) -> ScanView {
    let lp = opt_local(name);
    attributes_step(
        appearance_step(corners_step(objects_step(header_step(start_depth(s), lp, attrs), name, lp), lp), lp),
        lp,
        attrs,
    )
}

/// A start tag one level below a `cityObjectMember` (depth 3 once opened)
/// whose local name is one of the twelve CityGML top-level feature types
/// (Building, Road, Railway, TransportationComplex, Tunnel, Bridge,
/// WaterBody, PlantCover, SolitaryVegetationObject, LandUse, CityFurniture,
/// GenericCityObject) adds that type to the scanned types; any other start
/// tag, and any tag at another depth, leaves them as they were.
pub proof fn law_top_level_types(s: ScanView, name: Seq<char>, attrs: Seq<AttrView>)
    ensures
        ({
            let t = local_part(name);
            let top = set![
                "Building"@, "Road"@, "Railway"@, "TransportationComplex"@, "Tunnel"@, "Bridge"@,
                "WaterBody"@, "PlantCover"@, "SolitaryVegetationObject"@, "LandUse"@, "CityFurniture"@,
                "GenericCityObject"@,
            ];
            &&& s.depth == 2 && top.contains(t) ==> after_start(s, Some(name), attrs).types == s.types.insert(t)
            &&& !(s.depth == 2 && top.contains(t)) ==> after_start(s, Some(name), attrs).types == s.types
        }),
{
    reveal(after_start);
    reveal(start_depth);
    reveal(header_step);
    reveal(objects_step);
    reveal(corners_step);
    reveal(appearance_step);
    reveal(attributes_step);
}

/// Each `cityObjectMember` start tag counts one city object, at any
/// depth; no other start tag changes the count.
pub proof fn law_member_count(s: ScanView, name: Seq<char>, attrs: Seq<AttrView>)
    ensures
        after_start(s, Some(name), attrs).count == s.count + if local_part(name) == "cityObjectMember"@ {
            1int
        } else {
            0int
        },
{
    reveal(after_start);
    reveal(start_depth);
    reveal(header_step);
    reveal(objects_step);
    reveal(corners_step);
    reveal(appearance_step);
    reveal(attributes_step);
}

/// The scan state after a text node.
pub open spec fn after_text(s: ScanView, text: Option<Seq<char>>) -> ScanView {
    match text {
        Some(t) => if s.in_attr_name && trim(t).len() > 0 {
            ScanView { names: s.names.insert(trim(t)), ..s }
        } else {
            s
        },
        None => s,
    }
}

/// The corner whose coordinates a text node holds (`true`: lower), with
/// the trimmed text.
pub open spec fn corner_of_text(s: ScanView, text: Option<Seq<char>>) -> Option<(bool, Seq<char>)> {
    match text {
        Some(t) => if s.in_lower {
            Some((true, trim(t)))
        } else if s.in_upper {
            Some((false, trim(t)))
        } else {
            None
        },
        None => None,
    }
}

/// An end tag closes a level.
#[verifier::opaque]
pub open spec fn end_depth(s: ScanView) -> ScanView {
    ScanView { depth: s.depth - 1, ..s }
}

/// Leaving a corner of the root envelope.
#[verifier::opaque]
pub open spec fn end_corner_step(s: ScanView, lp: Option<Seq<char>>) -> ScanView {
    ScanView {
        in_lower: if lp == Some("lowerCorner"@) { false } else { s.in_lower },
        in_upper: if lp == Some("upperCorner"@) { false } else { s.in_upper },
        ..s
    }
}

/// Leaving a 3.0 generic attribute or its name.
#[verifier::opaque]
pub open spec fn end_generic_step(s: ScanView, lp: Option<Seq<char>>) -> ScanView {
    ScanView {
        in_generic: if s.version == CityGMLVersion::V3_0 && lp == Some("genericAttribute"@) {
            false
        } else {
            s.in_generic
        },
        in_attr_name: if s.version == CityGMLVersion::V3_0 && lp == Some("name"@) {
            false
        } else {
            s.in_attr_name
        },
        ..s
    }
}

/// The root bounding box is found once both corners are known.
#[verifier::opaque]
pub open spec fn end_bbox_step(s: ScanView) -> ScanView {
    ScanView { found: s.found || (s.lower_known && s.upper_known), ..s }
}

/// The scan state after an end tag.
#[verifier::opaque]
pub open spec fn after_end(s: ScanView, name: Option<Seq<char>>) -> ScanView {
    let lp = opt_local(name);
    end_bbox_step(end_generic_step(end_corner_step(end_depth(s), lp), lp))
}

/// What the caller does after an event.
pub struct ScanStep {
    /// A corner's coordinate text to parse (`true`: the lower corner).
    pub corner_text: Option<(bool, String)>,
    /// Both corners are known: the root bounding box is complete.
    pub bbox_ready: bool,
    /// The document's root element, or the stream, has ended.
    pub stop: bool,
}

/// The view of an optional (flag, text) pair.
pub open spec fn opt_corner_view(o: Option<(bool, String)>) -> Option<(bool, Seq<char>)> {
    match o {
        Some((b, t)) => Some((b, t@)),
        None => None,
    }
}

/// The trimmed form of a text.
fn trimmed(text: &str) -> (r: String)
    ensures
        r@ == trim(text@),
{
    let v = chars_of(text);
    let (lo, hi) = trim_bounds(&v);
    string_from_chars(&v, lo, hi)
}

/// Whether an optional local name is the given name.
fn local_is(lp: &Option<String>, n: &str) -> (r: bool)
    ensures
        r == (opt_view(*lp) == Some(n@)),
{
    match lp {
        Some(t) => str_eq(t.as_str(), n),
        None => false,
    }
}

impl CityGmlScan {
    /// A scan before the first event.
    pub fn new() -> (r: Self)
        ensures
            r@ == initial_scan(),
            r.wf(),
    {
        let r = CityGmlScan {
            version: CityGMLVersion::V2_0,
            depth: 0,
            city_object_count: 0,
            city_object_types: Vec::new(),
            lods: Vec::new(),
            attribute_names: Vec::new(),
            has_textures: false,
            has_materials: false,
            has_semantic_surfaces: false,
            in_lower_corner: false,
            in_upper_corner: false,
            lower_known: false,
            upper_known: false,
            found_root_bbox: false,
            root_srs_name: None,
            in_generic_attribute: false,
            in_attribute_name: false,
        };
        assert(view_set(r.lods@) =~= Set::<Seq<char>>::empty());
        r
    }

    /// The sets are kept as strictly increasing vectors.
    pub open spec fn wf(&self) -> bool {
        &&& strictly_sorted(views(self.city_object_types@))
        &&& strictly_sorted(views(self.lods@))
        &&& strictly_sorted(views(self.attribute_names@))
    }

    /// Version and reference system from a start tag.
    fn start_header(&mut self, lp: &Option<String>, attrs: &Vec<XmlAttribute>)
        ensures
            final(self)@ == header_step(old(self)@, opt_view(*lp), attr_views(attrs@)),
            final(self).wf() == old(self).wf(),
            final(self).city_object_count == old(self).city_object_count,
    {
        reveal(header_step);
        if local_is(lp, "CityModel") {
            self.version = scan_version(self.version, attrs);
        }
        if local_is(lp, "Envelope") && self.depth == 3 {
            let cur = self.root_srs_name.take();
            self.root_srs_name = scan_srs(cur, attrs);
        }
    }

    /// Objects, types and levels of detail from a start tag.
    #[verifier::rlimit(40)]
    fn start_objects(&mut self, name: &Option<String>, lp: &Option<String>)
        requires
            old(self).wf(),
            old(self).city_object_count < usize::MAX,
        ensures
            final(self).wf(),
            final(self)@ == objects_step(old(self)@, opt_view(*name), opt_view(*lp)),
    {
        reveal(objects_step);
        if local_is(lp, "cityObjectMember") {
            self.city_object_count = self.city_object_count + 1;
        }
        if let Some(t) = lp {
            if object_type(t.as_str()) && self.depth == 3 {
                insert_sorted(&mut self.city_object_types, copy_string(t));
            }
        }
        if let Some(n) = name {
            if let Some(c) = element_lod(n.as_str()) {
                let mut l = String::new();
                crate::text::push_char(&mut l, c);
                assert(l@ =~= seq![c]);
                insert_sorted(&mut self.lods, l);
            }
        }
    }

    /// Entering a corner of the root envelope.
    fn start_corners(&mut self, lp: &Option<String>)
        ensures
            final(self)@ == corners_step(old(self)@, opt_view(*lp)),
            final(self).wf() == old(self).wf(),
            final(self).city_object_count == old(self).city_object_count,
    {
        reveal(corners_step);
        proof {
            reveal_strlit("lowerCorner");
            reveal_strlit("upperCorner");
            assert("lowerCorner"@[0] != "upperCorner"@[0]);
            assert("lowerCorner"@ != "upperCorner"@);
        }
        if !self.found_root_bbox && self.depth == 4 {
            if local_is(lp, "lowerCorner") {
                self.in_lower_corner = true;
            } else if local_is(lp, "upperCorner") {
                self.in_upper_corner = true;
            }
        }
    }

    /// Semantic surfaces, textures and materials from a start tag.
    fn start_appearance(&mut self, lp: &Option<String>)
        ensures
            final(self)@ == appearance_step(old(self)@, opt_view(*lp)),
            final(self).wf() == old(self).wf(),
            final(self).city_object_count == old(self).city_object_count,
    {
        reveal(appearance_step);
        if let Some(t) = lp {
            if semantic_surface(t.as_str()) {
                self.has_semantic_surfaces = true;
            }
        }
        if local_is(lp, "ParameterizedTexture") || local_is(lp, "GeoreferencedTexture") {
            self.has_textures = true;
        }
        if local_is(lp, "X3DMaterial") {
            self.has_materials = true;
        }
    }

    /// Generic attributes from a start tag.
    fn start_attributes(&mut self, lp: &Option<String>, attrs: &Vec<XmlAttribute>)
        requires
            old(self).wf(),
        ensures
            final(self).wf(),
            final(self)@ == attributes_step(old(self)@, opt_view(*lp), attr_views(attrs@)),
    {
        reveal(attributes_step);
        proof {
            reveal_strlit("genericAttribute");
            reveal_strlit("name");
            assert("genericAttribute"@.len() != "name"@.len());
        }
        let ghost s0 = self@;
        if self.version == CityGMLVersion::V2_0 {
            if let Some(t) = lp {
                if ends_with_str(t.as_str(), "Attribute") && !str_eq(t.as_str(), "genericAttribute") {
                    scan_names(&mut self.attribute_names, attrs);
                }
            }
        }
        if self.version == CityGMLVersion::V3_0 {
            if local_is(lp, "genericAttribute") {
                self.in_generic_attribute = true;
            } else if local_is(lp, "name") && self.in_generic_attribute {
                self.in_attribute_name = true;
            }
        }
        let ghost t = attributes_step(s0, opt_view(*lp), attr_views(attrs@));
        assert(self@.names =~= t.names);
        assert(self@.in_generic == t.in_generic);
        assert(self@.in_attr_name == t.in_attr_name);
        assert(self@.version == t.version);
    }

    /// Takes a start tag into account.
    fn on_start(&mut self, name: &Option<String>, attributes: &Vec<XmlAttribute>)
        requires
            old(self).wf(),
            old(self).city_object_count < usize::MAX,
            old(self).depth < i64::MAX,
        ensures
            final(self).wf(),
            final(self)@ == after_start(old(self)@, opt_view(*name), attr_views(attributes@)),
    {
        let ghost s0 = self@;
        self.depth = self.depth + 1;
        assert(self@ == start_depth(s0)) by {
            reveal(start_depth);
        }
        let lp = match name {
            Some(n) => Some(local_name(n.as_str())),
            None => None,
        };
        let ghost l = opt_view(lp);
        let ghost a = attr_views(attributes@);
        assert(l == opt_local(opt_view(*name)));
        self.start_header(&lp, attributes);
        let ghost s1 = header_step(start_depth(s0), l, a);
        self.start_objects(name, &lp);
        let ghost s2 = objects_step(s1, opt_view(*name), l);
        self.start_corners(&lp);
        let ghost s3 = corners_step(s2, l);
        self.start_appearance(&lp);
        let ghost s4 = appearance_step(s3, l);
        self.start_attributes(&lp, attributes);
        assert(self@ == attributes_step(s4, l, a));
        reveal(after_start);
    }

    /// Takes a text node into account; returns the corner text it holds.
    fn on_text(&mut self, text: &Option<String>) -> (r: Option<(bool, String)>)
        requires
            old(self).wf(),
        ensures
            final(self).wf(),
            final(self)@ == after_text(old(self)@, opt_view(*text)),
            opt_corner_view(r) == corner_of_text(old(self)@, opt_view(*text)),
    {
        match text {
            Some(t) => {
                let tt = trimmed(t.as_str());
                let corner = if self.in_lower_corner {
                    Some((true, copy_string(&tt)))
                } else if self.in_upper_corner {
                    Some((false, copy_string(&tt)))
                } else {
                    None
                };
                if self.in_attribute_name && !tt.as_str().is_empty() {
                    insert_sorted(&mut self.attribute_names, tt);
                }
                corner
            },
            None => None,
        }
    }

    /// Leaving a corner.
    fn end_corners(&mut self, lp: &Option<String>)
        ensures
            final(self)@ == end_corner_step(old(self)@, opt_view(*lp)),
            old(self).wf() ==> final(self).wf(),
            final(self).depth == old(self).depth,
            final(self).found_root_bbox == old(self).found_root_bbox,
            final(self).lower_known == old(self).lower_known,
            final(self).upper_known == old(self).upper_known,
    {
        reveal(end_corner_step);
        proof {
            reveal_strlit("lowerCorner");
            reveal_strlit("upperCorner");
            assert("lowerCorner"@[0] != "upperCorner"@[0]);
        }
        if local_is(lp, "lowerCorner") {
            self.in_lower_corner = false;
        } else if local_is(lp, "upperCorner") {
            self.in_upper_corner = false;
        }
    }

    /// Leaving a generic attribute or its name.
    fn end_generic(&mut self, lp: &Option<String>)
        ensures
            final(self)@ == end_generic_step(old(self)@, opt_view(*lp)),
            old(self).wf() ==> final(self).wf(),
            final(self).depth == old(self).depth,
            final(self).found_root_bbox == old(self).found_root_bbox,
            final(self).lower_known == old(self).lower_known,
            final(self).upper_known == old(self).upper_known,
    {
        reveal(end_generic_step);
        proof {
            reveal_strlit("genericAttribute");
            reveal_strlit("name");
            assert("genericAttribute"@.len() != "name"@.len());
        }
        if self.version == CityGMLVersion::V3_0 {
            if local_is(lp, "genericAttribute") {
                self.in_generic_attribute = false;
            } else if local_is(lp, "name") {
                self.in_attribute_name = false;
            }
        }
    }

    /// Takes an end tag into account; returns whether the root bounding box
    /// just became complete, and whether the root element ended.
    fn on_end(&mut self, name: &Option<String>) -> (r: (bool, bool))
        requires
            old(self).depth > i64::MIN,
        ensures
            old(self).wf() ==> final(self).wf(),
            final(self)@ == after_end(old(self)@, opt_view(*name)),
            r.0 == (!old(self)@.found && old(self)@.lower_known && old(self)@.upper_known),
            r.1 == (old(self)@.depth - 1 == 0),
    {
        let ghost s0 = self@;
        self.depth = self.depth - 1;
        assert(self@ == end_depth(s0)) by {
            reveal(end_depth);
        }
        let lp = match name {
            Some(n) => Some(local_name(n.as_str())),
            None => None,
        };
        let ghost l = opt_view(lp);
        assert(l == opt_local(opt_view(*name)));
        self.end_corners(&lp);
        self.end_generic(&lp);
        let ghost s2 = self@;
        let ready = !self.found_root_bbox && self.lower_known && self.upper_known;
        if ready {
            self.found_root_bbox = true;
        }
        assert(self@ == end_bbox_step(s2)) by {
            reveal(end_bbox_step);
        }
        reveal(after_end);
        (ready, self.depth == 0)
    }

    /// Takes one event of the XML stream into account and says what the
    /// caller does next.
    pub fn step(&mut self, event: &XmlEvent) -> (r: ScanStep)
        requires
            old(self).wf(),
            old(self).city_object_count < usize::MAX,
            i64::MIN < old(self).depth < i64::MAX,
        ensures
            final(self).wf(),
            match *event {
                XmlEvent::Start { name, attributes } => {
                    &&& final(self)@ == after_start(old(self)@, opt_view(name), attr_views(attributes@))
                    &&& r.corner_text is None && !r.bbox_ready && !r.stop
                },
                XmlEvent::Text(text) => {
                    &&& final(self)@ == after_text(old(self)@, opt_view(text))
                    &&& opt_corner_view(r.corner_text) == corner_of_text(old(self)@, opt_view(text))
                    &&& !r.bbox_ready && !r.stop
                },
                XmlEvent::End(name) => {
                    &&& final(self)@ == after_end(old(self)@, opt_view(name))
                    &&& r.corner_text is None
                    &&& r.bbox_ready == (!old(self)@.found && old(self)@.lower_known && old(self)@.upper_known)
                    &&& r.stop == (old(self)@.depth - 1 == 0)
                },
                XmlEvent::Eof => {
                    &&& final(self)@ == old(self)@
                    &&& r.corner_text is None && !r.bbox_ready && r.stop
                },
                XmlEvent::Other => {
                    &&& final(self)@ == old(self)@
                    &&& r.corner_text is None && !r.bbox_ready && !r.stop
                },
            },
    {
        match event {
            XmlEvent::Start { name, attributes } => {
                self.on_start(name, attributes);
                ScanStep { corner_text: None, bbox_ready: false, stop: false }
            },
            XmlEvent::Text(text) => {
                let corner = self.on_text(text);
                ScanStep { corner_text: corner, bbox_ready: false, stop: false }
            },
            XmlEvent::End(name) => {
                let (ready, stop) = self.on_end(name);
                ScanStep { corner_text: None, bbox_ready: ready, stop }
            },
            XmlEvent::Eof => ScanStep { corner_text: None, bbox_ready: false, stop: true },
            XmlEvent::Other => ScanStep { corner_text: None, bbox_ready: false, stop: false },
        }
    }

    /// Records that the coordinates of a corner were read (`true`: lower).
    pub fn note_corner(&mut self, lower: bool)
        ensures
            final(self)@ == (if lower {
                ScanView { lower_known: true, ..old(self)@ }
            } else {
                ScanView { upper_known: true, ..old(self)@ }
            }),
            final(self).wf() == old(self).wf(),
    {
        if lower {
            self.lower_known = true;
        } else {
            self.upper_known = true;
        }
    }
}

/// The metadata a scan of a whole CityGML document found (the root
/// bounding box, which is made of floating-point coordinates, is kept by
/// the caller).
pub struct CityGmlMetadata {
    pub version: CityGMLVersion,
    pub crs: Option<CRS>,
    pub city_object_count: usize,
    pub city_object_types: Vec<String>,
    pub lods: Vec<String>,
    pub attributes: Vec<AttributeDefinition>,
    pub has_textures: bool,
    pub has_materials: bool,
    pub has_semantic_surfaces: bool,
}

/// The names of a list of attribute definitions.
pub open spec fn definition_names(v: Seq<AttributeDefinition>) -> Seq<Seq<char>> {
    v.map_values(|d: AttributeDefinition| d.name@)
}

/// The CRS named by an optional `srsName`.
pub open spec fn srs_crs(srs: Option<Seq<char>>) -> Option<CrsView> {
    match srs {
        Some(n) => srs_name_crs(n),
        None => None,
    }
}

/// The version text of a CityGML version.
pub open spec fn version_text(v: CityGMLVersion) -> Seq<char> {
    match v {
        CityGMLVersion::V2_0 => "2.0"@,
        CityGMLVersion::V3_0 => "3.0"@,
    }
}

impl CityGMLVersion {
    /// The version as text (`2.0` or `3.0`).
    pub fn as_string(&self) -> (r: String)
        ensures
            r@ == version_text(*self),
    {
        match self {
            CityGMLVersion::V2_0 => owned("2.0"),
            CityGMLVersion::V3_0 => owned("3.0"),
        }
    }
}

impl CityGmlScan {
    /// The metadata found once the document has been read: the reference
    /// system named by the root envelope, the sorted types and levels of
    /// detail, and one text attribute per generic attribute name, sorted.
    pub fn finish(&self) -> (r: CityGmlMetadata)
        requires
            self.wf(),
        ensures
            r.version == self.version,
            opt_crs_view(r.crs) == srs_crs(opt_view(self.root_srs_name)),
            r.city_object_count == self.city_object_count,
            views(r.city_object_types@) == views(self.city_object_types@),
            views(r.lods@) == views(self.lods@),
            definition_names(r.attributes@) == views(self.attribute_names@),
            forall|i: int| 0 <= i < r.attributes@.len() ==> {
                &&& (#[trigger] r.attributes@[i]).attr_type == AttributeType::String
                &&& r.attributes@[i].description is None
                &&& r.attributes@[i].required is None
            },
            r.has_textures == self.has_textures,
            r.has_materials == self.has_materials,
            r.has_semantic_surfaces == self.has_semantic_surfaces,
    {
        let crs = match &self.root_srs_name {
            Some(n) => CRS::from_citygml_srs_name(n.as_str()),
            None => None,
        };
        let mut attributes: Vec<AttributeDefinition> = Vec::new();
        let mut i: usize = 0;
        while i < self.attribute_names.len()
            invariant
                i <= self.attribute_names.len(),
                definition_names(attributes@) == views(self.attribute_names@).take(i as int),
                forall|k: int| 0 <= k < attributes@.len() ==> {
                    &&& (#[trigger] attributes@[k]).attr_type == AttributeType::String
                    &&& attributes@[k].description is None
                    &&& attributes@[k].required is None
                },
            decreases self.attribute_names.len() - i,
        {
            let d = AttributeDefinition::new(self.attribute_names[i].as_str(), AttributeType::String);
            let ghost before = attributes@;
            attributes.push(d);
            assert(definition_names(attributes@) =~= definition_names(before).push(d.name@));
            assert(views(self.attribute_names@).take(i + 1) =~= views(self.attribute_names@).take(i as int).push(
                self.attribute_names@[i as int]@,
            ));
            i = i + 1;
        }
        assert(views(self.attribute_names@).take(self.attribute_names.len() as int) =~= views(self.attribute_names@));
        CityGmlMetadata {
            version: self.version,
            crs,
            city_object_count: self.city_object_count,
            city_object_types: copy_strings(&self.city_object_types),
            lods: copy_strings(&self.lods),
            attributes,
            has_textures: self.has_textures,
            has_materials: self.has_materials,
            has_semantic_surfaces: self.has_semantic_surfaces,
        }
    }
}

impl CityGmlMetadata {
    /// The reference system, or the error of a document that names none.
    pub fn crs_result(&self) -> (r: Result<CRS>)
        ensures
            match r {
                Ok(c) => self.crs matches Some(d) && c@ == d@,
                Err(e) => self.crs is None && (e matches CityJsonStacError::MetadataError(m) && m@ == "CRS not found"@),
            },
    {
        match &self.crs {
            Some(c) => Ok(c.copy()),
            None => Err(CityJsonStacError::MetadataError(owned("CRS not found"))),
        }
    }
}

} // verus!
