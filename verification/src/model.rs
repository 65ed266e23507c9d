//! The parts of a CityJSON document that metadata extraction reads, and the
//! extraction itself.
use vstd::prelude::*;

use crate::attributes::{AttributeSchema, JsonKind, schema_after, observed_type};
use crate::sorted::{insert_sorted, view_set, copy_strings};
use crate::text::{copy_string, starts_with, strictly_sorted, views, str_eq, chars_of, parse_unsigned, parse_unsigned_chars};
use crate::crs::{CRS, CrsView, epsg_crs, unknown_crs, u32_max};

verus! {

/// A geometry of a city object.
#[derive(Debug, Clone)]
pub struct GeometryInfo {
    /// The level of detail, if the geometry declares one.
    pub lod: Option<String>,
    /// Whether the geometry carries semantic surfaces.
    pub has_semantics: bool,
}

/// A city object.
#[derive(Debug, Clone)]
pub struct CityObjectInfo {
    /// The object's type (e.g. `Building`; extension types start with `+`).
    pub object_type: String,
    /// The object's geometries, if the object has a geometry member.
    pub geometry: Option<Vec<GeometryInfo>>,
    /// The object's attributes (name and kind of value), if its attributes
    /// member is a JSON object.
    pub attributes: Option<Vec<(String, JsonKind)>>,
}

/// A CityJSON reference system (`authority` and `code`).
#[derive(Debug, Clone)]
pub struct ReferenceSystem {
    pub authority: String,
    pub code: String,
}

/// The parts of a CityJSON document that metadata extraction reads.
#[derive(Debug, Clone)]
pub struct CityModel {
    /// The CityJSON version.
    pub version: String,
    /// The reference system of the metadata, if any.
    pub reference_system: Option<ReferenceSystem>,
    /// The city objects.
    pub city_objects: Vec<CityObjectInfo>,
    /// The URLs (keys) of the `extensions` object, if the document has one.
    pub extensions: Option<Vec<String>>,
    /// Whether the appearance declares textures.
    pub has_textures: bool,
    /// Whether the appearance declares materials.
    pub has_materials: bool,
}

/// A CityJSONFeature of a CityJSON Text Sequence.
#[derive(Debug, Clone)]
pub struct CityFeature {
    /// The city objects of the feature.
    pub city_objects: Vec<CityObjectInfo>,
    /// Whether the feature's appearance declares textures.
    pub has_textures: bool,
    /// Whether the feature's appearance declares materials.
    pub has_materials: bool,
}

/// The levels of detail declared by a list of geometries.
pub open spec fn geometry_lods(g: Seq<GeometryInfo>) -> Set<Seq<char>>
    decreases g.len(),
{
    if g.len() == 0 {
        Set::empty()
    } else {
        let rest = geometry_lods(g.drop_last());
        match g.last().lod {
            Some(l) => rest.insert(l@),
            None => rest,
        }
    }
}

/// The levels of detail declared by a city object.
pub open spec fn object_lods(o: CityObjectInfo) -> Set<Seq<char>> {
    match o.geometry {
        Some(g) => geometry_lods(g@),
        None => Set::empty(),
    }
}

/// The levels of detail declared by a list of city objects.
pub open spec fn objects_lods(objs: Seq<CityObjectInfo>) -> Set<Seq<char>>
    decreases objs.len(),
{
    if objs.len() == 0 {
        Set::empty()
    } else {
        objects_lods(objs.drop_last()).union(object_lods(objs.last()))
    }
}

/// A geometry declares the level of detail `l`.
pub open spec fn lod_is(g: GeometryInfo, l: Seq<char>) -> bool {
    g.lod matches Some(s) && s@ == l
}

/// Geometry `j` of city object `i` declares the level of detail `l`.
pub open spec fn declares_lod(objs: Seq<CityObjectInfo>, i: int, j: int, l: Seq<char>) -> bool {
    &&& 0 <= i < objs.len()
    &&& objs[i].geometry matches Some(g) && (0 <= j < g@.len() && lod_is(g@[j], l))
}

proof fn lemma_geometry_lods(g: Seq<GeometryInfo>, l: Seq<char>)
    ensures
        geometry_lods(g).contains(l) <==> exists|j: int|
            0 <= j < g.len() && lod_is(#[trigger] g[j], l),
    decreases g.len(),
{
    if g.len() > 0 {
        let pre = g.drop_last();
        lemma_geometry_lods(pre, l);
        if exists|j: int| 0 <= j < pre.len() && lod_is(#[trigger] pre[j], l) {
            let j = choose|j: int| 0 <= j < pre.len() && lod_is(#[trigger] pre[j], l);
            assert(g[j] == pre[j]);
        }
        if exists|j: int| 0 <= j < g.len() && lod_is(#[trigger] g[j], l) {
            let j = choose|j: int| 0 <= j < g.len() && lod_is(#[trigger] g[j], l);
            if j < pre.len() {
                assert(g[j] == pre[j]);
            } else {
                assert(g[j] == g.last());
            }
        }
        assert(g[g.len() - 1] == g.last());
    }
}

/// The levels of detail of a list of city objects are those that some
/// geometry of some object declares: every geometry counts, not only the
/// first of each object.
pub proof fn law_lods_of_all_geometries(objs: Seq<CityObjectInfo>)
    ensures
        forall|l: Seq<char>|
            #[trigger] objects_lods(objs).contains(l) <==> exists|i: int, j: int| declares_lod(objs, i, j, l),
    decreases objs.len(),
{
    if objs.len() > 0 {
        let pre = objs.drop_last();
        let k = objs.len() - 1;
        law_lods_of_all_geometries(pre);
        assert forall|l: Seq<char>|
            #[trigger] objects_lods(objs).contains(l) <==> exists|i: int, j: int| declares_lod(objs, i, j, l) by {
            if objects_lods(pre).contains(l) {
                let (i, j) = choose|i: int, j: int| declares_lod(pre, i, j, l);
                assert(pre[i] == objs[i]);
                assert(declares_lod(objs, i, j, l));
            } else if object_lods(objs.last()).contains(l) {
                match objs.last().geometry {
                    Some(g) => {
                        lemma_geometry_lods(g@, l);
                        let j = choose|j: int| 0 <= j < g@.len() && lod_is(#[trigger] g@[j], l);
                        assert(objs[k] == objs.last());
                        assert(declares_lod(objs, k, j, l));
                    },
                    None => {},
                }
            }
            if exists|i: int, j: int| declares_lod(objs, i, j, l) {
                let (i, j) = choose|i: int, j: int| declares_lod(objs, i, j, l);
                if i < k {
                    assert(pre[i] == objs[i]);
                    assert(declares_lod(pre, i, j, l));
                } else {
                    assert(objs[k] == objs.last());
                    match objs.last().geometry {
                        Some(g) => {
                            lemma_geometry_lods(g@, l);
                            assert(0 <= j < g@.len() && lod_is(g@[j], l));
                        },
                        None => {},
                    }
                }
            }
        }
    }
}

/// The type of a city object counts unless it is an extension type (`+…`).
pub open spec fn counted_type(t: Seq<char>) -> bool {
    !starts_with(t, "+"@)
}

/// The city object types of a list of city objects, extension types excluded.
pub open spec fn objects_types(objs: Seq<CityObjectInfo>) -> Set<Seq<char>>
    decreases objs.len(),
{
    if objs.len() == 0 {
        Set::empty()
    } else {
        let rest = objects_types(objs.drop_last());
        if counted_type(objs.last().object_type@) {
            rest.insert(objs.last().object_type@)
        } else {
            rest
        }
    }
}

/// Whether some geometry of the list carries semantic surfaces.
pub open spec fn geometry_semantics(g: Seq<GeometryInfo>) -> bool {
    exists|j: int| 0 <= j < g.len() && (#[trigger] g[j]).has_semantics
}

/// Whether some geometry of a city object carries semantic surfaces.
pub open spec fn object_semantics(o: CityObjectInfo) -> bool {
    match o.geometry {
        Some(g) => geometry_semantics(g@),
        None => false,
    }
}

/// Whether some geometry of some city object carries semantic surfaces.
pub open spec fn objects_semantics(objs: Seq<CityObjectInfo>) -> bool {
    exists|i: int| 0 <= i < objs.len() && object_semantics(#[trigger] objs[i])
}

/// The city object types of a list of city objects are the types of its
/// objects, every object counting, except the extension types (`+…`).
pub proof fn law_types_of_all_objects(objs: Seq<CityObjectInfo>)
    ensures
        forall|t: Seq<char>|
            #[trigger] objects_types(objs).contains(t) <==> (!starts_with(t, "+"@) && exists|i: int|
                0 <= i < objs.len() && (#[trigger] objs[i]).object_type@ == t),
    decreases objs.len(),
{
    if objs.len() > 0 {
        let pre = objs.drop_last();
        let k = objs.len() - 1;
        law_types_of_all_objects(pre);
        assert(objs[k] == objs.last());
        assert forall|t: Seq<char>|
            #[trigger] objects_types(objs).contains(t) <==> (!starts_with(t, "+"@) && exists|i: int|
                0 <= i < objs.len() && (#[trigger] objs[i]).object_type@ == t) by {
            let inpre = objects_types(pre).contains(t);
            if objs.last().object_type@ == t {
                assert(objs[k].object_type@ == t);
            }
            if exists|i: int| 0 <= i < pre.len() && (#[trigger] pre[i]).object_type@ == t {
                let i = choose|i: int| 0 <= i < pre.len() && (#[trigger] pre[i]).object_type@ == t;
                assert(objs[i] == pre[i]);
            }
            if exists|i: int| 0 <= i < objs.len() && (#[trigger] objs[i]).object_type@ == t {
                let i = choose|i: int| 0 <= i < objs.len() && (#[trigger] objs[i]).object_type@ == t;
                if i < k {
                    assert(objs[i] == pre[i]);
                }
            }
        }
    }
}

/// The attribute observations of a city object, in order.
pub open spec fn object_observations(o: CityObjectInfo) -> Seq<(Seq<char>, JsonKind)> {
    match o.attributes {
        Some(a) => a@.map_values(|p: (String, JsonKind)| (p.0@, p.1)),
        None => Seq::empty(),
    }
}

/// The attribute observations of a list of city objects, in order.
pub open spec fn objects_observations(objs: Seq<CityObjectInfo>) -> Seq<(Seq<char>, JsonKind)>
    decreases objs.len(),
{
    if objs.len() == 0 {
        Seq::empty()
    } else {
        objects_observations(objs.drop_last()) + object_observations(objs.last())
    }
}

/// Observing `a` and then `b` is observing `a + b`.
pub proof fn lemma_schema_after_concat(
    m: Map<Seq<char>, crate::attributes::AttributeType>,
    a: Seq<(Seq<char>, JsonKind)>,
    b: Seq<(Seq<char>, JsonKind)>,
)
    ensures
        schema_after(schema_after(m, a), b) == schema_after(m, a + b),
    decreases b.len(),
{
    if b.len() == 0 {
        assert(a + b =~= a);
    } else {
        lemma_schema_after_concat(m, a, b.drop_last());
        assert((a + b).drop_last() =~= a + b.drop_last());
        assert((a + b).last() == b.last());
    }
}

/// Adds the levels of detail of `objs` to the set `acc`.
pub fn add_lods(acc: &mut Vec<String>, objs: &Vec<CityObjectInfo>)
    requires
        strictly_sorted(views(old(acc)@)),
    ensures
        strictly_sorted(views(final(acc)@)),
        view_set(final(acc)@) == view_set(old(acc)@).union(objects_lods(objs@)),
{
    let mut i: usize = 0;
    while i < objs.len()
        invariant
            i <= objs.len(),
            strictly_sorted(views(acc@)),
            view_set(acc@) == view_set(old(acc)@).union(objects_lods(objs@.take(i as int))),
        decreases objs.len() - i,
    {
        let ghost before = view_set(acc@);
        match &objs[i].geometry {
            Some(g) => {
                let mut j: usize = 0;
                while j < g.len()
                    invariant
                        j <= g.len(),
                        strictly_sorted(views(acc@)),
                        view_set(acc@) == before.union(geometry_lods(g@.take(j as int))),
                    decreases g.len() - j,
                {
                    assert(g@.take(j + 1).drop_last() =~= g@.take(j as int));
                    match &g[j].lod {
                        Some(l) => {
                            insert_sorted(acc, copy_string(l));
                            assert(view_set(acc@) =~= before.union(geometry_lods(g@.take(j + 1))));
                        },
                        None => {},
                    }
                    j = j + 1;
                }
                assert(g@.take(g.len() as int) =~= g@);
            },
            None => {},
        }
        assert(objs@.take(i + 1).drop_last() =~= objs@.take(i as int));
        assert(view_set(acc@) =~= view_set(old(acc)@).union(objects_lods(objs@.take(i + 1))));
        i = i + 1;
    }
    assert(objs@.take(objs.len() as int) =~= objs@);
}

/// Adds the (non-extension) city object types of `objs` to the set `acc`.
pub fn add_types(acc: &mut Vec<String>, objs: &Vec<CityObjectInfo>)
    requires
        strictly_sorted(views(old(acc)@)),
    ensures
        strictly_sorted(views(final(acc)@)),
        view_set(final(acc)@) == view_set(old(acc)@).union(objects_types(objs@)),
{
    let plus = chars_of("+");
    let mut i: usize = 0;
    while i < objs.len()
        invariant
            i <= objs.len(),
            plus@ == "+"@,
            strictly_sorted(views(acc@)),
            view_set(acc@) == view_set(old(acc)@).union(objects_types(objs@.take(i as int))),
        decreases objs.len() - i,
    {
        assert(objs@.take(i + 1).drop_last() =~= objs@.take(i as int));
        assert(objs@.take(i + 1).last() == objs@[i as int]);
        let t = chars_of(objs[i].object_type.as_str());
        let ext = crate::text::chars_start_with_at(&t, 0, &plus);
        assert(ext == starts_with(t@, "+"@)) by {
            if plus@.len() <= t@.len() {
                assert(t@.subrange(0, plus@.len() as int) =~= t@.subrange(0, plus@.len() as int));
            }
        }
        if !ext {
            insert_sorted(acc, copy_string(&objs[i].object_type));
        }
        assert(view_set(acc@) =~= view_set(old(acc)@).union(objects_types(objs@.take(i + 1))));
        i = i + 1;
    }
    assert(objs@.take(objs.len() as int) =~= objs@);
}

/// Whether some geometry of `objs` carries semantic surfaces.
pub fn any_semantics(objs: &Vec<CityObjectInfo>) -> (r: bool)
    ensures
        r == objects_semantics(objs@),
{
    let mut i: usize = 0;
    while i < objs.len()
        invariant
            i <= objs.len(),
            forall|k: int| 0 <= k < i ==> !object_semantics(#[trigger] objs@[k]),
        decreases objs.len() - i,
    {
        match &objs[i].geometry {
            Some(g) => {
                let mut j: usize = 0;
                while j < g.len()
                    invariant
                        j <= g.len(),
                        i < objs.len(),
                        objs@[i as int].geometry == Some(*g),
                        forall|k: int| 0 <= k < j ==> !(#[trigger] g@[k]).has_semantics,
                    decreases g.len() - j,
                {
                    if g[j].has_semantics {
                        assert(geometry_semantics(g@));
                        assert(object_semantics(objs@[i as int]));
                        return true;
                    }
                    j = j + 1;
                }
            },
            None => {},
        }
        i = i + 1;
    }
    false
}

/// Records the attributes of `objs` in `schema`.
pub fn add_attributes(schema: &mut AttributeSchema, objs: &Vec<CityObjectInfo>)
    requires
        old(schema).wf(),
    ensures
        final(schema).wf(),
        final(schema).schema() == schema_after(old(schema).schema(), objects_observations(objs@)),
{
    let mut i: usize = 0;
    while i < objs.len()
        invariant
            i <= objs.len(),
            schema.wf(),
            schema.schema() == schema_after(
                old(schema).schema(),
                objects_observations(objs@.take(i as int)),
            ),
        decreases objs.len() - i,
    {
        assert(objs@.take(i + 1).drop_last() =~= objs@.take(i as int));
        assert(objs@.take(i + 1).last() == objs@[i as int]);
        match &objs[i].attributes {
            Some(attrs) => {
                let ghost start = schema.schema();
                let ghost obs = object_observations(objs@[i as int]);
                let mut j: usize = 0;
                while j < attrs.len()
                    invariant
                        j <= attrs.len(),
                        schema.wf(),
                        objs@[i as int].attributes == Some(*attrs),
                        obs == attrs@.map_values(|p: (String, JsonKind)| (p.0@, p.1)),
                        schema.schema() == schema_after(start, obs.take(j as int)),
                    decreases attrs.len() - j,
                {
                    let ghost prev = schema.schema();
                    schema.observe(attrs[j].0.as_str(), attrs[j].1);
                    proof {
                        assert(obs[j as int] == (attrs@[j as int].0@, attrs@[j as int].1));
                        assert(obs.take(j + 1) =~= obs.take(j as int) + seq![obs[j as int]]);
                        lemma_schema_after_concat(start, obs.take(j as int), seq![obs[j as int]]);
                    }
                    j = j + 1;
                }
                proof {
                    assert(obs.take(attrs.len() as int) =~= obs);
                    lemma_schema_after_concat(
                        old(schema).schema(),
                        objects_observations(objs@.take(i as int)),
                        obs,
                    );
                }
            },
            None => {
                assert(object_observations(objs@[i as int]) =~= Seq::<(Seq<char>, JsonKind)>::empty());
                assert(objects_observations(objs@.take(i as int)) + object_observations(objs@[i as int]) =~= objects_observations(objs@.take(i as int)));
            },
        }
        i = i + 1;
    }
    assert(objs@.take(objs.len() as int) =~= objs@);
}

/// The CRS that a CityJSON reference system names: the EPSG code when the
/// authority is `EPSG` and the code is a number, otherwise an unknown CRS.
pub open spec fn reference_system_crs(rs: Option<ReferenceSystem>) -> CrsView {
    match rs {
        Some(r) => if r.authority@ == "EPSG"@ && parse_unsigned(r.code@, u32_max()) is Some {
            epsg_crs(parse_unsigned(r.code@, u32_max()).unwrap() as u32)
        } else {
            unknown_crs()
        },
        None => unknown_crs(),
    }
}

/// The CRS of a reference system.
pub fn crs_from_reference_system(rs: &Option<ReferenceSystem>) -> (r: CRS)
    ensures
        r@ == reference_system_crs(*rs),
{
    match rs {
        Some(r) => {
            if str_eq(r.authority.as_str(), "EPSG") {
                let code = chars_of(r.code.as_str());
                assert(code@.subrange(0, code@.len() as int) =~= code@);
                match parse_unsigned_chars(&code, 0, code.len(), 0xffff_ffff) {
                    Some(n) => CRS::from_epsg(n as u32),
                    None => CRS::unknown(),
                }
            } else {
                CRS::unknown()
            }
        },
        None => CRS::unknown(),
    }
}

/// The sorted set of extension URLs of a document.
pub open spec fn model_extensions(ext: Option<Vec<String>>) -> Set<Seq<char>> {
    match ext {
        Some(v) => view_set(v@),
        None => Set::empty(),
    }
}

/// The extension URLs, sorted.
pub fn extract_extensions(ext: &Option<Vec<String>>) -> (r: Vec<String>)
    ensures
        strictly_sorted(views(r@)),
        view_set(r@) == model_extensions(*ext),
{
    match ext {
        Some(v) => crate::sorted::sorted_unique(v),
        None => {
            let r: Vec<String> = Vec::new();
            assert(view_set(r@) =~= Set::<Seq<char>>::empty());
            r
        },
    }
}

} // verus!
