//! Metadata of a ZIP archive of city model files: the datasets inside are
//! read one by one and their metadata combined.
use vstd::prelude::*;
use crate::attributes::{AttributeDefinition, AttributeType};
use crate::crs::{CRS, CrsView, opt_view, opt_crs_view};
use crate::sorted::{insert_all_sorted, lemma_seq_less_total, lemma_seq_less_transitive, lemma_seq_less_irreflexive, view_set, str_less};
use crate::stac::owned;
use crate::text::{copy_string, seq_less, str_eq, strictly_sorted, views};

verus! {

/// What the reader of one file of an archive reported; `None` where a
/// question failed.
pub struct ZipEntryReport {
    pub encoding: String,
    pub city_object_count: Option<usize>,
    pub city_object_types: Option<Vec<String>>,
    pub lods: Option<Vec<String>>,
    pub attributes: Option<Vec<AttributeDefinition>>,
    pub textures: Option<bool>,
    pub materials: Option<bool>,
    pub semantic_surfaces: Option<bool>,
    pub version: Option<String>,
    pub crs: Option<CRS>,
}

/// The content of an attribute definition, apart from its name.
pub open spec fn def_view(d: AttributeDefinition) -> (AttributeType, Option<Seq<char>>, Option<bool>) {
    (d.attr_type, opt_view(d.description), d.required)
}

/// The names of a list of definitions.
pub open spec fn def_names(v: Seq<AttributeDefinition>) -> Seq<Seq<char>> {
    v.map_values(|d: AttributeDefinition| d.name@)
}

/// A list of definitions sorted by name, without repeated names, holds
/// exactly the definitions of map `m`.
pub open spec fn keyed(v: Seq<AttributeDefinition>, m: Map<Seq<char>, (AttributeType, Option<Seq<char>>, Option<bool>)>) -> bool {
    &&& strictly_sorted(def_names(v))
    &&& m.dom() == def_names(v).to_set()
    &&& forall|k: int| 0 <= k < v.len() ==> m[(#[trigger] v[k]).name@] == def_view(v[k])
}

/// The definitions by name after a list of definitions, a later
/// definition of a name replacing an earlier one.
pub open spec fn last_definitions(
    m: Map<Seq<char>, (AttributeType, Option<Seq<char>>, Option<bool>)>,
    ds: Seq<AttributeDefinition>,
) -> Map<Seq<char>, (AttributeType, Option<Seq<char>>, Option<bool>)>
    decreases ds.len(),
{
    if ds.len() == 0 {
        m
    } else {
        last_definitions(m, ds.drop_last()).insert(ds.last().name@, def_view(ds.last()))
    }
}

/// Puts a definition into a list sorted by name, replacing the definition
/// of the same name.
fn upsert_definition(
    v: &mut Vec<AttributeDefinition>,
    d: AttributeDefinition,
    Ghost(m): Ghost<Map<Seq<char>, (AttributeType, Option<Seq<char>>, Option<bool>)>>,
)
    requires
        keyed(old(v)@, m),
    ensures
        keyed(final(v)@, m.insert(d.name@, def_view(d))),
{
    let ghost ov = v@;
    let ghost on = def_names(ov);
    let mut i: usize = 0;
    while i < v.len() && str_less(v[i].name.as_str(), d.name.as_str())
        invariant
            i <= v.len(),
            v@ == ov,
            on == def_names(ov),
            forall|k: int| 0 <= k < i ==> seq_less(#[trigger] on[k], d.name@),
        decreases v.len() - i,
    {
        assert(on[i as int] == v@[i as int].name@);
        i = i + 1;
    }
    let ghost nm = d.name@;
    let ghost m2 = m.insert(nm, def_view(d));
    if i < v.len() && str_eq(v[i].name.as_str(), d.name.as_str()) {
        v.set(i, d);
        proof {
            let nv = v@;
            assert(def_names(nv) =~= on);
            assert forall|k: int| 0 <= k < nv.len() implies m2[(#[trigger] nv[k]).name@] == def_view(nv[k]) by {
                if k != i {
                    assert(nv[k] == ov[k]);
                    assert(on[k] == ov[k].name@);
                    assert(on[i as int] == ov[i as int].name@);
                    if ov[k].name@ == nm {
                        if k < i {
                            lemma_seq_less_irreflexive(nm);
                        } else {
                            assert(seq_less(on[i as int], on[k]));
                            lemma_seq_less_irreflexive(nm);
                        }
                    }
                }
            }
            assert(def_names(ov).to_set().contains(nm)) by {
                assert(def_names(ov)[i as int] == nm);
            }
            assert(m2.dom() =~= def_names(nv).to_set());
        }
        return;
    }
    proof {
        if i < v.len() {
            assert(on[i as int] == v@[i as int].name@);
            lemma_seq_less_total(on[i as int], nm);
        }
    }
    v.insert(i, d);
    proof {
        let nv = v@;
        let nn = def_names(nv);
        assert(nn =~= on.insert(i as int, nm));
        assert forall|a: int, b: int| 0 <= a < b < nn.len() implies seq_less(#[trigger] nn[a], #[trigger] nn[b]) by {
            if b < i {
                assert(nn[a] == on[a] && nn[b] == on[b]);
            } else if b == i {
                assert(nn[a] == on[a]);
            } else if a == i {
                assert(nn[b] == on[b - 1]);
                if b - 1 > i {
                    assert(seq_less(on[i as int], on[b - 1]));
                    lemma_seq_less_transitive(nm, on[i as int], on[b - 1]);
                }
            } else if a < i {
                assert(nn[a] == on[a] && nn[b] == on[b - 1]);
            } else {
                assert(nn[a] == on[a - 1] && nn[b] == on[b - 1]);
            }
        }
        assert forall|k: int| 0 <= k < nv.len() implies m2[(#[trigger] nv[k]).name@] == def_view(nv[k]) by {
            if k < i {
                assert(nv[k] == ov[k]);
                assert(on[k] == ov[k].name@);
                if ov[k].name@ == nm {
                    lemma_seq_less_irreflexive(nm);
                }
            } else if k > i {
                assert(nv[k] == ov[k - 1]);
                assert(on[k - 1] == ov[k - 1].name@);
                if ov[k - 1].name@ == nm {
                    if k - 1 > i {
                        assert(seq_less(on[i as int], on[k - 1]));
                        lemma_seq_less_transitive(nm, on[i as int], on[k - 1]);
                    }
                    lemma_seq_less_irreflexive(nm);
                }
            }
        }
        assert forall|x: Seq<char>| m2.dom().contains(x) <==> nn.to_set().contains(x) by {
            if nn.to_set().contains(x) {
                let k = choose|k: int| 0 <= k < nn.len() && nn[k] == x;
                if k < i {
                    assert(on[k] == x);
                } else if k > i {
                    assert(on[k - 1] == x);
                }
            }
            if m.dom().contains(x) {
                assert(on.to_set().contains(x));
                let k = choose|k: int| 0 <= k < on.len() && on[k] == x;
                if k < i {
                    assert(nn[k] == x);
                } else {
                    assert(nn[k + 1] == x);
                }
            }
            if x == nm {
                assert(nn[i as int] == x);
            }
        }
        assert(m2.dom() =~= nn.to_set());
    }
}

/// Puts each definition of a list, in order, into a list sorted by name.
fn upsert_definitions(
    v: &mut Vec<AttributeDefinition>,
    ds: &Vec<AttributeDefinition>,
    Ghost(m): Ghost<Map<Seq<char>, (AttributeType, Option<Seq<char>>, Option<bool>)>>,
)
    requires
        keyed(old(v)@, m),
    ensures
        keyed(final(v)@, last_definitions(m, ds@)),
{
    let mut i: usize = 0;
    assert(ds@.take(0) =~= Seq::<AttributeDefinition>::empty());
    while i < ds.len()
        invariant
            i <= ds.len(),
            keyed(v@, last_definitions(m, ds@.take(i as int))),
        decreases ds.len() - i,
    {
        let ghost pre = ds@.take(i + 1);
        assert(pre.drop_last() =~= ds@.take(i as int));
        let d = ds[i].copy();
        assert(def_view(d) == def_view(ds@[i as int]));
        upsert_definition(v, d, Ghost(last_definitions(m, ds@.take(i as int))));
        i = i + 1;
    }
    assert(ds@.take(ds.len() as int) =~= ds@);
}

/// The combined metadata of the datasets of an archive (the extent, made
/// of floating-point coordinates, is combined by the caller).
pub struct ZipMetadata {
    pub city_object_count: usize,
    pub city_object_types: Vec<String>,
    pub lods: Vec<String>,
    pub attributes: Vec<AttributeDefinition>,
    pub primary_encoding: String,
    pub version: String,
    pub crs: Option<CRS>,
    pub has_textures: bool,
    pub has_materials: bool,
    pub has_semantic_surfaces: bool,
}

/// The content of combined archive metadata.
pub struct ZipView {
    pub count: int,
    pub types: Set<Seq<char>>,
    pub lods: Set<Seq<char>>,
    pub definitions: Map<Seq<char>, (AttributeType, Option<Seq<char>>, Option<bool>)>,
    pub textures: bool,
    pub materials: bool,
    pub semantic: bool,
    pub version: Seq<char>,
    pub crs: Option<CrsView>,
}

/// The set of strings of an optional list (empty when absent).
pub open spec fn opt_set(o: Option<Vec<String>>) -> Set<Seq<char>> {
    match o {
        Some(v) => view_set(v@),
        None => Set::empty(),
    }
}

/// The definitions of an optional list (none when absent).
pub open spec fn opt_defs(o: Option<Vec<AttributeDefinition>>) -> Seq<AttributeDefinition> {
    match o {
        Some(v) => v@,
        None => seq![],
    }
}

/// Nothing combined yet.
pub open spec fn empty_zip() -> ZipView {
    ZipView {
        count: 0,
        types: Set::empty(),
        lods: Set::empty(),
        definitions: Map::empty(),
        textures: false,
        materials: false,
        semantic: false,
        version: seq![],
        crs: None,
    }
}

/// The combined metadata after one more file of the archive; a file that
/// could not be read adds nothing. Counts add up, types and levels of detail
/// are united, a later definition of an attribute replaces an earlier one,
/// a flag is set by any file reporting it, and the version and CRS are the
/// first ones reported.
pub open spec fn zip_after(z: ZipView, e: Option<ZipEntryReport>) -> ZipView {
    match e {
        None => z,
        Some(r) => ZipView {
            count: z.count + match r.city_object_count {
                Some(n) => n as int,
                None => 0,
            },
            types: z.types.union(opt_set(r.city_object_types)),
            lods: z.lods.union(opt_set(r.lods)),
            definitions: last_definitions(z.definitions, opt_defs(r.attributes)),
            textures: z.textures || r.textures == Some(true),
            materials: z.materials || r.materials == Some(true),
            semantic: z.semantic || r.semantic_surfaces == Some(true),
            version: if z.version.len() == 0 && r.version is Some { r.version->0@ } else { z.version },
            crs: if z.crs is None && r.crs is Some { Some(r.crs->0@) } else { z.crs },
        },
    }
}

/// The combined metadata of the files of an archive, in order.
pub open spec fn zip_of(es: Seq<Option<ZipEntryReport>>) -> ZipView
    decreases es.len(),
{
    if es.len() == 0 {
        empty_zip()
    } else {
        zip_after(zip_of(es.drop_last()), es.last())
    }
}

/// The encoding of an archive: that of its first file when it could be
/// read, else `CityJSON`.
pub open spec fn primary_encoding_of(es: Seq<Option<ZipEntryReport>>) -> Seq<char> {
    if es.len() > 0 && es[0] is Some {
        es[0]->0.encoding@
    } else {
        "CityJSON"@
    }
}

/// The sum of the object counts of the files of an archive.
pub open spec fn zip_count_sum(es: Seq<Option<ZipEntryReport>>) -> int {
    zip_of(es).count
}

impl ZipMetadata {
    /// The content of the record, when its definitions are sorted by name.
    pub open spec fn matches(&self, z: ZipView) -> bool {
        &&& self.city_object_count == z.count
        &&& strictly_sorted(views(self.city_object_types@)) && view_set(self.city_object_types@) == z.types
        &&& strictly_sorted(views(self.lods@)) && view_set(self.lods@) == z.lods
        &&& keyed(self.attributes@, z.definitions)
        &&& self.has_textures == z.textures
        &&& self.has_materials == z.materials
        &&& self.has_semantic_surfaces == z.semantic
        &&& self.version@ == z.version
        &&& opt_crs_view(self.crs) == z.crs
    }
}

/// Combines the metadata the readers of the files of an archive reported,
/// in the order of the files; `None` marks a file no reader could open.
pub fn aggregate_zip_entries(entries: &Vec<Option<ZipEntryReport>>) -> (r: ZipMetadata)
    requires
        zip_count_sum(entries@) <= usize::MAX,
    ensures
        r.matches(zip_of(entries@)),
        r.primary_encoding@ == primary_encoding_of(entries@),
{
    let mut acc = ZipMetadata {
        city_object_count: 0,
        city_object_types: Vec::new(),
        lods: Vec::new(),
        attributes: Vec::new(),
        primary_encoding: owned("CityJSON"),
        version: String::new(),
        crs: None,
        has_textures: false,
        has_materials: false,
        has_semantic_surfaces: false,
    };
    proof {
        assert(view_set(acc.lods@) =~= Set::<Seq<char>>::empty());
        assert(def_names(acc.attributes@).to_set() =~= Set::<Seq<char>>::empty());
        assert(Map::<Seq<char>, (AttributeType, Option<Seq<char>>, Option<bool>)>::empty().dom() =~= Set::<Seq<char>>::empty());
        assert(entries@.take(0) =~= Seq::<Option<ZipEntryReport>>::empty());
        lemma_zip_counts(entries@, 0);
    }
    let mut i: usize = 0;
    while i < entries.len()
        invariant
            i <= entries.len(),
            acc.matches(zip_of(entries@.take(i as int))),
            zip_count_sum(entries@) <= usize::MAX,
            i == 0 ==> acc.primary_encoding@ == "CityJSON"@,
            i > 0 ==> acc.primary_encoding@ == primary_encoding_of(entries@),
        decreases entries.len() - i,
    {
        let ghost pre = entries@.take(i + 1);
        proof {
            assert(pre.drop_last() =~= entries@.take(i as int));
            assert(pre.last() == entries@[i as int]);
            lemma_zip_counts(entries@, i + 1);
            lemma_zip_counts(pre, 0);
        }
        let ghost z = zip_of(entries@.take(i as int));
        if let Some(e) = &entries[i] {
            if i == 0 {
                acc.primary_encoding = copy_string(&e.encoding);
            }
            absorb_entry(&mut acc, e, Ghost(z));
        }
        assert(zip_of(pre) == zip_after(z, entries@[i as int]));
        i = i + 1;
    }
    assert(entries@.take(entries.len() as int) =~= entries@);
    acc
}

/// The city objects that the readable files of an archive report, summed.
pub open spec fn reported_count(es: Seq<Option<ZipEntryReport>>) -> int
    decreases es.len(),
{
    if es.len() == 0 {
        0
    } else {
        reported_count(es.drop_last()) + match es.last() {
            Some(r) => match r.city_object_count {
                Some(n) => n as int,
                None => 0,
            },
            None => 0,
        }
    }
}

/// The file at `j` is the first that reports a non-empty version.
pub open spec fn first_version_at(es: Seq<Option<ZipEntryReport>>, j: int) -> bool {
    &&& 0 <= j < es.len()
    &&& es[j] matches Some(r) && (r.version matches Some(v) && v@.len() > 0)
    &&& forall|i: int| 0 <= i < j ==> !(#[trigger] es[i] matches Some(q) && (q.version matches Some(w) && w@.len() > 0))
}

/// The file at `j` is the first that reports a CRS.
pub open spec fn first_crs_at(es: Seq<Option<ZipEntryReport>>, j: int) -> bool {
    &&& 0 <= j < es.len()
    &&& es[j] matches Some(r) && r.crs is Some
    &&& forall|i: int| 0 <= i < j ==> !(#[trigger] es[i] matches Some(q) && q.crs is Some)
}

/// The combined metadata of an archive is what its readable files report:
/// the city object counts summed, the unions of the object types and of the
/// levels of detail, each flag set when some file sets it, and the version
/// and the CRS of the first file that reports one (an empty version and no
/// CRS when none does).
pub proof fn law_zip_unions(es: Seq<Option<ZipEntryReport>>)
    ensures
        zip_of(es).count == reported_count(es),
        forall|x: Seq<char>|
            #[trigger] zip_of(es).types.contains(x) <==> exists|i: int|
                0 <= i < es.len() && (#[trigger] es[i] matches Some(r) && opt_set(r.city_object_types).contains(x)),
        forall|x: Seq<char>|
            #[trigger] zip_of(es).lods.contains(x) <==> exists|i: int|
                0 <= i < es.len() && (#[trigger] es[i] matches Some(r) && opt_set(r.lods).contains(x)),
        zip_of(es).textures <==> exists|i: int|
            0 <= i < es.len() && (#[trigger] es[i] matches Some(r) && r.textures == Some(true)),
        zip_of(es).materials <==> exists|i: int|
            0 <= i < es.len() && (#[trigger] es[i] matches Some(r) && r.materials == Some(true)),
        zip_of(es).semantic <==> exists|i: int|
            0 <= i < es.len() && (#[trigger] es[i] matches Some(r) && r.semantic_surfaces == Some(true)),
        zip_of(es).version.len() == 0 <==> !exists|j: int| first_version_at(es, j),
        forall|j: int| #[trigger] first_version_at(es, j) ==> zip_of(es).version == es[j]->0.version->0@,
        zip_of(es).crs is None <==> !exists|j: int| first_crs_at(es, j),
        forall|j: int| #[trigger] first_crs_at(es, j) ==> zip_of(es).crs == Some(es[j]->0.crs->0@),
    decreases es.len(),
{
    if es.len() > 0 {
        let pre = es.drop_last();
        let k = es.len() - 1;
        law_zip_unions(pre);
        assert forall|i: int| 0 <= i < pre.len() implies pre[i] == es[i] by {}
        assert(es[k] == es.last());
        let z = zip_of(pre);
        assert forall|j: int| #[trigger] first_version_at(es, j) implies zip_of(es).version
            == es[j]->0.version->0@ by {
            if j < k {
                assert(first_version_at(pre, j));
            } else {
                if z.version.len() > 0 {
                    let jj = choose|jj: int| first_version_at(pre, jj);
                    assert(es[jj] == pre[jj]);
                }
            }
        }
        if zip_of(es).version.len() == 0 {
            if exists|j: int| first_version_at(es, j) {
                let j = choose|j: int| first_version_at(es, j);
                if j < k {
                    assert(first_version_at(pre, j));
                }
            }
        } else {
            if z.version.len() > 0 {
                let jj = choose|jj: int| first_version_at(pre, jj);
                assert(first_version_at(es, jj));
            } else {
                assert forall|i: int| 0 <= i < k implies !(#[trigger] es[i] matches Some(q) && (
                q.version matches Some(w) && w@.len() > 0)) by {
                    if es[i] matches Some(q) && (q.version matches Some(w) && w@.len() > 0) {
                        assert(first_version_at(pre, i) || exists|j: int| first_version_at(pre, j)) by {
                            lemma_first_exists_version(pre, i);
                        }
                    }
                }
                assert(first_version_at(es, k));
            }
        }
        assert forall|j: int| #[trigger] first_crs_at(es, j) implies zip_of(es).crs == Some(
            es[j]->0.crs->0@,
        ) by {
            if j < k {
                assert(first_crs_at(pre, j));
            } else {
                if z.crs is Some {
                    let jj = choose|jj: int| first_crs_at(pre, jj);
                    assert(es[jj] == pre[jj]);
                }
            }
        }
        if zip_of(es).crs is None {
            if exists|j: int| first_crs_at(es, j) {
                let j = choose|j: int| first_crs_at(es, j);
                if j < k {
                    assert(first_crs_at(pre, j));
                }
            }
        } else {
            if z.crs is Some {
                let jj = choose|jj: int| first_crs_at(pre, jj);
                assert(first_crs_at(es, jj));
            } else {
                assert forall|i: int| 0 <= i < k implies !(#[trigger] es[i] matches Some(q) && q.crs is Some) by {
                    if es[i] matches Some(q) && q.crs is Some {
                        lemma_first_exists_crs(pre, i);
                    }
                }
                assert(first_crs_at(es, k));
            }
        }
    }
}

/// A file that reports a non-empty version is, or follows, the first such
/// file.
proof fn lemma_first_exists_version(es: Seq<Option<ZipEntryReport>>, i: int)
    requires
        0 <= i < es.len(),
        es[i] matches Some(q) && (q.version matches Some(w) && w@.len() > 0),
    ensures
        exists|j: int| first_version_at(es, j),
    decreases i,
{
    if exists|h: int| 0 <= h < i && (#[trigger] es[h] matches Some(q) && (q.version matches Some(w) && w@.len() > 0)) {
        let h = choose|h: int| 0 <= h < i && (#[trigger] es[h] matches Some(q) && (q.version matches Some(w) && w@.len() > 0));
        lemma_first_exists_version(es, h);
    } else {
        assert(first_version_at(es, i));
    }
}

/// A file that reports a CRS is, or follows, the first such file.
proof fn lemma_first_exists_crs(es: Seq<Option<ZipEntryReport>>, i: int)
    requires
        0 <= i < es.len(),
        es[i] matches Some(q) && q.crs is Some,
    ensures
        exists|j: int| first_crs_at(es, j),
    decreases i,
{
    if exists|h: int| 0 <= h < i && (#[trigger] es[h] matches Some(q) && q.crs is Some) {
        let h = choose|h: int| 0 <= h < i && (#[trigger] es[h] matches Some(q) && q.crs is Some);
        lemma_first_exists_crs(es, h);
    } else {
        assert(first_crs_at(es, i));
    }
}

/// The combined counts only grow along the files of an archive.
proof fn lemma_zip_counts(es: Seq<Option<ZipEntryReport>>, i: int)
    requires
        0 <= i <= es.len(),
    ensures
        zip_of(es.take(i)).count <= zip_of(es).count,
        zip_of(es).count >= 0,
    decreases es.len(),
{
    if es.len() > 0 {
        let j = if i == es.len() { i - 1 } else { i };
        lemma_zip_counts(es.drop_last(), j);
        if i < es.len() {
            assert(es.drop_last().take(i) =~= es.take(i));
        } else {
            assert(es.take(i) =~= es);
        }
    } else {
        assert(es.take(i) =~= es);
    }
}

/// Combines one readable file into the metadata so far.
fn absorb_entry(acc: &mut ZipMetadata, e: &ZipEntryReport, Ghost(z): Ghost<ZipView>)
    requires
        old(acc).matches(z),
        zip_after(z, Some(*e)).count <= usize::MAX,
    ensures
        final(acc).matches(zip_after(z, Some(*e))),
        final(acc).primary_encoding == old(acc).primary_encoding,
{
    if let Some(n) = e.city_object_count {
        acc.city_object_count = acc.city_object_count + n;
    }
    if let Some(ts) = &e.city_object_types {
        insert_all_sorted(&mut acc.city_object_types, ts);
    } else {
        assert(view_set(acc.city_object_types@).union(Set::empty()) =~= view_set(acc.city_object_types@));
    }
    if let Some(ls) = &e.lods {
        insert_all_sorted(&mut acc.lods, ls);
    } else {
        assert(view_set(acc.lods@).union(Set::empty()) =~= view_set(acc.lods@));
    }
    if let Some(ds) = &e.attributes {
        upsert_definitions(&mut acc.attributes, ds, Ghost(z.definitions));
    } else {
        assert(last_definitions(z.definitions, seq![]) == z.definitions);
    }
    if e.textures == Some(true) {
        acc.has_textures = true;
    }
    if e.materials == Some(true) {
        acc.has_materials = true;
    }
    if e.semantic_surfaces == Some(true) {
        acc.has_semantic_surfaces = true;
    }
    if acc.version.as_str().is_empty() {
        if let Some(v) = &e.version {
            acc.version = copy_string(v);
        }
    }
    if acc.crs.is_none() {
        if let Some(c) = &e.crs {
            acc.crs = Some(c.copy());
        }
    }
}

} // verus!
