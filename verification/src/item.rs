//! The decisions of building a STAC Item for a dataset: its CRS, its data
//! asset, its `city3d:*` properties and the extensions it declares.
use vstd::prelude::*;
use crate::accumulator::ReaderReport;
use crate::crs::{CRS, CrsView, opt_crs_view, opt_view, unknown_crs};
use crate::input::{encoding_media_type, media_type_of};
use crate::sorted::copy_strings;
use crate::stac::{City3dProperties, CityObjectsCount, owned};
use crate::text::{contains_seq, contains_str, copy_string, ends_with, ends_with_str, push_str, views};

verus! {

/// The URL of the 3D City Models extension schema.
pub open spec fn city3d_extension() -> Seq<char> {
    "https://cityjson.github.io/stac-city3d/v0.2.0/schema.json"@
}

/// The URL of the Projection extension schema.
pub open spec fn projection_extension() -> Seq<char> {
    "https://stac-extensions.github.io/projection/v2.0.0/schema.json"@
}

/// The URL of the File extension schema.
pub open spec fn file_extension() -> Seq<char> {
    "https://stac-extensions.github.io/file/v2.1.0/schema.json"@
}

/// The URL of the Item Assets extension schema.
pub open spec fn item_assets_extension() -> Seq<char> {
    "https://stac-extensions.github.io/item-assets/v1.0.0/schema.json"@
}

/// The CRS an item describes its data in: the reader's when known, else the
/// configured override, else the (unknown) reader's.
pub open spec fn resolved_crs(reader_crs: Option<CrsView>, crs_override: Option<CrsView>) -> CrsView {
    let crs = match reader_crs {
        Some(c) => c,
        None => unknown_crs(),
    };
    if crs.epsg is Some {
        crs
    } else {
        match crs_override {
            Some(o) => o,
            None => crs,
        }
    }
}

/// Chooses the CRS of an item from the reader's answer and an override.
pub fn resolve_crs(reader_crs: Option<CRS>, crs_override: &Option<CRS>) -> (r: CRS)
    ensures
        r@ == resolved_crs(opt_crs_view(reader_crs), opt_crs_view(*crs_override)),
{
    let crs = match reader_crs {
        Some(c) => c,
        None => CRS::unknown(),
    };
    if crs.is_known() {
        crs
    } else {
        match crs_override {
            Some(o) => o.copy(),
            None => crs,
        }
    }
}

/// The media type of an item's data: a ZIP archive's, or that of the
/// encoding of the dataset.
pub open spec fn data_media_type_spec(is_zip: bool, encoding: Seq<char>) -> Seq<char> {
    if is_zip {
        "application/zip"@
    } else {
        media_type_of(encoding)
    }
}

/// Chooses the media type of an item's data.
pub fn data_media_type(is_zip: bool, encoding: &str) -> (r: &'static str)
    ensures
        r@ == data_media_type_spec(is_zip, encoding@),
{
    if is_zip {
        "application/zip"
    } else {
        encoding_media_type(encoding)
    }
}

/// The link of an item to its data: under the base URL when one is given
/// (with a `/` between them), else the original URL of a remote input, else
/// the file name.
pub open spec fn asset_href_spec(base_url: Option<Seq<char>>, original_url: Option<Seq<char>>, file_name: Seq<char>) -> Seq<char> {
    match base_url {
        Some(base) => if ends_with(base, "/"@) { base + file_name } else { base + "/"@ + file_name },
        None => match original_url {
            Some(u) => u,
            None => file_name,
        },
    }
}

/// Builds the link of an item to its data.
pub fn asset_href(base_url: &Option<String>, original_url: &Option<String>, file_name: &str) -> (r: String)
    ensures
        r@ == asset_href_spec(opt_view(*base_url), opt_view(*original_url), file_name@),
{
    match base_url {
        Some(base) => {
            let mut r = copy_string(base);
            if !ends_with_str(base.as_str(), "/") {
                push_str(&mut r, "/");
            }
            push_str(&mut r, file_name);
            r
        },
        None => match original_url {
            Some(u) => copy_string(u),
            None => owned(file_name),
        },
    }
}

/// The `datetime` text of a reference date: as it is when it holds a time,
/// else midnight UTC of that day.
pub open spec fn reference_datetime_spec(ref_date: Seq<char>) -> Seq<char> {
    if contains_seq(ref_date, "T"@) {
        ref_date
    } else {
        ref_date + "T00:00:00Z"@
    }
}

/// The `datetime` text of a CityJSON `referenceDate`.
pub fn reference_datetime(ref_date: &str) -> (r: String)
    ensures
        r@ == reference_datetime_spec(ref_date@),
{
    let mut r = owned(ref_date);
    if !contains_str(ref_date, "T") {
        push_str(&mut r, "T00:00:00Z");
    }
    r
}

/// The extensions an item declares: the 3D City Models extension, the
/// Projection extension when it has a `proj:code`, the File extension when
/// its data asset carries file fields.
pub open spec fn item_extensions_spec(has_proj_code: bool, uses_file_extension: bool) -> Seq<Seq<char>> {
    seq![city3d_extension()] + (if has_proj_code { seq![projection_extension()] } else { seq![] }) + (
    if uses_file_extension {
        seq![file_extension()]
    } else {
        seq![]
    })
}

/// Lists the extensions an item declares.
pub fn item_extensions(has_proj_code: bool, uses_file_extension: bool) -> (r: Vec<String>)
    ensures
        views(r@) == item_extensions_spec(has_proj_code, uses_file_extension),
{
    let mut r: Vec<String> = Vec::new();
    r.push(owned("https://cityjson.github.io/stac-city3d/v0.2.0/schema.json"));
    if has_proj_code {
        r.push(owned("https://stac-extensions.github.io/projection/v2.0.0/schema.json"));
    }
    if uses_file_extension {
        r.push(owned("https://stac-extensions.github.io/file/v2.1.0/schema.json"));
    }
    assert(views(r@) =~= item_extensions_spec(has_proj_code, uses_file_extension));
    r
}

/// The extensions a collection declares: the 3D City Models extension; the
/// Projection extension when it summarises `proj:code`; the Item Assets
/// extension when it has item assets (declared, or derived because it
/// summarises `city3d:version`); the File extension when a collection asset
/// carries file fields or the collection has items.
pub open spec fn collection_extensions_spec(
    has_proj_code: bool,
    has_item_assets: bool,
    has_file_props_on_assets: bool,
    has_items: bool,
) -> Seq<Seq<char>> {
    seq![city3d_extension()] + (if has_proj_code { seq![projection_extension()] } else { seq![] }) + (
    if has_item_assets {
        seq![item_assets_extension()]
    } else {
        seq![]
    }) + (if has_file_props_on_assets || has_items { seq![file_extension()] } else { seq![] })
}

/// Lists the extensions a collection declares.
pub fn collection_extensions(
    has_proj_code: bool,
    has_item_assets: bool,
    has_file_props_on_assets: bool,
    has_items: bool,
) -> (r: Vec<String>)
    ensures
        views(r@) == collection_extensions_spec(has_proj_code, has_item_assets, has_file_props_on_assets, has_items),
{
    let mut r: Vec<String> = Vec::new();
    r.push(owned("https://cityjson.github.io/stac-city3d/v0.2.0/schema.json"));
    if has_proj_code {
        r.push(owned("https://stac-extensions.github.io/projection/v2.0.0/schema.json"));
    }
    if has_item_assets {
        r.push(owned("https://stac-extensions.github.io/item-assets/v1.0.0/schema.json"));
    }
    if has_file_props_on_assets || has_items {
        r.push(owned("https://stac-extensions.github.io/file/v2.1.0/schema.json"));
    }
    assert(views(r@) =~= collection_extensions_spec(has_proj_code, has_item_assets, has_file_props_on_assets, has_items));
    r
}

/// The four extension identifiers are distinct.
proof fn lemma_extensions_distinct()
    ensures
        city3d_extension() != projection_extension(),
        city3d_extension() != item_assets_extension(),
        city3d_extension() != file_extension(),
        projection_extension() != item_assets_extension(),
        projection_extension() != file_extension(),
        item_assets_extension() != file_extension(),
{
    reveal_strlit("https://cityjson.github.io/stac-city3d/v0.2.0/schema.json");
    reveal_strlit("https://stac-extensions.github.io/projection/v2.0.0/schema.json");
    reveal_strlit("https://stac-extensions.github.io/file/v2.1.0/schema.json");
    reveal_strlit("https://stac-extensions.github.io/item-assets/v1.0.0/schema.json");
    assert(city3d_extension()[8] != projection_extension()[8]);
    assert(city3d_extension()[8] != item_assets_extension()[8]);
    assert(city3d_extension()[8] != file_extension()[8]);
    assert(projection_extension()[34] != item_assets_extension()[34]);
    assert(projection_extension()[34] != file_extension()[34]);
    assert(item_assets_extension()[34] != file_extension()[34]);
}

/// A collection declares the 3D city extension first, and then each other
/// extension exactly once and exactly when its condition holds: the
/// projection extension for a `proj:code` summary, the item-assets extension
/// for item assets, the file extension for file fields on an asset or for
/// items aggregated into the collection.
pub proof fn law_collection_extensions(
    has_proj_code: bool,
    has_item_assets: bool,
    has_file_props_on_assets: bool,
    has_items: bool,
)
    ensures
        ({
            let e = collection_extensions_spec(
                has_proj_code,
                has_item_assets,
                has_file_props_on_assets,
                has_items,
            );
            &&& e[0] == city3d_extension()
            &&& e.contains(projection_extension()) <==> has_proj_code
            &&& e.contains(item_assets_extension()) <==> has_item_assets
            &&& e.contains(file_extension()) <==> (has_file_props_on_assets || has_items)
            &&& e.no_duplicates()
        }),
{
    lemma_extensions_distinct();
    let e = collection_extensions_spec(has_proj_code, has_item_assets, has_file_props_on_assets, has_items);
    let c = city3d_extension();
    let p = projection_extension();
    let a = item_assets_extension();
    let f = file_extension();
    let ps: Seq<Seq<char>> = if has_proj_code { seq![p] } else { seq![] };
    let as_: Seq<Seq<char>> = if has_item_assets { seq![a] } else { seq![] };
    let fs: Seq<Seq<char>> = if has_file_props_on_assets || has_items { seq![f] } else { seq![] };
    assert(e =~= seq![c] + ps + as_ + fs);
    assert forall|i: int| 0 <= i < e.len() implies (e[i] == c && i == 0) || (e[i] == p
        && has_proj_code) || (e[i] == a && has_item_assets) || (e[i] == f && (
    has_file_props_on_assets || has_items)) by {}
    if has_proj_code {
        assert(e[1] == p);
    }
    if has_item_assets {
        assert(e[ps.len() as int + 1] == a);
    }
    if has_file_props_on_assets || has_items {
        assert(e[e.len() - 1] == f);
    }
    assert forall|i: int, j: int| 0 <= i < j < e.len() implies e[i] != e[j] by {}
}

/// A copy of an optional list of strings, or an empty list.
fn strings_or_empty(o: &Option<Vec<String>>) -> (r: Vec<String>)
    ensures
        views(r@) == match *o {
            Some(v) => views(v@),
            None => Seq::empty(),
        },
{
    match o {
        Some(v) => copy_strings(v),
        None => {
            let r: Vec<String> = Vec::new();
            assert(views(r@) =~= Seq::<Seq<char>>::empty());
            r
        },
    }
}

/// Copies of the definitions of an optional list, or an empty list.
fn definitions_or_empty(o: &Option<Vec<crate::attributes::AttributeDefinition>>) -> (r: Vec<crate::attributes::AttributeDefinition>)
    ensures
        r@.len() == match *o {
            Some(v) => v@.len(),
            None => 0,
        },
        forall|i: int| 0 <= i < r@.len() ==> match *o {
            Some(v) => (#[trigger] r@[i]).name@ == v@[i].name@ && r@[i].attr_type == v@[i].attr_type
                && opt_view(r@[i].description) == opt_view(v@[i].description) && r@[i].required == v@[i].required,
            None => true,
        },
{
    let mut r: Vec<crate::attributes::AttributeDefinition> = Vec::new();
    if let Some(v) = o {
        let mut i: usize = 0;
        while i < v.len()
            invariant
                i <= v.len(),
                r@.len() == i,
                forall|k: int| 0 <= k < i ==> (#[trigger] r@[k]).name@ == v@[k].name@ && r@[k].attr_type == v@[k].attr_type
                    && opt_view(r@[k].description) == opt_view(v@[k].description) && r@[k].required == v@[k].required,
            decreases v.len() - i,
        {
            r.push(v[i].copy());
            i = i + 1;
        }
    }
    r
}

/// Collects the `city3d:*` properties of a dataset from what its reader
/// reported: each answer the reader could not give is left absent (lists:
/// empty), and the object count becomes a single count.
pub fn properties_from_report(report: &ReaderReport) -> (r: City3dProperties)
    ensures
        opt_view(r.version) == opt_view(report.version),
        views(r.lods@) == match report.lods {
            Some(v) => views(v@),
            None => Seq::empty(),
        },
        views(r.co_types@) == match report.city_object_types {
            Some(v) => views(v@),
            None => Seq::empty(),
        },
        r.city_objects == match report.city_object_count {
            Some(n) => Some(CityObjectsCount::Integer(n as u64)),
            None => None,
        },
        r.semantic_surfaces == report.semantic_surfaces,
        r.textures == report.textures,
        r.materials == report.materials,
        r.attributes@.len() == match report.attributes {
            Some(v) => v@.len(),
            None => 0,
        },
        forall|i: int| 0 <= i < r.attributes@.len() ==> match report.attributes {
            Some(v) => (#[trigger] r.attributes@[i]).name@ == v@[i].name@ && r.attributes@[i].attr_type
                == v@[i].attr_type && opt_view(r.attributes@[i].description) == opt_view(v@[i].description)
                && r.attributes@[i].required == v@[i].required,
            None => true,
        },
{
    City3dProperties {
        version: crate::crs::copy_opt_string(&report.version),
        lods: strings_or_empty(&report.lods),
        co_types: strings_or_empty(&report.city_object_types),
        city_objects: match report.city_object_count {
            Some(n) => Some(CityObjectsCount::Integer(n as u64)),
            None => None,
        },
        semantic_surfaces: report.semantic_surfaces,
        textures: report.textures,
        materials: report.materials,
        attributes: definitions_or_empty(&report.attributes),
    }
}

} // verus!
