//! FlatCityBuf datasets (`.fcb`): what the header and the city objects of a
//! file tell of the dataset. The file is decoded with `fcb_core` outside the
//! library; the reader holds the plain values that decoding gave.
use vstd::prelude::*;
use crate::attributes::{AttributeDefinition, AttributeType};
use crate::crs::{CRS, CrsView, epsg_crs, opt_view, unknown_crs};
use crate::error::{CityJsonStacError, Result, concat};
use crate::sorted::{
    copy_strings, insert_sorted, lemma_insert_nondecreasing, nondecreasing, sort_strings, str_less, view_set,
};
use crate::stac::owned;
use crate::text::{copy_string, seq_less, strictly_sorted, views};

verus! {

/// The attribute type of a column type code of the FlatCityBuf header
/// schema (its `ColumnType`: Byte 0, UByte 1, Bool 2, Short 3, UShort 4,
/// Int 5, UInt 6, Long 7, ULong 8, Float 9, Double 10, String 11, Json 12,
/// DateTime 13, Binary 14): the integer and floating-point types are
/// numbers, Bool a boolean, Json an object, DateTime a date, and the rest
/// (String, Binary, codes the schema does not define) strings.
pub open spec fn column_attribute_type(code: u8) -> AttributeType {
    if code == 2 {
        AttributeType::Boolean
    } else if code <= 10 {
        AttributeType::Number
    } else if code == 12 {
        AttributeType::Object
    } else if code == 13 {
        AttributeType::Date
    } else {
        AttributeType::String
    }
}

/// Maps a FlatCityBuf column type code to an attribute type.
pub fn map_column_type(column_type: u8) -> (r: AttributeType)
    ensures
        r == column_attribute_type(column_type),
{
    if column_type == 2 {
        AttributeType::Boolean
    } else if column_type <= 10 {
        AttributeType::Number
    } else if column_type == 12 {
        AttributeType::Object
    } else if column_type == 13 {
        AttributeType::Date
    } else {
        AttributeType::String
    }
}

/// A column of the attribute schema of a FlatCityBuf header.
pub struct FcbColumn {
    pub name: String,
    /// The column's type code.
    pub column_type: u8,
    pub nullable: bool,
    pub description: Option<String>,
}

/// The content of an attribute definition.
pub struct DefinitionView {
    pub name: Seq<char>,
    pub attr_type: AttributeType,
    pub description: Option<Seq<char>>,
    pub required: Option<bool>,
}

/// The content of an attribute definition.
pub open spec fn definition_view(d: AttributeDefinition) -> DefinitionView {
    DefinitionView { name: d.name@, attr_type: d.attr_type, description: opt_view(d.description), required: d.required }
}

/// The definition a column declares: its name, the attribute type of its
/// type code, its description, and required exactly when not nullable.
pub open spec fn column_view(c: FcbColumn) -> DefinitionView {
    DefinitionView {
        name: c.name@,
        attr_type: column_attribute_type(c.column_type),
        description: opt_view(c.description),
        required: Some(!c.nullable),
    }
}

/// The contents of a list of definitions.
pub open spec fn definition_views(defs: Seq<AttributeDefinition>) -> Seq<DefinitionView> {
    defs.map_values(|d: AttributeDefinition| definition_view(d))
}

/// The definitions a list of columns declares.
pub open spec fn column_views(cols: Seq<FcbColumn>) -> Seq<DefinitionView> {
    cols.map_values(|c: FcbColumn| column_view(c))
}

/// The names of a list of definitions.
pub open spec fn definition_names(defs: Seq<DefinitionView>) -> Seq<Seq<char>> {
    defs.map_values(|d: DefinitionView| d.name)
}

/// The attribute definition of one column.
pub fn column_definition(c: &FcbColumn) -> (r: AttributeDefinition)
    ensures
        definition_view(r) == column_view(*c),
{
    AttributeDefinition {
        name: copy_string(&c.name),
        attr_type: map_column_type(c.column_type),
        description: crate::crs::copy_opt_string(&c.description),
        required: Some(!c.nullable),
    }
}

/// The attribute definitions of the columns of a header, sorted by name
/// (columns of equal names keep their order).
pub fn column_definitions(columns: &Vec<FcbColumn>) -> (r: Vec<AttributeDefinition>)
    ensures
        nondecreasing(definition_names(definition_views(r@))),
        definition_views(r@).to_multiset() == column_views(columns@).to_multiset(),
{
    let mut r: Vec<AttributeDefinition> = Vec::new();
    let mut i: usize = 0;
    assert(column_views(columns@).take(0) =~= Seq::<DefinitionView>::empty());
    assert(definition_views(r@) =~= Seq::<DefinitionView>::empty());
    assert(definition_names(definition_views(r@)) =~= Seq::<Seq<char>>::empty());
    while i < columns.len()
        invariant
            i <= columns.len(),
            nondecreasing(definition_names(definition_views(r@))),
            definition_views(r@).to_multiset() == column_views(columns@).take(i as int).to_multiset(),
        decreases columns.len() - i,
    {
        let d = column_definition(&columns[i]);
        let mut pos: usize = 0;
        while pos < r.len() && !str_less(d.name.as_str(), r[pos].name.as_str())
            invariant
                pos <= r.len(),
                forall|k: int| 0 <= k < pos ==> !seq_less(d.name@, #[trigger] definition_names(definition_views(r@))[k]),
            decreases r.len() - pos,
        {
            pos = pos + 1;
        }
        let ghost before = r@;
        let ghost dv = definition_view(d);
        r.insert(pos, d);
        proof {
            let bv = definition_views(before);
            let bn = definition_names(bv);
            assert(definition_views(r@) =~= bv.insert(pos as int, dv));
            assert(definition_names(definition_views(r@)) =~= bn.insert(pos as int, dv.name));
            if pos < before.len() {
                assert(bn[pos as int] == before[pos as int].name@);
            }
            lemma_insert_nondecreasing(bn, pos as int, dv.name);
            vstd::seq_lib::to_multiset_insert(bv, pos as int, dv);
            assert(column_views(columns@).take(i + 1) =~= column_views(columns@).take(i as int).push(dv));
            vstd::seq_lib::to_multiset_build(column_views(columns@).take(i as int), dv);
        }
        i = i + 1;
    }
    assert(column_views(columns@).take(columns.len() as int) =~= column_views(columns@));
    r
}

/// The name a FlatCityBuf city object type is reported under: for an
/// extension object its extension type (`ExtensionObject` without one),
/// otherwise the type's variant name, when the type has one.
pub fn object_type_name(variant_name: Option<&str>, is_extension: bool, extension_type: Option<&str>) -> (r: Option<
    String,
>)
    ensures
        is_extension ==> (r matches Some(t) && t@ == match extension_type {
            Some(e) => e@,
            None => "ExtensionObject"@,
        }),
        !is_extension ==> match variant_name {
            Some(v) => r matches Some(t) && t@ == v@,
            None => r is None,
        },
{
    if is_extension {
        match extension_type {
            Some(e) => Some(owned(e)),
            None => Some(owned("ExtensionObject")),
        }
    } else {
        match variant_name {
            Some(v) => Some(owned(v)),
            None => None,
        }
    }
}

/// What streaming through the city objects of a file found: the levels of
/// detail and object types (each a strictly increasing set), how many
/// objects there are, and whether a geometry carries semantic surfaces.
pub struct FcbContent {
    pub lods: Vec<String>,
    pub city_object_types: Vec<String>,
    pub city_object_count: usize,
    pub semantic_surfaces: bool,
}

impl FcbContent {
    /// The sets are kept strictly increasing.
    pub open spec fn wf(&self) -> bool {
        &&& strictly_sorted(views(self.lods@))
        &&& strictly_sorted(views(self.city_object_types@))
    }

    /// Nothing found yet.
    pub fn new() -> (r: Self)
        ensures
            r.wf(),
            r.lods@.len() == 0,
            r.city_object_types@.len() == 0,
            r.city_object_count == 0,
            !r.semantic_surfaces,
    {
        FcbContent { lods: Vec::new(), city_object_types: Vec::new(), city_object_count: 0, semantic_surfaces: false }
    }

    /// Records one city object: its type name (if it has one), the levels of
    /// detail its geometries declare, and whether one of them carries
    /// semantic surfaces.
    pub fn add_object(&mut self, object_type: Option<String>, lods: &Vec<String>, has_semantics: bool)
        requires
            old(self).wf(),
            old(self).city_object_count < usize::MAX,
        ensures
            final(self).wf(),
            view_set(final(self).lods@) == view_set(old(self).lods@).union(view_set(lods@)),
            view_set(final(self).city_object_types@) == match object_type {
                Some(t) => view_set(old(self).city_object_types@).insert(t@),
                None => view_set(old(self).city_object_types@),
            },
            final(self).city_object_count == old(self).city_object_count + 1,
            final(self).semantic_surfaces == (old(self).semantic_surfaces || has_semantics),
    {
        let mut i: usize = 0;
        let ghost start = view_set(self.lods@);
        assert(views(lods@).take(0).to_set() =~= Set::<Seq<char>>::empty());
        while i < lods.len()
            invariant
                i <= lods.len(),
                strictly_sorted(views(self.lods@)),
                view_set(self.lods@) == start.union(views(lods@).take(i as int).to_set()),
                self.city_object_types@ == old(self).city_object_types@,
                strictly_sorted(views(self.city_object_types@)),
                self.city_object_count == old(self).city_object_count,
                self.city_object_count < usize::MAX,
                self.semantic_surfaces == old(self).semantic_surfaces,
            decreases lods.len() - i,
        {
            insert_sorted(&mut self.lods, copy_string(&lods[i]));
            proof {
                assert(views(lods@).take(i + 1) =~= views(lods@).take(i as int).push(lods@[i as int]@));
                crate::sorted::lemma_push_to_set(views(lods@).take(i as int), lods@[i as int]@);
                assert(start.union(views(lods@).take(i + 1).to_set()) =~= start.union(
                    views(lods@).take(i as int).to_set(),
                ).insert(lods@[i as int]@));
            }
            i = i + 1;
        }
        assert(views(lods@).take(lods.len() as int) =~= views(lods@));
        if let Some(t) = object_type {
            insert_sorted(&mut self.city_object_types, t);
        }
        self.city_object_count = self.city_object_count + 1;
        self.semantic_surfaces = self.semantic_surfaces || has_semantics;
    }
}

/// What the header of a FlatCityBuf file holds that metadata extraction
/// reads (its extent, transform and metadata object aside).
pub struct FcbHeader {
    pub version: String,
    /// The EPSG code of the reference system, when there is one.
    pub reference_system_code: Option<i32>,
    pub columns: Vec<FcbColumn>,
    /// The URLs of the extensions, in header order.
    pub extensions: Vec<String>,
}

/// The CRS of a FlatCityBuf header: its EPSG code when positive, else an
/// unknown CRS.
pub open spec fn fcb_crs_spec(code: Option<i32>) -> CrsView {
    match code {
        Some(c) => if c > 0 {
            epsg_crs(c as u32)
        } else {
            unknown_crs()
        },
        None => unknown_crs(),
    }
}

/// The CRS of a FlatCityBuf header.
pub fn fcb_crs(code: Option<i32>) -> (r: CRS)
    ensures
        r@ == fcb_crs_spec(code),
{
    match code {
        Some(c) => if c > 0 {
            CRS::from_epsg(c as u32)
        } else {
            CRS::unknown()
        },
        None => CRS::unknown(),
    }
}

/// The message of a reader whose header has not been supplied.
pub open spec fn header_not_loaded() -> Seq<char> {
    "FlatCityBuf header is not loaded"@
}

/// The message of a reader whose city objects have not been streamed.
pub open spec fn content_not_loaded() -> Seq<char> {
    "FlatCityBuf features are not loaded"@
}

/// Reader for FlatCityBuf format files (.fcb).
///
/// The header and the city objects are decoded outside the library and
/// supplied separately, as the file is read in two passes.
pub struct FlatCityBufReader {
    file_path: String,
    header: Option<FcbHeader>,
    content: Option<FcbContent>,
}

impl FlatCityBufReader {
    /// The path of the file this reader reads.
    pub closed spec fn path(&self) -> Seq<char> {
        self.file_path@
    }

    /// The decoded header, once supplied.
    pub closed spec fn header(&self) -> Option<FcbHeader> {
        self.header
    }

    /// What streaming the city objects found, once supplied.
    pub closed spec fn content(&self) -> Option<FcbContent> {
        self.content
    }

    /// Create a new FlatCityBuf reader; `exists` tells whether the file
    /// exists.
    pub fn new(file_path: &str, exists: bool) -> (r: Result<Self>)
        ensures
            exists ==> (r matches Ok(reader) && reader.path() == file_path@ && reader.header() is None
                && reader.content() is None),
            !exists ==> (r matches Err(CityJsonStacError::IoError(m)) && m@ == "File not found: "@
                + file_path@),
    {
        if !exists {
            return Err(CityJsonStacError::IoError(concat("File not found: ", file_path)));
        }
        Ok(FlatCityBufReader { file_path: owned(file_path), header: None, content: None })
    }

    /// Supplies the decoded header.
    pub fn load_header(&mut self, header: FcbHeader)
        ensures
            final(self).path() == old(self).path(),
            final(self).header() == Some(header),
            final(self).content() == old(self).content(),
    {
        self.header = Some(header);
    }

    /// Supplies what streaming the city objects found.
    pub fn load_content(&mut self, content: FcbContent)
        ensures
            final(self).path() == old(self).path(),
            final(self).header() == old(self).header(),
            final(self).content() == Some(content),
    {
        self.content = Some(content);
    }

    /// The path of the file.
    pub fn file_path(&self) -> (r: &str)
        ensures
            r@ == self.path(),
    {
        self.file_path.as_str()
    }

    /// The encoding name.
    pub fn encoding(&self) -> (r: &'static str)
        ensures
            r@ == "FlatCityBuf"@,
    {
        "FlatCityBuf"
    }

    fn no_header() -> (e: CityJsonStacError)
        ensures
            e matches CityJsonStacError::Other(m) && m@ == header_not_loaded(),
    {
        CityJsonStacError::Other(owned("FlatCityBuf header is not loaded"))
    }

    fn no_content() -> (e: CityJsonStacError)
        ensures
            e matches CityJsonStacError::Other(m) && m@ == content_not_loaded(),
    {
        CityJsonStacError::Other(owned("FlatCityBuf features are not loaded"))
    }

    /// The CityJSON version of the header.
    pub fn version(&self) -> (r: Result<String>)
        ensures
            self.header() matches Some(h) ==> (r matches Ok(v) && v@ == h.version@),
            self.header() is None ==> r is Err,
    {
        match &self.header {
            Some(h) => Ok(copy_string(&h.version)),
            None => Err(Self::no_header()),
        }
    }

    /// The coordinate reference system of the header.
    pub fn crs(&self) -> (r: Result<CRS>)
        ensures
            self.header() matches Some(h) ==> (r matches Ok(c) && c@ == fcb_crs_spec(h.reference_system_code)),
            self.header() is None ==> r is Err,
    {
        match &self.header {
            Some(h) => Ok(fcb_crs(h.reference_system_code)),
            None => Err(Self::no_header()),
        }
    }

    /// The attribute definitions of the header's columns, sorted by name.
    pub fn attributes(&self) -> (r: Result<Vec<AttributeDefinition>>)
        ensures
            self.header() matches Some(h) ==> (r matches Ok(v) && nondecreasing(
                definition_names(definition_views(v@)),
            ) && definition_views(v@).to_multiset() == column_views(h.columns@).to_multiset()),
            self.header() is None ==> r is Err,
    {
        match &self.header {
            Some(h) => Ok(column_definitions(&h.columns)),
            None => Err(Self::no_header()),
        }
    }

    /// The extension URLs of the header, sorted.
    pub fn extensions(&self) -> (r: Result<Vec<String>>)
        ensures
            self.header() matches Some(h) ==> (r matches Ok(v) && nondecreasing(views(v@)) && views(
                v@,
            ).to_multiset() == views(h.extensions@).to_multiset()),
            self.header() is None ==> r is Err,
    {
        match &self.header {
            Some(h) => Ok(sort_strings(&h.extensions)),
            None => Err(Self::no_header()),
        }
    }

    /// The header declares no appearance to the reader, so textures are
    /// never reported.
    pub fn textures(&self) -> (r: Result<bool>)
        ensures
            self.header() is Some ==> r == Ok::<bool, CityJsonStacError>(false),
            self.header() is None ==> r is Err,
    {
        match &self.header {
            Some(_) => Ok(false),
            None => Err(Self::no_header()),
        }
    }

    /// Nor are materials.
    pub fn materials(&self) -> (r: Result<bool>)
        ensures
            self.header() is Some ==> r == Ok::<bool, CityJsonStacError>(false),
            self.header() is None ==> r is Err,
    {
        match &self.header {
            Some(_) => Ok(false),
            None => Err(Self::no_header()),
        }
    }

    /// The levels of detail of all city objects, sorted.
    pub fn lods(&self) -> (r: Result<Vec<String>>)
        ensures
            self.content() matches Some(c) ==> (r matches Ok(v) && views(v@) == views(c.lods@)),
            self.content() is None ==> r is Err,
    {
        match &self.content {
            Some(c) => Ok(copy_strings(&c.lods)),
            None => Err(Self::no_content()),
        }
    }

    /// The city object types of all city objects, sorted.
    pub fn city_object_types(&self) -> (r: Result<Vec<String>>)
        ensures
            self.content() matches Some(c) ==> (r matches Ok(v) && views(v@) == views(c.city_object_types@)),
            self.content() is None ==> r is Err,
    {
        match &self.content {
            Some(c) => Ok(copy_strings(&c.city_object_types)),
            None => Err(Self::no_content()),
        }
    }

    /// The number of city objects (a feature may hold several).
    pub fn city_object_count(&self) -> (r: Result<usize>)
        ensures
            self.content() matches Some(c) ==> r == Ok::<usize, CityJsonStacError>(c.city_object_count),
            self.content() is None ==> r is Err,
    {
        match &self.content {
            Some(c) => Ok(c.city_object_count),
            None => Err(Self::no_content()),
        }
    }

    /// Whether some geometry carries semantic surfaces.
    pub fn semantic_surfaces(&self) -> (r: Result<bool>)
        ensures
            self.content() matches Some(c) ==> r == Ok::<bool, CityJsonStacError>(c.semantic_surfaces),
            self.content() is None ==> r is Err,
    {
        match &self.content {
            Some(c) => Ok(c.semantic_surfaces),
            None => Err(Self::no_content()),
        }
    }
}

} // verus!
