//! Readers for the CityJSON formats: what they report of a dataset, and the
//! choice of reader for an input.
use vstd::prelude::*;

use crate::attributes::{AttributeDefinition, AttributeSchema, definitions_map, plain_sorted_definitions, schema_after, schema_of};
use crate::crs::{CRS, CrsView};
use crate::error::{CityJsonStacError, Result, concat};
use crate::model::{
    CityObjectInfo, CityFeature, CityModel, add_attributes, add_lods, add_types, any_semantics, crs_from_reference_system,
    extract_extensions, model_extensions, objects_lods, objects_observations, objects_semantics,
    objects_types, reference_system_crs,
};
use crate::sorted::{copy_strings, view_set};
use crate::decode::{
    cityjson_feature_text, feature_facts, model_facts, object_view, objects_multiset, parse_city_feature,
};
use crate::normalize::{parse_cityjson, read_document};
use crate::lines::{lines, split_lines};
use crate::text::{chars_of, trim, trim_bounds};
use crate::text::{copy_string, strictly_sorted, views};

verus! {

/// The lowercase form of a string (`str::to_lowercase`), as Unicode defines it.
pub uninterp spec fn unicode_lowercase(s: Seq<char>) -> Seq<char>;

/// An ASCII character.
pub open spec fn is_ascii_char(c: char) -> bool {
    (c as u32) < 128
}

/// Calls `str::to_lowercase`. Its result is named by `unicode_lowercase`; for
/// ASCII text it is the text with `A`–`Z` mapped to `a`–`z`, as the function's
/// documentation states for the ASCII range. What it gives for other
/// characters is left to the name.
#[verifier::external_body]
pub(crate) fn to_lowercase(s: &str) -> (r: String)
    ensures
        r@ == unicode_lowercase(s@),
        (forall|i: int| 0 <= i < s@.len() ==> is_ascii_char(#[trigger] s@[i])) ==> r@
            == crate::text::to_ascii_lowercase(s@),
{
    s.to_lowercase()
}

/// What a reader reports of a dataset, apart from its extent and transform.
pub struct DatasetMetadata {
    /// The encoding name (`CityJSON`, `CityJSONSeq`, `CityGML`, `FlatCityBuf`).
    pub encoding: String,
    /// The format version.
    pub version: String,
    /// The coordinate reference system.
    pub crs: CRS,
    /// The levels of detail, sorted.
    pub lods: Vec<String>,
    /// The city object types, sorted.
    pub city_object_types: Vec<String>,
    /// The number of city objects.
    pub city_object_count: usize,
    /// The attribute definitions, sorted by name.
    pub attributes: Vec<AttributeDefinition>,
    /// The extension URLs, sorted.
    pub extensions: Vec<String>,
    /// Whether semantic surfaces are present.
    pub semantic_surfaces: bool,
    /// Whether textures are present.
    pub textures: bool,
    /// Whether materials are present.
    pub materials: bool,
}

/// The message of a missing file.
pub open spec fn not_found_message(path: Seq<char>) -> Seq<char> {
    "File not found: "@ + path
}

/// The error of a reader whose data has not been supplied.
pub open spec fn not_loaded_error() -> Seq<char> {
    "CityJSON data is not loaded"@
}

/// Reader for CityJSON format files (.json)
///
/// The document is parsed outside the library; the reader holds the parts
/// of it that metadata extraction reads.
pub struct CityJSONReader {
    file_path: String,
    data: Option<CityModel>,
}

/// The result of a reader query: the value when the data is loaded, an error
/// otherwise.
pub open spec fn loaded<T>(data: Option<CityModel>, f: spec_fn(CityModel) -> T) -> Option<T> {
    match data {
        Some(m) => Some(f(m)),
        None => None,
    }
}

impl CityJSONReader {
    /// The path of the file this reader reads.
    pub closed spec fn path(&self) -> Seq<char> {
        self.file_path@
    }

    /// The parsed document, once supplied.
    pub closed spec fn data(&self) -> Option<CityModel> {
        self.data
    }

    /// Create a new CityJSON reader for a file; `exists` tells whether the
    /// file exists.
    pub fn new(file_path: &str, exists: bool) -> (r: Result<Self>)
        ensures
            exists ==> (r matches Ok(reader) && reader.path() == file_path@ && reader.data() is None),
            !exists ==> (r matches Err(CityJsonStacError::IoError(m)) && m@ == not_found_message(
                file_path@,
            )),
    {
        if !exists {
            return Err(CityJsonStacError::IoError(concat("File not found: ", file_path)));
        }
        Ok(CityJSONReader { file_path: file_path.to_owned(), data: None })
    }

    /// Create a CityJSON reader from an already parsed document; the
    /// `virtual_path` is used for display purposes (e.g., the original filename).
    pub fn from_model(model: CityModel, virtual_path: &str) -> (r: Self)
        ensures
            r.path() == virtual_path@,
            r.data() == Some(model),
    {
        CityJSONReader { file_path: virtual_path.to_owned(), data: Some(model) }
    }

    /// Create a CityJSON reader from CityJSON text (remote files are read as
    /// text), read by [`parse_cityjson`]: an integer `version` or `lod` and a
    /// URN reference system are rewritten before `cjseq` decodes it; the
    /// `virtual_path` names the file. Text that cannot be read is an error.
    pub fn from_content(content: &str, virtual_path: &str) -> (r: Result<Self>)
        ensures
            match read_document(content@) {
                Some(f) => r matches Ok(rd) && (rd.path() == virtual_path@ && (rd.data() matches Some(m)
                    && model_facts(m) == f)),
                None => r matches Err(CityJsonStacError::Other(_)),
            },
    {
        match parse_cityjson(content) {
            Ok(m) => Ok(Self::from_model(m, virtual_path)),
            Err(e) => Err(CityJsonStacError::Other(e)),
        }
    }

    /// Supplies the parsed document of the file.
    pub fn load(&mut self, model: CityModel)
        ensures
            final(self).path() == old(self).path(),
            final(self).data() == Some(model),
    {
        self.data = Some(model);
    }

    /// Whether the document has been supplied.
    pub fn is_loaded(&self) -> (r: bool)
        ensures
            r == self.data() is Some,
    {
        self.data.is_some()
    }

    /// The path of the file.
    pub fn file_path(&self) -> (r: &str)
        ensures
            r@ == self.path(),
    {
        self.file_path.as_str()
    }

    /// The encoding name.
    pub fn encoding(&self) -> (r: &'static str)
        ensures
            r@ == "CityJSON"@,
    {
        "CityJSON"
    }

    /// CityJSON files are not designed for streaming.
    pub fn streamable(&self) -> (r: bool)
        ensures
            !r,
    {
        false
    }

    fn not_loaded() -> (e: CityJsonStacError)
        ensures
            e matches CityJsonStacError::Other(m) && m@ == not_loaded_error(),
    {
        CityJsonStacError::Other("CityJSON data is not loaded".to_owned())
    }

    /// The CityJSON version.
    pub fn version(&self) -> (r: Result<String>)
        ensures
            self.data() matches Some(m) ==> (r matches Ok(v) && v@ == m.version@),
            self.data() is None ==> r is Err,
    {
        match &self.data {
            Some(m) => Ok(copy_string(&m.version)),
            None => Err(Self::not_loaded()),
        }
    }

    /// The coordinate reference system: the EPSG code of the metadata's
    /// reference system, or an unknown CRS.
    pub fn crs(&self) -> (r: Result<CRS>)
        ensures
            self.data() matches Some(m) ==> (r matches Ok(c) && c@ == reference_system_crs(
                m.reference_system,
            )),
            self.data() is None ==> r is Err,
    {
        match &self.data {
            Some(m) => Ok(crs_from_reference_system(&m.reference_system)),
            None => Err(Self::not_loaded()),
        }
    }

    /// The levels of detail present in the model, sorted.
    pub fn lods(&self) -> (r: Result<Vec<String>>)
        ensures
            self.data() matches Some(m) ==> (r matches Ok(v) && strictly_sorted(views(v@))
                && view_set(v@) == objects_lods(m.city_objects@)),
            self.data() is None ==> r is Err,
    {
        match &self.data {
            Some(m) => {
                let mut v: Vec<String> = Vec::new();
                assert(view_set(v@) =~= Set::<Seq<char>>::empty());
                add_lods(&mut v, &m.city_objects);
                assert(Set::<Seq<char>>::empty().union(objects_lods(m.city_objects@)) =~= objects_lods(
                    m.city_objects@,
                ));
                Ok(v)
            },
            None => Err(Self::not_loaded()),
        }
    }

    /// The types of city objects present (extension types excluded), sorted.
    pub fn city_object_types(&self) -> (r: Result<Vec<String>>)
        ensures
            self.data() matches Some(m) ==> (r matches Ok(v) && strictly_sorted(views(v@))
                && view_set(v@) == objects_types(m.city_objects@)),
            self.data() is None ==> r is Err,
    {
        match &self.data {
            Some(m) => {
                let mut v: Vec<String> = Vec::new();
                assert(view_set(v@) =~= Set::<Seq<char>>::empty());
                add_types(&mut v, &m.city_objects);
                assert(Set::<Seq<char>>::empty().union(objects_types(m.city_objects@)) =~= objects_types(
                    m.city_objects@,
                ));
                Ok(v)
            },
            None => Err(Self::not_loaded()),
        }
    }

    /// The total count of city objects.
    pub fn city_object_count(&self) -> (r: Result<usize>)
        ensures
            self.data() matches Some(m) ==> r == Ok::<usize, CityJsonStacError>(
                m.city_objects@.len() as usize,
            ),
            self.data() is None ==> r is Err,
    {
        match &self.data {
            Some(m) => Ok(m.city_objects.len()),
            None => Err(Self::not_loaded()),
        }
    }

    /// The attribute definitions: each attribute name with the type of its
    /// values (`String` where they disagree), sorted by name.
    pub fn attributes(&self) -> (r: Result<Vec<AttributeDefinition>>)
        ensures
            self.data() matches Some(m) ==> (r matches Ok(v) && plain_sorted_definitions(v@)
                && definitions_map(v@) == schema_of(objects_observations(m.city_objects@))),
            self.data() is None ==> r is Err,
    {
        match &self.data {
            Some(m) => {
                let mut schema = AttributeSchema::new();
                add_attributes(&mut schema, &m.city_objects);
                Ok(schema.into_definitions())
            },
            None => Err(Self::not_loaded()),
        }
    }

    /// The extension URLs, sorted.
    pub fn extensions(&self) -> (r: Result<Vec<String>>)
        ensures
            self.data() matches Some(m) ==> (r matches Ok(v) && strictly_sorted(views(v@))
                && view_set(v@) == model_extensions(m.extensions)),
            self.data() is None ==> r is Err,
    {
        match &self.data {
            Some(m) => Ok(extract_extensions(&m.extensions)),
            None => Err(Self::not_loaded()),
        }
    }

    /// Whether some geometry carries semantic surfaces.
    pub fn semantic_surfaces(&self) -> (r: Result<bool>)
        ensures
            self.data() matches Some(m) ==> r == Ok::<bool, CityJsonStacError>(
                objects_semantics(m.city_objects@),
            ),
            self.data() is None ==> r is Err,
    {
        match &self.data {
            Some(m) => Ok(any_semantics(&m.city_objects)),
            None => Err(Self::not_loaded()),
        }
    }

    /// Whether the appearance declares textures.
    pub fn textures(&self) -> (r: Result<bool>)
        ensures
            self.data() matches Some(m) ==> r == Ok::<bool, CityJsonStacError>(m.has_textures),
            self.data() is None ==> r is Err,
    {
        match &self.data {
            Some(m) => Ok(m.has_textures),
            None => Err(Self::not_loaded()),
        }
    }

    /// Whether the appearance declares materials.
    pub fn materials(&self) -> (r: Result<bool>)
        ensures
            self.data() matches Some(m) ==> r == Ok::<bool, CityJsonStacError>(m.has_materials),
            self.data() is None ==> r is Err,
    {
        match &self.data {
            Some(m) => Ok(m.has_materials),
            None => Err(Self::not_loaded()),
        }
    }
}

/// Aggregated metadata computed from all features of a CityJSONSeq file
pub struct AggregatedMetadata {
    /// All unique LODs across all features, sorted.
    pub lods: Vec<String>,
    /// All unique city object types (excluding extension types starting with '+'), sorted.
    pub city_object_types: Vec<String>,
    /// Total count of city objects across all features
    pub city_object_count: usize,
    /// All attributes found across features
    pub attributes: AttributeSchema,
    /// Whether any feature has semantic surfaces
    pub has_semantic_surfaces: bool,
    /// Whether any feature has textures
    pub has_textures: bool,
    /// Whether any feature has materials
    pub has_materials: bool,
}

impl AggregatedMetadata {
    /// The internal invariant.
    pub open spec fn wf(&self) -> bool {
        &&& strictly_sorted(views(self.lods@))
        &&& strictly_sorted(views(self.city_object_types@))
        &&& self.attributes.wf()
    }

    /// Nothing aggregated yet.
    pub fn new() -> (r: Self)
        ensures
            r.wf(),
            view_set(r.lods@) == Set::<Seq<char>>::empty(),
            view_set(r.city_object_types@) == Set::<Seq<char>>::empty(),
            r.city_object_count == 0,
            r.attributes.schema() == Map::<Seq<char>, crate::attributes::AttributeType>::empty(),
            !r.has_semantic_surfaces,
            !r.has_textures,
            !r.has_materials,
    {
        let r = AggregatedMetadata {
            lods: Vec::new(),
            city_object_types: Vec::new(),
            city_object_count: 0,
            attributes: AttributeSchema::new(),
            has_semantic_surfaces: false,
            has_textures: false,
            has_materials: false,
        };
        assert(view_set(r.lods@) =~= Set::<Seq<char>>::empty());
        assert(view_set(r.city_object_types@) =~= Set::<Seq<char>>::empty());
        r
    }

    /// Process a single feature and update aggregated statistics
    pub fn process_feature(&mut self, feature: &CityFeature)
        requires
            old(self).wf(),
            old(self).city_object_count + feature.city_objects@.len() <= usize::MAX,
        ensures
            final(self).wf(),
            view_set(final(self).lods@) == view_set(old(self).lods@).union(
                objects_lods(feature.city_objects@),
            ),
            view_set(final(self).city_object_types@) == view_set(
                old(self).city_object_types@,
            ).union(objects_types(feature.city_objects@)),
            final(self).city_object_count == old(self).city_object_count
                + feature.city_objects@.len(),
            final(self).attributes.schema() == schema_after(
                old(self).attributes.schema(),
                objects_observations(feature.city_objects@),
            ),
            final(self).has_semantic_surfaces == (old(self).has_semantic_surfaces
                || objects_semantics(feature.city_objects@)),
            final(self).has_textures == (old(self).has_textures || feature.has_textures),
            final(self).has_materials == (old(self).has_materials || feature.has_materials),
    {
        add_types(&mut self.city_object_types, &feature.city_objects);
        add_lods(&mut self.lods, &feature.city_objects);
        if any_semantics(&feature.city_objects) {
            self.has_semantic_surfaces = true;
        }
        add_attributes(&mut self.attributes, &feature.city_objects);
        self.city_object_count = self.city_object_count + feature.city_objects.len();
        if feature.has_textures {
            self.has_textures = true;
        }
        if feature.has_materials {
            self.has_materials = true;
        }
    }
}

/// Reader for CityJSON Text Sequences format files (.city.jsonl, .jsonl, .cjseq)
///
/// The header (first line) gives the version, reference system and
/// extensions; the features that follow are aggregated one by one.
pub struct CityJSONSeqReader {
    file_path: String,
    metadata_header: CityModel,
    aggregated: AggregatedMetadata,
}

impl CityJSONSeqReader {
    /// The path of the file this reader reads.
    pub closed spec fn path(&self) -> Seq<char> {
        self.file_path@
    }

    /// The parsed header line.
    pub closed spec fn header(&self) -> CityModel {
        self.metadata_header
    }

    /// The aggregate of the features seen so far.
    pub closed spec fn aggregate(&self) -> AggregatedMetadata {
        self.aggregated
    }

    /// The internal invariant.
    pub closed spec fn wf(&self) -> bool {
        self.aggregated.wf()
    }

    /// Checks that the file of a reader exists.
    pub fn check_exists(file_path: &str, exists: bool) -> (r: Result<()>)
        ensures
            exists ==> r is Ok,
            !exists ==> (r matches Err(CityJsonStacError::IoError(m)) && m@ == not_found_message(
                file_path@,
            )),
    {
        if !exists {
            return Err(CityJsonStacError::IoError(concat("File not found: ", file_path)));
        }
        Ok(())
    }

    /// The error of a sequence without a header line.
    pub fn empty_error() -> (e: CityJsonStacError)
        ensures
            e matches CityJsonStacError::Other(m) && m@ == "Empty CityJSONSeq file"@,
    {
        CityJsonStacError::Other("Empty CityJSONSeq file".to_owned())
    }

    /// A reader with the parsed header and no features yet.
    pub fn from_header(header: CityModel, file_path: &str) -> (r: Self)
        ensures
            r.wf(),
            r.path() == file_path@,
            r.header() == header,
            view_set(r.aggregate().lods@) == Set::<Seq<char>>::empty(),
            view_set(r.aggregate().city_object_types@) == Set::<Seq<char>>::empty(),
            r.aggregate().city_object_count == 0,
            r.aggregate().attributes.schema() == Map::<
                Seq<char>,
                crate::attributes::AttributeType,
            >::empty(),
            !r.aggregate().has_semantic_surfaces,
            !r.aggregate().has_textures,
            !r.aggregate().has_materials,
    {
        CityJSONSeqReader {
            file_path: file_path.to_owned(),
            metadata_header: header,
            aggregated: AggregatedMetadata::new(),
        }
    }

    /// Adds a feature line to the aggregate.
    pub fn process_feature(&mut self, feature: &CityFeature)
        requires
            old(self).wf(),
            old(self).aggregate().city_object_count + feature.city_objects@.len() <= usize::MAX,
        ensures
            final(self).wf(),
            final(self).path() == old(self).path(),
            final(self).header() == old(self).header(),
            view_set(final(self).aggregate().lods@) == view_set(old(self).aggregate().lods@).union(
                objects_lods(feature.city_objects@),
            ),
            view_set(final(self).aggregate().city_object_types@) == view_set(
                old(self).aggregate().city_object_types@,
            ).union(objects_types(feature.city_objects@)),
            final(self).aggregate().city_object_count == old(self).aggregate().city_object_count
                + feature.city_objects@.len(),
            final(self).aggregate().attributes.schema() == schema_after(
                old(self).aggregate().attributes.schema(),
                objects_observations(feature.city_objects@),
            ),
            final(self).aggregate().has_semantic_surfaces == (
            old(self).aggregate().has_semantic_surfaces || objects_semantics(
                feature.city_objects@,
            )),
            final(self).aggregate().has_textures == (old(self).aggregate().has_textures
                || feature.has_textures),
            final(self).aggregate().has_materials == (old(self).aggregate().has_materials
                || feature.has_materials),
    {
        self.aggregated.process_feature(feature);
    }

    /// The path of the file.
    pub fn file_path(&self) -> (r: &str)
        ensures
            r@ == self.path(),
    {
        self.file_path.as_str()
    }

    /// The encoding name.
    pub fn encoding(&self) -> (r: &'static str)
        ensures
            r@ == "CityJSONSeq"@,
    {
        "CityJSONSeq"
    }

    /// CityJSONSeq is a streaming format.
    pub fn streamable(&self) -> (r: bool)
        ensures
            r,
    {
        true
    }

    /// The version of the header.
    pub fn version(&self) -> (r: String)
        ensures
            r@ == self.header().version@,
    {
        copy_string(&self.metadata_header.version)
    }

    /// The coordinate reference system of the header.
    pub fn crs(&self) -> (r: CRS)
        ensures
            r@ == reference_system_crs(self.header().reference_system),
    {
        crs_from_reference_system(&self.metadata_header.reference_system)
    }

    /// The levels of detail of all features, sorted.
    pub fn lods(&self) -> (r: Vec<String>)
        ensures
            views(r@) == views(self.aggregate().lods@),
    {
        copy_strings(&self.aggregated.lods)
    }

    /// The city object types of all features, sorted.
    pub fn city_object_types(&self) -> (r: Vec<String>)
        ensures
            views(r@) == views(self.aggregate().city_object_types@),
    {
        copy_strings(&self.aggregated.city_object_types)
    }

    /// The number of city objects of all features.
    pub fn city_object_count(&self) -> (r: usize)
        ensures
            r == self.aggregate().city_object_count,
    {
        self.aggregated.city_object_count
    }

    /// The attribute definitions of all features, sorted by name.
    pub fn attributes(&self) -> (r: Vec<AttributeDefinition>)
        requires
            self.wf(),
        ensures
            plain_sorted_definitions(r@),
            definitions_map(r@) == self.aggregate().attributes.schema(),
    {
        self.aggregated.attributes.definitions_copy()
    }

    /// The extension URLs of the header, sorted.
    pub fn extensions(&self) -> (r: Vec<String>)
        ensures
            strictly_sorted(views(r@)),
            view_set(r@) == model_extensions(self.header().extensions),
    {
        extract_extensions(&self.metadata_header.extensions)
    }

    /// Whether some feature has semantic surfaces.
    pub fn semantic_surfaces(&self) -> (r: bool)
        ensures
            r == self.aggregate().has_semantic_surfaces,
    {
        self.aggregated.has_semantic_surfaces
    }

    /// Whether some feature has textures.
    pub fn textures(&self) -> (r: bool)
        ensures
            r == self.aggregate().has_textures,
    {
        self.aggregated.has_textures
    }

    /// Whether some feature has materials.
    pub fn materials(&self) -> (r: bool)
        ensures
            r == self.aggregate().has_materials,
    {
        self.aggregated.has_materials
    }
}

/// The levels of detail of a sequence of features.
pub open spec fn features_lods(fs: Seq<CityFeature>) -> Set<Seq<char>>
    decreases fs.len(),
{
    if fs.len() == 0 {
        Set::empty()
    } else {
        features_lods(fs.drop_last()).union(objects_lods(fs.last().city_objects@))
    }
}

/// The city object types of a sequence of features.
pub open spec fn features_types(fs: Seq<CityFeature>) -> Set<Seq<char>>
    decreases fs.len(),
{
    if fs.len() == 0 {
        Set::empty()
    } else {
        features_types(fs.drop_last()).union(objects_types(fs.last().city_objects@))
    }
}

/// The number of city objects of a sequence of features.
pub open spec fn features_count(fs: Seq<CityFeature>) -> int
    decreases fs.len(),
{
    if fs.len() == 0 {
        0
    } else {
        features_count(fs.drop_last()) + fs.last().city_objects@.len()
    }
}

/// The attribute observations of a sequence of features, in order.
pub open spec fn features_observations(fs: Seq<CityFeature>) -> Seq<(Seq<char>, crate::attributes::JsonKind)>
    decreases fs.len(),
{
    if fs.len() == 0 {
        seq![]
    } else {
        features_observations(fs.drop_last()) + objects_observations(fs.last().city_objects@)
    }
}

/// Whether some feature of a sequence has semantic surfaces.
pub open spec fn features_semantics(fs: Seq<CityFeature>) -> bool {
    exists|i: int| 0 <= i < fs.len() && objects_semantics(#[trigger] fs[i].city_objects@)
}

/// Whether some feature of a sequence declares textures.
pub open spec fn features_textures(fs: Seq<CityFeature>) -> bool {
    exists|i: int| 0 <= i < fs.len() && (#[trigger] fs[i]).has_textures
}

/// Whether some feature of a sequence declares materials.
pub open spec fn features_materials(fs: Seq<CityFeature>) -> bool {
    exists|i: int| 0 <= i < fs.len() && (#[trigger] fs[i]).has_materials
}

proof fn lemma_features_count_prefix(fs: Seq<CityFeature>, i: int)
    requires
        0 <= i <= fs.len(),
    ensures
        features_count(fs.take(i)) <= features_count(fs),
        features_count(fs) >= 0,
    decreases fs.len(),
{
    if fs.len() > 0 {
        let j = if i == fs.len() { i - 1 } else { i };
        lemma_features_count_prefix(fs.drop_last(), j);
        if i < fs.len() {
            assert(fs.drop_last().take(i) =~= fs.take(i));
        } else {
            assert(fs.take(i) =~= fs);
        }
    } else {
        assert(fs.take(i) =~= fs);
    }
}

impl CityJSONSeqReader {
    /// A reader of a whole sequence: its header line (`None` for an empty
    /// sequence) and its features, aggregated in order.
    pub fn from_parsed(header: Option<CityModel>, features: &Vec<CityFeature>, file_path: &str) -> (r: Result<Self>)
        requires
            features_count(features@) <= usize::MAX,
        ensures
            header is None ==> (r matches Err(CityJsonStacError::Other(m)) && m@ == "Empty CityJSONSeq file"@),
            header matches Some(h) ==> (r matches Ok(reader) && {
                &&& reader.wf()
                &&& reader.path() == file_path@
                &&& reader.header() == h
                &&& view_set(reader.aggregate().lods@) == features_lods(features@)
                &&& view_set(reader.aggregate().city_object_types@) == features_types(features@)
                &&& reader.aggregate().city_object_count == features_count(features@)
                &&& reader.aggregate().attributes.schema() == schema_of(features_observations(features@))
                &&& reader.aggregate().has_semantic_surfaces == features_semantics(features@)
                &&& reader.aggregate().has_textures == features_textures(features@)
                &&& reader.aggregate().has_materials == features_materials(features@)
            }),
    {
        let h = match header {
            Some(h) => h,
            None => return Err(Self::empty_error()),
        };
        let mut reader = Self::from_header(h, file_path);
        let ghost fs = features@;
        let mut i: usize = 0;
        proof {
            assert(fs.take(0) =~= Seq::<CityFeature>::empty());
            assert(features_lods(fs.take(0)) =~= view_set(reader.aggregate().lods@));
            assert(features_types(fs.take(0)) =~= view_set(reader.aggregate().city_object_types@));
        }
        while i < features.len()
            invariant
                i <= features.len(),
                fs == features@,
                features_count(fs) <= usize::MAX,
                reader.wf(),
                reader.path() == file_path@,
                reader.header() == h,
                view_set(reader.aggregate().lods@) == features_lods(fs.take(i as int)),
                view_set(reader.aggregate().city_object_types@) == features_types(fs.take(i as int)),
                reader.aggregate().city_object_count == features_count(fs.take(i as int)),
                reader.aggregate().attributes.schema() == schema_of(features_observations(fs.take(i as int))),
                reader.aggregate().has_semantic_surfaces == features_semantics(fs.take(i as int)),
                reader.aggregate().has_textures == features_textures(fs.take(i as int)),
                reader.aggregate().has_materials == features_materials(fs.take(i as int)),
            decreases features.len() - i,
        {
            let ghost pre = fs.take(i + 1);
            proof {
                assert(pre.drop_last() =~= fs.take(i as int));
                assert(pre.last() == fs[i as int]);
                lemma_features_count_prefix(fs, i + 1);
                lemma_features_count_prefix(pre, 0);
                crate::model::lemma_schema_after_concat(
                    Map::empty(),
                    features_observations(fs.take(i as int)),
                    objects_observations(fs[i as int].city_objects@),
                );
            }
            reader.process_feature(&features[i]);
            proof {
                assert(features_semantics(pre) == (features_semantics(fs.take(i as int)) || objects_semantics(fs[i as int].city_objects@))) by {
                    if features_semantics(pre) {
                        let k = choose|k: int| 0 <= k < pre.len() && objects_semantics(#[trigger] pre[k].city_objects@);
                        if k < i {
                            assert(fs.take(i as int)[k] == pre[k]);
                        }
                    }
                    if features_semantics(fs.take(i as int)) {
                        let k = choose|k: int| 0 <= k < i && objects_semantics(#[trigger] fs.take(i as int)[k].city_objects@);
                        assert(pre[k] == fs.take(i as int)[k]);
                    }
                    if objects_semantics(fs[i as int].city_objects@) {
                        assert(pre[i as int] == fs[i as int]);
                    }
                }
                assert(features_textures(pre) == (features_textures(fs.take(i as int)) || fs[i as int].has_textures)) by {
                    if features_textures(pre) {
                        let k = choose|k: int| 0 <= k < pre.len() && (#[trigger] pre[k]).has_textures;
                        if k < i {
                            assert(fs.take(i as int)[k] == pre[k]);
                        }
                    }
                    if features_textures(fs.take(i as int)) {
                        let k = choose|k: int| 0 <= k < i && (#[trigger] fs.take(i as int)[k]).has_textures;
                        assert(pre[k] == fs.take(i as int)[k]);
                    }
                    if fs[i as int].has_textures {
                        assert(pre[i as int] == fs[i as int]);
                    }
                }
                assert(features_materials(pre) == (features_materials(fs.take(i as int)) || fs[i as int].has_materials)) by {
                    if features_materials(pre) {
                        let k = choose|k: int| 0 <= k < pre.len() && (#[trigger] pre[k]).has_materials;
                        if k < i {
                            assert(fs.take(i as int)[k] == pre[k]);
                        }
                    }
                    if features_materials(fs.take(i as int)) {
                        let k = choose|k: int| 0 <= k < i && (#[trigger] fs.take(i as int)[k]).has_materials;
                        assert(pre[k] == fs.take(i as int)[k]);
                    }
                    if fs[i as int].has_materials {
                        assert(pre[i as int] == fs[i as int]);
                    }
                }
            }
            i = i + 1;
        }
        assert(fs.take(features.len() as int) =~= fs);
        Ok(reader)
    }

    /// Create a CityJSONSeq reader from the text of a whole sequence (remote
    /// files are read as text): its first line is the header, every later
    /// non-blank line a CityJSONFeature, each parsed with `cjseq` and
    /// aggregated in order. Empty text, a refused header line and a refused
    /// feature line are errors; so are more city objects than `usize` counts.
    pub fn from_content(content: &str, file_path: &str) -> (r: Result<Self>)
        ensures
            lines(content@).len() == 0 ==> (r matches Err(CityJsonStacError::Other(m)) && m@
                == "Empty CityJSONSeq content"@),
            lines(content@).len() > 0 && read_document(lines(content@)[0]) is None ==> (r matches Err(
                CityJsonStacError::Other(_),
            )),
            lines(content@).len() > 0 && !all_features_parse(feature_lines(lines(content@))) ==> r is Err,
            lines(content@).len() > 0 && read_document(lines(content@)[0]) is Some && all_features_parse(
                feature_lines(lines(content@)),
            ) && lines_object_count(feature_lines(lines(content@))) <= usize::MAX ==> r is Ok,
            r matches Ok(rd) ==> exists|h: CityModel, fs: Seq<CityFeature>|
                read_document(lines(content@)[0]) == Some(model_facts(h)) && decoded_as(
                    fs,
                    feature_lines(lines(content@)),
                ) && #[trigger] reads_sequence(rd, h, fs, file_path@),
    {
        let ls = split_lines(content);
        let ghost all = views(ls@);
        if ls.len() == 0 {
            return Err(CityJsonStacError::Other(crate::stac::owned("Empty CityJSONSeq content")));
        }
        assert(all[0] == ls@[0]@);
        let header = match parse_cityjson(ls[0].as_str()) {
            Ok(h) => h,
            Err(e) => return Err(CityJsonStacError::Other(e)),
        };
        let ghost h = header;
        let mut features: Vec<CityFeature> = Vec::new();
        let mut total: usize = 0;
        let mut i: usize = 1;
        assert(feature_lines(all.take(1)) =~= Seq::<Seq<char>>::empty());
        while i < ls.len()
            invariant
                1 <= i <= ls.len(),
                all == views(ls@),
                all == lines(content@),
                all.len() > 0,
                decoded_as(features@, feature_lines(all.take(i as int))),
                all_features_parse(feature_lines(all.take(i as int))),
                total as int == features_count(features@),
                total as int == lines_object_count(feature_lines(all.take(i as int))),
            decreases ls.len() - i,
        {
            let line = ls[i].as_str();
            let ghost fl = feature_lines(all.take(i as int));
            let ghost fl2 = feature_lines(all.take(i + 1));
            proof {
                assert(all[i as int] == line@);
                assert(all.take(i + 1).drop_last() =~= all.take(i as int));
                assert(all.take(i + 1).last() == all[i as int]);
            }
            let cs = chars_of(line);
            let (lo, hi) = trim_bounds(&cs);
            if lo != hi {
                assert(fl2 == fl.push(line@));
                match parse_city_feature(line) {
                    Ok(f) => {
                        let n = f.city_objects.len();
                        proof {
                            lemma_objects_multiset_len(f.city_objects@);
                            assert(fl2.drop_last() =~= fl);
                            assert(fl2.last() == line@);
                        }
                        if total > usize::MAX - n {
                            proof {
                                lemma_lines_count_prefix(all, i + 1);
                            }
                            return Err(CityJsonStacError::Other(crate::stac::owned("Too many city objects")));
                        }
                        let ghost before = features@;
                        total = total + n;
                        features.push(f);
                        proof {
                            assert(features@.drop_last() =~= before);
                            assert forall|k: int| 0 <= k < fl2.len() implies cityjson_feature_text(fl2[k])
                                == Some(feature_facts(#[trigger] features@[k])) by {
                                if k < fl.len() {
                                    assert(fl2[k] == fl[k]);
                                    assert(features@[k] == before[k]);
                                }
                            }
                            assert forall|k: int| 0 <= k < fl2.len() implies (#[trigger] cityjson_feature_text(
                                fl2[k],
                            )) is Some by {
                                if k < fl.len() {
                                    assert(fl2[k] == fl[k]);
                                }
                            }
                        }
                    },
                    Err(e) => {
                        proof {
                            assert(fl2[fl.len() as int] == line@);
                            lemma_lines_parse_prefix(all, i + 1);
                        }
                        return Err(
                            CityJsonStacError::Other(concat("Failed to parse CityJSONFeature: ", e.as_str())),
                        );
                    },
                }
            } else {
                assert(fl2 == fl);
            }
            i = i + 1;
        }
        assert(all.take(ls.len() as int) =~= all);
        let r = Self::from_parsed(Some(header), &features, file_path);
        proof {
            if r is Ok {
                assert(reads_sequence(r->Ok_0, h, features@, file_path@));
            }
        }
        r
    }
}

/// The feature lines of a sequence: the non-blank lines after the header
/// line, as written.
pub open spec fn feature_lines(ls: Seq<Seq<char>>) -> Seq<Seq<char>>
    decreases ls.len(),
{
    if ls.len() <= 1 {
        seq![]
    } else {
        let rest = feature_lines(ls.drop_last());
        if trim(ls.last()).len() == 0 {
            rest
        } else {
            rest.push(ls.last())
        }
    }
}

/// Whether `cjseq` parses every feature line.
pub open spec fn all_features_parse(fl: Seq<Seq<char>>) -> bool {
    forall|k: int| 0 <= k < fl.len() ==> (#[trigger] cityjson_feature_text(fl[k])) is Some
}

/// The number of city objects the parsed feature lines hold.
pub open spec fn lines_object_count(fl: Seq<Seq<char>>) -> int
    decreases fl.len(),
{
    if fl.len() == 0 {
        0
    } else {
        lines_object_count(fl.drop_last()) + match cityjson_feature_text(fl.last()) {
            Some(f) => f.city_objects.len() as int,
            None => 0,
        }
    }
}

/// The features `fs` are what `cjseq` decodes from the lines `fl`, in order.
pub open spec fn decoded_as(fs: Seq<CityFeature>, fl: Seq<Seq<char>>) -> bool {
    &&& fs.len() == fl.len()
    &&& forall|k: int| 0 <= k < fl.len() ==> cityjson_feature_text(fl[k]) == Some(feature_facts(#[trigger] fs[k]))
}

/// A sequence reader of file `path` holds header `h` and the aggregate of
/// the features `fs`, taken in order.
pub open spec fn reads_sequence(rd: CityJSONSeqReader, h: CityModel, fs: Seq<CityFeature>, path: Seq<char>) -> bool {
    &&& rd.wf()
    &&& rd.path() == path
    &&& rd.header() == h
    &&& view_set(rd.aggregate().lods@) == features_lods(fs)
    &&& view_set(rd.aggregate().city_object_types@) == features_types(fs)
    &&& rd.aggregate().city_object_count == features_count(fs)
    &&& rd.aggregate().attributes.schema() == schema_of(features_observations(fs))
    &&& rd.aggregate().has_semantic_surfaces == features_semantics(fs)
    &&& rd.aggregate().has_textures == features_textures(fs)
    &&& rd.aggregate().has_materials == features_materials(fs)
}

/// A list of city objects and its multiset have the same size.
proof fn lemma_objects_multiset_len(objs: Seq<CityObjectInfo>)
    ensures
        objects_multiset(objs).len() == objs.len(),
{
    vstd::seq_lib::to_multiset_len(objs.map_values(|o: CityObjectInfo| object_view(o)));
}

/// The objects of the feature lines of a prefix of the lines are no more
/// than those of all lines.
proof fn lemma_lines_count_prefix(ls: Seq<Seq<char>>, j: int)
    requires
        0 <= j <= ls.len(),
    ensures
        lines_object_count(feature_lines(ls.take(j))) <= lines_object_count(feature_lines(ls)),
    decreases ls.len(),
{
    if j == ls.len() {
        assert(ls.take(j) =~= ls);
    } else {
        assert(ls.take(j) =~= ls.drop_last().take(j));
        lemma_lines_count_prefix(ls.drop_last(), j);
        if ls.len() > 1 && trim(ls.last()).len() != 0 {
            let fl = feature_lines(ls);
            assert(fl.drop_last() =~= feature_lines(ls.drop_last()));
        }
    }
}

/// A feature line of a prefix of the lines is a feature line of all lines:
/// if one of the prefix's does not parse, not all parse.
proof fn lemma_lines_parse_prefix(ls: Seq<Seq<char>>, j: int)
    requires
        0 <= j <= ls.len(),
    ensures
        !all_features_parse(feature_lines(ls.take(j))) ==> !all_features_parse(feature_lines(ls)),
    decreases ls.len(),
{
    if j == ls.len() {
        assert(ls.take(j) =~= ls);
    } else {
        assert(ls.take(j) =~= ls.drop_last().take(j));
        lemma_lines_parse_prefix(ls.drop_last(), j);
        let fl = feature_lines(ls);
        let fd = feature_lines(ls.drop_last());
        if !all_features_parse(fd) {
            let k = choose|k: int| 0 <= k < fd.len() && (#[trigger] cityjson_feature_text(fd[k])) is None;
            if ls.len() > 1 && trim(ls.last()).len() != 0 {
                assert(fl[k] == fd[k]);
            } else {
                assert(fl == fd);
            }
        }
    }
}

} // verus!
