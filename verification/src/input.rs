//! Inputs: local paths and remote URLs, the reader an input needs, and the
//! normalisations applied to non-conforming CityJSON text.
use vstd::prelude::*;

use crate::error::{CityJsonStacError, Result, concat};
use crate::reader::{to_lowercase, unicode_lowercase};
use crate::text::{
    chars_of, contains_seq, contains_str, decimal, decimal_string, push_char, push_str,
    starts_with, starts_with_str, str_eq, string_from_chars,
};

verus! {

/// The extension of a path (`Path::extension`), as text.
pub uninterp spec fn path_extension_of(path: Seq<char>) -> Option<Seq<char>>;

/// The final component of a path (`Path::file_name`), as text.
pub uninterp spec fn path_file_name_of(path: Seq<char>) -> Option<Seq<char>>;

/// Calls `Path::extension` on a path given as text. Its result is named by
/// `path_extension_of`; the component rules of `std::path` are left to that
/// name.
#[verifier::external_body]
pub(crate) fn path_extension(path: &str) -> (r: Option<String>)
    ensures
        crate::crs::opt_view(r) == path_extension_of(path@),
{
    std::path::Path::new(path).extension().map(|e| e.to_string_lossy().into_owned())
}

/// Calls `Path::file_name` on a path given as text. Its result is named by
/// `path_file_name_of`.
#[verifier::external_body]
pub(crate) fn path_file_name(path: &str) -> (r: Option<String>)
    ensures
        crate::crs::opt_view(r) == path_file_name_of(path@),
{
    std::path::Path::new(path).file_name().map(|e| e.to_string_lossy().into_owned())
}

/// The URL schemes that name remote inputs.
pub open spec fn is_remote_url_spec(s: Seq<char>) -> bool {
    ||| starts_with(s, "http://"@)
    ||| starts_with(s, "https://"@)
    ||| starts_with(s, "s3://"@)
    ||| starts_with(s, "az://"@)
    ||| starts_with(s, "azure://"@)
    ||| starts_with(s, "gs://"@)
}

/// Whether an input names remote storage (HTTP(S), S3, Azure or GCS).
pub fn is_remote_url(input: &str) -> (r: bool)
    ensures
        r == is_remote_url_spec(input@),
{
    starts_with_str(input, "http://") || starts_with_str(input, "https://") || starts_with_str(
        input,
        "s3://",
    ) || starts_with_str(input, "az://") || starts_with_str(input, "azure://") || starts_with_str(
        input,
        "gs://",
    )
}

/// Input source for CityJSON data: a local file path or a remote URL.
#[derive(Debug, Clone)]
pub enum InputSource {
    /// Local file path
    Local(String),
    /// Remote URL (http://, https://, s3://, az://, gs://, etc.)
    Remote(String),
}

impl InputSource {
    /// Parse input string into InputSource
    pub fn from_str_input(input: &str) -> (r: Result<Self>)
        ensures
            is_remote_url_spec(input@) ==> (r matches Ok(InputSource::Remote(u)) && u@ == input@),
            !is_remote_url_spec(input@) ==> (r matches Ok(InputSource::Local(p)) && p@ == input@),
    {
        if is_remote_url(input) {
            Ok(InputSource::Remote(input.to_owned()))
        } else {
            Ok(InputSource::Local(input.to_owned()))
        }
    }
}

/// The reader that an input needs.
#[derive(Debug, Clone, Copy, PartialEq, Eq, Structural)]
pub enum ReaderKind {
    CityJSON,
    CityJSONSeq,
    CityGML,
    FlatCityBuf,
    Zip,
    Gzip,
}

/// The reader of a local file with the given (lower-case) extension.
pub open spec fn local_kind(ext: Seq<char>) -> Option<ReaderKind> {
    if ext == "gz"@ {
        Some(ReaderKind::Gzip)
    } else if ext == "zip"@ {
        Some(ReaderKind::Zip)
    } else if ext == "json"@ {
        Some(ReaderKind::CityJSON)
    } else if ext == "jsonl"@ {
        Some(ReaderKind::CityJSONSeq)
    } else if ext == "fcb"@ {
        Some(ReaderKind::FlatCityBuf)
    } else if ext == "gml"@ || ext == "xml"@ {
        Some(ReaderKind::CityGML)
    } else {
        None
    }
}

/// The reader of a remote file with the given extension.
pub open spec fn remote_kind(ext: Seq<char>) -> Option<ReaderKind> {
    if ext == "json"@ {
        Some(ReaderKind::CityJSON)
    } else if ext == "jsonl"@ || ext == "cjseq"@ {
        Some(ReaderKind::CityJSONSeq)
    } else if ext == "gml"@ || ext == "xml"@ {
        Some(ReaderKind::CityGML)
    } else if ext == "zip"@ {
        Some(ReaderKind::Zip)
    } else if ext == "gz"@ {
        Some(ReaderKind::Gzip)
    } else {
        None
    }
}

/// A local file and a remote file with the same extension get the same
/// reader, for every extension both accept (`cjseq` is accepted for remote
/// files only); in particular the line-delimited `jsonl` files, and only
/// they, get the CityJSON Text Sequence reader locally.
pub proof fn law_local_and_remote_kinds_agree(ext: Seq<char>)
    ensures
        local_kind(ext) is Some && remote_kind(ext) is Some ==> local_kind(ext) == remote_kind(ext),
        remote_kind(ext) is Some && ext != "cjseq"@ ==> local_kind(ext) == remote_kind(ext),
        local_kind(ext) == Some(ReaderKind::CityJSONSeq) <==> ext == "jsonl"@,
        remote_kind(ext) == Some(ReaderKind::CityJSONSeq) <==> (ext == "jsonl"@ || ext == "cjseq"@),
{
    reveal_strlit("gz");
    reveal_strlit("zip");
    reveal_strlit("json");
    reveal_strlit("jsonl");
    reveal_strlit("cjseq");
    reveal_strlit("fcb");
    reveal_strlit("gml");
    reveal_strlit("xml");
    assert("zip"@[0] != "fcb"@[0] && "zip"@[0] != "gml"@[0] && "zip"@[0] != "xml"@[0]);
    assert("fcb"@[0] != "gml"@[0] && "fcb"@[0] != "xml"@[0] && "gml"@[0] != "xml"@[0]);
    assert("jsonl"@[0] != "cjseq"@[0]);
    assert("json"@.len() == 4 && "jsonl"@.len() == 5 && "gz"@.len() == 2);
    if ext == "gz"@ {
    } else if ext == "zip"@ {
    } else if ext == "json"@ {
    } else if ext == "jsonl"@ {
    } else if ext == "cjseq"@ {
    } else if ext == "fcb"@ {
    } else if ext == "gml"@ {
    } else if ext == "xml"@ {
    } else {
        assert(local_kind(ext) is None);
        assert(remote_kind(ext) is None);
    }
}

/// The reader of a local file, chosen by its extension (case-insensitive).
/// `gml` and `xml` files still have to be confirmed as CityGML
/// ([`confirm_citygml`]).
pub fn reader_kind(path: &str) -> (r: Result<ReaderKind>)
    ensures
        path_extension_of(path@) is None ==> (r matches Err(CityJsonStacError::InvalidCityJson(m))
            && m@ == "No file extension"@),
        path_extension_of(path@) matches Some(e) ==> {
            let lower = unicode_lowercase(e);
            match local_kind(lower) {
                Some(k) => r == Ok::<ReaderKind, CityJsonStacError>(k),
                None => r matches Err(CityJsonStacError::InvalidCityJson(m)) && m@
                    == "Unsupported file extension: "@ + lower,
            }
        },
{
    let ext = match path_extension(path) {
        Some(e) => e,
        None => {
            return Err(CityJsonStacError::InvalidCityJson("No file extension".to_owned()));
        },
    };
    let lower = to_lowercase(ext.as_str());
    let l = lower.as_str();
    if str_eq(l, "gz") {
        Ok(ReaderKind::Gzip)
    } else if str_eq(l, "zip") {
        Ok(ReaderKind::Zip)
    } else if str_eq(l, "json") {
        Ok(ReaderKind::CityJSON)
    } else if str_eq(l, "jsonl") {
        Ok(ReaderKind::CityJSONSeq)
    } else if str_eq(l, "fcb") {
        Ok(ReaderKind::FlatCityBuf)
    } else if str_eq(l, "gml") || str_eq(l, "xml") {
        Ok(ReaderKind::CityGML)
    } else {
        Err(CityJsonStacError::InvalidCityJson(concat("Unsupported file extension: ", l)))
    }
}

/// A `gml`/`xml` file is read as CityGML only when it looks like CityGML.
pub fn confirm_citygml(extension: &str, looks_like_citygml: bool) -> (r: Result<()>)
    ensures
        looks_like_citygml ==> r is Ok,
        !looks_like_citygml ==> (r matches Err(CityJsonStacError::UnsupportedFormat(m)) && m@
            == "File is not a valid CityGML file: "@ + extension@),
{
    if looks_like_citygml {
        Ok(())
    } else {
        Err(
            CityJsonStacError::UnsupportedFormat(
                concat("File is not a valid CityGML file: ", extension),
            ),
        )
    }
}

/// The reader of a remote file, chosen by the extension of its URL; other
/// extensions are refused before anything is downloaded.
pub fn remote_reader_kind(extension: &str) -> (r: Result<ReaderKind>)
    ensures
        match remote_kind(extension@) {
            Some(k) => r == Ok::<ReaderKind, CityJsonStacError>(k),
            None => r matches Err(CityJsonStacError::InvalidCityJson(m)) && m@
                == "Unsupported remote file extension: "@ + extension@
                + ". Supported: .json, .jsonl, .cjseq, .gml, .xml, .zip, .gz"@,
        },
{
    if str_eq(extension, "json") {
        Ok(ReaderKind::CityJSON)
    } else if str_eq(extension, "jsonl") || str_eq(extension, "cjseq") {
        Ok(ReaderKind::CityJSONSeq)
    } else if str_eq(extension, "gml") || str_eq(extension, "xml") {
        Ok(ReaderKind::CityGML)
    } else if str_eq(extension, "zip") {
        Ok(ReaderKind::Zip)
    } else if str_eq(extension, "gz") {
        Ok(ReaderKind::Gzip)
    } else {
        let mut m = concat("Unsupported remote file extension: ", extension);
        push_str(&mut m, ". Supported: .json, .jsonl, .cjseq, .gml, .xml, .zip, .gz");
        Err(CityJsonStacError::InvalidCityJson(m))
    }
}

/// A line that marks a file as CityGML.
pub open spec fn citygml_marker(line: Seq<char>) -> bool {
    contains_seq(line, "citygml"@) || contains_seq(line, "www.opengis.net/gml"@)
}

/// Whether a file is CityGML, judged by its first lines: one of the first 20
/// lines mentions the CityGML or GML namespace.
pub fn looks_like_citygml(lines: &Vec<String>) -> (r: bool)
    ensures
        r == exists|i: int| 0 <= i < lines@.len() && i < 20 && citygml_marker(#[trigger] lines@[i]@),
{
    let mut i: usize = 0;
    while i < lines.len() && i < 20
        invariant
            i <= lines.len(),
            i <= 20,
            forall|k: int| 0 <= k < i ==> !citygml_marker(#[trigger] lines@[k]@),
        decreases lines.len() - i,
    {
        let l = lines[i].as_str();
        if contains_str(l, "citygml") || contains_str(l, "www.opengis.net/gml") {
            assert(citygml_marker(lines@[i as int]@));
            return true;
        }
        i = i + 1;
    }
    false
}

/// The media type of an encoding.
pub open spec fn media_type_of(encoding: Seq<char>) -> Seq<char> {
    if encoding == "CityJSON"@ {
        "application/city+json"@
    } else if encoding == "CityJSONSeq"@ {
        "application/city+json-seq"@
    } else if encoding == "CityGML"@ {
        "application/gml+xml"@
    } else if encoding == "FlatCityBuf"@ {
        "application/vnd.flatcitybuf"@
    } else {
        "application/octet-stream"@
    }
}

/// Map encoding name to IANA/vendor media type
pub fn encoding_media_type(encoding: &str) -> (r: &'static str)
    ensures
        r@ == media_type_of(encoding@),
{
    if str_eq(encoding, "CityJSON") {
        "application/city+json"
    } else if str_eq(encoding, "CityJSONSeq") {
        "application/city+json-seq"
    } else if str_eq(encoding, "CityGML") {
        "application/gml+xml"
    } else if str_eq(encoding, "FlatCityBuf") {
        "application/vnd.flatcitybuf"
    } else {
        "application/octet-stream"
    }
}

/// The decimal text of a signed integer, as `i64`'s `Display` writes it.
pub open spec fn signed_decimal(n: int) -> Seq<char> {
    if n < 0 {
        seq!['-'] + decimal((-n) as nat)
    } else {
        decimal(n as nat)
    }
}

/// The decimal text of a signed integer.
pub fn signed_decimal_string(n: i64) -> (r: String)
    ensures
        r@ == signed_decimal(n as int),
{
    if n < 0 {
        let m: u64 = (-(n as i128)) as u64;
        let mut s = String::new();
        push_char(&mut s, '-');
        let d = decimal_string(m);
        push_str(&mut s, d.as_str());
        assert(s@ =~= seq!['-'] + decimal((-n) as nat));
        s
    } else {
        decimal_string(n as u64)
    }
}

/// The version string that an integer `version` member stands for
/// (`1` reads as `"1.0"`).
pub fn normalize_integer_version(n: i64) -> (r: String)
    ensures
        r@ == signed_decimal(n as int) + ".0"@,
{
    let mut s = signed_decimal_string(n);
    push_str(&mut s, ".0");
    s
}

/// The parts of a URN after `urn:ogc:def:crs:`, split at the first two `:`
/// (`splitn(3, ':')`).
pub open spec fn urn_parts(rest: Seq<char>) -> Option<(Seq<char>, Seq<char>, Seq<char>)> {
    match crate::text::find_from_spec(rest, seq![':'], 0) {
        None => None,
        Some(i) => match crate::text::find_from_spec(rest, seq![':'], i + 1) {
            None => None,
            Some(j) => Some(
                (rest.subrange(0, i), rest.subrange(i + 1, j), rest.subrange(j + 1, rest.len() as int)),
            ),
        },
    }
}

/// The OGC URL that a CRS URN stands for, if the text is such a URN with a
/// code: `urn:ogc:def:crs:AUTH:VER:CODE` becomes
/// `https://www.opengis.net/def/crs/AUTH/VER/CODE`, with an empty version read as `0`.
pub open spec fn urn_to_url(urn: Seq<char>) -> Option<Seq<char>> {
    if !starts_with(urn, "urn:ogc:def:crs:"@) {
        None
    } else {
        match urn_parts(urn.skip(16)) {
            None => None,
            Some((a, v, c)) => if c.len() == 0 {
                None
            } else {
                Some(
                    "https://www.opengis.net/def/crs/"@ + a + "/"@ + (if v.len() == 0 {
                        "0"@
                    } else {
                        v
                    }) + "/"@ + c,
                )
            },
        }
    }
}

/// Convert CRS URN to OGC URL format.
///
/// - `urn:ogc:def:crs:EPSG::3414` → `https://www.opengis.net/def/crs/EPSG/0/3414`
/// - `urn:ogc:def:crs:EPSG:0:3414` → `https://www.opengis.net/def/crs/EPSG/0/3414`
///
/// Returns `None` if the input is not a recognized URN pattern.
pub fn normalize_crs_urn_to_url(urn: &str) -> (r: Option<String>)
    ensures
        crate::crs::opt_view(r) == urn_to_url(urn@),
{
    if !starts_with_str(urn, "urn:ogc:def:crs:") {
        return None;
    }
    let v = chars_of(urn);
    proof {
        reveal_strlit("urn:ogc:def:crs:");
    }
    let rest = string_from_chars(&v, 16, v.len());
    assert(rest@ =~= urn@.skip(16));
    let rv = chars_of(rest.as_str());
    let colon = chars_of(":");
    proof {
        reveal_strlit(":");
        assert(colon@ =~= seq![':']);
    }
    let i = match crate::text::find_from(&rv, &colon, 0) {
        Some(i) => i,
        None => {
            return None;
        },
    };
    let j = match crate::text::find_from(&rv, &colon, i + 1) {
        Some(j) => j,
        None => {
            return None;
        },
    };
    if j + 1 == rv.len() {
        return None;
    }
    let a = string_from_chars(&rv, 0, i);
    let ver = string_from_chars(&rv, i + 1, j);
    let c = string_from_chars(&rv, j + 1, rv.len());
    let mut s = "https://www.opengis.net/def/crs/".to_owned();
    push_str(&mut s, a.as_str());
    push_str(&mut s, "/");
    if i + 1 == j {
        push_str(&mut s, "0");
    } else {
        push_str(&mut s, ver.as_str());
    }
    push_str(&mut s, "/");
    push_str(&mut s, c.as_str());
    Some(s)
}

/// Whether a name ends in `.gz`, in any ASCII case.
pub open spec fn has_gz_suffix(name: Seq<char>) -> bool {
    name.len() >= 3 && name[name.len() - 3] == '.' && (name[name.len() - 2] == 'g' || name[name.len() - 2]
        == 'G') && (name[name.len() - 1] == 'z' || name[name.len() - 1] == 'Z')
}

/// The name of the file inside a gzip file: the file name of its path
/// (`unknown` when it has none) without a final `.gz`.
pub open spec fn gzip_inner_name(path: Seq<char>) -> Seq<char> {
    let name = match path_file_name_of(path) {
        Some(n) => n,
        None => "unknown"@,
    };
    if has_gz_suffix(name) {
        name.subrange(0, name.len() - 3)
    } else {
        name
    }
}

/// The name of the file a gzip file holds.
pub fn get_inner_filename(path: &str) -> (r: String)
    ensures
        r@ == gzip_inner_name(path@),
{
    let name = match path_file_name(path) {
        Some(n) => n,
        None => "unknown".to_owned(),
    };
    let v = chars_of(name.as_str());
    let n = v.len();
    if n >= 3 && v[n - 3] == '.' && (v[n - 2] == 'g' || v[n - 2] == 'G') && (v[n - 1] == 'z' || v[n - 1] == 'Z') {
        string_from_chars(&v, 0, n - 3)
    } else {
        name
    }
}

} // verus!
