//! Coordinate Reference System information
use vstd::prelude::*;

use crate::text::{
    all_digits, all_space, is_digit, is_space, lemma_decimal_digits, lemma_find_from_spec_hit,
    lemma_find_from_spec_miss, lemma_trim_padded, occurs_at, lemma_parse_decimal, leading_space, trailing_space,
    chars_of, chars_start_with_at, contains_seq, copy_string, decimal, decimal_string, find_from,
    find_from_spec, parse_unsigned, parse_unsigned_chars, push_str, starts_with, string_from_chars,
    trim, trim_bounds,
};

verus! {

/// Coordinate Reference System information
#[derive(Debug, Clone, PartialEq)]
pub struct CRS {
    /// EPSG code (e.g., 7415 for EPSG:7415)
    pub epsg: Option<u32>,
    /// WKT2 representation
    pub wkt2: Option<String>,
    /// PROJ.4 string
    pub proj4: Option<String>,
    /// CityJSON authority name
    pub authority: Option<String>,
    /// CityJSON identifier (usually the EPSG code as string)
    pub identifier: Option<String>,
}

/// The abstract value of a [`CRS`].
pub struct CrsView {
    pub epsg: Option<u32>,
    pub wkt2: Option<Seq<char>>,
    pub proj4: Option<Seq<char>>,
    pub authority: Option<Seq<char>>,
    pub identifier: Option<Seq<char>>,
}

/// The view of an optional string.
pub open spec fn opt_view(o: Option<String>) -> Option<Seq<char>> {
    match o {
        Some(s) => Some(s@),
        None => None,
    }
}

impl View for CRS {
    type V = CrsView;

    open spec fn view(&self) -> CrsView {
        CrsView {
            epsg: self.epsg,
            wkt2: opt_view(self.wkt2),
            proj4: opt_view(self.proj4),
            authority: opt_view(self.authority),
            identifier: opt_view(self.identifier),
        }
    }
}

/// The largest `u32`.
pub open spec fn u32_max() -> nat {
    0xffff_ffff
}

/// The CRS of an EPSG code.
pub open spec fn epsg_crs(code: u32) -> CrsView {
    CrsView {
        epsg: Some(code),
        wkt2: None,
        proj4: None,
        authority: Some("EPSG"@),
        identifier: Some(decimal(code as nat)),
    }
}

/// A CRS with no information.
pub open spec fn unknown_crs() -> CrsView {
    CrsView { epsg: None, wkt2: None, proj4: None, authority: None, identifier: None }
}

/// The text after the last occurrence of `sep` (all of `s` when there is none),
/// as `s.split(sep).next_back()` yields it.
pub open spec fn last_segment(s: Seq<char>, sep: char) -> Seq<char>
    decreases s.len(),
{
    if s.len() == 0 {
        s
    } else if s.last() == sep {
        Seq::empty()
    } else {
        last_segment(s.drop_last(), sep).push(s.last())
    }
}

/// The CRS named by a CityJSON reference-system URL: the EPSG code is the
/// last `/`-separated segment.
pub open spec fn cityjson_url_crs(url: Seq<char>) -> Option<CrsView> {
    match parse_unsigned(last_segment(url, '/'), u32_max()) {
        Some(n) => Some(epsg_crs(n as u32)),
        None => None,
    }
}

/// The piece that `s.split(pat).nth(1)` yields: the text after the first
/// occurrence of `pat`, up to the next occurrence (or the end).
pub open spec fn second_piece(s: Seq<char>, pat: Seq<char>) -> Option<Seq<char>> {
    match find_from_spec(s, pat, 0) {
        None => None,
        Some(i) => {
            let start = i + pat.len();
            match find_from_spec(s, pat, start) {
                Some(j) => Some(s.subrange(start, j)),
                None => Some(s.subrange(start, s.len() as int)),
            }
        },
    }
}

/// `,`, `:` and `/`: the separators that end an EPSG code inside a URN.
pub open spec fn is_code_sep(c: char) -> bool {
    c == ',' || c == ':' || c == '/'
}

/// The text before the first code separator.
pub open spec fn first_token(s: Seq<char>) -> Seq<char>
    decreases s.len(),
{
    if s.len() == 0 {
        s
    } else if is_code_sep(s[0]) {
        Seq::empty()
    } else {
        seq![s[0]] + first_token(s.drop_first())
    }
}

/// The EPSG code read from the piece after `EPSG::` of an OGC URN.
pub open spec fn urn_double_colon_code(s: Seq<char>) -> Option<nat> {
    match second_piece(s, "EPSG::"@) {
        Some(seg) => parse_unsigned(first_token(seg), u32_max()),
        None => None,
    }
}

/// The EPSG code read from the piece after `EPSG:` of an OGC URN, unless that
/// piece starts with a second `:`.
pub open spec fn urn_single_colon_code(s: Seq<char>) -> Option<nat> {
    match second_piece(s, "EPSG:"@) {
        Some(seg) => if starts_with(seg, ":"@) {
            None
        } else {
            parse_unsigned(first_token(seg), u32_max())
        },
        None => None,
    }
}

/// The CRS that a CityGML `srsName` names: an OGC URN (`urn:ogc:def:crs,crs:EPSG::31256`
/// or `urn:ogc:def:crs:EPSG::31256`), a plain `EPSG:31256`, or an OGC URL.
pub open spec fn srs_name_crs(input: Seq<char>) -> Option<CrsView> {
    let s = trim(input);
    let urn = starts_with(s, "urn:ogc:def:crs"@);
    if urn && urn_double_colon_code(s) is Some {
        Some(epsg_crs(urn_double_colon_code(s).unwrap() as u32))
    } else if urn && urn_single_colon_code(s) is Some {
        Some(epsg_crs(urn_single_colon_code(s).unwrap() as u32))
    } else if starts_with(s, "EPSG:"@) && parse_unsigned(s.skip(5), u32_max()) is Some {
        Some(epsg_crs(parse_unsigned(s.skip(5), u32_max()).unwrap() as u32))
    } else if contains_seq(s, "opengis.net/def/crs"@) || contains_seq(s, "opengis.net/gml/srs"@) {
        cityjson_url_crs(s)
    } else {
        None
    }
}

/// The view of an optional CRS.
pub open spec fn opt_crs_view(o: Option<CRS>) -> Option<CrsView> {
    match o {
        Some(c) => Some(c@),
        None => None,
    }
}

/// A string made of a literal.
fn owned(s: &str) -> (r: String)
    ensures
        r@ == s@,
{
    s.to_owned()
}

/// The position just after the last `sep` in `v[..hi]`, or 0 when there is none.
fn after_last(v: &Vec<char>, hi: usize, sep: char) -> (r: usize)
    requires
        hi <= v.len(),
    ensures
        r <= hi,
        v@.subrange(r as int, hi as int) == last_segment(v@.subrange(0, hi as int), sep),
    decreases hi,
{
    if hi == 0 {
        assert(v@.subrange(0, 0) =~= Seq::<char>::empty());
        0
    } else if v[hi - 1] == sep {
        assert(v@.subrange(0, hi as int).last() == sep);
        assert(v@.subrange(hi as int, hi as int) =~= Seq::<char>::empty());
        hi
    } else {
        let r = after_last(v, hi - 1, sep);
        assert(v@.subrange(0, hi as int).drop_last() =~= v@.subrange(0, hi - 1));
        assert(v@.subrange(r as int, hi as int) =~= v@.subrange(r as int, hi - 1).push(
            v@[hi - 1],
        ));
        r
    }
}

/// The end of the first token of `v[lo..hi]`.
fn first_token_end(v: &Vec<char>, lo: usize, hi: usize) -> (r: usize)
    requires
        lo <= hi <= v.len(),
    ensures
        lo <= r <= hi,
        v@.subrange(lo as int, r as int) == first_token(v@.subrange(lo as int, hi as int)),
    decreases hi - lo,
{
    if lo == hi {
        assert(v@.subrange(lo as int, lo as int) =~= Seq::<char>::empty());
        lo
    } else if v[lo] == ',' || v[lo] == ':' || v[lo] == '/' {
        assert(v@.subrange(lo as int, hi as int)[0] == v@[lo as int]);
        assert(v@.subrange(lo as int, lo as int) =~= Seq::<char>::empty());
        lo
    } else {
        let r = first_token_end(v, lo + 1, hi);
        let ghost s = v@.subrange(lo as int, hi as int);
        assert(s.drop_first() =~= v@.subrange(lo + 1, hi as int));
        assert(s[0] == v@[lo as int]);
        assert(v@.subrange(lo as int, r as int) =~= seq![s[0]] + v@.subrange(lo + 1, r as int));
        r
    }
}

/// The bounds of `second_piece(v[lo..hi], p)` inside `v`.
fn second_piece_bounds(v: &Vec<char>, lo: usize, hi: usize, p: &Vec<char>) -> (r: Option<
    (usize, usize),
>)
    requires
        lo <= hi <= v.len(),
    ensures
        match r {
            Some((a, b)) => lo <= a <= b <= hi && second_piece(
                v@.subrange(lo as int, hi as int),
                p@,
            ) == Some(v@.subrange(a as int, b as int)),
            None => second_piece(v@.subrange(lo as int, hi as int), p@) is None,
        },
{
    let sub = slice_chars(v, lo, hi);
    match find_from(&sub, p, 0) {
        None => None,
        Some(i) => {
            let start = i + p.len();
            match find_from(&sub, p, start) {
                Some(j) => {
                    assert(sub@.subrange(start as int, j as int) =~= v@.subrange(
                        lo + start,
                        lo + j,
                    ));
                    Some((lo + start, lo + j))
                },
                None => {
                    assert(sub@.subrange(start as int, sub@.len() as int) =~= v@.subrange(
                        lo + start,
                        hi as int,
                    ));
                    Some((lo + start, hi))
                },
            }
        },
    }
}

/// The characters `v[lo..hi]`.
fn slice_chars(v: &Vec<char>, lo: usize, hi: usize) -> (r: Vec<char>)
    requires
        lo <= hi <= v.len(),
    ensures
        r@ == v@.subrange(lo as int, hi as int),
{
    let mut r: Vec<char> = Vec::new();
    let mut i = lo;
    while i < hi
        invariant
            lo <= i <= hi <= v.len(),
            r@ == v@.subrange(lo as int, i as int),
        decreases hi - i,
    {
        r.push(v[i]);
        i = i + 1;
    }
    r
}

/// Reads an EPSG code from the first token of `v[a..b]`.
fn token_code(v: &Vec<char>, a: usize, b: usize) -> (r: Option<u32>)
    requires
        a <= b <= v.len(),
    ensures
        match r {
            Some(n) => parse_unsigned(first_token(v@.subrange(a as int, b as int)), u32_max())
                == Some(n as nat),
            None => parse_unsigned(first_token(v@.subrange(a as int, b as int)), u32_max()) is None,
        },
{
    let e = first_token_end(v, a, b);
    match parse_unsigned_chars(v, a, e, 0xffff_ffff) {
        Some(n) => Some(n as u32),
        None => None,
    }
}

impl CRS {
    /// Create a CRS from an EPSG code
    pub fn from_epsg(code: u32) -> (r: Self)
        ensures
            r@ == epsg_crs(code),
    {
        CRS {
            epsg: Some(code),
            wkt2: None,
            proj4: None,
            authority: Some(owned("EPSG")),
            identifier: Some(decimal_string(code as u64)),
        }
    }

    /// Create an unknown CRS (no coordinate reference system information available)
    pub fn unknown() -> (r: Self)
        ensures
            r@ == unknown_crs(),
    {
        CRS { epsg: None, wkt2: None, proj4: None, authority: None, identifier: None }
    }

    /// Returns true if this CRS has a known EPSG code
    pub fn is_known(&self) -> (r: bool)
        ensures
            r == self.epsg.is_some(),
    {
        self.epsg.is_some()
    }

    /// Create a CRS from CityJSON metadata format.
    /// CityJSON stores CRS as a URL like: `https://www.opengis.net/def/crs/EPSG/0/7415`
    pub fn from_cityjson_url(url: &str) -> (r: Option<Self>)
        ensures
            opt_crs_view(r) == cityjson_url_crs(url@),
    {
        let v = chars_of(url);
        let a = after_last(&v, v.len(), '/');
        assert(v@.subrange(0, v.len() as int) =~= v@);
        match parse_unsigned_chars(&v, a, v.len(), 0xffff_ffff) {
            Some(n) => Some(Self::from_epsg(n as u32)),
            None => None,
        }
    }

    /// Create a CRS from CityGML srsName format
    ///
    /// Supports multiple formats:
    /// - OGC URN (comma): `urn:ogc:def:crs,crs:EPSG::31256`
    /// - OGC URN (colon): `urn:ogc:def:crs:EPSG::31256`
    /// - Simple format: `EPSG:31256`
    /// - OGC URL: `http://www.opengis.net/def/crs/EPSG/0/31256`
    pub fn from_citygml_srs_name(srs_name: &str) -> (r: Option<Self>)
        ensures
            opt_crs_view(r) == srs_name_crs(srs_name@),
    {
        let all = chars_of(srs_name);
        let (lo, hi) = trim_bounds(&all);
        let v = slice_chars(&all, lo, hi);
        let ghost s = v@;
        assert(s == trim(srs_name@));
        let n = v.len();
        assert(v@.subrange(0, n as int) =~= s);
        let urn_prefix = chars_of("urn:ogc:def:crs");
        let urn = chars_start_with_at(&v, 0, &urn_prefix);
        assert(urn == starts_with(s, "urn:ogc:def:crs"@)) by {
            assert(urn_prefix@.len() <= s.len() ==> s.subrange(0, urn_prefix@.len() as int)
                =~= v@.subrange(0, urn_prefix@.len() as int));
        }
        if urn {
            let dc = chars_of("EPSG::");
            match second_piece_bounds(&v, 0, n, &dc) {
                Some((a, b)) => {
                    if let Some(code) = token_code(&v, a, b) {
                        return Some(Self::from_epsg(code));
                    }
                },
                None => {},
            }
            let sc = chars_of("EPSG:");
            match second_piece_bounds(&v, 0, n, &sc) {
                Some((a, b)) => {
                    let leading_colon = a < b && v[a] == ':';
                    assert(leading_colon == starts_with(v@.subrange(a as int, b as int), ":"@))
                        by {
                        reveal_strlit(":");
                        assert(":"@ =~= seq![':']);
                        let seg = v@.subrange(a as int, b as int);
                        if a < b {
                            assert(seg.subrange(0, 1) =~= seq![v@[a as int]]);
                            if v@[a as int] == ':' {
                                assert(seg.subrange(0, 1) =~= ":"@);
                            } else {
                                assert(seg.subrange(0, 1)[0] != ":"@[0]);
                            }
                        } else {
                            assert(seg.len() == 0);
                        }
                    }
                    if !leading_colon {
                        if let Some(code) = token_code(&v, a, b) {
                            return Some(Self::from_epsg(code));
                        }
                    }
                },
                None => {},
            }
        }
        let simple = chars_of("EPSG:");
        let is_simple = chars_start_with_at(&v, 0, &simple);
        assert(is_simple == starts_with(s, "EPSG:"@)) by {
            assert(simple@.len() <= s.len() ==> s.subrange(0, simple@.len() as int) =~= v@.subrange(
                0,
                simple@.len() as int,
            ));
        }
        if is_simple {
            assert(simple@.len() == 5) by {
                reveal_strlit("EPSG:");
            }
            if let Some(code) = parse_unsigned_chars(&v, 5, n, 0xffff_ffff) {
                assert(v@.subrange(5, n as int) =~= s.skip(5));
                return Some(Self::from_epsg(code as u32));
            }
            assert(v@.subrange(5, n as int) =~= s.skip(5));
        }
        let def_crs = chars_of("opengis.net/def/crs");
        let gml_srs = chars_of("opengis.net/gml/srs");
        let has_def = find_from(&v, &def_crs, 0).is_some();
        let has_gml = find_from(&v, &gml_srs, 0).is_some();
        if has_def || has_gml {
            let text = string_from_chars(&v, 0, n);
            return Self::from_cityjson_url(text.as_str());
        }
        None
    }

    /// Get EPSG code for STAC proj:epsg property (legacy)
    pub fn to_stac_epsg(&self) -> (r: Option<u32>)
        ensures
            r == self.epsg,
    {
        self.epsg
    }

    /// Get proj:code string for STAC Projection Extension v2.0.0+.
    /// Returns a string like "EPSG:7415" suitable for the `proj:code` property.
    pub fn to_stac_proj_code(&self) -> (r: Option<String>)
        ensures
            opt_view(r) == match self.epsg {
                Some(code) => Some("EPSG:"@ + decimal(code as nat)),
                None => None,
            },
    {
        match self.epsg {
            Some(code) => {
                let mut s = owned("EPSG:");
                let d = decimal_string(code as u64);
                push_str(&mut s, d.as_str());
                Some(s)
            },
            None => None,
        }
    }

    /// Get the CRS as a CityJSON-compatible URL
    pub fn to_cityjson_url(&self) -> (r: Option<String>)
        ensures
            opt_view(r) == match self.epsg {
                Some(code) => Some(epsg_url_prefix() + decimal(code as nat)),
                None => None,
            },
    {
        match self.epsg {
            Some(code) => {
                let mut s = owned("https://www.opengis.net/def/crs/EPSG/0/");
                let d = decimal_string(code as u64);
                push_str(&mut s, d.as_str());
                Some(s)
            },
            None => None,
        }
    }

    /// WGS84 CRS (EPSG:4326)
    pub fn wgs84() -> (r: Self)
        ensures
            r@ == epsg_crs(4326),
    {
        Self::from_epsg(4326)
    }

    /// Returns true if this CRS uses WGS84 geographic coordinates.
    ///
    /// Matches EPSG:4326 (2D), EPSG:4979 (3D with ellipsoidal height),
    /// and EPSG:4978 (geocentric XYZ).
    pub fn is_wgs84(&self) -> (r: bool)
        ensures
            r == (self.epsg == Some(4326u32) || self.epsg == Some(4979u32) || self.epsg == Some(
                4978u32,
            )),
    {
        match self.epsg {
            Some(code) => code == 4326 || code == 4979 || code == 4978,
            None => false,
        }
    }

    /// A copy of this CRS.
    pub fn copy(&self) -> (r: Self)
        ensures
            r@ == self@,
    {
        CRS {
            epsg: self.epsg,
            wkt2: copy_opt_string(&self.wkt2),
            proj4: copy_opt_string(&self.proj4),
            authority: copy_opt_string(&self.authority),
            identifier: copy_opt_string(&self.identifier),
        }
    }
}

/// A copy of an optional string.
pub fn copy_opt_string(o: &Option<String>) -> (r: Option<String>)
    ensures
        opt_view(r) == opt_view(*o),
{
    match o {
        Some(s) => Some(copy_string(s)),
        None => None,
    }
}

/// The URL prefix of an EPSG reference system.
pub open spec fn epsg_url_prefix() -> Seq<char> {
    "https://www.opengis.net/def/crs/EPSG/0/"@
}

impl Default for CRS {
    /// Default to unknown CRS (no EPSG code).
    /// Use `CRS::wgs84()` explicitly when WGS84 is intended.
    fn default() -> (r: Self)
        ensures
            r@ == unknown_crs(),
    {
        Self::unknown()
    }
}

proof fn lemma_last_segment_after_sep(a: Seq<char>, b: Seq<char>, sep: char)
    requires
        a.len() > 0,
        a.last() == sep,
        forall|i: int| 0 <= i < b.len() ==> b[i] != sep,
    ensures
        last_segment(a + b, sep) == b,
    decreases b.len(),
{
    if b.len() == 0 {
        assert(a + b =~= a);
    } else {
        let ab = a + b;
        assert(ab.drop_last() =~= a + b.drop_last());
        lemma_last_segment_after_sep(a, b.drop_last(), sep);
        assert(b.drop_last().push(b.last()) =~= b);
    }
}

/// A CityJSON reference-system URL written for an EPSG code reads back as
/// the CRS of that code (`from_cityjson_url` undoes `to_cityjson_url`).
pub proof fn law_cityjson_url_roundtrip(code: u32)
    ensures
        cityjson_url_crs(epsg_url_prefix() + decimal(code as nat)) == Some(epsg_crs(code)),
{
    let d = decimal(code as nat);
    lemma_decimal_digits(code as nat);
    reveal_strlit("https://www.opengis.net/def/crs/EPSG/0/");
    assert forall|i: int| 0 <= i < d.len() implies d[i] != '/' by {
        assert(is_digit(d[i]));
    }
    lemma_last_segment_after_sep(epsg_url_prefix(), d, '/');
    lemma_parse_decimal(code as nat, u32_max());
}

/// A `proj:code` string (`EPSG:<code>`) read as a CityGML `srsName` names the
/// CRS of that code.
pub proof fn law_proj_code_roundtrip(code: u32)
    ensures
        srs_name_crs("EPSG:"@ + decimal(code as nat)) == Some(epsg_crs(code)),
{
    let d = decimal(code as nat);
    let s = "EPSG:"@ + d;
    lemma_decimal_digits(code as nat);
    reveal_strlit("EPSG:");
    reveal_strlit("urn:ogc:def:crs");
    assert(!is_space(s[0]));
    assert(!is_space(s.last())) by {
        assert(s.last() == d.last());
        assert(is_digit(d[d.len() - 1]));
    }
    lemma_trim_unchanged(s);
    assert(trim(s) == s);
    assert(!starts_with(s, "urn:ogc:def:crs"@)) by {
        if s.len() >= 15 {
            assert(s.subrange(0, 15)[0] == 'E');
            assert("urn:ogc:def:crs"@[0] == 'u');
        }
    }
    assert(s.subrange(0, 5) =~= "EPSG:"@);
    assert(s.skip(5) =~= d);
    lemma_parse_decimal(code as nat, u32_max());
}

/// A CityGML `srsName` that spells an EPSG code in any of the accepted forms
/// (`EPSG:<code>`, `urn:ogc:def:crs:EPSG::<code>`, `urn:ogc:def:crs,crs:EPSG::<code>`
/// or `http://www.opengis.net/def/crs/EPSG/0/<code>`), with or without whitespace
/// around it, names the CRS of that code.
pub proof fn law_srs_name_spellings(code: u32, lead: Seq<char>, trail: Seq<char>)
    requires
        all_space(lead),
        all_space(trail),
    ensures
        srs_name_crs(lead + ("EPSG:"@ + decimal(code as nat)) + trail) == Some(epsg_crs(code)),
        srs_name_crs(lead + ("urn:ogc:def:crs:EPSG::"@ + decimal(code as nat)) + trail) == Some(
            epsg_crs(code),
        ),
        srs_name_crs(lead + ("urn:ogc:def:crs,crs:EPSG::"@ + decimal(code as nat)) + trail)
            == Some(epsg_crs(code)),
        srs_name_crs(lead + ("http://www.opengis.net/def/crs/EPSG/0/"@ + decimal(code as nat))
            + trail) == Some(epsg_crs(code)),
{
    let d = decimal(code as nat);
    reveal_strlit("EPSG:");
    reveal_strlit("urn:ogc:def:crs:EPSG::");
    reveal_strlit("urn:ogc:def:crs,crs:EPSG::");
    reveal_strlit("http://www.opengis.net/def/crs/EPSG/0/");
    law_proj_code_roundtrip(code);
    lemma_srs_padded(lead, "EPSG:"@, code, trail);
    lemma_urn_spellings(code);
    lemma_srs_padded(lead, "urn:ogc:def:crs:EPSG::"@, code, trail);
    lemma_srs_padded(lead, "urn:ogc:def:crs,crs:EPSG::"@, code, trail);
    lemma_srs_url_spelling(code);
    lemma_srs_padded(lead, "http://www.opengis.net/def/crs/EPSG/0/"@, code, trail);
}

/// Whitespace around a spelled code does not change what it names.
proof fn lemma_srs_padded(lead: Seq<char>, prefix: Seq<char>, code: u32, trail: Seq<char>)
    requires
        all_space(lead),
        all_space(trail),
        prefix.len() > 0,
        !is_space(prefix[0]),
    ensures
        srs_name_crs(lead + (prefix + decimal(code as nat)) + trail) == srs_name_crs(
            prefix + decimal(code as nat),
        ),
{
    let d = decimal(code as nat);
    let core = prefix + d;
    lemma_decimal_digits(code as nat);
    assert(is_digit(d[d.len() - 1]));
    assert(core[0] == prefix[0]);
    assert(core.last() == d.last());
    lemma_trim_padded(lead, core, trail);
    lemma_trim_padded(Seq::empty(), core, Seq::empty());
    assert(Seq::<char>::empty() + core + Seq::<char>::empty() =~= core);
}

/// Both OGC URN spellings of an EPSG code name the CRS of that code.
proof fn lemma_urn_spellings(code: u32)
    ensures
        srs_name_crs("urn:ogc:def:crs:EPSG::"@ + decimal(code as nat)) == Some(epsg_crs(code)),
        srs_name_crs("urn:ogc:def:crs,crs:EPSG::"@ + decimal(code as nat)) == Some(
            epsg_crs(code),
        ),
{
    reveal_strlit("EPSG::");
    reveal_strlit("urn:ogc:def:crs");
    reveal_strlit("urn:ogc:def:crs:EPSG::");
    reveal_strlit("urn:ogc:def:crs,crs:EPSG::");
    let p1 = "urn:ogc:def:crs:EPSG::"@;
    assert(p1.subrange(0, 15) =~= "urn:ogc:def:crs"@);
    assert(p1.subrange(16, 22) =~= "EPSG::"@);
    lemma_urn_code(p1, 16, code);
    let p2 = "urn:ogc:def:crs,crs:EPSG::"@;
    assert(p2.subrange(0, 15) =~= "urn:ogc:def:crs"@);
    assert(p2.subrange(20, 26) =~= "EPSG::"@);
    lemma_urn_code(p2, 20, code);
}

/// The OGC URL spelling of an EPSG code names the CRS of that code.
proof fn lemma_srs_url_spelling(code: u32)
    ensures
        srs_name_crs("http://www.opengis.net/def/crs/EPSG/0/"@ + decimal(code as nat)) == Some(
            epsg_crs(code),
        ),
{
    let d = decimal(code as nat);
    let p3 = "http://www.opengis.net/def/crs/EPSG/0/"@;
    let u = p3 + d;
    reveal_strlit("http://www.opengis.net/def/crs/EPSG/0/");
    reveal_strlit("opengis.net/def/crs");
    reveal_strlit("urn:ogc:def:crs");
    reveal_strlit("EPSG:");
    lemma_decimal_digits(code as nat);
    assert(is_digit(d[d.len() - 1]));
    assert(u[0] == 'h');
    assert(u.last() == d.last());
    lemma_trim_padded(Seq::empty(), u, Seq::empty());
    assert(Seq::<char>::empty() + u + Seq::<char>::empty() =~= u);
    assert(!starts_with(u, "urn:ogc:def:crs"@)) by {
        if starts_with(u, "urn:ogc:def:crs"@) {
            assert(u.subrange(0, 15)[0] == u[0]);
        }
    }
    assert(!starts_with(u, "EPSG:"@)) by {
        if starts_with(u, "EPSG:"@) {
            assert(u.subrange(0, 5)[0] == u[0]);
        }
    }
    assert(u.subrange(11, 30) =~= "opengis.net/def/crs"@);
    assert(occurs_at(u, "opengis.net/def/crs"@, 11));
    assert forall|i: int| 0 <= i < d.len() implies d[i] != '/' by {
        assert(is_digit(d[i]));
    }
    lemma_last_segment_after_sep(p3, d, '/');
    lemma_parse_decimal(code as nat, u32_max());
}

/// The text after the `EPSG::` of an OGC URN prefix, when it is a decimal
/// code, is the code that the URN names.
proof fn lemma_urn_code(prefix: Seq<char>, k: int, code: u32)
    requires
        0 <= k,
        prefix.len() == k + 6,
        starts_with(prefix, "urn:ogc:def:crs"@),
        prefix.subrange(k, k + 6) == "EPSG::"@,
        forall|j: int| 0 <= j < k ==> prefix[j] != 'E',
    ensures
        srs_name_crs(prefix + decimal(code as nat)) == Some(epsg_crs(code)),
{
    let d = decimal(code as nat);
    let s = prefix + d;
    let pat = "EPSG::"@;
    reveal_strlit("EPSG::");
    reveal_strlit("urn:ogc:def:crs");
    lemma_decimal_digits(code as nat);
    assert(s.subrange(0, 15) =~= prefix.subrange(0, 15));
    assert(s.subrange(k, k + 6) =~= prefix.subrange(k, k + 6));
    assert(occurs_at(s, pat, k));
    assert forall|j: int| 0 <= j < k implies !occurs_at(s, pat, j) by {
        if occurs_at(s, pat, j) {
            assert(s.subrange(j, j + 6)[0] == s[j]);
            assert(s[j] == prefix[j]);
        }
    }
    lemma_find_from_spec_hit(s, pat, 0, k);
    assert forall|j: int| k + 6 <= j implies !occurs_at(s, pat, j) by {
        if occurs_at(s, pat, j) {
            assert(s.subrange(j, j + 6)[0] == s[j]);
            assert(s[j] == d[j - prefix.len()]);
            assert(is_digit(d[j - prefix.len()]));
        }
    }
    lemma_find_from_spec_miss(s, pat, k + 6);
    assert(s.subrange(k + 6, s.len() as int) =~= d);
    lemma_first_token_digits(d);
    lemma_parse_decimal(code as nat, u32_max());
    assert(s[0] == 'u') by {
        assert(prefix.subrange(0, 15)[0] == prefix[0]);
    }
    assert(s.last() == d.last());
    assert(is_digit(d[d.len() - 1]));
    lemma_trim_padded(Seq::empty(), s, Seq::empty());
    assert(Seq::<char>::empty() + s + Seq::<char>::empty() =~= s);
}

/// A decimal code followed by a separator is the first token of what
/// follows it.
proof fn lemma_first_token_code(d: Seq<char>, sep: char, x: Seq<char>)
    requires
        all_digits(d),
        is_code_sep(sep),
    ensures
        first_token(d + seq![sep] + x) == d,
    decreases d.len(),
{
    let s = d + seq![sep] + x;
    if d.len() == 0 {
        assert(s[0] == sep);
    } else {
        assert(s[0] == d[0]);
        assert(is_digit(d[0]));
        assert(all_digits(d.drop_first())) by {
            assert forall|i: int| 0 <= i < d.drop_first().len() implies is_digit(#[trigger] d.drop_first()[i]) by {
                assert(d.drop_first()[i] == d[i + 1]);
            }
        }
        lemma_first_token_code(d.drop_first(), sep, x);
        assert(s.drop_first() =~= d.drop_first() + seq![sep] + x);
        assert(seq![d[0]] + d.drop_first() =~= d);
    }
}

/// The search from `from` skips positions where the pattern does not occur.
proof fn lemma_find_skips(s: Seq<char>, p: Seq<char>, from: int, m: int)
    requires
        0 <= from <= m <= s.len(),
        forall|j: int| from <= j < m ==> !occurs_at(s, p, j),
    ensures
        find_from_spec(s, p, from) == find_from_spec(s, p, m),
    decreases m - from,
{
    if from < m {
        lemma_find_skips(s, p, from + 1, m);
    }
}

/// A search result is an occurrence at or after where the search started.
proof fn lemma_find_result(s: Seq<char>, p: Seq<char>, from: int, i: int)
    requires
        find_from_spec(s, p, from) == Some(i),
    ensures
        from <= i && occurs_at(s, p, i),
    decreases s.len() + 1 - from,
{
    if 0 <= from <= s.len() && !occurs_at(s, p, from) {
        lemma_find_result(s, p, from + 1, i);
    }
}

/// In an OGC URN that starts with `urn:ogc:def:crs`, the code after its
/// first `EPSG::` ends at the next `,`, `:` or `/`: a compound URN such as
/// `urn:ogc:def:crs,crs:EPSG::31256,crs:EPSG::5778` names the CRS of its
/// first code, whatever follows the separator.
pub proof fn law_urn_code_ends_at_separator(head: Seq<char>, code: u32, sep: char, rest: Seq<char>)
    requires
        starts_with(head, "urn:ogc:def:crs"@),
        forall|j: int| 0 <= j < head.len() ==> head[j] != 'E',
        sep == ',' || sep == ':' || sep == '/',
        rest.len() == 0 || !is_space(rest.last()),
    ensures
        srs_name_crs(head + "EPSG::"@ + decimal(code as nat) + seq![sep] + rest) == Some(epsg_crs(code)),
{
    let d = decimal(code as nat);
    let pat = "EPSG::"@;
    let s = head + pat + d + seq![sep] + rest;
    let k = head.len() as int;
    reveal_strlit("EPSG::");
    reveal_strlit("urn:ogc:def:crs");
    lemma_decimal_digits(code as nat);
    assert(s.subrange(0, 15) =~= head.subrange(0, 15));
    assert(s.subrange(k, k + 6) =~= pat);
    assert forall|j: int| 0 <= j < k implies !occurs_at(s, pat, j) by {
        if occurs_at(s, pat, j) {
            assert(s.subrange(j, j + 6)[0] == s[j]);
            assert(s[j] == head[j]);
        }
    }
    lemma_find_from_spec_hit(s, pat, 0, k);
    let e0 = k + 6;
    let m = e0 + d.len() + 1;
    assert forall|j: int| e0 <= j < m implies !occurs_at(s, pat, j) by {
        if occurs_at(s, pat, j) {
            assert(s.subrange(j, j + 6)[0] == s[j]);
            if j < e0 + d.len() {
                assert(s[j] == d[j - e0]);
                assert(is_digit(d[j - e0]));
            } else {
                assert(s[j] == sep);
            }
        }
    }
    lemma_find_skips(s, pat, e0, m);
    let e = match find_from_spec(s, pat, e0) {
        Some(j2) => j2,
        None => s.len() as int,
    };
    if let Some(j2) = find_from_spec(s, pat, e0) {
        lemma_find_result(s, pat, m, j2);
    }
    assert(m <= e <= s.len());
    let seg = s.subrange(e0, e);
    assert(seg =~= d + seq![sep] + s.subrange(m, e));
    lemma_first_token_code(d, sep, s.subrange(m, e));
    lemma_parse_decimal(code as nat, u32_max());
    assert(s[0] == 'u') by {
        assert(head.subrange(0, 15)[0] == head[0]);
    }
    assert(!is_space(s.last())) by {
        if rest.len() > 0 {
            assert(s.last() == rest.last());
        } else {
            assert(s.last() == sep);
        }
    }
    lemma_trim_padded(Seq::empty(), s, Seq::empty());
    assert(Seq::<char>::empty() + s + Seq::<char>::empty() =~= s);
}

/// A string of digits holds no code separator, so it is its own first token.
proof fn lemma_first_token_digits(s: Seq<char>)
    requires
        all_digits(s),
    ensures
        first_token(s) == s,
    decreases s.len(),
{
    if s.len() > 0 {
        assert(is_digit(s[0]));
        assert(all_digits(s.drop_first())) by {
            assert forall|i: int| 0 <= i < s.drop_first().len() implies is_digit(
                #[trigger] s.drop_first()[i],
            ) by {
                assert(s.drop_first()[i] == s[i + 1]);
            }
        }
        lemma_first_token_digits(s.drop_first());
        assert(seq![s[0]] + s.drop_first() =~= s);
    }
}

proof fn lemma_trim_unchanged(s: Seq<char>)
    requires
        s.len() > 0,
        !is_space(s[0]),
        !is_space(s.last()),
    ensures
        trim(s) == s,
{
    assert(leading_space(s) == 0);
    assert(s.skip(0) =~= s);
    assert(trailing_space(s) == 0);
    assert(s.subrange(0, s.len() as int) =~= s);
}

} // verus!
