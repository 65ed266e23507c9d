//! Names and assets of the output layout: collection folder names and the
//! GeoParquet mirror asset of a collection.
use vstd::prelude::*;
use crate::input::{path_file_name, path_file_name_of};
use crate::stac::{Asset, AssetView, owned};
use crate::text::{chars_of, push_char, views};

verus! {

/// Whether a character is alphabetic or numeric in Unicode
/// (`char::is_alphanumeric`).
pub uninterp spec fn unicode_alphanumeric(c: char) -> bool;

/// Calls `char::is_alphanumeric`. Its result is named by
/// `unicode_alphanumeric`; of the Unicode tables only the ASCII range is
/// stated, where the alphanumeric characters are the letters and digits.
#[verifier::external_body]
fn char_is_alphanumeric(c: char) -> (r: bool)
    ensures
        r == unicode_alphanumeric(c),
        (c as u32) < 128 ==> r == (('a' <= c && c <= 'z') || ('A' <= c && c <= 'Z') || ('0' <= c
            && c <= '9')),
{
    c.is_alphanumeric()
}

/// The characters kept as they are in a folder name.
pub open spec fn folder_safe(c: char) -> bool {
    unicode_alphanumeric(c) || c == '-' || c == '_' || c == '.'
}

/// A character of a folder name: kept when safe, else an underscore.
pub open spec fn sanitized_char(c: char) -> char {
    if folder_safe(c) {
        c
    } else {
        '_'
    }
}

/// The ASCII characters kept in a folder name: letters, digits, `-`, `_`
/// and `.`.
pub open spec fn ascii_folder_safe(c: char) -> bool {
    ('a' <= c && c <= 'z') || ('A' <= c && c <= 'Z') || ('0' <= c && c <= '9') || c == '-' || c == '_'
        || c == '.'
}

/// A name with every unsafe character replaced by an underscore.
pub open spec fn sanitized(s: Seq<char>) -> Seq<char> {
    s.map_values(|c: char| sanitized_char(c))
}

/// Sanitizes a string for use as a folder name: every character that is
/// not alphanumeric, `-`, `_` or `.` becomes `_`.
pub fn sanitize_folder_name(name: &str) -> (r: String)
    ensures
        r@ == sanitized(name@),
        forall|i: int|
            0 <= i < name@.len() && (name@[i] as u32) < 128 ==> (#[trigger] r@[i] == if ascii_folder_safe(
                name@[i],
            ) {
                name@[i]
            } else {
                '_'
            }),
{
    let v = chars_of(name);
    let mut r = String::new();
    let mut i: usize = 0;
    while i < v.len()
        invariant
            i <= v.len(),
            v@ == name@,
            r@ == sanitized(name@).take(i as int),
            forall|k: int|
                0 <= k < i && (name@[k] as u32) < 128 ==> (folder_safe(name@[k]) <==> ascii_folder_safe(
                    #[trigger] name@[k],
                )),
        decreases v.len() - i,
    {
        let c = v[i];
        let keep = char_is_alphanumeric(c) || c == '-' || c == '_' || c == '.';
        let ghost before = r@;
        if keep {
            push_char(&mut r, c);
        } else {
            push_char(&mut r, '_');
        }
        assert(sanitized(name@).take(i + 1) =~= before.push(sanitized_char(c)));
        i = i + 1;
    }
    assert(sanitized(name@).take(v.len() as int) =~= sanitized(name@));
    r
}

/// Sanitizing a folder name twice is sanitizing it once, and keeps its
/// length.
pub proof fn law_sanitize_idempotent(s: Seq<char>)
    ensures
        sanitized(sanitized(s)) == sanitized(s),
        sanitized(s).len() == s.len(),
{
    assert(sanitized(sanitized(s)) =~= sanitized(s));
}

/// The folder name of an input path: its final component, or `collection`
/// when it has none.
pub open spec fn fallback_folder(path: Seq<char>) -> Seq<char> {
    match path_file_name_of(path) {
        Some(n) => n,
        None => "collection"@,
    }
}

/// Extracts a folder name from a path string: its final component, or
/// `collection` when the path has none.
pub fn fallback_folder_name(path_str: &str) -> (r: String)
    ensures
        r@ == fallback_folder(path_str@),
{
    match path_file_name(path_str) {
        Some(n) => n,
        None => owned("collection"),
    }
}

/// The asset that points a collection at its GeoParquet mirror of items.
pub fn make_geoparquet_asset() -> (r: Asset)
    ensures
        r@ == (AssetView {
            href: "./items.parquet"@,
            title: Some("STAC GeoParquet items"@),
            description: None,
            media_type: Some("application/vnd.apache.parquet"@),
            roles: seq!["collection-mirror"@],
        }),
{
    let mut roles: Vec<String> = Vec::new();
    roles.push(owned("collection-mirror"));
    let r = Asset::new("./items.parquet")
        .with_title("STAC GeoParquet items")
        .with_media_type("application/vnd.apache.parquet")
        .with_roles(roles);
    assert(views(r.roles@) =~= seq!["collection-mirror"@]);
    r
}

} // verus!
