//! The decisions of catalog assembly: where the catalog and its child
//! collections are linked, which id and description the catalog gets, and
//! how each collection of a catalog is named and configured.
use vstd::prelude::*;
use crate::crs::opt_view;
use crate::stac::owned;
use crate::text::{copy_string, ends_with, ends_with_str, push_str, str_eq};

verus! {

/// A base URL that ends with `/`: as it is when it does, else with one
/// appended.
pub open spec fn with_slash(base: Seq<char>) -> Seq<char> {
    if ends_with(base, "/"@) {
        base
    } else {
        base + "/"@
    }
}

/// Appends a `/` to a base URL that does not end with one.
pub fn normalized_base(base: &str) -> (r: String)
    ensures
        r@ == with_slash(base@),
{
    let mut r = owned(base);
    if !ends_with_str(base, "/") {
        push_str(&mut r, "/");
    }
    r
}

/// The link from a collection to its catalog: `catalog.json` under the base
/// URL when one is given, else the catalog one directory up.
pub open spec fn catalog_href_spec(base_url: Option<Seq<char>>) -> Seq<char> {
    match base_url {
        Some(b) => with_slash(b) + "catalog.json"@,
        None => "../catalog.json"@,
    }
}

/// Builds the link from a collection to its catalog.
pub fn catalog_href(base_url: &Option<String>) -> (r: String)
    ensures
        r@ == catalog_href_spec(opt_view(*base_url)),
{
    match base_url {
        Some(b) => {
            let mut r = normalized_base(b.as_str());
            push_str(&mut r, "catalog.json");
            r
        },
        None => owned("../catalog.json"),
    }
}

/// The link from a catalog to the collection in folder `folder`: under the
/// base URL when one is given, else relative to the catalog.
pub open spec fn child_href_spec(base_url: Option<Seq<char>>, folder: Seq<char>) -> Seq<char> {
    match base_url {
        Some(b) => with_slash(b) + folder + "/collection.json"@,
        None => "./"@ + folder + "/collection.json"@,
    }
}

/// Builds the link from a catalog to one of its collections.
pub fn child_href(base_url: &Option<String>, folder: &str) -> (r: String)
    ensures
        r@ == child_href_spec(opt_view(*base_url), folder@),
{
    let mut r = match base_url {
        Some(b) => normalized_base(b.as_str()),
        None => owned("./"),
    };
    push_str(&mut r, folder);
    push_str(&mut r, "/collection.json");
    r
}

/// The base URL of the assets of a collection of a catalog: the folder under
/// the catalog's base URL, joined as given.
pub fn collection_base_url(base_url: &Option<String>, folder: &str) -> (r: Option<String>)
    ensures
        match (r, opt_view(*base_url)) {
            (Some(u), Some(b)) => u@ == b + folder@ + "/"@,
            (None, None) => true,
            _ => false,
        },
{
    match base_url {
        Some(b) => {
            let mut u = copy_string(b);
            push_str(&mut u, folder);
            push_str(&mut u, "/");
            Some(u)
        },
        None => None,
    }
}

/// The id of a catalog: the configured one, else the name of its output
/// folder, else `catalog`.
pub open spec fn catalog_id_spec(id: Option<Seq<char>>, folder_name: Option<Seq<char>>) -> Seq<char> {
    match id {
        Some(i) => i,
        None => match folder_name {
            Some(n) => n,
            None => "catalog"@,
        },
    }
}

/// Chooses the id of a catalog.
pub fn catalog_id(id: Option<String>, folder_name: Option<String>) -> (r: String)
    ensures
        r@ == catalog_id_spec(opt_view(id), opt_view(folder_name)),
{
    match id {
        Some(i) => i,
        None => match folder_name {
            Some(n) => n,
            None => owned("catalog"),
        },
    }
}

/// The description of a catalog: the configured one, else `Root catalog`.
pub fn catalog_description(description: Option<String>) -> (r: String)
    ensures
        r@ == match opt_view(description) {
            Some(d) => d,
            None => "Root catalog"@,
        },
{
    match description {
        Some(d) => d,
        None => owned("Root catalog"),
    }
}

/// The title that a catalog gives a collection generated from a folder.
pub fn generated_collection_title(folder: &str) -> (r: String)
    ensures
        r@ == "Collection from "@ + folder@,
{
    let mut r = owned("Collection from ");
    push_str(&mut r, folder);
    r
}

/// The title of a catalog's child link: the collection's title, else its id.
pub fn child_title(title: Option<String>, id: String) -> (r: String)
    ensures
        r@ == match opt_view(title) {
            Some(t) => t,
            None => id@,
        },
{
    match title {
        Some(t) => t,
        None => id,
    }
}

/// Whether a file extension names a configuration file (`toml`, `yaml` or
/// `yml`, as written).
pub open spec fn is_config_extension_spec(ext: Seq<char>) -> bool {
    ext == "toml"@ || ext == "yaml"@ || ext == "yml"@
}

/// Tells a configuration file by its extension.
pub fn is_config_extension(ext: &str) -> (r: bool)
    ensures
        r == is_config_extension_spec(ext@),
{
    str_eq(ext, "toml") || str_eq(ext, "yaml") || str_eq(ext, "yml")
}

/// The folder of a collection listed in a catalog configuration: the
/// sanitized id of its configuration file when it has one, else the file
/// name of the listed path (given as `fallback`).
pub fn collection_folder(config_id: Option<String>, fallback: String) -> (r: String)
    ensures
        r@ == match opt_view(config_id) {
            Some(i) => crate::layout::sanitized(i),
            None => fallback@,
        },
{
    match config_id {
        Some(i) => crate::layout::sanitize_folder_name(i.as_str()),
        None => fallback,
    }
}

/// Two folders of a catalog get the same child link only when they are the
/// same folder.
pub proof fn law_child_hrefs_distinct(base_url: Option<Seq<char>>, a: Seq<char>, b: Seq<char>)
    requires
        child_href_spec(base_url, a) == child_href_spec(base_url, b),
    ensures
        a == b,
{
    let suffix = "/collection.json"@;
    let prefix = match base_url {
        Some(u) => with_slash(u),
        None => "./"@,
    };
    let x = child_href_spec(base_url, a);
    assert(x == prefix + a + suffix);
    assert(child_href_spec(base_url, b) == prefix + b + suffix);
    assert(a.len() == b.len());
    assert forall|i: int| 0 <= i < a.len() implies a[i] == b[i] by {
        assert(x[prefix.len() + i] == a[i]);
        assert(x[prefix.len() + i] == b[i]);
    }
    assert(a =~= b);
}

} // verus!
