//! The decisions of collection generation that precede and follow the
//! processing of the input files: which inputs, which collection id, which
//! item ids and file names, how many files at a time.
use vstd::prelude::*;
use crate::error::{CityJsonStacError, Result};
use crate::input::{is_remote_url, is_remote_url_spec, path_file_name, path_file_name_of};
use crate::stac::owned;
use crate::text::{copy_string, decimal, decimal_string, push_str, str_eq, views};
use crate::sorted::copy_strings;
use crate::catalog::with_slash;

verus! {

/// The license given on the command line overrides a configured one unless
/// it is the default, `proprietary`.
pub fn cli_license(license: &str) -> (r: Option<String>)
    ensures
        match r {
            Some(l) => license@ != "proprietary"@ && l@ == license@,
            None => license@ == "proprietary"@,
        },
{
    if str_eq(license, "proprietary") {
        None
    } else {
        Some(owned(license))
    }
}

/// The inputs of a collection: those given on the command line when there
/// are any, else those of the configuration, else none.
pub fn final_inputs(cli_inputs: &Vec<String>, config_inputs: Option<Vec<String>>) -> (r: Vec<String>)
    ensures
        cli_inputs@.len() > 0 ==> views(r@) == views(cli_inputs@),
        cli_inputs@.len() == 0 ==> match config_inputs {
            Some(c) => r@ == c@,
            None => r@.len() == 0,
        },
{
    if cli_inputs.len() > 0 {
        copy_strings(cli_inputs)
    } else {
        match config_inputs {
            Some(c) => c,
            None => Vec::new(),
        }
    }
}

/// The id of a collection: the configured one, else the file name of its
/// first input, else `collection`.
pub open spec fn collection_id_spec(id: Option<Seq<char>>, inputs: Seq<Seq<char>>) -> Seq<char> {
    match id {
        Some(i) => i,
        None => if inputs.len() > 0 && path_file_name_of(inputs[0]) is Some {
            path_file_name_of(inputs[0])->0
        } else {
            "collection"@
        },
    }
}

/// Chooses the id of a collection: the configured one, else the file name
/// of its first input, else `collection`.
pub fn collection_id_for(id: &Option<String>, inputs: &Vec<String>) -> (r: String)
    ensures
        r@ == collection_id_spec(crate::crs::opt_view(*id), views(inputs@)),
{
    match id {
        Some(i) => copy_string(i),
        None => {
            if inputs.len() > 0 {
                assert(views(inputs@)[0] == inputs@[0]@);
                match path_file_name(inputs[0].as_str()) {
                    Some(n) => n,
                    None => owned("collection"),
                }
            } else {
                owned("collection")
            }
        },
    }
}

/// The inputs that name remote storage, and the others, each in order.
pub open spec fn remote_inputs(inputs: Seq<Seq<char>>) -> Seq<Seq<char>> {
    inputs.filter(|s: Seq<char>| is_remote_url_spec(s))
}

/// The inputs that are local paths, in order.
pub open spec fn local_inputs(inputs: Seq<Seq<char>>) -> Seq<Seq<char>> {
    inputs.filter(|s: Seq<char>| !is_remote_url_spec(s))
}

/// Separates remote URLs from local paths, keeping the order of each.
pub fn partition_inputs(inputs: &Vec<String>) -> (r: (Vec<String>, Vec<String>))
    ensures
        views(r.0@) == remote_inputs(views(inputs@)),
        views(r.1@) == local_inputs(views(inputs@)),
{
    let mut remote: Vec<String> = Vec::new();
    let mut local: Vec<String> = Vec::new();
    let mut i: usize = 0;
    let ghost all = views(inputs@);
    assert(all.take(0) =~= Seq::<Seq<char>>::empty());
    while i < inputs.len()
        invariant
            i <= inputs.len(),
            all == views(inputs@),
            views(remote@) == remote_inputs(all.take(i as int)),
            views(local@) == local_inputs(all.take(i as int)),
        decreases inputs.len() - i,
    {
        proof {
            reveal_with_fuel(Seq::<Seq<char>>::filter, 1);
            assert(all.take(i + 1).drop_last() =~= all.take(i as int));
            assert(all.take(i + 1).last() == inputs@[i as int]@);
        }
        let s = copy_string(&inputs[i]);
        let ghost sv = s@;
        if is_remote_url(inputs[i].as_str()) {
            let ghost before = remote@;
            remote.push(s);
            assert(views(remote@) =~= views(before).push(sv));
        } else {
            let ghost before = local@;
            local.push(s);
            assert(views(local@) =~= views(before).push(sv));
        }
        i = i + 1;
    }
    assert(all.take(inputs.len() as int) =~= all);
    (remote, local)
}

/// The suffix that tells apart items of the same name in different
/// encodings.
pub open spec fn format_suffix_spec(encoding: Seq<char>) -> Seq<char> {
    if encoding == "CityJSON"@ {
        "_cj"@
    } else if encoding == "CityJSONSeq"@ {
        "_cjseq"@
    } else if encoding == "FlatCityBuf"@ {
        "_fcb"@
    } else {
        ""@
    }
}

/// The id of the item of a file: its stem, followed by the suffix of its
/// encoding when another input has the same stem.
pub open spec fn item_id_spec(stem: Seq<char>, collision: bool, encoding: Seq<char>) -> Seq<char> {
    if collision {
        stem + format_suffix_spec(encoding)
    } else {
        stem
    }
}

/// Chooses the id of the item of a file.
pub fn item_id_for(stem: &str, collision: bool, encoding: &str) -> (r: String)
    ensures
        r@ == item_id_spec(stem@, collision, encoding@),
{
    let mut r = owned(stem);
    if collision {
        let suffix = if str_eq(encoding, "CityJSON") {
            "_cj"
        } else if str_eq(encoding, "CityJSONSeq") {
            "_cjseq"
        } else if str_eq(encoding, "FlatCityBuf") {
            "_fcb"
        } else {
            ""
        };
        push_str(&mut r, suffix);
    } else {
        assert(r@ =~= stem@);
    }
    r
}

/// The number of times `x` occurs in `s`.
pub open spec fn occurrences(s: Seq<Seq<char>>, x: Seq<char>) -> nat
    decreases s.len(),
{
    if s.len() == 0 {
        0
    } else {
        occurrences(s.drop_last(), x) + if s.last() == x { 1nat } else { 0nat }
    }
}

/// Whether a stem is shared by more than one input.
pub fn stem_collision(stems: &Vec<String>, stem: &str) -> (r: bool)
    ensures
        r == (occurrences(views(stems@), stem@) > 1),
{
    let mut n: usize = 0;
    let mut i: usize = 0;
    let ghost all = views(stems@);
    assert(all.take(0) =~= Seq::<Seq<char>>::empty());
    while i < stems.len()
        invariant
            i <= stems.len(),
            all == views(stems@),
            n == occurrences(all.take(i as int), stem@),
            n <= i,
        decreases stems.len() - i,
    {
        assert(all.take(i + 1).drop_last() =~= all.take(i as int));
        assert(all.take(i + 1).last() == stems@[i as int]@);
        if str_eq(stems[i].as_str(), stem) {
            n = n + 1;
        }
        i = i + 1;
    }
    assert(all.take(stems.len() as int) =~= all);
    n > 1
}

/// The file name of an item's document.
pub open spec fn item_file_name_spec(item_id: Seq<char>) -> Seq<char> {
    item_id + "_item.json"@
}

/// The file name of an item's document: its id followed by `_item.json`.
pub fn item_file_name(item_id: &str) -> (r: String)
    ensures
        r@ == item_file_name_spec(item_id@),
{
    let mut r = owned(item_id);
    push_str(&mut r, "_item.json");
    r
}

/// The link of a collection to the document of an item, relative to the
/// collection.
pub fn item_href(item_file: &str) -> (r: String)
    ensures
        r@ == "./items/"@ + item_file@,
{
    let mut r = owned("./items/");
    push_str(&mut r, item_file);
    r
}

/// How many files are processed at a time: the configured number when it
/// is positive, else the parallelism the machine offers, else 4.
pub fn concurrency_limit(configured: Option<usize>, available: Option<usize>) -> (r: usize)
    ensures
        r == match configured {
            Some(n) if n > 0 => n,
            _ => match available {
                Some(a) => a,
                None => 4,
            },
        },
{
    match configured {
        Some(n) if n > 0 => n,
        _ => match available {
            Some(a) => a,
            None => 4,
        },
    }
}

/// The error of a collection without input files and without a configured
/// spatial extent.
pub open spec fn no_inputs_message() -> Seq<char> {
    "No input files found and no spatial extent (bbox) in config. For collection-only mode, provide extent.spatial.bbox in the config file."@
}

/// A collection without input sources is generated from its configuration
/// alone, which then must give a spatial extent.
pub fn check_config_only(has_sources: bool, has_config_bbox: bool) -> (r: Result<()>)
    ensures
        r is Ok <==> (has_sources || has_config_bbox),
        r matches Err(e) ==> (e matches CityJsonStacError::StacError(m) && m@ == no_inputs_message()),
{
    if !has_sources && !has_config_bbox {
        return Err(CityJsonStacError::StacError(owned(
            "No input files found and no spatial extent (bbox) in config. For collection-only mode, provide extent.spatial.bbox in the config file.",
        )));
    }
    Ok(())
}

/// The error of a collection some of whose items failed.
pub fn failed_items_error(count: usize) -> (e: CityJsonStacError)
    ensures
        e matches CityJsonStacError::StacError(m) && m@ == decimal(count as nat) + " item(s) failed to process"@,
{
    let mut m = decimal_string(count as u64);
    push_str(&mut m, " item(s) failed to process");
    CityJsonStacError::StacError(m)
}

/// The link from a collection to an item document given by file name: under
/// the items' base URL when one is given, else next to the collection.
pub open spec fn item_link_href_spec(base: Option<Seq<char>>, file_name: Seq<char>) -> Seq<char> {
    match base {
        Some(b) => with_slash(b) + file_name,
        None => "./"@ + file_name,
    }
}

/// The file name under which an existing item is linked: the name of its
/// file, else its id followed by `.json`.
pub open spec fn linked_file_name(file_name: Option<Seq<char>>, item_id: Seq<char>) -> Seq<char> {
    match file_name {
        Some(n) => n,
        None => item_id + ".json"@,
    }
}

/// The item links of a collection assembled from existing item documents,
/// taken pairwise from their file names and ids.
pub open spec fn item_links_spec(
    file_names: Seq<Option<Seq<char>>>,
    item_ids: Seq<Seq<char>>,
    base: Option<Seq<char>>,
    k: int,
) -> Seq<(Seq<char>, Option<Seq<char>>)> {
    Seq::new(k as nat, |i: int| (item_link_href_spec(base, linked_file_name(file_names[i], item_ids[i])), Some(item_ids[i])))
}

/// How many of `n` item links a collection keeps under an optional limit.
pub open spec fn kept_links(n: nat, max_links: Option<usize>) -> nat {
    match max_links {
        Some(m) => if (m as nat) < n { m as nat } else { n },
        None => n,
    }
}

/// The views of a list of optional strings.
pub open spec fn opt_views_of(v: Seq<Option<String>>) -> Seq<Option<Seq<char>>> {
    v.map_values(|o: Option<String>| crate::crs::opt_view(o))
}

/// The views of a list of item links.
pub open spec fn link_pairs_view(v: Seq<(String, Option<String>)>) -> Seq<(Seq<char>, Option<Seq<char>>)> {
    v.map_values(|p: (String, Option<String>)| (p.0@, crate::crs::opt_view(p.1)))
}

/// Links a collection to existing item documents, pairing file names with
/// item ids in order, and keeping at most `max_links` of them; returns the
/// links and how many were left out.
pub fn update_item_links(
    file_names: &Vec<Option<String>>,
    item_ids: &Vec<String>,
    base: &Option<String>,
    max_links: Option<usize>,
) -> (r: (Vec<(String, Option<String>)>, usize))
    ensures
        ({
            let n: nat = if file_names@.len() < item_ids@.len() { file_names@.len() } else { item_ids@.len() };
            let k = kept_links(n, max_links);
            &&& link_pairs_view(r.0@) == item_links_spec(
                opt_views_of(file_names@),
                views(item_ids@),
                crate::crs::opt_view(*base),
                k as int,
            )
            &&& r.1 as nat + k == n
        }),
{
    let n: usize = if file_names.len() < item_ids.len() { file_names.len() } else { item_ids.len() };
    let k: usize = match max_links {
        Some(m) => if m < n { m } else { n },
        None => n,
    };
    let ghost names = opt_views_of(file_names@);
    let ghost ids = views(item_ids@);
    let ghost b = crate::crs::opt_view(*base);
    let mut links: Vec<(String, Option<String>)> = Vec::new();
    let mut i: usize = 0;
    while i < k
        invariant
            k <= n,
            n <= file_names@.len(),
            n <= item_ids@.len(),
            i <= k,
            names == opt_views_of(file_names@),
            ids == views(item_ids@),
            b == crate::crs::opt_view(*base),
            link_pairs_view(links@) == item_links_spec(names, ids, b, i as int),
        decreases k - i,
    {
        let id = &item_ids[i];
        assert(ids[i as int] == id@);
        assert(names[i as int] == crate::crs::opt_view(file_names@[i as int]));
        let name = match &file_names[i] {
            Some(f) => copy_string(f),
            None => {
                let mut f = copy_string(id);
                push_str(&mut f, ".json");
                f
            },
        };
        assert(name@ == linked_file_name(names[i as int], ids[i as int]));
        let href = match base {
            Some(bs) => {
                let mut h = crate::catalog::normalized_base(bs.as_str());
                push_str(&mut h, name.as_str());
                h
            },
            None => {
                let mut h = owned("./");
                push_str(&mut h, name.as_str());
                h
            },
        };
        assert(href@ == item_link_href_spec(b, linked_file_name(names[i as int], ids[i as int])));
        let title = copy_string(id);
        let ghost before = links@;
        links.push((href, Some(title)));
        proof {
            assert(links@ == before.push((href, Some(title))));
            assert(link_pairs_view(links@) == link_pairs_view(before).push((href@, crate::crs::opt_view(Some(title)))));
            assert(link_pairs_view(links@) =~= item_links_spec(names, ids, b, i as int + 1));
        }
        i = i + 1;
    }
    (links, n - k)
}

/// The id of a collection assembled from existing items: the configured one,
/// else the stem of its output file, else `collection`.
pub fn update_collection_id(id: Option<String>, output_stem: Option<String>) -> (r: String)
    ensures
        r@ == match crate::crs::opt_view(id) {
            Some(i) => i,
            None => match crate::crs::opt_view(output_stem) {
                Some(s) => s,
                None => "collection"@,
            },
        },
{
    match id {
        Some(i) => i,
        None => match output_stem {
            Some(s) => s,
            None => owned("collection"),
        },
    }
}

/// A collection assembled from existing items needs item files, and at
/// least one of them must parse as an item.
pub fn check_update_items(given: usize, parsed: usize) -> (r: Result<()>)
    ensures
        r is Ok <==> (given > 0 && parsed > 0),
        given == 0 ==> (r matches Err(CityJsonStacError::StacError(m)) && m@ == "No STAC item files provided"@),
        given > 0 && parsed == 0 ==> (r matches Err(CityJsonStacError::StacError(m)) && m@ == "No valid STAC items could be parsed"@),
{
    if given == 0 {
        return Err(CityJsonStacError::StacError(owned("No STAC item files provided")));
    }
    if parsed == 0 {
        return Err(CityJsonStacError::StacError(owned("No valid STAC items could be parsed")));
    }
    Ok(())
}

/// The description of a collection: the configured one, else
/// `3D City Model collection`.
pub fn collection_description(description: Option<String>) -> (r: String)
    ensures
        r@ == match crate::crs::opt_view(description) {
            Some(d) => d,
            None => "3D City Model collection"@,
        },
{
    match description {
        Some(d) => d,
        None => owned("3D City Model collection"),
    }
}

/// A collection document needs a spatial extent.
pub fn require_spatial_extent(has_bbox: bool) -> (r: Result<()>)
    ensures
        r is Ok <==> has_bbox,
        !has_bbox ==> (r matches Err(CityJsonStacError::StacError(m)) && m@ == "Spatial extent bbox is required"@),
{
    if !has_bbox {
        return Err(CityJsonStacError::StacError(owned("Spatial extent bbox is required")));
    }
    Ok(())
}

/// The encodings whose items get a format suffix.
pub open spec fn suffixed_encoding(e: Seq<char>) -> bool {
    e == "CityJSON"@ || e == "CityJSONSeq"@ || e == "FlatCityBuf"@
}

/// Files of the same stem in two different suffixed encodings get
/// different item ids, and so different item files.
pub proof fn law_collision_ids_distinct(stem: Seq<char>, e1: Seq<char>, e2: Seq<char>)
    requires
        suffixed_encoding(e1),
        suffixed_encoding(e2),
        e1 != e2,
    ensures
        item_id_spec(stem, true, e1) != item_id_spec(stem, true, e2),
        item_file_name_spec(item_id_spec(stem, true, e1)) != item_file_name_spec(item_id_spec(stem, true, e2)),
{
    reveal_strlit("CityJSON");
    reveal_strlit("CityJSONSeq");
    reveal_strlit("FlatCityBuf");
    reveal_strlit("_cj");
    reveal_strlit("_cjseq");
    reveal_strlit("_fcb");
    reveal_strlit("_item.json");
    let s1 = format_suffix_spec(e1);
    let s2 = format_suffix_spec(e2);
    assert(s1 != s2) by {
        if s1 == s2 {
            assert(s1.len() == s2.len());
            if e1 == "CityJSON"@ || e2 == "CityJSON"@ {
                assert(s1[1] == s2[1] && s1.len() == 3 && s2.len() == 3);
            }
        }
    }
    let a = stem + s1;
    let b = stem + s2;
    if a == b {
        assert(s1 =~= a.subrange(stem.len() as int, a.len() as int));
        assert(s2 =~= b.subrange(stem.len() as int, b.len() as int));
    }
    let f1 = a + "_item.json"@;
    let f2 = b + "_item.json"@;
    if f1 == f2 {
        assert(a =~= f1.subrange(0, a.len() as int));
        assert(b =~= f2.subrange(0, b.len() as int));
    }
}

/// What collection generation does with one input source.
#[derive(Debug, Clone, Copy, PartialEq, Eq, Structural)]
pub enum SourceAction {
    /// Read the metadata back from the item document already written.
    ReuseExisting,
    /// Build the item and write its document.
    Build,
    /// Record the failure and go on with the other sources.
    Skip,
    /// Stop the collection with the failure.
    Abort,
}

/// The action for a failure: skipped when errors are to be skipped, else
/// fatal.
pub open spec fn failure_action_spec(skip_errors: bool) -> SourceAction {
    if skip_errors {
        SourceAction::Skip
    } else {
        SourceAction::Abort
    }
}

/// What to do after a failure while processing a source.
pub fn failure_action(skip_errors: bool) -> (r: SourceAction)
    ensures
        r == failure_action_spec(skip_errors),
{
    if skip_errors {
        SourceAction::Skip
    } else {
        SourceAction::Abort
    }
}

/// The action for a source: a failure when its reader could not be
/// opened; else the existing item document is reused unless items are to
/// be overwritten; else the item is built.
pub open spec fn source_action_spec(read_ok: bool, item_exists: bool, overwrite_items: bool, skip_errors: bool) -> SourceAction {
    if !read_ok {
        failure_action_spec(skip_errors)
    } else if item_exists && !overwrite_items {
        SourceAction::ReuseExisting
    } else {
        SourceAction::Build
    }
}

/// Decides what to do with one input source of a collection.
pub fn source_action(read_ok: bool, item_exists: bool, overwrite_items: bool, skip_errors: bool) -> (r: SourceAction)
    ensures
        r == source_action_spec(read_ok, item_exists, overwrite_items, skip_errors),
{
    if !read_ok {
        failure_action(skip_errors)
    } else if item_exists && !overwrite_items {
        SourceAction::ReuseExisting
    } else {
        SourceAction::Build
    }
}

} // verus!
