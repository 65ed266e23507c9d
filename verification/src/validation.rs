//! Dry-run validation: what a check of configuration, inputs and URLs
//! found, and the exit code it leads to.
use vstd::prelude::*;
use crate::config::ProviderConfig;
use crate::crs::opt_view;
use crate::stac::owned;
use crate::text::{chars_of, decimal, decimal_string, push_str, starts_with, starts_with_str, trim, trim_bounds, views};

verus! {

/// Result of dry-run validation.
pub struct ValidationResult {
    /// Config file is syntactically and semantically valid.
    pub config_valid: bool,
    /// Config file error message (if invalid).
    pub config_error: Option<String>,
    /// Number of input paths found.
    pub paths_found: usize,
    /// Total number of input paths.
    pub paths_total: usize,
    /// The input paths that do not exist.
    pub missing_paths: Vec<String>,
    /// Base URL is accessible.
    pub base_url_valid: bool,
    /// Base URL error message (if inaccessible).
    pub base_url_error: Option<String>,
    /// Remote URLs that answered.
    pub remote_urls_ok: usize,
    /// Remote URLs checked.
    pub remote_urls_total: usize,
    /// Remote URL errors (URL, message).
    pub remote_url_errors: Vec<(String, String)>,
}

impl ValidationResult {
    /// All checks passed: valid configuration, no missing path, no base URL
    /// failure (a URL marked valid passes even with a message), no remote
    /// URL error.
    pub open spec fn valid_spec(&self) -> bool {
        &&& self.config_valid
        &&& self.missing_paths@.len() == 0
        &&& (self.base_url_valid || self.base_url_error is None)
        &&& self.remote_url_errors@.len() == 0
    }

    /// The exit code: 1 for a configuration error, else 2 for missing
    /// paths, else 3 for a URL error, else 0.
    pub open spec fn exit_code_spec(&self) -> i32 {
        if !self.config_valid {
            1
        } else if self.missing_paths@.len() > 0 {
            2
        } else if self.base_url_error is Some || self.remote_url_errors@.len() > 0 {
            3
        } else {
            0
        }
    }

    /// An empty validation result: nothing checked, everything valid.
    pub fn new() -> (r: Self)
        ensures
            r.config_valid,
            r.config_error is None,
            r.paths_found == 0,
            r.paths_total == 0,
            r.missing_paths@.len() == 0,
            r.base_url_valid,
            r.base_url_error is None,
            r.remote_urls_ok == 0,
            r.remote_urls_total == 0,
            r.remote_url_errors@.len() == 0,
    {
        ValidationResult {
            config_valid: true,
            config_error: None,
            paths_found: 0,
            paths_total: 0,
            missing_paths: Vec::new(),
            base_url_valid: true,
            base_url_error: None,
            remote_urls_ok: 0,
            remote_urls_total: 0,
            remote_url_errors: Vec::new(),
        }
    }

    /// Whether all validations passed.
    pub fn is_valid(&self) -> (r: bool)
        ensures
            r == self.valid_spec(),
    {
        self.config_valid && self.missing_paths.len() == 0 && (self.base_url_valid
            || self.base_url_error.is_none()) && self.remote_url_errors.len() == 0
    }

    /// The exit code of the validation.
    pub fn exit_code(&self) -> (r: i32)
        ensures
            r == self.exit_code_spec(),
    {
        if !self.config_valid {
            return 1;
        }
        if self.missing_paths.len() > 0 {
            return 2;
        }
        if self.base_url_error.is_some() || self.remote_url_errors.len() > 0 {
            return 3;
        }
        0
    }

    /// Records which of the input paths exist.
    pub fn record_paths(&mut self, paths: &Vec<String>, exists: &Vec<bool>)
        requires
            paths@.len() == exists@.len(),
        ensures
            final(self).paths_total == paths@.len(),
            final(self).paths_found == exists@.filter(|e: bool| e).len(),
            views(final(self).missing_paths@) == missing(views(paths@), exists@),
            final(self).config_valid == old(self).config_valid,
            final(self).base_url_valid == old(self).base_url_valid,
            final(self).base_url_error == old(self).base_url_error,
            final(self).remote_url_errors@ == old(self).remote_url_errors@,
    {
        let mut found: usize = 0;
        let mut missing_paths: Vec<String> = Vec::new();
        let mut i: usize = 0;
        assert(exists@.take(0).filter(|e: bool| e) =~= Seq::<bool>::empty());
        assert(views(paths@).take(0) =~= Seq::<Seq<char>>::empty());
        while i < paths.len()
            invariant
                i <= paths.len(),
                paths@.len() == exists@.len(),
                found == exists@.take(i as int).filter(|e: bool| e).len(),
                views(missing_paths@) == missing(views(paths@).take(i as int), exists@.take(i as int)),
            decreases paths.len() - i,
        {
            proof {
                reveal_with_fuel(Seq::<bool>::filter, 1);
                assert(exists@.take(i + 1).drop_last() =~= exists@.take(i as int));
                assert(views(paths@).take(i + 1).drop_last() =~= views(paths@).take(i as int));
            }
            if exists[i] {
                found = found + 1;
            } else {
                let ghost before = missing_paths@;
                missing_paths.push(crate::text::copy_string(&paths[i]));
                assert(views(missing_paths@) =~= views(before).push(paths@[i as int]@));
            }
            i = i + 1;
        }
        assert(exists@.take(paths.len() as int) =~= exists@);
        assert(views(paths@).take(paths.len() as int) =~= views(paths@));
        self.paths_found = found;
        self.paths_total = paths.len();
        self.missing_paths = missing_paths;
    }
}

/// The paths whose existence flag is false, in order.
pub open spec fn missing(paths: Seq<Seq<char>>, exists: Seq<bool>) -> Seq<Seq<char>>
    decreases paths.len(),
{
    if paths.len() == 0 || exists.len() == 0 {
        seq![]
    } else if exists.last() {
        missing(paths.drop_last(), exists.drop_last())
    } else {
        missing(paths.drop_last(), exists.drop_last()).push(paths.last())
    }
}

/// A result with exit code 0 passes validation: the exit code never hides
/// a failed check.
pub proof fn law_success_exit_code_means_valid(r: &ValidationResult)
    ensures
        r.exit_code_spec() == 0 ==> r.valid_spec(),
        !r.valid_spec() ==> r.exit_code_spec() != 0,
{
}

/// The message for a configuration without an id.
pub open spec fn missing_id_message() -> Seq<char> {
    "Missing required field: 'id'"@
}

/// The message for an empty provider list.
pub open spec fn empty_providers_message() -> Seq<char> {
    "Field 'providers' is empty (should contain at least one provider)"@
}

/// The message for a provider without a name (numbered from 1).
pub open spec fn empty_name_message(n: nat) -> Seq<char> {
    "Provider #"@ + decimal(n) + " has empty 'name'"@
}

/// The message for a provider whose URL is not HTTP(S).
pub open spec fn bad_url_message(n: nat, url: Seq<char>) -> Seq<char> {
    "Provider #"@ + decimal(n) + " has invalid URL '"@ + url + "': must start with http:// or https://"@
}

/// Whether a URL is HTTP(S).
pub open spec fn is_http(url: Seq<char>) -> bool {
    starts_with(url, "http://"@) || starts_with(url, "https://"@)
}

/// The messages about the providers `ps`, numbered from `first`.
pub open spec fn provider_errors(ps: Seq<(Seq<char>, Option<Seq<char>>)>, first: nat) -> Seq<Seq<char>>
    decreases ps.len(),
{
    if ps.len() == 0 {
        seq![]
    } else {
        let (name, url) = ps[0];
        let a = if trim(name).len() == 0 { seq![empty_name_message(first)] } else { seq![] };
        let b = match url {
            Some(u) => if is_http(u) { seq![] } else { seq![bad_url_message(first, u)] },
            None => seq![],
        };
        a + b + provider_errors(ps.drop_first(), first + 1)
    }
}

/// The name and URL of each provider.
pub open spec fn provider_fields(ps: Seq<ProviderConfig>) -> Seq<(Seq<char>, Option<Seq<char>>)> {
    ps.map_values(|p: ProviderConfig| (p.name@, opt_view(p.url)))
}

/// The semantic errors of a collection configuration: a missing or blank
/// id, an empty provider list, providers without a name, provider URLs that
/// are not HTTP(S).
pub open spec fn semantic_errors(id: Option<Seq<char>>, providers: Option<Seq<(Seq<char>, Option<Seq<char>>)>>) -> Seq<Seq<char>> {
    let a = match id {
        Some(s) => if trim(s).len() == 0 { seq![missing_id_message()] } else { seq![] },
        None => seq![missing_id_message()],
    };
    let b = match providers {
        Some(ps) => (if ps.len() == 0 { seq![empty_providers_message()] } else { seq![] }) + provider_errors(ps, 1),
        None => seq![],
    };
    a + b
}

/// Whether a string is blank after trimming.
fn is_blank(s: &str) -> (r: bool)
    ensures
        r == (trim(s@).len() == 0),
{
    let v = chars_of(s);
    let (lo, hi) = trim_bounds(&v);
    lo == hi
}

/// Checks the semantic content of a collection configuration (its id and
/// providers), returning one message per problem.
pub fn config_semantic_errors(id: &Option<String>, providers: &Option<Vec<ProviderConfig>>) -> (r: Vec<String>)
    ensures
        views(r@) == semantic_errors(
            opt_view(*id),
            match *providers {
                Some(ps) => Some(provider_fields(ps@)),
                None => None,
            },
        ),
{
    let mut r: Vec<String> = Vec::new();
    let blank_id = match id {
        Some(s) => is_blank(s.as_str()),
        None => true,
    };
    if blank_id {
        r.push(owned("Missing required field: 'id'"));
    }
    assert(views(r@) =~= semantic_errors(opt_view(*id), None));
    if let Some(ps) = providers {
        let ghost fields = provider_fields(ps@);
        let ghost base = views(r@);
        if ps.len() == 0 {
            r.push(owned("Field 'providers' is empty (should contain at least one provider)"));
        }
        let ghost head = views(r@);
        let mut i: usize = 0;
        assert(fields.skip(0) =~= fields);
        while i < ps.len()
            invariant
                i <= ps.len(),
                fields == provider_fields(ps@),
                head + provider_errors(fields, 1) == views(r@) + provider_errors(fields.skip(i as int), i as nat + 1),
            decreases ps.len() - i,
        {
            let ghost rest = fields.skip(i as int);
            assert(rest.drop_first() =~= fields.skip(i + 1));
            assert(rest[0] == (ps@[i as int].name@, opt_view(ps@[i as int].url)));
            let ghost before = views(r@);
            let n = decimal_string((i + 1) as u64);
            if is_blank(ps[i].name.as_str()) {
                let mut m = owned("Provider #");
                push_str(&mut m, n.as_str());
                push_str(&mut m, " has empty 'name'");
                r.push(m);
            }
            let ghost mid = views(r@);
            if let Some(url) = &ps[i].url {
                if !(starts_with_str(url.as_str(), "http://") || starts_with_str(url.as_str(), "https://")) {
                    let mut m = owned("Provider #");
                    push_str(&mut m, n.as_str());
                    push_str(&mut m, " has invalid URL '");
                    push_str(&mut m, url.as_str());
                    push_str(&mut m, "': must start with http:// or https://");
                    r.push(m);
                }
            }
            proof {
                let (name, url) = rest[0];
                let a = if trim(name).len() == 0 { seq![empty_name_message(i as nat + 1)] } else { seq![] };
                let b = match url {
                    Some(u) => if is_http(u) { seq![] } else { seq![bad_url_message(i as nat + 1, u)] },
                    None => seq![],
                };
                assert(mid =~= before + a);
                assert(views(r@) =~= before + a + b);
                assert(provider_errors(rest, i as nat + 1) == a + b + provider_errors(fields.skip(i + 1), i as nat + 2));
                assert(before + provider_errors(rest, i as nat + 1) =~= views(r@) + provider_errors(fields.skip(i + 1), i as nat + 2));
            }
            i = i + 1;
        }
        assert(fields.skip(ps.len() as int) =~= Seq::<(Seq<char>, Option<Seq<char>>)>::empty());
        assert(views(r@) + Seq::<Seq<char>>::empty() =~= views(r@));
        assert(head =~= base + (if fields.len() == 0 { seq![empty_providers_message()] } else { seq![] }));
        assert(views(r@) =~= base + ((if fields.len() == 0 { seq![empty_providers_message()] } else { seq![] }) + provider_errors(fields, 1)));
    }
    r
}

/// The configuration error text for a list of semantic errors.
pub open spec fn semantic_error_text(errors: Seq<Seq<char>>) -> Seq<char> {
    "Semantic errors:\n  "@ + joined(errors, "\n  "@)
}

/// The strings of `parts` joined with `sep` between them.
pub open spec fn joined(parts: Seq<Seq<char>>, sep: Seq<char>) -> Seq<char>
    decreases parts.len(),
{
    if parts.len() == 0 {
        seq![]
    } else if parts.len() == 1 {
        parts[0]
    } else {
        joined(parts.drop_last(), sep) + sep + parts.last()
    }
}

/// Joins strings with a separator between them.
pub fn join(parts: &Vec<String>, sep: &str) -> (r: String)
    ensures
        r@ == joined(views(parts@), sep@),
{
    let mut r = String::new();
    let mut i: usize = 0;
    while i < parts.len()
        invariant
            i <= parts.len(),
            r@ == joined(views(parts@).take(i as int), sep@),
        decreases parts.len() - i,
    {
        let ghost pre = views(parts@).take(i + 1);
        assert(pre.drop_last() =~= views(parts@).take(i as int));
        if i > 0 {
            push_str(&mut r, sep);
        } else {
            assert(r@ =~= Seq::<char>::empty());
        }
        push_str(&mut r, parts[i].as_str());
        assert(r@ =~= joined(pre, sep@));
        i = i + 1;
    }
    assert(views(parts@).take(parts.len() as int) =~= views(parts@));
    r
}

impl ValidationResult {
    /// Records the outcome of reading a configuration file: a syntax error
    /// message, or the semantic errors of the content (none: valid).
    pub fn record_config(&mut self, syntax_error: Option<String>, semantic: &Vec<String>)
        ensures
            final(self).config_valid == (syntax_error is None && semantic@.len() == 0),
            syntax_error is Some ==> opt_view(final(self).config_error) == opt_view(syntax_error),
            syntax_error is None && semantic@.len() > 0 ==> opt_view(final(self).config_error) == Some(
                semantic_error_text(views(semantic@)),
            ),
            syntax_error is None && semantic@.len() == 0 ==> final(self).config_error == old(self).config_error,
            final(self).missing_paths@ == old(self).missing_paths@,
            final(self).base_url_valid == old(self).base_url_valid,
            final(self).base_url_error == old(self).base_url_error,
            final(self).remote_url_errors@ == old(self).remote_url_errors@,
    {
        match syntax_error {
            Some(e) => {
                self.config_valid = false;
                self.config_error = Some(e);
            },
            None => {
                if semantic.len() > 0 {
                    self.config_valid = false;
                    let mut m = owned("Semantic errors:\n  ");
                    let body = join(semantic, "\n  ");
                    push_str(&mut m, body.as_str());
                    self.config_error = Some(m);
                } else {
                    self.config_valid = true;
                }
            },
        }
    }
}

/// Whether an optional text is absent or blank.
pub open spec fn missing_text(o: Option<Seq<char>>) -> bool {
    match o {
        Some(s) => trim(s).len() == 0,
        None => true,
    }
}

/// The semantic errors of a catalog configuration: a missing id, and a
/// missing title or description (recommended).
pub open spec fn catalog_errors(id: Option<Seq<char>>, title: Option<Seq<char>>, description: Option<Seq<char>>) -> Seq<Seq<char>> {
    (if missing_text(id) { seq!["Missing required field: 'id'"@] } else { seq![] })
        + (if missing_text(title) { seq!["Missing recommended field: 'title'"@] } else { seq![] })
        + (if missing_text(description) { seq!["Missing recommended field: 'description'"@] } else { seq![] })
}

/// Whether an optional text is absent or blank.
fn is_missing(o: &Option<String>) -> (r: bool)
    ensures
        r == missing_text(opt_view(*o)),
{
    match o {
        Some(s) => is_blank(s.as_str()),
        None => true,
    }
}

/// Checks the semantic content of a catalog configuration.
pub fn catalog_semantic_errors(config: &crate::config::CatalogConfigFile) -> (r: Vec<String>)
    ensures
        views(r@) == catalog_errors(opt_view(config.id), opt_view(config.title), opt_view(config.description)),
{
    let mut r: Vec<String> = Vec::new();
    if is_missing(&config.id) {
        r.push(owned("Missing required field: 'id'"));
    }
    if is_missing(&config.title) {
        r.push(owned("Missing recommended field: 'title'"));
    }
    if is_missing(&config.description) {
        r.push(owned("Missing recommended field: 'description'"));
    }
    assert(views(r@) =~= catalog_errors(opt_view(config.id), opt_view(config.title), opt_view(config.description)));
    r
}

/// The exit code of a catalog dry run once its configuration passed: 0 when
/// every input exists, 2 otherwise.
pub fn catalog_dry_run_exit_code(missing_inputs: usize) -> (r: i32)
    ensures
        r == (if missing_inputs == 0 { 0i32 } else { 2i32 }),
{
    if missing_inputs == 0 {
        0
    } else {
        2
    }
}

} // verus!
