//! Configuration of catalogs and collections: the values read from a
//! configuration file, and how command-line arguments override them.
use vstd::prelude::*;
use crate::crs::opt_view;
use crate::stac::Provider;
use crate::text::views;

verus! {

/// Inputs given either inline or as a file with one input per line.
pub enum InputsConfig {
    /// Direct list of input paths/URLs.
    Inline(Vec<String>),
    /// Reference to a file containing input paths/URLs (one per line).
    FromFile { from_file: String },
}

/// Provider configuration from a configuration file.
pub struct ProviderConfig {
    pub name: String,
    pub url: Option<String>,
    pub roles: Option<Vec<String>>,
    pub description: Option<String>,
}

impl From<ProviderConfig> for Provider {
    fn from(config: ProviderConfig) -> (r: Self) {
        Provider { name: config.name, description: config.description, roles: config.roles, url: config.url }
    }
}

impl vstd::std_specs::convert::FromSpecImpl<ProviderConfig> for Provider {
    open spec fn obeys_from_spec() -> bool {
        true
    }

    open spec fn from_spec(config: ProviderConfig) -> Provider {
        Provider { name: config.name, description: config.description, roles: config.roles, url: config.url }
    }
}

/// Temporal extent configuration (RFC 3339 datetimes; no end: open-ended).
pub struct TemporalExtentConfig {
    pub start: Option<String>,
    pub end: Option<String>,
}

/// A link declared in a configuration file.
pub struct LinkConfig {
    pub rel: String,
    pub href: String,
    pub link_type: Option<String>,
    pub title: Option<String>,
}

/// A collection-level asset declared in a configuration file.
pub struct AssetConfig {
    pub href: String,
    pub media_type: Option<String>,
    pub title: Option<String>,
    pub description: Option<String>,
    pub roles: Option<Vec<String>>,
}

/// Catalog configuration from a YAML or TOML file.
pub struct CatalogConfigFile {
    pub id: Option<String>,
    pub title: Option<String>,
    pub description: Option<String>,
    pub collections: Option<Vec<String>>,
    pub base_url: Option<String>,
    pub concurrency: Option<usize>,
}

/// Command-line arguments that override a collection configuration.
pub struct CollectionCliArgs {
    pub id: Option<String>,
    pub title: Option<String>,
    pub description: Option<String>,
    pub license: Option<String>,
    pub base_url: Option<String>,
    pub concurrency: Option<usize>,
}

/// Command-line arguments that override a catalog configuration.
pub struct CatalogCliArgs {
    pub id: Option<String>,
    pub title: Option<String>,
    pub description: Option<String>,
    pub base_url: Option<String>,
    pub concurrency: Option<usize>,
}

/// The content of a catalog configuration.
pub struct CatalogConfigView {
    pub id: Option<Seq<char>>,
    pub title: Option<Seq<char>>,
    pub description: Option<Seq<char>>,
    pub collections: Option<Seq<Seq<char>>>,
    pub base_url: Option<Seq<char>>,
    pub concurrency: Option<usize>,
}

/// The content of the catalog overrides given on the command line.
pub struct CatalogCliView {
    pub id: Option<Seq<char>>,
    pub title: Option<Seq<char>>,
    pub description: Option<Seq<char>>,
    pub base_url: Option<Seq<char>>,
    pub concurrency: Option<usize>,
}

/// The views of an optional list of strings.
pub open spec fn opt_views(o: Option<Vec<String>>) -> Option<Seq<Seq<char>>> {
    match o {
        Some(v) => Some(views(v@)),
        None => None,
    }
}

impl View for CatalogConfigFile {
    type V = CatalogConfigView;

    open spec fn view(&self) -> CatalogConfigView {
        CatalogConfigView {
            id: opt_view(self.id),
            title: opt_view(self.title),
            description: opt_view(self.description),
            collections: opt_views(self.collections),
            base_url: opt_view(self.base_url),
            concurrency: self.concurrency,
        }
    }
}

impl View for CatalogCliArgs {
    type V = CatalogCliView;

    open spec fn view(&self) -> CatalogCliView {
        CatalogCliView {
            id: opt_view(self.id),
            title: opt_view(self.title),
            description: opt_view(self.description),
            base_url: opt_view(self.base_url),
            concurrency: self.concurrency,
        }
    }
}

/// The first present value of two.
pub open spec fn first_some<A>(preferred: Option<A>, fallback: Option<A>) -> Option<A> {
    match preferred {
        Some(x) => Some(x),
        None => fallback,
    }
}

/// A catalog configuration with the command-line values put over it: each
/// value given on the command line wins, the others stay as configured.
pub open spec fn merged_catalog_config(file: CatalogConfigView, cli: CatalogCliView) -> CatalogConfigView {
    CatalogConfigView {
        id: first_some(cli.id, file.id),
        title: first_some(cli.title, file.title),
        description: first_some(cli.description, file.description),
        collections: file.collections,
        base_url: first_some(cli.base_url, file.base_url),
        concurrency: first_some(cli.concurrency, file.concurrency),
    }
}

/// A copy of an optional string (the command-line values are borrowed).
fn clone_opt(o: &Option<String>) -> (r: Option<String>)
    ensures
        opt_view(r) == opt_view(*o),
{
    crate::crs::copy_opt_string(o)
}

/// The preferred value when present, else the fallback.
fn or_opt<A>(preferred: Option<A>, fallback: Option<A>) -> (r: Option<A>)
    ensures
        r == first_some(preferred, fallback),
{
    match preferred {
        Some(x) => Some(x),
        None => fallback,
    }
}

/// The view of the first present string of two.
proof fn lemma_or_opt_view(a: Option<String>, b: Option<String>)
    ensures
        opt_view(first_some(a, b)) == first_some(opt_view(a), opt_view(b)),
{
}

impl CatalogConfigFile {
    /// Merges with command-line arguments: the command line takes precedence.
    pub fn merge_with_cli(self, cli_args: &CatalogCliArgs) -> (r: Self)
        ensures
            r@ == merged_catalog_config(self@, cli_args@),
    {
        let ghost s = self;
        let id = clone_opt(&cli_args.id);
        let title = clone_opt(&cli_args.title);
        let description = clone_opt(&cli_args.description);
        let base_url = clone_opt(&cli_args.base_url);
        proof {
            lemma_or_opt_view(id, s.id);
            lemma_or_opt_view(title, s.title);
            lemma_or_opt_view(description, s.description);
            lemma_or_opt_view(base_url, s.base_url);
        }
        CatalogConfigFile {
            id: or_opt(id, self.id),
            title: or_opt(title, self.title),
            description: or_opt(description, self.description),
            collections: self.collections,
            base_url: or_opt(base_url, self.base_url),
            concurrency: or_opt(cli_args.concurrency, self.concurrency),
        }
    }
}

/// With no override on the command line, merging leaves the configuration
/// as it is.
pub proof fn law_merge_without_overrides_is_identity(file: CatalogConfigView)
    ensures
        merged_catalog_config(
            file,
            CatalogCliView { id: None, title: None, description: None, base_url: None, concurrency: None },
        ) == file,
{
}

/// Merging the same command-line arguments twice is merging them once.
pub proof fn law_merge_idempotent(file: CatalogConfigView, cli: CatalogCliView)
    ensures
        merged_catalog_config(merged_catalog_config(file, cli), cli) == merged_catalog_config(file, cli),
{
}

/// Every value given on the command line is the merged value.
pub proof fn law_cli_takes_precedence(file: CatalogConfigView, cli: CatalogCliView)
    ensures
        cli.id is Some ==> merged_catalog_config(file, cli).id == cli.id,
        cli.title is Some ==> merged_catalog_config(file, cli).title == cli.title,
        cli.description is Some ==> merged_catalog_config(file, cli).description == cli.description,
        cli.base_url is Some ==> merged_catalog_config(file, cli).base_url == cli.base_url,
        cli.concurrency is Some ==> merged_catalog_config(file, cli).concurrency == cli.concurrency,
        merged_catalog_config(file, cli).collections == file.collections,
{
}


/// The scalar part of a collection configuration: the values that the
/// command line can override. (The extent, summaries, links and assets of
/// a collection configuration pass through a merge unchanged.)
pub struct CollectionSettings {
    pub id: Option<String>,
    pub title: Option<String>,
    pub description: Option<String>,
    pub license: Option<String>,
    pub base_url: Option<String>,
    pub concurrency: Option<usize>,
}

/// The content of collection settings, or of the collection overrides given
/// on the command line.
pub struct CollectionSettingsView {
    pub id: Option<Seq<char>>,
    pub title: Option<Seq<char>>,
    pub description: Option<Seq<char>>,
    pub license: Option<Seq<char>>,
    pub base_url: Option<Seq<char>>,
    pub concurrency: Option<usize>,
}

impl View for CollectionSettings {
    type V = CollectionSettingsView;

    open spec fn view(&self) -> CollectionSettingsView {
        CollectionSettingsView {
            id: opt_view(self.id),
            title: opt_view(self.title),
            description: opt_view(self.description),
            license: opt_view(self.license),
            base_url: opt_view(self.base_url),
            concurrency: self.concurrency,
        }
    }
}

impl View for CollectionCliArgs {
    type V = CollectionSettingsView;

    open spec fn view(&self) -> CollectionSettingsView {
        CollectionSettingsView {
            id: opt_view(self.id),
            title: opt_view(self.title),
            description: opt_view(self.description),
            license: opt_view(self.license),
            base_url: opt_view(self.base_url),
            concurrency: self.concurrency,
        }
    }
}

/// Collection settings with the command-line values put over them.
pub open spec fn merged_collection_settings(file: CollectionSettingsView, cli: CollectionSettingsView) -> CollectionSettingsView {
    CollectionSettingsView {
        id: first_some(cli.id, file.id),
        title: first_some(cli.title, file.title),
        description: first_some(cli.description, file.description),
        license: first_some(cli.license, file.license),
        base_url: first_some(cli.base_url, file.base_url),
        concurrency: first_some(cli.concurrency, file.concurrency),
    }
}

impl CollectionSettings {
    /// Merges with command-line arguments: the command line takes precedence.
    pub fn merge_with_cli(self, cli_args: &CollectionCliArgs) -> (r: Self)
        ensures
            r@ == merged_collection_settings(self@, cli_args@),
    {
        let ghost s = self;
        let id = clone_opt(&cli_args.id);
        let title = clone_opt(&cli_args.title);
        let description = clone_opt(&cli_args.description);
        let license = clone_opt(&cli_args.license);
        let base_url = clone_opt(&cli_args.base_url);
        proof {
            lemma_or_opt_view(id, s.id);
            lemma_or_opt_view(title, s.title);
            lemma_or_opt_view(description, s.description);
            lemma_or_opt_view(license, s.license);
            lemma_or_opt_view(base_url, s.base_url);
        }
        CollectionSettings {
            id: or_opt(id, self.id),
            title: or_opt(title, self.title),
            description: or_opt(description, self.description),
            license: or_opt(license, self.license),
            base_url: or_opt(base_url, self.base_url),
            concurrency: or_opt(cli_args.concurrency, self.concurrency),
        }
    }
}

/// For collections too, every value given on the command line is the
/// merged value, and merging the same arguments twice is merging them once.
pub proof fn law_collection_cli_takes_precedence(file: CollectionSettingsView, cli: CollectionSettingsView)
    ensures
        cli.id is Some ==> merged_collection_settings(file, cli).id == cli.id,
        cli.title is Some ==> merged_collection_settings(file, cli).title == cli.title,
        cli.description is Some ==> merged_collection_settings(file, cli).description == cli.description,
        cli.license is Some ==> merged_collection_settings(file, cli).license == cli.license,
        cli.base_url is Some ==> merged_collection_settings(file, cli).base_url == cli.base_url,
        cli.concurrency is Some ==> merged_collection_settings(file, cli).concurrency == cli.concurrency,
        merged_collection_settings(merged_collection_settings(file, cli), cli) == merged_collection_settings(file, cli),
{
}

} // verus!
