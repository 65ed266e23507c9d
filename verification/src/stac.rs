//! The STAC document parts this library assembles: links, assets, catalogs
//! and the `city3d:*` property set.
use vstd::prelude::*;
use crate::attributes::AttributeDefinition;
use crate::crs::opt_view;
use crate::text::{views, copy_string};

verus! {

/// City object count: a single count for an Item, or statistics over the
/// datasets of a Collection.
#[derive(Debug, Clone, Copy, PartialEq, Eq, Structural)]
pub enum CityObjectsCount {
    Integer(u64),
    Statistics { min: u64, max: u64, total: u64 },
}

impl CityObjectsCount {
    /// The number of objects this count contributes to a collection total.
    pub open spec fn total_spec(self) -> u64 {
        match self {
            CityObjectsCount::Integer(n) => n,
            CityObjectsCount::Statistics { total, .. } => total,
        }
    }

    /// The number of objects this count contributes to a collection total.
    pub fn total(&self) -> (r: u64)
        ensures
            r == self.total_spec(),
    {
        match self {
            CityObjectsCount::Integer(n) => *n,
            CityObjectsCount::Statistics { total, .. } => *total,
        }
    }
}

/// A borrowed string as an owned one.
pub fn owned(s: &str) -> (r: String)
    ensures
        r@ == s@,
{
    s.to_string()
}

/// A STAC Link.
pub struct Link {
    pub href: String,
    pub rel: String,
    pub media_type: Option<String>,
    pub title: Option<String>,
}

/// The content of a link.
pub struct LinkView {
    pub href: Seq<char>,
    pub rel: Seq<char>,
    pub media_type: Option<Seq<char>>,
    pub title: Option<Seq<char>>,
}

impl View for Link {
    type V = LinkView;

    open spec fn view(&self) -> LinkView {
        LinkView {
            href: self.href@,
            rel: self.rel@,
            media_type: opt_view(self.media_type),
            title: opt_view(self.title),
        }
    }
}

/// A link to `href` with relation `rel` and nothing else.
pub open spec fn plain_link(href: Seq<char>, rel: Seq<char>) -> LinkView {
    LinkView { href, rel, media_type: None, title: None }
}

impl Link {
    /// A link with an explicit relation type.
    pub fn new(href: &str, rel: &str) -> (r: Self)
        ensures
            r@ == plain_link(href@, rel@),
    {
        Link { href: owned(href), rel: owned(rel), media_type: None, title: None }
    }

    /// Sets the link's media type.
    pub fn with_media_type(self, media_type: Option<String>) -> (r: Self)
        ensures
            r@ == (LinkView { media_type: opt_view(media_type), ..self@ }),
    {
        Link { media_type, ..self }
    }

    /// A `collection` link.
    pub fn collection(href: &str) -> (r: Self)
        ensures
            r@ == plain_link(href@, "collection"@),
    {
        Self::new(href, "collection")
    }

    /// A `parent` link.
    pub fn parent(href: &str) -> (r: Self)
        ensures
            r@ == plain_link(href@, "parent"@),
    {
        Self::new(href, "parent")
    }

    /// A `root` link.
    pub fn root(href: &str) -> (r: Self)
        ensures
            r@ == plain_link(href@, "root"@),
    {
        Self::new(href, "root")
    }

    /// A `self` link.
    pub fn self_(href: &str) -> (r: Self)
        ensures
            r@ == plain_link(href@, "self"@),
    {
        Self::new(href, "self")
    }

    /// An `item` link.
    pub fn item(href: &str) -> (r: Self)
        ensures
            r@ == plain_link(href@, "item"@),
    {
        Self::new(href, "item")
    }

    /// A copy of this link.
    pub fn copy(&self) -> (r: Self)
        ensures
            r@ == self@,
    {
        Link {
            href: copy_string(&self.href),
            rel: copy_string(&self.rel),
            media_type: crate::crs::copy_opt_string(&self.media_type),
            title: crate::crs::copy_opt_string(&self.title),
        }
    }

    /// A `child` link.
    pub fn child(href: &str) -> (r: Self)
        ensures
            r@ == plain_link(href@, "child"@),
    {
        Self::new(href, "child")
    }
}

/// A STAC Asset.
pub struct Asset {
    pub href: String,
    pub title: Option<String>,
    pub description: Option<String>,
    pub media_type: Option<String>,
    pub roles: Vec<String>,
}

/// The content of an asset.
pub struct AssetView {
    pub href: Seq<char>,
    pub title: Option<Seq<char>>,
    pub description: Option<Seq<char>>,
    pub media_type: Option<Seq<char>>,
    pub roles: Seq<Seq<char>>,
}

impl View for Asset {
    type V = AssetView;

    open spec fn view(&self) -> AssetView {
        AssetView {
            href: self.href@,
            title: opt_view(self.title),
            description: opt_view(self.description),
            media_type: opt_view(self.media_type),
            roles: views(self.roles@),
        }
    }
}

impl Asset {
    /// A new asset at `href` with no other content.
    pub fn new(href: &str) -> (r: Self)
        ensures
            r@ == (AssetView { href: href@, title: None, description: None, media_type: None, roles: Seq::empty() }),
    {
        let r = Asset { href: owned(href), title: None, description: None, media_type: None, roles: Vec::new() };
        assert(views(r.roles@) =~= Seq::<Seq<char>>::empty());
        r
    }

    /// Sets the asset's media type.
    pub fn with_media_type(self, media_type: &str) -> (r: Self)
        ensures
            r@ == (AssetView { media_type: Some(media_type@), ..self@ }),
    {
        Asset { media_type: Some(owned(media_type)), ..self }
    }

    /// Sets the asset's title.
    pub fn with_title(self, title: &str) -> (r: Self)
        ensures
            r@ == (AssetView { title: Some(title@), ..self@ }),
    {
        Asset { title: Some(owned(title)), ..self }
    }

    /// Sets the asset's roles.
    pub fn with_roles(self, roles: Vec<String>) -> (r: Self)
        ensures
            r@ == (AssetView { roles: views(roles@), ..self@ }),
    {
        Asset { roles, ..self }
    }
}

/// A STAC Catalog: an identified, described set of links.
pub struct Catalog {
    pub id: String,
    pub title: Option<String>,
    pub description: String,
    pub links: Vec<Link>,
}

/// The views of a vector of links.
pub open spec fn link_views(v: Seq<Link>) -> Seq<LinkView> {
    v.map_values(|l: Link| l@)
}

/// The content of a catalog.
pub struct CatalogView {
    pub id: Seq<char>,
    pub title: Option<Seq<char>>,
    pub description: Seq<char>,
    pub links: Seq<LinkView>,
}

impl View for Catalog {
    type V = CatalogView;

    open spec fn view(&self) -> CatalogView {
        CatalogView {
            id: self.id@,
            title: opt_view(self.title),
            description: self.description@,
            links: link_views(self.links@),
        }
    }
}

impl Catalog {
    /// A catalog with an id and a description, and no title or links.
    pub fn new(id: &str, description: &str) -> (r: Self)
        ensures
            r@ == (CatalogView { id: id@, title: None, description: description@, links: Seq::empty() }),
    {
        let r = Catalog { id: owned(id), title: None, description: owned(description), links: Vec::new() };
        assert(link_views(r.links@) =~= Seq::<LinkView>::empty());
        r
    }
}

/// Builder for STAC Catalogs.
pub struct StacCatalogBuilder {
    pub catalog: Catalog,
}

impl StacCatalogBuilder {
    /// A builder for a catalog with an id and a description.
    pub fn new(id: &str, description: &str) -> (r: Self)
        ensures
            r.catalog@ == (CatalogView { id: id@, title: None, description: description@, links: Seq::empty() }),
    {
        StacCatalogBuilder { catalog: Catalog::new(id, description) }
    }

    /// Sets the title.
    pub fn title(self, title: &str) -> (r: Self)
        ensures
            r.catalog@ == (CatalogView { title: Some(title@), ..self.catalog@ }),
    {
        let StacCatalogBuilder { catalog } = self;
        StacCatalogBuilder { catalog: Catalog { title: Some(owned(title)), ..catalog } }
    }

    /// Appends a link.
    pub fn add_link(self, link: Link) -> (r: Self)
        ensures
            r.catalog@ == (CatalogView { links: self.catalog@.links.push(link@), ..self.catalog@ }),
    {
        let StacCatalogBuilder { mut catalog } = self;
        let ghost before = catalog.links@;
        catalog.links.push(link);
        assert(link_views(catalog.links@) =~= link_views(before).push(link@));
        StacCatalogBuilder { catalog }
    }

    /// Appends a `child` link with an optional title.
    pub fn child_link(self, href: &str, title: Option<String>) -> (r: Self)
        ensures
            r.catalog@ == (CatalogView {
                links: self.catalog@.links.push(LinkView { title: opt_view(title), ..plain_link(href@, "child"@) }),
                ..self.catalog@
            }),
    {
        let link = Link::child(href);
        let link = Link { title, ..link };
        self.add_link(link)
    }

    /// Appends a `self` link.
    pub fn self_link(self, href: &str) -> (r: Self)
        ensures
            r.catalog@ == (CatalogView { links: self.catalog@.links.push(plain_link(href@, "self"@)), ..self.catalog@ }),
    {
        self.add_link(Link::self_(href))
    }

    /// Appends a `root` link.
    pub fn root_link(self, href: &str) -> (r: Self)
        ensures
            r.catalog@ == (CatalogView { links: self.catalog@.links.push(plain_link(href@, "root"@)), ..self.catalog@ }),
    {
        self.add_link(Link::root(href))
    }

    /// The catalog built so far.
    pub fn build(self) -> (r: Catalog)
        ensures
            r@ == self.catalog@,
    {
        self.catalog
    }
}

/// An organisation that provides or manages data.
pub struct Provider {
    pub name: String,
    pub description: Option<String>,
    pub roles: Option<Vec<String>>,
    pub url: Option<String>,
}

impl Provider {
    /// A provider with a name and nothing else.
    pub fn new(name: String) -> (r: Self)
        ensures
            r.name@ == name@,
            r.description is None,
            r.roles is None,
            r.url is None,
    {
        Provider { name, description: None, roles: None, url: None }
    }
}

/// The `city3d:*` extension fields of a dataset.
pub struct City3dProperties {
    pub version: Option<String>,
    pub lods: Vec<String>,
    pub co_types: Vec<String>,
    pub city_objects: Option<CityObjectsCount>,
    pub semantic_surfaces: Option<bool>,
    pub textures: Option<bool>,
    pub materials: Option<bool>,
    pub attributes: Vec<AttributeDefinition>,
}

impl City3dProperties {
    /// An empty property set.
    pub fn new() -> (r: Self)
        ensures
            r.version is None,
            r.lods@.len() == 0,
            r.co_types@.len() == 0,
            r.city_objects is None,
            r.semantic_surfaces is None,
            r.textures is None,
            r.materials is None,
            r.attributes@.len() == 0,
    {
        City3dProperties {
            version: None,
            lods: Vec::new(),
            co_types: Vec::new(),
            city_objects: None,
            semantic_surfaces: None,
            textures: None,
            materials: None,
            attributes: Vec::new(),
        }
    }
}

/// Whether a link is a `parent` or `root` link.
pub open spec fn is_parent_or_root(l: LinkView) -> bool {
    l.rel == "parent"@ || l.rel == "root"@
}

/// Whether a link relation is `parent` or `root`: the relations that
/// pointing a collection at a catalog replaces.
pub fn points_up(rel: &str) -> (r: bool)
    ensures
        r == (rel@ == "parent"@ || rel@ == "root"@),
{
    crate::text::str_eq(rel, "parent") || crate::text::str_eq(rel, "root")
}

/// A link to a catalog with relation `rel` and an optional media type.
pub open spec fn catalog_link(catalog_href: Seq<char>, rel: Seq<char>, media_type: Option<Seq<char>>) -> LinkView {
    LinkView { href: catalog_href, rel, media_type, title: None }
}

/// The links of a collection pointed at a catalog: every `parent` and `root`
/// link dropped, then a `parent` and a `root` link to the catalog added
/// (with the given media type).
pub open spec fn relinked(links: Seq<LinkView>, catalog_href: Seq<char>, media_type: Option<Seq<char>>) -> Seq<LinkView> {
    links.filter(|l: LinkView| !is_parent_or_root(l)).push(catalog_link(catalog_href, "parent"@, media_type)).push(
        catalog_link(catalog_href, "root"@, media_type),
    )
}

/// Points the links of a collection at a catalog: existing `parent` and
/// `root` links are dropped first, so that doing it again changes nothing.
pub fn relink_to_catalog(links: &Vec<Link>, catalog_href: &str, media_type: &Option<String>) -> (r: Vec<Link>)
    ensures
        link_views(r@) == relinked(link_views(links@), catalog_href@, opt_view(*media_type)),
{
    let ghost all = link_views(links@);
    let mut kept: Vec<Link> = Vec::new();
    let mut i: usize = 0;
    assert(all.take(0) =~= Seq::<LinkView>::empty());
    assert(link_views(kept@) =~= all.take(0).filter(|l: LinkView| !is_parent_or_root(l))) by {
        reveal_with_fuel(Seq::<LinkView>::filter, 1);
    }
    while i < links.len()
        invariant
            i <= links.len(),
            all == link_views(links@),
            link_views(kept@) == all.take(i as int).filter(|l: LinkView| !is_parent_or_root(l)),
        decreases links.len() - i,
    {
        proof {
            reveal_with_fuel(Seq::<LinkView>::filter, 1);
            assert(all.take(i + 1).drop_last() =~= all.take(i as int));
            assert(all.take(i + 1).last() == links@[i as int]@);
        }
        let l = &links[i];
        if !points_up(l.rel.as_str()) {
            let c = l.copy();
            let ghost before = kept@;
            kept.push(c);
            assert(link_views(kept@) =~= link_views(before).push(l@));
        }
        i = i + 1;
    }
    assert(all.take(links.len() as int) =~= all);
    let ghost before = kept@;
    kept.push(Link::parent(catalog_href).with_media_type(crate::crs::copy_opt_string(media_type)));
    kept.push(Link::root(catalog_href).with_media_type(crate::crs::copy_opt_string(media_type)));
    assert(link_views(kept@) =~= link_views(before).push(catalog_link(catalog_href@, "parent"@, opt_view(*media_type))).push(
        catalog_link(catalog_href@, "root"@, opt_view(*media_type)),
    ));
    kept
}

/// Pointing a collection at the same catalog twice is pointing it once.
pub proof fn law_relink_idempotent(links: Seq<LinkView>, catalog_href: Seq<char>, media_type: Option<Seq<char>>)
    ensures
        relinked(relinked(links, catalog_href, media_type), catalog_href, media_type) == relinked(
            links,
            catalog_href,
            media_type,
        ),
{
    let f = |l: LinkView| !is_parent_or_root(l);
    let once = relinked(links, catalog_href, media_type);
    let kept = links.filter(f);
    let p = catalog_link(catalog_href, "parent"@, media_type);
    let r = catalog_link(catalog_href, "root"@, media_type);
    assert(once == kept.push(p).push(r));
    lemma_filter_keeps_filtered(links);
    assert(kept.filter(f) == kept);
    assert(!f(p) && !f(r)) by {
        reveal_strlit("parent");
        reveal_strlit("root");
    }
    lemma_filter_push_dropped(kept, p);
    lemma_filter_push_dropped(kept.push(p), r);
    assert(once.filter(f) == kept);
}

/// Filtering twice is filtering once.
proof fn lemma_filter_keeps_filtered(s: Seq<LinkView>)
    ensures
        s.filter(|l: LinkView| !is_parent_or_root(l)).filter(|l: LinkView| !is_parent_or_root(l)) == s.filter(
            |l: LinkView| !is_parent_or_root(l),
        ),
    decreases s.len(),
{
    reveal_with_fuel(Seq::<LinkView>::filter, 1);
    if s.len() > 0 {
        lemma_filter_keeps_filtered(s.drop_last());
        let f = |l: LinkView| !is_parent_or_root(l);
        assert(s.filter(f) == if f(s.last()) {
            s.drop_last().filter(f).push(s.last())
        } else {
            s.drop_last().filter(f)
        });
        if f(s.last()) {
            assert(s.drop_last().filter(f).push(s.last()).drop_last() =~= s.drop_last().filter(f));
        }
    }
}

/// A dropped link added at the end is dropped again.
proof fn lemma_filter_push_dropped(s: Seq<LinkView>, x: LinkView)
    requires
        is_parent_or_root(x),
    ensures
        s.push(x).filter(|l: LinkView| !is_parent_or_root(l)) == s.filter(|l: LinkView| !is_parent_or_root(l)),
{
    reveal_with_fuel(Seq::<LinkView>::filter, 1);
    assert(s.push(x).drop_last() =~= s);
}

} // verus!
