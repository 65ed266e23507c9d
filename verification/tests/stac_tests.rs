use city3d_stac::epsg::{is_northing_first_projected, is_wgs84_equivalent_geographic, resolve_horizontal_epsg};
use city3d_stac::progress::Summary;
use city3d_stac::stac::{Asset, City3dProperties, Link, StacCatalogBuilder};
use city3d_stac::stac::relink_to_catalog;

#[test]
fn test_resolve_horizontal_epsg() {
    assert_eq!(resolve_horizontal_epsg(7415), 28992);
    assert_eq!(resolve_horizontal_epsg(9518), 25832);
    assert_eq!(resolve_horizontal_epsg(6697), 6668);
    assert_eq!(resolve_horizontal_epsg(28992), 28992);
    assert_eq!(resolve_horizontal_epsg(4326), 4326);
}

#[test]
fn horizontal_resolution_is_idempotent_and_axis_facts() {
    for code in [7415, 9518, 9519, 6150, 5775, 6190, 6697, 28992, 4326] {
        let once = resolve_horizontal_epsg(code);
        assert_eq!(resolve_horizontal_epsg(once), once);
    }
    assert!(is_wgs84_equivalent_geographic(4326));
    assert!(is_wgs84_equivalent_geographic(4979));
    assert!(is_wgs84_equivalent_geographic(6668));
    assert!(!is_wgs84_equivalent_geographic(28992));
    assert!(is_northing_first_projected(3301));
    assert!(!is_northing_first_projected(28992));
}

#[test]
fn catalog_builder_collects_links_in_order() {
    let catalog = StacCatalogBuilder::new("root", "All collections")
        .title("Root")
        .self_link("./catalog.json")
        .root_link("./catalog.json")
        .child_link("./a/collection.json", Some("A".to_string()))
        .add_link(Link::new("https://x", "license"))
        .build();
    assert_eq!(catalog.id, "root");
    assert_eq!(catalog.description, "All collections");
    assert_eq!(catalog.title, Some("Root".to_string()));
    assert_eq!(catalog.links.len(), 4);
    assert_eq!(catalog.links[0].rel, "self");
    assert_eq!(catalog.links[1].rel, "root");
    assert_eq!(catalog.links[2].rel, "child");
    assert_eq!(catalog.links[2].title, Some("A".to_string()));
    assert_eq!(catalog.links[3].href, "https://x");
}

#[test]
fn links_and_assets() {
    let link = Link::item("./i.json").with_media_type(Some("application/geo+json".to_string()));
    assert_eq!(link.rel, "item");
    assert_eq!(link.media_type, Some("application/geo+json".to_string()));
    assert_eq!(Link::collection("c").rel, "collection");
    assert_eq!(Link::parent("p").rel, "parent");
    let asset = Asset::new("./d.json").with_title("Data").with_roles(vec!["data".to_string()]);
    assert_eq!(asset.title, Some("Data".to_string()));
    assert_eq!(asset.roles, vec!["data".to_string()]);
    let p = City3dProperties::new();
    assert!(p.version.is_none() && p.lods.is_empty() && p.attributes.is_empty());
}

#[test]
fn summary_rows_and_key_width() {
    let s = Summary::new().add("Catalog", "out/catalog.json").add("Collections", "3");
    assert_eq!(s.rows.len(), 2);
    assert_eq!(s.rows[1].0, "Collections");
    assert_eq!(s.key_width(), 11);
    assert_eq!(Summary::new().key_width(), 0);
    assert_eq!(Summary::new().add("Größe", "1").key_width(), 7);
}

#[test]
fn relinking_to_a_catalog_is_idempotent() {
    let links = vec![
        Link::new("./collection.json", "self"),
        Link::new("../old.json", "parent"),
        Link::new("../old.json", "root"),
        Link::new("./items/a_item.json", "item"),
    ];
    let once = relink_to_catalog(&links, "../catalog.json", &None);
    let rels: Vec<&str> = once.iter().map(|l| l.rel.as_str()).collect();
    assert_eq!(rels, vec!["self", "item", "parent", "root"]);
    assert_eq!(once[2].href, "../catalog.json");
    let twice = relink_to_catalog(&once, "../catalog.json", &None);
    assert_eq!(
        once.iter().map(|l| (l.href.clone(), l.rel.clone())).collect::<Vec<_>>(),
        twice.iter().map(|l| (l.href.clone(), l.rel.clone())).collect::<Vec<_>>()
    );
    let typed = relink_to_catalog(&links, "https://x/catalog.json", &Some("application/json".to_string()));
    assert_eq!(typed[3].media_type, Some("application/json".to_string()));
}

#[test]
fn only_parent_and_root_links_point_up() {
    assert!(city3d_stac::stac::points_up("parent"));
    assert!(city3d_stac::stac::points_up("root"));
    assert!(!city3d_stac::stac::points_up("self"));
    assert!(!city3d_stac::stac::points_up("Parent"));
}
