use city3d_stac::plan::{
    check_config_only, cli_license, collection_id_for, concurrency_limit, failed_items_error, final_inputs,
    item_file_name, item_href, item_id_for, partition_inputs, stem_collision,
};
use city3d_stac::error::CityJsonStacError;
use city3d_stac::plan::update_item_links;
use city3d_stac::plan::{failure_action, source_action, SourceAction};
use city3d_stac::plan::{check_update_items, collection_description, require_spatial_extent, update_collection_id};

fn strings(v: &[&str]) -> Vec<String> {
    v.iter().map(|s| s.to_string()).collect()
}

#[test]
fn license_override_ignores_the_default() {
    assert_eq!(cli_license("proprietary"), None);
    assert_eq!(cli_license("MIT"), Some("MIT".to_string()));
}

#[test]
fn inputs_and_collection_id() {
    assert_eq!(final_inputs(&strings(&["a.json"]), Some(strings(&["b.json"]))), strings(&["a.json"]));
    assert_eq!(final_inputs(&vec![], Some(strings(&["b.json"]))), strings(&["b.json"]));
    assert!(final_inputs(&vec![], None).is_empty());
    assert_eq!(collection_id_for(&Some("given".to_string()), &strings(&["x/a.json"])), "given");
    assert_eq!(collection_id_for(&None, &strings(&["data/delft.city.json"])), "delft.city.json");
    assert_eq!(collection_id_for(&None, &vec![]), "collection");
}

#[test]
fn remote_and_local_inputs_are_separated_in_order() {
    let (remote, local) = partition_inputs(&strings(&["a.json", "https://x/b.json", "c.gml", "s3://d/e.json"]));
    assert_eq!(remote, strings(&["https://x/b.json", "s3://d/e.json"]));
    assert_eq!(local, strings(&["a.json", "c.gml"]));
}

#[test]
fn item_ids_carry_a_suffix_only_on_collision() {
    let stems = strings(&["delft", "delft", "rotterdam"]);
    assert!(stem_collision(&stems, "delft"));
    assert!(!stem_collision(&stems, "rotterdam"));
    assert_eq!(item_id_for("delft", true, "CityJSON"), "delft_cj");
    assert_eq!(item_id_for("delft", true, "CityJSONSeq"), "delft_cjseq");
    assert_eq!(item_id_for("delft", true, "FlatCityBuf"), "delft_fcb");
    assert_eq!(item_id_for("delft", true, "CityGML"), "delft");
    assert_eq!(item_id_for("delft", false, "CityJSON"), "delft");
    assert_eq!(item_file_name("delft_cj"), "delft_cj_item.json");
    assert_eq!(item_href("delft_cj_item.json"), "./items/delft_cj_item.json");
}

#[test]
fn concurrency_and_config_only_checks() {
    assert_eq!(concurrency_limit(Some(3), Some(16)), 3);
    assert_eq!(concurrency_limit(Some(0), Some(16)), 16);
    assert_eq!(concurrency_limit(None, None), 4);
    assert!(check_config_only(true, false).is_ok());
    assert!(check_config_only(false, true).is_ok());
    match check_config_only(false, false) {
        Err(CityJsonStacError::StacError(m)) => assert!(m.starts_with("No input files found")),
        _ => panic!("expected a STAC error"),
    }
    match failed_items_error(3) {
        CityJsonStacError::StacError(m) => assert_eq!(m, "3 item(s) failed to process"),
        _ => panic!("expected a STAC error"),
    }
}

#[test]
fn update_item_links_pair_names_and_ids() {
    let names = vec![Some("a_item.json".to_string()), None, Some("c.json".to_string())];
    let ids = strings(&["a", "b", "c"]);
    let (links, omitted) = update_item_links(&names, &ids, &None, None);
    assert_eq!(omitted, 0);
    assert_eq!(
        links,
        vec![
            ("./a_item.json".to_string(), Some("a".to_string())),
            ("./b.json".to_string(), Some("b".to_string())),
            ("./c.json".to_string(), Some("c".to_string())),
        ]
    );
    let (links, omitted) = update_item_links(&names, &ids, &Some("https://x/items".to_string()), Some(2));
    assert_eq!(omitted, 1);
    assert_eq!(links[0].0, "https://x/items/a_item.json");
    assert_eq!(links.len(), 2);
    let (links, omitted) = update_item_links(&names, &ids, &None, Some(0));
    assert!(links.is_empty());
    assert_eq!(omitted, 3);
}

#[test]
fn update_collection_defaults_and_errors() {
    assert_eq!(update_collection_id(None, Some("delft".to_string())), "delft");
    assert_eq!(update_collection_id(None, None), "collection");
    assert_eq!(update_collection_id(Some("x".to_string()), Some("delft".to_string())), "x");
    assert!(check_update_items(2, 1).is_ok());
    assert!(matches!(check_update_items(0, 0), Err(CityJsonStacError::StacError(m)) if m == "No STAC item files provided"));
    assert!(matches!(check_update_items(3, 0), Err(CityJsonStacError::StacError(m)) if m == "No valid STAC items could be parsed"));
    assert_eq!(collection_description(None), "3D City Model collection");
    assert!(require_spatial_extent(true).is_ok());
    assert!(matches!(require_spatial_extent(false), Err(CityJsonStacError::StacError(m)) if m == "Spatial extent bbox is required"));
}

#[test]
fn source_actions_follow_reading_reuse_and_skipping() {
    assert_eq!(failure_action(true), SourceAction::Skip);
    assert_eq!(failure_action(false), SourceAction::Abort);
    assert_eq!(source_action(false, true, false, true), SourceAction::Skip);
    assert_eq!(source_action(false, false, false, false), SourceAction::Abort);
    assert_eq!(source_action(true, true, false, false), SourceAction::ReuseExisting);
    assert_eq!(source_action(true, true, true, false), SourceAction::Build);
    assert_eq!(source_action(true, false, false, true), SourceAction::Build);
}
