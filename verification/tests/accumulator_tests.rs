use city3d_stac::accumulator::{
    aggregate_items, aggregate_reader_reports, collection_summaries, file_size_summary, AggregatedSummaries,
    CollectionAccumulator, FileSizeSummary, ItemMetadata, ReaderReport,
};
use city3d_stac::crs::CRS;
use city3d_stac::stac::CityObjectsCount;

fn strings(v: &[&str]) -> Vec<String> {
    v.iter().map(|s| s.to_string()).collect()
}

fn test_item() -> ItemMetadata {
    ItemMetadata {
        id: "test-item".to_string(),
        city3d_version: Some("2.0".to_string()),
        city3d_city_objects: Some(CityObjectsCount::Integer(42)),
        city3d_lods: Some(strings(&["LOD1", "LOD2"])),
        city3d_co_types: Some(strings(&["Building"])),
        city3d_attributes: None,
        city3d_semantic_surfaces: Some(true),
        city3d_textures: Some(true),
        city3d_materials: Some(false),
        proj_code: Some("EPSG:7415".to_string()),
        file_size: Some(1000),
    }
}

fn bare_item(id: &str) -> ItemMetadata {
    ItemMetadata {
        id: id.to_string(),
        city3d_version: None,
        city3d_city_objects: None,
        city3d_lods: None,
        city3d_co_types: None,
        city3d_attributes: None,
        city3d_semantic_surfaces: None,
        city3d_textures: None,
        city3d_materials: None,
        proj_code: None,
        file_size: None,
    }
}

#[test]
fn test_file_size_aggregation() {
    let mut summaries = AggregatedSummaries::new();

    let mut m1 = test_item();
    m1.file_size = Some(1000);
    summaries.merge_item(&m1);

    let mut m2 = test_item();
    m2.file_size = Some(3000);
    summaries.merge_item(&m2);

    assert_eq!(summaries.size_min, Some(1000));
    assert_eq!(summaries.size_max, Some(3000));
    assert_eq!(summaries.size_sum, 4000);
    assert_eq!(summaries.size_count, 2);
}

#[test]
fn test_collection_accumulator() {
    let mut accumulator = CollectionAccumulator::new(None);
    accumulator.add_item(
        test_item(),
        "./items/test-item.json".to_string(),
        Some("test-item".to_string()),
    );

    assert_eq!(accumulator.successful_count(), 1);
    assert_eq!(accumulator.error_count(), 0);
    assert!(!accumulator.has_errors());

    accumulator.add_error("failed.json".to_string(), "Parse error".to_string());

    assert_eq!(accumulator.successful_count(), 1);
    assert_eq!(accumulator.error_count(), 1);
    assert!(accumulator.has_errors());
}

#[test]
fn incremental_aggregation_unites_values_and_counts() {
    let mut accumulator = CollectionAccumulator::new(None);
    accumulator.add_item(test_item(), "./items/item1.json".to_string(), Some("item1".to_string()));
    let mut item2 = bare_item("test-item-2");
    item2.city3d_version = Some("2.0".to_string());
    item2.city3d_city_objects = Some(CityObjectsCount::Integer(100));
    item2.city3d_lods = Some(strings(&["LOD3"]));
    accumulator.add_item(item2, "./items/item2.json".to_string(), Some("item2".to_string()));

    assert_eq!(accumulator.successful_count(), 2);
    let s = &accumulator.summaries;
    assert_eq!(s.versions, strings(&["2.0"]));
    assert_eq!(s.lods, strings(&["LOD1", "LOD2", "LOD3"]));
    assert_eq!(s.count_min, Some(42));
    assert_eq!(s.count_max, Some(100));
    assert_eq!(s.count_total, 142);
}

#[test]
fn item_links_stop_at_the_limit_and_the_rest_are_counted() {
    let mut accumulator = CollectionAccumulator::new(Some(2));
    for i in 0..5 {
        accumulator.add_item(bare_item("x"), format!("./items/{i}.json"), None);
    }
    assert_eq!(accumulator.item_links.len(), 2);
    assert_eq!(accumulator.omitted_item_links(), 3);
    assert_eq!(accumulator.successful_count(), 5);
    assert_eq!(accumulator.item_links[1].0, "./items/1.json");

    let mut none = CollectionAccumulator::new(Some(0));
    none.add_item(bare_item("y"), "./items/y.json".to_string(), None);
    assert!(none.item_links.is_empty());
    assert_eq!(none.omitted_item_links(), 1);
}

#[test]
fn file_size_summary_rounds_the_mean_half_up() {
    assert_eq!(
        file_size_summary(Some(1000), Some(3000), 4000, 2),
        Some(FileSizeSummary { minimum: 1000, maximum: 3000, mean: 2000 })
    );
    assert_eq!(
        file_size_summary(Some(1), Some(2), 3, 2),
        Some(FileSizeSummary { minimum: 1, maximum: 2, mean: 2 })
    );
    assert_eq!(
        file_size_summary(Some(1), Some(2), 4, 3),
        Some(FileSizeSummary { minimum: 1, maximum: 2, mean: 1 })
    );
    assert_eq!(file_size_summary(None, Some(2), 4, 3), None);
    assert_eq!(file_size_summary(Some(1), Some(2), 4, 0), None);
}

#[test]
fn merging_in_either_order_gives_the_same_summaries() {
    let a = test_item();
    let mut b = bare_item("b");
    b.city3d_lods = Some(strings(&["LOD0", "LOD2"]));
    b.city3d_city_objects = Some(CityObjectsCount::Statistics { min: 1, max: 9, total: 7 });
    b.file_size = Some(5);
    b.city3d_textures = Some(false);

    let mut ab = AggregatedSummaries::new();
    ab.merge_item(&a);
    ab.merge_item(&b);
    let mut ba = AggregatedSummaries::new();
    ba.merge_item(&b);
    ba.merge_item(&a);

    assert_eq!(ab.lods, ba.lods);
    assert_eq!(ab.lods, strings(&["LOD0", "LOD1", "LOD2"]));
    assert_eq!(ab.count_min, ba.count_min);
    assert_eq!(ab.count_min, Some(7));
    assert_eq!(ab.count_total, 49);
    assert_eq!(ab.size_min, ba.size_min);
    assert_eq!(ab.size_sum, ba.size_sum);
    assert_eq!(ab.textures, ba.textures);
    assert_eq!(ab.textures.sorted_values(), vec![false, true]);
}

#[test]
fn collection_summaries_of_aggregated_items() {
    let items = vec![test_item(), bare_item("none")];
    let aggregated = aggregate_items(&items);
    let s = collection_summaries(&aggregated);
    assert_eq!(s.versions, strings(&["2.0"]));
    assert_eq!(s.lods, strings(&["LOD1", "LOD2"]));
    assert_eq!(s.co_types, strings(&["Building"]));
    assert_eq!(s.proj_codes, strings(&["EPSG:7415"]));
    assert_eq!(s.city_objects, Some(CityObjectsCount::Statistics { min: 42, max: 42, total: 42 }));
    assert_eq!(s.semantic_surfaces, vec![true]);
    assert_eq!(s.materials, vec![false]);
    assert_eq!(s.file_size, Some(FileSizeSummary { minimum: 1000, maximum: 1000, mean: 1000 }));

    let empty = collection_summaries(&aggregate_items(&vec![]));
    assert!(empty.versions.is_empty());
    assert_eq!(empty.city_objects, None);
    assert_eq!(empty.file_size, None);
    assert!(empty.textures.is_empty());
}

#[test]
fn reader_reports_aggregate_like_items() {
    let reports = vec![
        ReaderReport {
            version: Some("2.0".to_string()),
            lods: Some(strings(&["2"])),
            city_object_types: Some(strings(&["Building"])),
            city_object_count: Some(3),
            semantic_surfaces: Some(false),
            textures: None,
            materials: None,
            crs: Some(CRS::from_epsg(7415)),
            attributes: None,
        },
        ReaderReport {
            version: Some("1.1".to_string()),
            lods: None,
            city_object_types: Some(strings(&["Bridge", "Building"])),
            city_object_count: Some(5),
            semantic_surfaces: Some(true),
            textures: None,
            materials: None,
            crs: Some(CRS::unknown()),
            attributes: None,
        },
    ];
    let s = collection_summaries(&aggregate_reader_reports(&reports));
    assert_eq!(s.versions, strings(&["1.1", "2.0"]));
    assert_eq!(s.co_types, strings(&["Bridge", "Building"]));
    assert_eq!(s.proj_codes, strings(&["EPSG:7415"]));
    assert_eq!(s.city_objects, Some(CityObjectsCount::Statistics { min: 3, max: 5, total: 8 }));
    assert_eq!(s.semantic_surfaces, vec![false, true]);
    assert_eq!(s.file_size, None);
}

#[test]
fn accumulator_refuses_items_that_overflow_its_totals() {
    let mut acc = CollectionAccumulator::new(None);
    assert!(acc.accepts(&test_item()));
    acc.add_item(test_item(), "./items/a.json".to_string(), None);
    let mut huge = bare_item("huge");
    huge.city3d_city_objects = Some(CityObjectsCount::Integer(u64::MAX));
    assert!(!acc.accepts(&huge));
    let mut small = bare_item("small");
    small.city3d_city_objects = Some(CityObjectsCount::Integer(u64::MAX - 42));
    assert!(acc.accepts(&small));
    assert!(acc.accepts(&bare_item("bare")));
}

#[test]
fn accumulator_after_a_run_of_items_matches_merging_them_in_order() {
    let mut items = Vec::new();
    for (id, version, count) in [("a", "2.0", 3u64), ("b", "1.1", 7), ("c", "2.0", 1), ("d", "1.0", 4)] {
        let mut item = bare_item(id);
        item.city3d_version = Some(version.to_string());
        item.city3d_city_objects = Some(CityObjectsCount::Integer(count));
        items.push(item);
    }
    let mut accumulator = CollectionAccumulator::new(Some(3));
    let mut expected = AggregatedSummaries::new();
    for item in &items {
        expected.merge_item(item);
    }
    for item in items {
        let href = format!("./items/{}.json", item.id);
        let title = Some(item.id.clone());
        accumulator.add_item(item, href, title);
    }
    assert_eq!(accumulator.successful_count(), 4);
    assert_eq!(accumulator.omitted_item_links(), 1);
    let hrefs: Vec<&str> = accumulator.item_links.iter().map(|l| l.0.as_str()).collect();
    assert_eq!(hrefs, vec!["./items/a.json", "./items/b.json", "./items/c.json"]);
    assert_eq!(accumulator.item_links[2].1, Some("c".to_string()));
    assert_eq!(accumulator.summaries.versions, expected.versions);
    assert_eq!(accumulator.summaries.versions, strings(&["1.0", "1.1", "2.0"]));
    assert_eq!(accumulator.summaries.count_total, 15);
    assert_eq!(accumulator.summaries.count_min, Some(1));
    assert_eq!(accumulator.summaries.count_max, Some(7));
}
