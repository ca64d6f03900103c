use katana_render_runtime::document::HtmlDocumentNode;
use katana_render_runtime::measurement_cache::{FlowMeasurementCache, FlowMeasurementKey};
use katana_render_runtime::number::CssNumber;

fn px(units: i32) -> CssNumber {
    CssNumber::from_units(units)
}

fn element(node_id: u64) -> HtmlDocumentNode {
    HtmlDocumentNode::Element {
        node_id,
        tag: "div".to_string(),
        attributes: Vec::new(),
        children: Vec::new(),
    }
}

#[test]
fn elements_are_keyed_by_id_and_width_and_text_is_not_cached() {
    assert_eq!(
        FlowMeasurementKey::for_node(&element(7), px(300)),
        Some(FlowMeasurementKey::new(7, px(300)))
    );
    assert_eq!(
        FlowMeasurementKey::for_node(&HtmlDocumentNode::Text("abc".to_string()), px(300)),
        None
    );
}

#[test]
fn a_second_lookup_of_a_measured_node_is_a_hit() {
    let mut cache = FlowMeasurementCache::new();
    let key = FlowMeasurementKey::new(2, px(300));
    assert_eq!(cache.get(key), None);
    assert_eq!(cache.stats(), (0, 1));
    cache.insert(key, px(48));
    let first = cache.stats();
    assert_eq!(cache.get(key), Some(px(48)));
    let second = cache.stats();
    assert_eq!(second.0, first.0 + 1);
    assert_eq!(second.1, first.1);
}

#[test]
fn another_width_is_measured_apart() {
    let mut cache = FlowMeasurementCache::new();
    cache.insert(FlowMeasurementKey::new(2, px(300)), px(48));
    assert_eq!(cache.get(FlowMeasurementKey::new(2, px(200))), None);
    assert_eq!(cache.get(FlowMeasurementKey::new(3, px(300))), None);
    assert_eq!(cache.stats(), (0, 2));
}

#[test]
fn inserting_again_replaces_the_height() {
    let mut cache = FlowMeasurementCache::new();
    let key = FlowMeasurementKey::new(5, px(120));
    cache.insert(key, px(10));
    cache.insert(FlowMeasurementKey::new(6, px(120)), px(20));
    cache.insert(key, px(30));
    assert_eq!(cache.get(key), Some(px(30)));
    assert_eq!(cache.get(FlowMeasurementKey::new(6, px(120))), Some(px(20)));
    assert_eq!(cache.stats(), (2, 0));
}
