use katana_render_runtime::document::HtmlDocumentNode;
use katana_render_runtime::flow::{
    flow_stretch_heights, is_visible_layout_item, item_style, stretches_flex_columns, grid_row_height, grid_row_heights, is_flex_row, leaf_minimum_height, stretches_children,
};
use katana_render_runtime::number::CssNumber;
use katana_render_runtime::style::types::CssStyle;

fn value(n: CssNumber) -> f32 {
    (n.micros as f64 / 1_000_000.0) as f32
}

fn number(x: f32) -> CssNumber {
    CssNumber { micros: (x as f64 * 1_000_000.0).round() as i64 }
}

fn styled(declarations: &str) -> CssStyle {
    CssStyle::from_attributes(
        &[("style".to_string(), declarations.to_string())],
        &CssStyle::browser_default(),
    )
}

#[test]
fn flex_axis_and_stretching_follow_the_container_style() {
    assert!(is_flex_row(&CssStyle::browser_default()));
    assert!(!is_flex_row(&styled("flex-direction: column")));
    assert!(is_flex_row(&styled("flex-direction: row-reverse")));
    assert!(stretches_children(&CssStyle::browser_default()));
    assert!(stretches_children(&styled("align-items: stretch")));
    assert!(!stretches_children(&styled("align-items: center")));
}

#[test]
fn leaf_minimum_height_uses_the_measurement_or_the_declared_minimum() {
    let automatic = CssStyle::browser_default();
    assert_eq!(value(leaf_minimum_height(&automatic, number(24.0))), 24.0);
    assert_eq!(value(leaf_minimum_height(&automatic, number(-3.0))), 0.0);
    let mut declared = styled("min-height: 20px; padding: 2px; margin: 3px");
    declared.automatic_min_height = false;
    assert_eq!(value(leaf_minimum_height(&declared, number(100.0))), 30.0);
}

fn numbers(xs: &[f32]) -> Vec<CssNumber> {
    xs.iter().map(|x| number(*x)).collect()
}

fn values(ns: &[CssNumber]) -> Vec<f32> {
    ns.iter().map(|n| value(*n)).collect()
}

#[test]
fn flex_rows_stretch_every_item_to_the_tallest() {
    let heights = numbers(&[10.0, 30.0, 20.0]);
    let ys = numbers(&[0.0, 0.0, 0.0]);
    let row = styled("display: flex");
    assert_eq!(flow_stretch_heights(&row, &heights, &ys).map(|v| values(&v)), Some(vec![30.0, 30.0, 30.0]));
    let column = styled("display: flex; flex-direction: column");
    assert_eq!(flow_stretch_heights(&column, &heights, &ys), None);
    let centered = styled("display: flex; align-items: center");
    assert_eq!(flow_stretch_heights(&centered, &heights, &ys), None);
    assert_eq!(flow_stretch_heights(&CssStyle::browser_default(), &heights, &ys), None);
}

#[test]
fn grid_items_stretch_to_the_tallest_item_of_their_row() {
    let heights = numbers(&[10.0, 30.0, 20.0, 5.0]);
    let ys = numbers(&[0.0, 0.005, 40.0, 40.0]);
    let grid = styled("display: grid");
    assert_eq!(flow_stretch_heights(&grid, &heights, &ys).map(|v| values(&v)), Some(vec![30.0, 30.0, 20.0, 20.0]));
    assert_eq!(values(&grid_row_heights(&ys, &heights)), [30.0, 30.0, 20.0, 20.0]);
    assert_eq!(value(grid_row_height(&ys, &heights, number(100.0))), 0.0);
}

fn element(tag: &str, style: &str) -> HtmlDocumentNode {
    HtmlDocumentNode::Element {
        node_id: 1,
        tag: tag.to_string(),
        attributes: vec![("style".to_string(), style.to_string())],
        children: Vec::new(),
    }
}

#[test]
fn visible_items_skip_whitespace_text_and_hidden_elements() {
    let parent = CssStyle::browser_default();
    assert!(!is_visible_layout_item(&HtmlDocumentNode::Text("  \n ".to_string()), &parent));
    assert!(is_visible_layout_item(&HtmlDocumentNode::Text("word".to_string()), &parent));
    assert!(!is_visible_layout_item(&element("div", "display: none"), &parent));
    assert!(is_visible_layout_item(&element("div", "color: red"), &parent));
}

#[test]
fn flow_items_are_measured_with_their_own_or_the_container_style() {
    let parent = styled("padding: 4px; color: #123456");
    let text = item_style(&HtmlDocumentNode::Text("x".to_string()), &parent, number(100.0), 2);
    assert_eq!(value(text.padding_top), 4.0);
    let child = item_style(&element("div", "padding: 1px"), &parent, number(100.0), 2);
    assert_eq!(value(child.padding_top), 1.0);
    assert_eq!(child.color, "#123456");
}

#[test]
fn only_stretching_flex_columns_stretch_item_widths() {
    assert!(stretches_flex_columns(&styled("display: flex; flex-direction: column")));
    assert!(stretches_flex_columns(&styled("display: flex; flex-direction: column-reverse; align-items: stretch")));
    assert!(!stretches_flex_columns(&styled("display: flex")));
    assert!(!stretches_flex_columns(&styled("display: flex; flex-direction: column; align-items: center")));
    assert!(!stretches_flex_columns(&styled("display: grid; flex-direction: column")));
}
