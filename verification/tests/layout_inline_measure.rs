use katana_render_runtime::container::text_box_width;
use katana_render_runtime::control_paint::{button_text_layout, flex_center_axes, ControlBox};
use katana_render_runtime::document::HtmlDocumentNode;
use katana_render_runtime::inline_measure::{
    float_geometry, float_x, inline_content_box_width, inline_node_width, inline_run_start_x, visible_inline_line,
};
use katana_render_runtime::number::CssNumber;
use katana_render_runtime::style::types::{
    CssAlignContent, CssAlignContentKeyword, CssAlignItems, CssAlignItemsKeyword, CssAlignmentSafety, CssDisplay,
    CssFlexDirection, CssFloat, CssLength, CssStyle, CssTextAlign,
};

fn value(n: CssNumber) -> f32 {
    (n.micros as f64 / 1_000_000.0) as f32
}

fn number(x: f32) -> CssNumber {
    CssNumber { micros: (x as f64 * 1_000_000.0).round() as i64 }
}

fn element(node_id: u64, tag: &str, style: &str, children: Vec<HtmlDocumentNode>) -> HtmlDocumentNode {
    let attributes = if style.is_empty() { Vec::new() } else { vec![("style".to_string(), style.to_string())] };
    HtmlDocumentNode::Element { node_id, tag: tag.to_string(), attributes, children }
}

fn text(value: &str) -> HtmlDocumentNode {
    HtmlDocumentNode::Text(value.to_string())
}

fn assert_inline_width_uses_text_and_skips_blocks() {
    let inline = element(1, "a", "display:inline-block;padding:6px", vec![text("Open link")]);
    let block = element(2, "div", "", Vec::new());
    let measured = number(60.0);

    let width = inline_node_width(&inline, &CssStyle::browser_default(), number(300.0), measured);
    assert!(width.is_some());
    assert_eq!(width.map(value), Some(72.0));
    assert_eq!(inline_node_width(&block, &CssStyle::browser_default(), number(300.0), measured), None);
}

#[test]
fn layout_inline_inline_node_width_uses_text_content_and_skips_block_nodes() {
    assert_inline_width_uses_text_and_skips_blocks();
}

#[test]
fn layout_inline_tests_inline_node_width_uses_text_content_and_skips_block_nodes() {
    assert_inline_width_uses_text_and_skips_blocks();
}

fn assert_explicit_content_width() {
    let node = element(3, "a", "display:inline-block;width:40px;padding:6px", Vec::new());
    assert_eq!(
        inline_node_width(&node, &CssStyle::browser_default(), number(300.0), number(0.0)).map(value),
        Some(52.0)
    );
}

#[test]
fn layout_inline_inline_node_width_respects_explicit_content_width() {
    assert_explicit_content_width();
}

#[test]
fn layout_inline_tests_inline_node_width_respects_explicit_content_width() {
    assert_explicit_content_width();
}

fn assert_leading_whitespace_is_split_off() {
    let (leading, visible) = visible_inline_line("  next");
    assert_eq!(leading, "  ");
    assert_eq!(visible, "next");
    assert_eq!(visible_inline_line("next"), ("", "next"));
}

#[test]
fn layout_inline_leading_inline_whitespace_becomes_a_horizontal_text_offset() {
    assert_leading_whitespace_is_split_off();
}

#[test]
fn layout_inline_tests_leading_inline_whitespace_becomes_a_horizontal_text_offset() {
    assert_leading_whitespace_is_split_off();
}

#[test]
fn floated_nodes_shrink_to_content_and_hidden_or_normal_nodes_stay_in_flow() {
    let floated = element(4, "span", "float:right;margin:0 5px", vec![text("count")]);
    let hidden = element(5, "span", "float:left;display:none", Vec::new());
    let normal = text("normal");
    let style = CssStyle::browser_default();

    let (side, width) = float_geometry(&floated, &style, number(200.0), number(30.0)).expect("float geometry");
    assert_eq!(side, CssFloat::Right);
    assert!(value(width) > 10.0);
    assert_eq!(value(width), 40.0);
    assert!(float_geometry(&hidden, &style, number(200.0), number(30.0)).is_none());
    assert!(float_geometry(&normal, &style, number(200.0), number(30.0)).is_none());
}

#[test]
fn a_float_with_a_declared_width_ignores_its_text() {
    let floated = element(6, "span", "float:left;width:50px;margin-left:4px", vec![text("long text")]);
    let (side, width) =
        float_geometry(&floated, &CssStyle::browser_default(), number(200.0), number(150.0)).expect("float");
    assert_eq!(side, CssFloat::Left);
    assert_eq!(value(width), 54.0);
}

#[test]
fn a_float_never_exceeds_the_available_width() {
    let floated = element(7, "span", "float:left", vec![text("very long text")]);
    let (_, width) =
        float_geometry(&floated, &CssStyle::browser_default(), number(80.0), number(300.0)).expect("float");
    assert_eq!(value(width), 80.0);
}

#[test]
fn end_aligned_inline_run_starts_after_available_space() {
    let nodes = [text("short")];
    let mut style = CssStyle::browser_default();
    style.text_align = CssTextAlign::End;

    let start = inline_run_start_x(&nodes, &[number(40.0)], number(10.0), number(200.0), &style);
    assert!(value(start) > 100.0);
    assert_eq!(value(start), 170.0);
}

#[test]
fn an_inline_run_skips_blank_text_and_ends_at_a_block() {
    let nodes = [
        text("  "),
        text("ab"),
        element(8, "span", "display:inline-block", vec![text("x")]),
        element(9, "div", "", Vec::new()),
        text("after"),
    ];
    let widths = [number(8.0), number(20.0), number(10.0), number(0.0), number(50.0)];
    let mut style = CssStyle::browser_default();
    style.text_align = CssTextAlign::Center;
    assert_eq!(value(inline_run_start_x(&nodes, &widths, number(0.0), number(100.0), &style)), 35.0);
    style.text_align = CssTextAlign::Start;
    assert_eq!(value(inline_run_start_x(&nodes, &widths, number(7.0), number(100.0), &style)), 7.0);
}

#[test]
fn a_run_wider_than_the_space_starts_at_the_left_edge() {
    let nodes = [text("wide")];
    let mut style = CssStyle::browser_default();
    style.text_align = CssTextAlign::End;
    assert_eq!(value(inline_run_start_x(&nodes, &[number(500.0)], number(3.0), number(100.0), &style)), 3.0);
}

#[test]
fn inline_content_box_uses_text_unless_a_width_is_declared() {
    let mut style = CssStyle::browser_default();
    style.padding_left = number(2.0);
    style.padding_right = number(2.0);
    assert_eq!(value(inline_content_box_width(number(30.0), &style, number(300.0))), 34.0);
    style.max_width = Some(CssLength::Px(number(20.0)));
    assert_eq!(value(inline_content_box_width(number(30.0), &style, number(300.0))), 24.0);
}

#[test]
fn inline_block_text_shrinks_to_content_and_respects_explicit_width() {
    let mut style = CssStyle::browser_default();
    style.inline_block = true;
    style.padding_left = number(6.0);
    style.padding_right = number(6.0);
    assert!(value(text_box_width(number(70.0), number(300.0), &style)) < 100.0);

    style.width = Some(CssLength::Px(number(140.0)));
    assert_eq!(value(text_box_width(number(70.0), number(300.0), &style)), 152.0);
}

#[test]
fn a_block_text_box_takes_the_available_width() {
    let style = CssStyle::browser_default();
    assert_eq!(value(text_box_width(number(70.0), number(300.0), &style)), 300.0);
}

fn center_items() -> Option<CssAlignItems> {
    Some(CssAlignItems { keyword: CssAlignItemsKeyword::Center, safety: CssAlignmentSafety::Default })
}

fn center_content() -> Option<CssAlignContent> {
    Some(CssAlignContent { keyword: CssAlignContentKeyword::Center, safety: CssAlignmentSafety::Default })
}

#[test]
fn column_flex_centers_button_text_on_cross_and_main_axes() {
    let mut style = CssStyle::browser_default();
    style.display = CssDisplay::Flex;
    style.flex_direction = CssFlexDirection::Column;
    style.align_items = center_items();
    style.justify_content = center_content();
    style.border_width = number(1.0);
    let control = ControlBox { x: number(0.0), y: number(0.0), width: number(40.0), height: number(40.0) };
    let measured_width = number(6.0);

    let layout = button_text_layout(measured_width, number(8.0), control, &style);

    assert_eq!(value(layout.x), 20.0 - value(measured_width) / 2.0);
    assert_eq!(layout.width, measured_width);
    assert_eq!(value(layout.y), 1.0);
    assert_eq!(value(layout.height), 38.0);
}

#[test]
fn button_text_is_inset_unless_the_button_centers_it() {
    let style = CssStyle::browser_default();
    let control = ControlBox { x: number(10.0), y: number(5.0), width: number(40.0), height: number(20.0) };
    let layout = button_text_layout(number(6.0), number(8.0), control, &style);
    assert_eq!((value(layout.x), value(layout.width)), (18.0, 24.0));
    assert_eq!((value(layout.y), value(layout.height)), (5.0, 20.0));
    let narrow = ControlBox { width: number(10.0), ..control };
    assert_eq!(value(button_text_layout(number(6.0), number(8.0), narrow, &style).width), 0.0);
}

#[test]
fn flex_axes_follow_the_flex_direction() {
    let mut style = CssStyle::browser_default();
    assert_eq!(flex_center_axes(&style), None);
    style.display = CssDisplay::Flex;
    style.justify_content = center_content();
    assert_eq!(flex_center_axes(&style), Some((true, false)));
    style.flex_direction = CssFlexDirection::ColumnReverse;
    assert_eq!(flex_center_axes(&style), Some((false, true)));
    style.align_items = Some(CssAlignItems { keyword: CssAlignItemsKeyword::Center, safety: CssAlignmentSafety::Safe });
    assert_eq!(flex_center_axes(&style), Some((false, true)));
}

#[test]
fn right_floats_go_against_the_right_edge() {
    assert_eq!(value(float_x(CssFloat::Right, number(10.0), number(200.0), number(40.0))), 170.0);
    assert_eq!(value(float_x(CssFloat::Right, number(10.0), number(20.0), number(40.0))), 10.0);
    assert_eq!(value(float_x(CssFloat::Left, number(10.0), number(200.0), number(40.0))), 10.0);
}
