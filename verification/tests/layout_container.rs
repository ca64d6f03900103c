use katana_render_runtime::container::{
    accept_flow_result, container_geometry, container_height, horizontal_box_geometry, inline_container_width, text_box_height,
};
use katana_render_runtime::number::CssNumber;
use katana_render_runtime::style::types::{CssLength, CssStyle};

fn value(n: CssNumber) -> f32 {
    (n.micros as f64 / 1_000_000.0) as f32
}

fn number(x: f32) -> CssNumber {
    CssNumber { micros: (x as f64 * 1_000_000.0).round() as i64 }
}

fn assert_flow_error_is_recorded_at_the_start() {
    let mut layout_error = None;

    assert_eq!(value(accept_flow_result(&mut layout_error, Err("taffy failed".to_string()), number(12.0))), 12.0);
    assert_eq!(layout_error, Some("taffy failed".to_string()));
}

#[test]
fn layout_container_flow_errors_are_recorded_at_the_container_start() {
    assert_flow_error_is_recorded_at_the_start();
}

#[test]
fn layout_container_tests_flow_errors_are_recorded_at_the_container_start() {
    assert_flow_error_is_recorded_at_the_start();
}

#[test]
fn successful_flow_keeps_its_bottom_and_the_recorded_error() {
    let mut layout_error = Some("earlier".to_string());
    assert_eq!(value(accept_flow_result(&mut layout_error, Ok(number(40.0)), number(12.0))), 40.0);
    assert_eq!(layout_error, Some("earlier".to_string()));
}

#[test]
fn container_height_is_clamped_by_max_height() {
    let mut style = CssStyle::browser_default();
    style.max_height = Some(number(20.0));

    assert_eq!(value(container_height(number(100.0), number(0.0), &style)), 20.0);
}

#[test]
fn horizontal_auto_margins_center_a_constrained_box() {
    let mut style = CssStyle::browser_default();
    style.max_width = Some(CssLength::Px(number(100.0)));
    style.margin_left_auto = true;
    style.margin_right_auto = true;

    let (x, width) = horizontal_box_geometry(number(0.0), number(320.0), &style);
    assert_eq!((value(x), value(width)), (110.0, 100.0));
}

#[test]
fn container_geometry_places_content_inside_border_and_padding() {
    let style = CssStyle::from_attributes(
        &[("style".to_string(), "margin: 4px 6px; padding: 3px; border: 2px solid red; min-height: 50px".to_string())],
        &CssStyle::browser_default(),
    );
    let geometry = container_geometry(number(10.0), number(20.0), number(200.0), &style);
    assert_eq!(value(geometry.start), 24.0);
    assert_eq!(value(geometry.box_x), 16.0);
    assert_eq!(value(geometry.box_width), 188.0);
    assert_eq!(value(geometry.inner_x), 21.0);
    assert_eq!(value(geometry.inner_width), 178.0);
    assert_eq!(value(container_height(number(30.0), number(24.0), &style)), 60.0);
}

#[test]
fn text_boxes_are_as_tall_as_their_lines_or_their_declared_height() {
    let style = CssStyle::from_attributes(
        &[("style".to_string(), "line-height: 20px; padding: 2px 0; min-height: 30px".to_string())],
        &CssStyle::browser_default(),
    );
    let lines = vec!["a".to_string(), "b".to_string(), "c".to_string()];
    assert_eq!(value(text_box_height(&lines, &style)), 64.0);
    assert_eq!(value(text_box_height(&lines[..1], &style)), 34.0);
    let mut fixed = style.clone();
    fixed.height = Some(number(10.0));
    assert_eq!(value(text_box_height(&lines, &fixed)), 34.0);
}

#[test]
fn inline_block_containers_shrink_to_their_characters() {
    let children = vec![katana_render_runtime::document::HtmlDocumentNode::Text("abcd".to_string())];
    let mut style = CssStyle::browser_default();
    assert_eq!(value(inline_container_width(&children, number(300.0), &style)), 300.0);
    style.inline_block = true;
    style.font_size = number(16.0);
    style.padding_left = number(2.0);
    style.padding_right = number(3.0);
    assert_eq!(value(inline_container_width(&children, number(300.0), &style)), 40.2);
    assert_eq!(value(inline_container_width(&children, number(20.0), &style)), 20.0);
    style.width = Some(CssLength::Px(number(10.0)));
    assert_eq!(value(inline_container_width(&children, number(300.0), &style)), 300.0);
}
