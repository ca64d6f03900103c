use katana_render_runtime::document::HtmlDocumentNode;
use katana_render_runtime::intrinsic::{intrinsic_flex_content_width, intrinsic_layout_width};
use katana_render_runtime::number::CssNumber;
use katana_render_runtime::style::types::{CssDisplay, CssFlexDirection, CssStyle};

fn px(units: i32) -> CssNumber {
    CssNumber::from_units(units)
}

#[test]
fn flex_columns_take_their_widest_item() {
    let mut style = CssStyle::browser_default();
    style.flex_direction = CssFlexDirection::Column;
    style.padding_left = px(2);
    style.padding_right = px(3);
    assert_eq!(intrinsic_flex_content_width(&style, &[px(10), px(40), px(25)]), px(45));
    assert_eq!(intrinsic_flex_content_width(&style, &[]), px(5));
}

#[test]
fn flex_rows_add_their_items_and_gaps() {
    let mut style = CssStyle::browser_default();
    style.flex_direction = CssFlexDirection::Row;
    style.gap = px(4);
    assert_eq!(intrinsic_flex_content_width(&style, &[px(10), px(40), px(25)]), px(83));
    assert_eq!(intrinsic_flex_content_width(&style, &[px(10)]), px(10));
    assert_eq!(intrinsic_flex_content_width(&style, &[]), px(0));
}

fn element(children: Vec<HtmlDocumentNode>) -> HtmlDocumentNode {
    HtmlDocumentNode::Element { node_id: 1, tag: "div".to_string(), attributes: Vec::new(), children }
}

#[test]
fn an_image_width_comes_first_then_text_then_inline_content() {
    let mut style = CssStyle::browser_default();
    style.padding_left = px(1);
    style.padding_right = px(1);
    let text = HtmlDocumentNode::Text("abc".to_string());
    assert_eq!(intrinsic_layout_width(&text, &style, Some(px(90)), px(30), px(70), &[]), px(90));
    assert_eq!(intrinsic_layout_width(&text, &style, None, px(30), px(70), &[]), px(30));
    assert_eq!(intrinsic_layout_width(&element(Vec::new()), &style, None, px(30), px(70), &[]), px(72));
}

#[test]
fn flex_column_intrinsic_width_uses_widest_participating_child() {
    let mut style = CssStyle::browser_default();
    style.display = CssDisplay::Flex;
    style.flex_direction = CssFlexDirection::Column;
    let node = element(Vec::new());
    let widths = [Some(px(20)), None, Some(px(55)), Some(px(10))];
    assert_eq!(intrinsic_layout_width(&node, &style, None, px(0), px(999), &widths), px(55));
    style.flex_direction = CssFlexDirection::Row;
    style.gap = px(5);
    assert_eq!(intrinsic_layout_width(&node, &style, None, px(0), px(999), &widths), px(95));
}
