use katana_render_runtime::number::CssNumber;
use katana_render_runtime::style::types::{CssBoxSizing, CssLength, CssOverflow, CssStyle};

fn value(n: CssNumber) -> f32 {
    (n.micros as f64 / 1_000_000.0) as f32
}

fn number(x: f32) -> CssNumber {
    CssNumber { micros: (x as f64 * 1_000_000.0).round() as i64 }
}

fn paddings(style: &CssStyle) -> [f32; 4] {
    [
        value(style.padding_top),
        value(style.padding_right),
        value(style.padding_bottom),
        value(style.padding_left),
    ]
}

fn margins(style: &CssStyle) -> [f32; 4] {
    [
        value(style.margin_top),
        value(style.margin_right),
        value(style.margin_bottom),
        value(style.margin_left),
    ]
}

#[test]
fn style_box_declaration_apply_box_property_displays_invalid_values_are_ignored() {
    let mut style = CssStyle::browser_default();

    assert!(!style.apply_box_property("unsupported-property", "10px"));
    assert_eq!(style.box_sizing, CssBoxSizing::ContentBox);
    assert_eq!(style.overflow, CssOverflow::Visible);
}

#[test]
fn style_box_declaration_apply_box_sizing_resolves_known_values_and_keeps_unknown() {
    let mut style = CssStyle::browser_default();

    style.apply_box_property("box-sizing", "border-box");
    assert_eq!(style.box_sizing, CssBoxSizing::BorderBox);

    style.apply_box_property("box-sizing", "unsupported");
    assert_eq!(style.box_sizing, CssBoxSizing::BorderBox);
}

#[test]
fn style_box_declaration_apply_overflow_sets_clip_for_hidden_like_values_and_keeps_visible() {
    let mut style = CssStyle::browser_default();

    style.apply_box_property("overflow", "hidden");
    assert_eq!(style.overflow, CssOverflow::Clip);

    style.apply_box_property("overflow", "visible");
    assert_eq!(style.overflow, CssOverflow::Visible);

    style.apply_box_property("overflow", "unsupported");
    assert_eq!(style.overflow, CssOverflow::Visible);
}

#[test]
fn style_box_declaration_apply_padding_property_keeps_each_edge_with_shorthand_and_invalid_value() {
    let mut style = CssStyle::browser_default();
    style.padding_top = number(1.0);
    style.padding_right = number(2.0);
    style.padding_bottom = number(3.0);
    style.padding_left = number(4.0);
    style.apply_padding_property("padding", "8px 9px");
    assert_eq!(paddings(&style), [8.0, 9.0, 8.0, 9.0]);

    style.apply_padding_property("padding", "1px 2px 3px 4px 5px");
    assert_eq!(paddings(&style), [8.0, 9.0, 8.0, 9.0]);
}

#[test]
fn style_box_declaration_apply_padding_property_drops_unknown_name_unmodified() {
    let mut style = CssStyle::browser_default();
    style.padding_left = number(9.0);
    style.apply_padding_property("padding-inline", "4px");
    assert_eq!(value(style.padding_left), 9.0);
}

#[test]
fn style_box_declaration_apply_margin_property_drops_unknown_name_unmodified() {
    let mut style = CssStyle::browser_default();
    style.margin_top = number(9.0);
    style.apply_margin_property("margin-inline", "4px");
    assert_eq!(value(style.margin_top), 9.0);
}

#[test]
fn style_box_declaration_apply_margin_property_sets_each_edge_and_ignores_invalid_shorthand() {
    let mut style = CssStyle::browser_default();
    style.apply_margin_property("margin", "1px 2px 3px 4px");
    assert_eq!(margins(&style), [1.0, 2.0, 3.0, 4.0]);

    style.apply_margin_property("margin", "1px 2px 3px 4px 5px");
    assert_eq!(margins(&style), [1.0, 2.0, 3.0, 4.0]);
}

#[test]
fn style_box_declaration_apply_dimension_converts_known_longhands_and_preserves_unknown() {
    let mut style = CssStyle::browser_default();
    style.apply_dimensions("width", "120%");
    assert_eq!(style.width, Some(CssLength::Percent(number(1.2))));
    style.apply_dimensions("max-width", "60px");
    assert_eq!(style.max_width, Some(CssLength::Px(number(60.0))));
    style.apply_dimensions("height", "7rem");
    assert_eq!(style.height.map(value), Some(112.0));
    style.apply_dimensions("min-height", "1em");
    assert_eq!(value(style.min_height), 16.0);

    style.apply_dimensions("line-height", "42px");
    assert_eq!(value(style.min_height), 16.0);
}
