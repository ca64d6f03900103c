use katana_render_runtime::number::CssNumber;
use katana_render_runtime::style::types::{CssBoxSizing, CssOverflow, CssStyle};

fn value(n: CssNumber) -> f32 {
    (n.micros as f64 / 1_000_000.0) as f32
}

#[test]
fn overflow_axis_properties_reuse_the_main_overflow_parser() {
    let mut style = CssStyle::browser_default();

    assert!(style.apply_box_property("overflow-x", "scroll"));
    assert_eq!(style.overflow, CssOverflow::Clip);
    assert!(style.apply_box_property("overflow-y", "visible"));
    assert_eq!(style.overflow, CssOverflow::Visible);
    assert!(style.apply_box_property("overflow", "unsupported"));
    assert_eq!(style.overflow, CssOverflow::Visible);
}

#[test]
fn inset_values_are_accepted_by_position_box_handling() {
    let mut style = CssStyle::browser_default();
    assert!(style.apply_box_property("inset", "1px 2px 3px 4px"));

    assert_eq!(style.inset_top.map(value), Some(1.0));
    assert_eq!(style.inset_right.map(value), Some(2.0));
    assert_eq!(style.inset_bottom.map(value), Some(3.0));
    assert_eq!(style.inset_left.map(value), Some(4.0));
}

#[test]
fn box_sizing_stays_same_for_unknown_values() {
    let mut style = CssStyle::browser_default();
    assert!(style.apply_box_property("box-sizing", "unsupported"));
    assert_eq!(style.box_sizing, CssBoxSizing::ContentBox);
}

#[test]
fn simple_box_property_rejects_unknown_names() {
    let mut style = CssStyle::browser_default();
    assert!(!style.apply_simple_box_property("unknown", "value"));
}

#[test]
fn border_side_width_applies_for_valid_side() {
    let mut style = CssStyle::browser_default();
    style.apply_border_side_width("border-top-width", "9px");

    assert_eq!(style.border_top_width.map(value), Some(9.0));

    style.apply_border_side_width("width", "12px");
    assert_eq!(style.border_top_width.map(value), Some(9.0));
}
