use katana_render_runtime::number::CssNumber;
use katana_render_runtime::style::types::{CssDisplay, CssOverflow, CssPosition, CssStyle};

const DEFAULT_BORDER_WIDTH: f32 = 4.0;
const BORDER_WIDTH_NONE: f32 = 0.0;
const BORDER_WIDTH_WITH_COLOR: f32 = 1.0;
const BORDER_WIDTH_WITH_UNIT: f32 = 2.0;
const BORDER_WIDTH_PRESERVED: f32 = 7.0;

fn value(n: CssNumber) -> f32 {
    (n.micros as f64 / 1_000_000.0) as f32
}

fn number(x: f32) -> CssNumber {
    CssNumber { micros: (x as f64 * 1_000_000.0).round() as i64 }
}

#[test]
fn style_declaration_border_none_clears_border_state() {
    let mut style = CssStyle::browser_default();
    style.border = Some("blue".to_string());
    style.border_width = number(DEFAULT_BORDER_WIDTH);

    style.apply_border("none");

    assert!(style.border.is_none());
    assert_eq!(value(style.border_width), BORDER_WIDTH_NONE);
}

#[test]
fn style_declaration_border_without_explicit_width_defaults_to_one_when_color_is_set() {
    let mut style = CssStyle::browser_default();
    style.apply_border("#123");

    assert_eq!(style.border, Some("#123".to_string()));
    assert_eq!(value(style.border_width), BORDER_WIDTH_WITH_COLOR);
}

#[test]
fn style_declaration_border_with_length_parses_width_component() {
    let mut style = CssStyle::browser_default();
    style.apply_border("2px solid #123");

    assert_eq!(style.border, Some("#123".to_string()));
    assert_eq!(value(style.border_width), BORDER_WIDTH_WITH_UNIT);
}

#[test]
fn style_declaration_invalid_border_preserves_width_when_no_color_or_length_is_present() {
    let mut style = CssStyle::browser_default();
    style.border_width = number(BORDER_WIDTH_PRESERVED);

    style.apply_border("solid");

    assert!(style.border.is_none());
    assert_eq!(value(style.border_width), BORDER_WIDTH_PRESERVED);
}

#[test]
fn style_declaration_apply_dispatches_to_box_or_typography_rules() {
    let mut style = CssStyle::browser_default();
    style.apply("overflow", "hidden");
    assert_eq!(style.overflow, CssOverflow::Clip);
    style.apply("font-family", "Inter");
    assert_eq!(style.font_family, "Inter");
    style.apply("unknown-property", "42");
}

#[test]
fn style_declaration_outer_box_shadow_keeps_offsets_blur_spread_and_function_color() {
    let mut style = CssStyle::browser_default();
    style.apply("box-shadow", "2px 10px 28px 3px rgba(15, 40, 89, 0.14)");

    assert_eq!(
        style.box_shadow.as_ref().map(|shadow| (
            value(shadow.offset_x),
            value(shadow.offset_y),
            value(shadow.blur_radius),
            value(shadow.spread_radius),
            shadow.color.as_str(),
        )),
        Some((2.0, 10.0, 28.0, 3.0, "rgba(15, 40, 89, 0.14)"))
    );

    style.apply("box-shadow", "inset 0 0 2px red");
    assert!(style.box_shadow.is_some());
    style.apply("box-shadow", "none");
    assert!(style.box_shadow.is_none());
}

#[test]
fn style_declaration_list_style_none_is_inherited_and_can_be_restored() {
    let mut parent = CssStyle::browser_default();
    parent.apply("list-style", "none");
    assert!(parent.list_style_none);

    let child = CssStyle::from_attributes(&[], &parent);
    assert!(child.list_style_none);

    parent.apply("list-style-type", "disc");
    assert!(!parent.list_style_none);
    parent.apply("list-style", "invalid");
    assert!(!parent.list_style_none);
    parent.apply("list-style", "initial");
    assert!(!parent.list_style_none);
}

#[test]
fn style_declaration_positioning_declarations_handle_auto_invalid_and_inline_grid() {
    let mut style = CssStyle::browser_default();
    style.apply("z-index", "4");
    style.apply("z-index", "auto");
    assert!(style.z_index.is_none());

    style.apply("z-index", "invalid");
    style.apply("position", "invalid");
    assert_eq!(style.position, CssPosition::Static);

    style.apply("display", "inline-grid");
    assert_eq!(style.display, CssDisplay::Grid);
    assert!(style.inline_block);
}

#[test]
fn style_declaration_inline_block_preserves_shrink_to_fit_display_semantics() {
    let mut style = CssStyle::browser_default();

    style.apply("display", "inline-block");
    assert_eq!(style.display, CssDisplay::Block);
    assert!(style.inline_block);

    style.apply("display", "inline");
    assert_eq!(style.display, CssDisplay::Block);
    assert!(style.inline_block);

    style.apply("display", "inline-flex");
    assert_eq!(style.display, CssDisplay::Flex);
    assert!(style.inline_block);
}

#[test]
fn block_display_clears_inline_shrink_to_fit_semantics() {
    let mut style = CssStyle::browser_default();
    style.apply("display", "inline-flex");

    style.apply("display", "grid");
    assert_eq!(style.display, CssDisplay::Grid);
    assert!(!style.inline_block);

    style.apply("display", "unsupported");
    assert_eq!(style.display, CssDisplay::Grid);
    assert!(!style.inline_block);
}
