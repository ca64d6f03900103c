use katana_render_runtime::number::CssNumber;
use katana_render_runtime::style::types::CssStyle;

fn value(n: CssNumber) -> f32 {
    (n.micros as f64 / 1_000_000.0) as f32
}

fn number(x: f32) -> CssNumber {
    CssNumber { micros: (x as f64 * 1_000_000.0).round() as i64 }
}

#[test]
fn border_color_resets_edge_colors_and_ignores_invalid_values() {
    let mut style = CssStyle::browser_default();
    style.border_top_color = Some("red".to_string());

    style.apply_border_color("");
    assert_eq!(style.border_top_color.as_deref(), Some("red"));

    style.apply_border_color("blue");
    assert_eq!(style.border.as_deref(), Some("blue"));
    assert!(style.border_top_color.is_none());
}

#[test]
fn border_side_handles_none_invalid_names_and_invalid_colors() {
    let mut style = CssStyle::browser_default();
    style.apply_border_side("color", "red");
    style.apply_border_side("border-top", "none");
    assert_eq!(style.border_top_width.map(value), Some(0.0));

    style.apply_border_side_color("border-top-color", "");
    assert!(style.border_top_color.is_none());
}

#[test]
fn border_side_without_width_uses_color_default_or_current_width() {
    let mut style = CssStyle::browser_default();
    style.apply_border_side("border-right", "red");
    assert_eq!(style.border_right_width.map(value), Some(1.0));

    style.border_width = number(4.0);
    style.apply_border_side("border-bottom", "solid");
    assert_eq!(style.border_bottom_width.map(value), Some(4.0));
}

#[test]
fn unknown_border_edges_preserve_style() {
    let mut style = CssStyle::browser_default();
    style.border_width = number(3.0);

    assert_eq!(value(style.border_side_width("diagonal")), 3.0);
    style.set_border_side_width("diagonal", number(7.0));
    style.set_border_side_color("diagonal", "red".to_string());
    assert_eq!(value(style.border_width), 3.0);
}
