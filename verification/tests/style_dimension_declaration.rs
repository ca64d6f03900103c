use katana_render_runtime::number::CssNumber;
use katana_render_runtime::style::types::CssStyle;

fn value(n: CssNumber) -> f32 {
    (n.micros as f64 / 1_000_000.0) as f32
}

fn number(x: f32) -> CssNumber {
    CssNumber { micros: (x as f64 * 1_000_000.0).round() as i64 }
}

#[test]
fn dimensions_ignore_unknown_names_and_restore_auto_minimum_height() {
    let mut style = CssStyle::browser_default();
    style.apply_width_dimension("unknown", "12px");
    style.min_height = number(10.0);

    style.apply_minimum_height("auto");

    assert_eq!(value(style.min_height), 0.0);
    assert!(style.automatic_min_height);
}

#[test]
fn inset_ignores_invalid_shorthand_and_unknown_longhand() {
    let mut style = CssStyle::browser_default();
    style.apply_inset("inset", "1px 2px 3px 4px 5px");
    style.apply_inset("inline-start", "9px");

    assert!(style.inset_top.is_none());
    assert!(style.inset_left.is_none());
}

#[test]
fn percentage_block_length_rejects_negative_and_non_finite_values() {
    let style = CssStyle::browser_default();

    assert!(style.block_length("-1%").is_none());
    assert!(style.block_length("NaN%").is_none());
}

#[test]
fn minimum_height_updates_value_when_length_is_specified() {
    let mut style = CssStyle::browser_default();
    style.automatic_min_height = true;
    style.min_height = number(5.0);

    style.apply_minimum_height("10px");

    assert_eq!(value(style.min_height), 10.0);
    assert!(!style.automatic_min_height);

    style.apply_minimum_height("invalid");
    assert_eq!(value(style.min_height), 10.0);
    assert!(!style.automatic_min_height);
}
