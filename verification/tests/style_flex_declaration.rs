use katana_render_runtime::number::CssNumber;
use katana_render_runtime::style::types::{CssLength, CssStyle};

fn value(n: CssNumber) -> f32 {
    (n.micros as f64 / 1_000_000.0) as f32
}

fn number(x: f32) -> CssNumber {
    CssNumber { micros: (x as f64 * 1_000_000.0).round() as i64 }
}

#[test]
fn invalid_flex_shorthand_preserves_existing_values() {
    let mut style = CssStyle::browser_default();
    style.flex_grow = number(2.0);

    style.apply_flex("invalid");

    assert_eq!(value(style.flex_grow), 2.0);
}

#[test]
fn flex_basis_handles_auto_and_explicit_lengths() {
    let mut style = CssStyle::browser_default();
    style.flex_basis = Some(CssLength::Px(number(4.0)));

    style.apply_flex_basis("auto");
    assert!(style.flex_basis.is_none());

    style.apply_flex_basis("12px");
    assert_eq!(style.flex_basis, Some(CssLength::Px(number(12.0))));

    style.apply_flex_basis("invalid");
    assert_eq!(style.flex_basis, Some(CssLength::Px(number(12.0))));
}

#[test]
fn flex_shorthand_accepts_content_basis() {
    let mut style = CssStyle::browser_default();

    style.apply_flex("2 content");

    assert_eq!((value(style.flex_grow), value(style.flex_shrink)), (2.0, 1.0));
    assert!(style.flex_basis.is_none());
}

#[test]
fn flex_basis_accepts_percentage_length() {
    let mut style = CssStyle::browser_default();
    style.flex_basis = Some(CssLength::Px(number(1.0)));

    style.apply_flex_basis("50%");

    assert_eq!(style.flex_basis, Some(CssLength::Percent(number(0.5))));
}
