use katana_render_runtime::document::{border_color, is_named_border_color, text_display_columns};
use katana_render_runtime::navigation::{fragment_anchor, fragment_scroll};
use katana_render_runtime::number::CssNumber;
use katana_render_runtime::style::types::{CssStyle, CssTextTransform};

fn number(x: f32) -> CssNumber {
    CssNumber { micros: (x as f64 * 1_000_000.0).round() as i64 }
}

#[test]
fn fragment_anchors_are_percent_decoded() {
    assert_eq!(fragment_anchor(Some("caf%C3%A9%20menu")), Some("café menu".to_string()));
    assert_eq!(fragment_anchor(Some("plain")), Some("plain".to_string()));
    assert_eq!(fragment_anchor(Some("")), None);
    assert_eq!(fragment_anchor(None), None);
}

#[test]
fn fragment_navigation_scrolls_to_a_known_anchor_within_the_page() {
    let max = number(500.0);
    let (y, kept) = fragment_scroll(Some("intro".to_string()), Some(number(120.0)), number(40.0), max);
    assert_eq!((y, kept), (number(120.0), Some("intro".to_string())));
    let (y, kept) = fragment_scroll(Some("missing".to_string()), None, number(40.0), max);
    assert_eq!((y, kept), (number(40.0), None));
    let (y, kept) = fragment_scroll(None, None, number(40.0), max);
    assert_eq!((y, kept), (number(0.0), None));
    let (y, _) = fragment_scroll(Some("end".to_string()), Some(number(900.0)), number(40.0), max);
    assert_eq!(y, max);
}

#[test]
fn text_transforms_use_unicode_case_mappings() {
    let mut style = CssStyle::browser_default();
    style.text_transform = CssTextTransform::Uppercase;
    assert_eq!(style.transformed_text("straße ǆ"), "STRASSE Ǆ");
    style.text_transform = CssTextTransform::Lowercase;
    assert_eq!(style.transformed_text("ÀB Ω"), "àb ω");
    style.text_transform = CssTextTransform::Capitalize;
    assert_eq!(style.transformed_text("hello wide-world ßx 2nd"), "Hello Wide-World SSx 2nd");
    style.text_transform = CssTextTransform::NoTransform;
    assert_eq!(style.transformed_text("Keep"), "Keep");
}

#[test]
fn display_columns_count_wide_characters_twice() {
    assert_eq!(text_display_columns("日本"), 4);
    assert_eq!(text_display_columns("ab"), 2);
    assert_eq!(text_display_columns(""), 0);
}

#[test]
fn named_border_colors_are_alphabetic_and_not_styles() {
    assert!(is_named_border_color(&"red"));
    assert!(is_named_border_color(&"Blau"));
    assert!(is_named_border_color(&"émeraude"));
    assert!(!is_named_border_color(&"solid"));
    assert!(!is_named_border_color(&"1px"));
    assert_eq!(border_color("1px solid rouge"), Some("rouge".to_string()));
    assert_eq!(border_color("2px dashed #ff0000 red"), Some("#ff0000".to_string()));
}
