use katana_render_runtime::number::CssNumber;
use katana_render_runtime::paint::aligned_text_x;
use katana_render_runtime::style::types::{CssStyle, CssTextAlign};

fn value(n: CssNumber) -> f64 {
    n.micros as f64 / 1_000_000.0
}

fn number(x: f64) -> CssNumber {
    CssNumber { micros: (x * 1_000_000.0).round() as i64 }
}

#[test]
fn aligned_text_starts_after_the_free_space_of_its_alignment() {
    let mut style = CssStyle::browser_default();
    assert_eq!(value(aligned_text_x("abc", number(10.0), number(120.0), &style)), 10.0);
    style.text_align = CssTextAlign::Center;
    assert_eq!(value(aligned_text_x("abc", number(10.0), number(120.0), &style)), 56.8);
    style.text_align = CssTextAlign::End;
    assert_eq!(value(aligned_text_x("abc", number(10.0), number(120.0), &style)), 103.6);
    style.letter_spacing = number(2.0);
    assert_eq!(value(aligned_text_x("abc", number(10.0), number(120.0), &style)), 99.6);
    assert_eq!(value(aligned_text_x("a very long line", number(10.0), number(20.0), &style)), 10.0);
}
