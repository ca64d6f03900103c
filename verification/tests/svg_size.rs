use katana_render_runtime::number::CssNumber;
use katana_render_runtime::style::types::CssStyle;
use katana_render_runtime::svg_size::{embedded_svg_size, parse_svg_length, parse_view_box, view_box_tokens};

fn value(n: CssNumber) -> f32 {
    (n.micros as f64 / 1_000_000.0) as f32
}

fn number(x: f32) -> CssNumber {
    CssNumber { micros: (x as f64 * 1_000_000.0).round() as i64 }
}

#[test]
fn svg_lengths_accept_positive_pixels_and_percentages() {
    assert_eq!(parse_svg_length("50%", number(200.0)).map(value), Some(100.0));
    assert_eq!(parse_svg_length("20px", number(200.0)).map(value), Some(20.0));
    assert_eq!(parse_svg_length(" 12.5 ", number(200.0)).map(value), Some(12.5));
    assert_eq!(parse_svg_length("-1", number(200.0)), None);
    assert_eq!(parse_svg_length("0%", number(200.0)), None);
    assert_eq!(parse_svg_length("NaN", number(200.0)), None);
    assert_eq!(parse_svg_length("wide", number(200.0)), None);
}

#[test]
fn view_boxes_need_four_numbers_with_a_positive_size() {
    let parsed = parse_view_box("0 0 120 80").map(|(x, y, w, h)| (value(x), value(y), value(w), value(h)));
    assert_eq!(parsed, Some((0.0, 0.0, 120.0, 80.0)));
    let commas = parse_view_box("-5,2.5, 40 ,10").map(|(x, y, w, h)| (value(x), value(y), value(w), value(h)));
    assert_eq!(commas, Some((-5.0, 2.5, 40.0, 10.0)));
    assert_eq!(parse_view_box("0 0 0 80"), None);
    assert_eq!(parse_view_box("invalid"), None);
    assert_eq!(parse_view_box("0 0 120"), None);
    assert_eq!(parse_view_box("0 0 120 80 1"), None);
    assert_eq!(view_box_tokens(" 1,,2\t3 "), ["1", "2", "3"]);
}

fn least_height() -> CssNumber {
    number(24.0)
}

#[test]
fn embedded_svg_sizing_preserves_view_box_ratio_and_css_constraints() {
    let attributes = vec![
        ("width".to_string(), "400".to_string()),
        ("height".to_string(), "200".to_string()),
        ("viewbox".to_string(), "0 0 400 200".to_string()),
    ];
    let unconstrained = CssStyle::browser_default();
    let constrained =
        CssStyle::from_attributes(&[("style".to_string(), "max-width: 120px".to_string())], &unconstrained);

    let (w, h) = embedded_svg_size(&attributes, number(300.0), &unconstrained, least_height());
    assert_eq!((value(w), value(h)), (300.0, 150.0));
    let (w, h) = embedded_svg_size(
        &[("viewbox".to_string(), "0 0 400 200".to_string())],
        number(300.0),
        &unconstrained,
        least_height(),
    );
    assert_eq!((value(w), value(h)), (300.0, 150.0));
    let constrained_size = embedded_svg_size(&attributes, number(300.0), &constrained, least_height());
    assert_eq!(value(constrained_size.0), 120.0);
    assert!((value(constrained_size.1) - 60.0).abs() < 0.0001);
}

#[test]
fn an_embedded_svg_without_dimensions_fills_the_width_at_the_default_height() {
    let style = CssStyle::browser_default();
    let (w, h) = embedded_svg_size(&[], number(300.0), &style, least_height());
    assert_eq!((value(w), value(h)), (300.0, 240.0));
    let short = vec![("height".to_string(), "5".to_string()), ("width".to_string(), "50%".to_string())];
    let (w, h) = embedded_svg_size(&short, number(300.0), &style, least_height());
    assert_eq!((value(w), value(h)), (150.0, 24.0));
    let declared = CssStyle::from_attributes(&[("style".to_string(), "height: 90px".to_string())], &style);
    let (w, h) = embedded_svg_size(&short, number(300.0), &declared, least_height());
    assert_eq!((value(w), value(h)), (150.0, 90.0));
}
