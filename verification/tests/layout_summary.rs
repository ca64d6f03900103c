use katana_render_runtime::number::CssNumber;
use katana_render_runtime::paint::disclosure_marker_path;

fn number(x: f32) -> CssNumber {
    CssNumber { micros: (x as f64 * 1_000_000.0).round() as i64 }
}

#[test]
fn disclosure_marker_changes_direction_when_details_is_open() {
    let closed = disclosure_marker_path(number(10.0), number(20.0), false);
    let open = disclosure_marker_path(number(10.0), number(20.0), true);

    assert_eq!(closed, "M 10 20 L 10 28 L 18 24 Z");
    assert_eq!(open, "M 10 20 L 18 20 L 14 28 Z");
}

#[test]
fn disclosure_marker_keeps_fractional_and_negative_coordinates() {
    let closed = disclosure_marker_path(number(-2.5), number(0.25), false);
    assert_eq!(closed, "M -2.5 0.25 L -2.5 8.25 L 5.5 4.25 Z");
}
