use katana_render_runtime::container::accept_list_flow_result;
use katana_render_runtime::number::CssNumber;

#[test]
fn list_flow_errors_are_recorded_at_the_item_start() {
    let mut layout_error = None;

    let bottom = accept_list_flow_result(&mut layout_error, Err("layout failed".into()), CssNumber { micros: 12_000_000 });

    assert_eq!(bottom, CssNumber { micros: 12_000_000 });
    assert_eq!(layout_error.as_deref(), Some("layout failed"));
}

#[test]
fn list_flow_bottom_is_kept_when_the_flow_lays_out() {
    let mut layout_error = None;
    let bottom = accept_list_flow_result(&mut layout_error, Ok(CssNumber { micros: 30_000_000 }), CssNumber { micros: 1 });
    assert_eq!(bottom, CssNumber { micros: 30_000_000 });
    assert_eq!(layout_error, None);
}
