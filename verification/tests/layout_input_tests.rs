use katana_render_runtime::control_paint::{
    checkbox_geometry, checkbox_inset, control_text_baseline, input_geometry, input_text_box, summary_height, summary_layout,
    ControlBox, ControlSizes,
};
use katana_render_runtime::controls::is_checkbox;
use katana_render_runtime::number::CssNumber;
use katana_render_runtime::style::types::{CssBoxSizing, CssLength, CssStyle, CssTextAlign};

fn value(n: CssNumber) -> f32 {
    (n.micros as f64 / 1_000_000.0) as f32
}

fn number(x: f32) -> CssNumber {
    CssNumber { micros: (x as f64 * 1_000_000.0).round() as i64 }
}

fn sizes() -> ControlSizes {
    ControlSizes { control_height: number(32.0), default_input_width: number(200.0) }
}

#[test]
fn auto_height_input_includes_line_height_padding_and_border() {
    let mut style = CssStyle::browser_default();
    style.line_height = number(33.6);
    style.padding_top = number(16.0);
    style.padding_bottom = number(16.0);
    style.border_width = number(1.0);

    let geometry = input_geometry(number(0.0), number(0.0), number(300.0), &style, sizes());

    assert!((value(geometry.height) - 67.6).abs() < 0.01);
}

#[test]
fn border_box_explicit_input_height_is_not_expanded() {
    let mut style = CssStyle::browser_default();
    style.box_sizing = CssBoxSizing::BorderBox;
    style.height = Some(number(40.0));
    style.padding_top = number(8.0);
    style.padding_bottom = number(8.0);

    assert_eq!(value(input_geometry(number(0.0), number(0.0), number(300.0), &style, sizes()).height), 40.0);
}

#[test]
fn checkbox_type_attribute_is_detected() {
    let attrs = vec![("type".to_string(), "checkbox".to_string())];

    assert!(is_checkbox(&attrs));
}

#[test]
fn inputs_sit_inside_their_margins_and_default_to_a_bounded_width() {
    let mut style = CssStyle::browser_default();
    style.margin_left = number(4.0);
    style.margin_top = number(3.0);
    let geometry = input_geometry(number(10.0), number(20.0), number(300.0), &style, sizes());
    assert_eq!((value(geometry.x), value(geometry.y)), (14.0, 23.0));
    assert_eq!(value(geometry.width), 200.0);
    assert_eq!(value(geometry.height), 32.0);
    let narrow = input_geometry(number(0.0), number(0.0), number(120.0), &style, sizes());
    assert_eq!(value(narrow.width), 116.0);
    style.width = Some(CssLength::Px(number(250.0)));
    let declared = input_geometry(number(0.0), number(0.0), number(300.0), &style, sizes());
    assert_eq!(value(declared.width), 250.0);
}

#[test]
fn checkboxes_are_square_unless_sized() {
    let mut style = CssStyle::browser_default();
    let geometry = checkbox_geometry(number(0.0), number(0.0), number(300.0), &style, sizes());
    assert_eq!((value(geometry.width), value(geometry.height)), (32.0, 32.0));
    let tight = checkbox_geometry(number(0.0), number(0.0), number(20.0), &style, sizes());
    assert_eq!((value(tight.width), value(tight.height)), (20.0, 20.0));
    style.height = Some(number(12.0));
    style.min_height = number(15.0);
    let sized = checkbox_geometry(number(0.0), number(0.0), number(300.0), &style, sizes());
    assert_eq!(value(sized.height), 15.0);
}

#[test]
fn checkbox_marks_are_inset_by_a_quarter_up_to_two_pixels() {
    assert_eq!(value(checkbox_inset(number(4.0))), 1.0);
    assert_eq!(value(checkbox_inset(number(16.0))), 2.0);
}

fn test_geometry() -> ControlBox {
    ControlBox { x: number(0.0), y: number(0.0), width: number(160.0), height: number(24.0) }
}

fn default_inset() -> CssNumber {
    number(6.0)
}

#[test]
fn paint_input_value_uses_default_text_inset_when_paddings_are_empty() {
    let mut style = CssStyle::browser_default();
    style.text_align = CssTextAlign::Start;
    style.padding_left = number(0.0);
    style.padding_right = number(0.0);

    let (x, width) = input_text_box(test_geometry(), &style, default_inset());
    assert_eq!(x, default_inset());
    assert_eq!(value(width), 148.0);
}

#[test]
fn positive_padding_insets_input_text_by_border_and_padding() {
    let mut style = CssStyle::browser_default();
    style.padding_left = number(8.0);
    style.padding_right = number(8.0);
    style.border_width = number(1.0);
    let (x, width) = input_text_box(test_geometry(), &style, default_inset());
    assert_eq!((value(x), value(width)), (9.0, 142.0));
    let narrow = ControlBox { width: number(10.0), ..test_geometry() };
    assert_eq!(value(input_text_box(narrow, &style, default_inset()).1), 0.0);
}

#[test]
fn control_text_is_centred_on_its_font_size() {
    assert_eq!(value(control_text_baseline(number(10.0), number(24.0), number(16.0))), 28.0);
}

#[test]
fn summaries_sit_inside_their_margins_at_the_control_height() {
    use_summary();
}

fn use_summary() {
    let mut style = CssStyle::browser_default();
    style.margin_left = number(5.0);
    style.margin_right = number(5.0);
    style.margin_top = number(2.0);
    style.padding_top = number(3.0);
    style.padding_bottom = number(3.0);
    let layout = summary_layout(number(10.0), number(20.0), number(300.0), &style, sizes());
    assert_eq!((value(layout.x), value(layout.y), value(layout.width), value(layout.height)), (15.0, 22.0, 290.0, 38.0));
    style.height = Some(number(10.0));
    style.min_height = number(40.0);
    assert_eq!(value(summary_height(&style, sizes())), 40.0);
    assert_eq!(value(summary_layout(number(0.0), number(0.0), number(4.0), &style, sizes()).width), 1.0);
}
