use katana_render_runtime::number::CssNumber;
use katana_render_runtime::position::{horizontal_position, positioning_containing_block, vertical_position, ContainingBlock};
use katana_render_runtime::style::types::{CssLength, CssPosition, CssStyle};

fn value(n: CssNumber) -> f32 {
    (n.micros as f64 / 1_000_000.0) as f32
}

fn number(x: f32) -> CssNumber {
    CssNumber { micros: (x as f64 * 1_000_000.0).round() as i64 }
}

fn containing_block() -> ContainingBlock {
    ContainingBlock { x: number(10.0), y: number(20.0), width: number(200.0), height: number(100.0) }
}

fn horizontal(style: &CssStyle) -> (f32, f32) {
    let (x, width) = horizontal_position(containing_block(), style);
    (value(x), value(width))
}

#[test]
fn horizontal_position_defaults_to_containing_block_start() {
    assert_eq!(horizontal(&CssStyle::browser_default()), (10.0, 200.0));
}

#[test]
fn horizontal_position_honors_right_inset_with_explicit_width() {
    let mut style = CssStyle::browser_default();
    style.width = Some(CssLength::Px(number(50.0)));
    style.inset_right = Some(number(15.0));

    assert_eq!(horizontal(&style), (145.0, 50.0));
}

#[test]
fn opposite_insets_stretch_the_box_and_never_make_it_negative() {
    let mut style = CssStyle::browser_default();
    style.inset_left = Some(number(30.0));
    style.inset_right = Some(number(40.0));
    assert_eq!(horizontal(&style), (40.0, 130.0));
    style.inset_right = Some(number(400.0));
    assert_eq!(horizontal(&style), (40.0, 0.0));
}

#[test]
fn vertical_position_uses_insets_then_the_declared_height() {
    let mut style = CssStyle::browser_default();
    let (y, height) = vertical_position(containing_block(), &style);
    assert_eq!((value(y), height), (20.0, None));

    style.height = Some(number(30.0));
    style.padding_top = number(5.0);
    style.inset_bottom = Some(number(10.0));
    let (y, height) = vertical_position(containing_block(), &style);
    assert_eq!((value(y), height.map(value)), (75.0, Some(35.0)));

    style.inset_top = Some(number(5.0));
    let (y, height) = vertical_position(containing_block(), &style);
    assert_eq!((value(y), height.map(value)), (25.0, Some(85.0)));
}

#[test]
fn fixed_boxes_are_placed_against_the_scrolled_viewport() {
    let block = ContainingBlock { x: number(5.0), y: number(6.0), width: number(70.0), height: number(80.0) };
    let fixed = positioning_containing_block(CssPosition::Fixed, number(30.0), number(320.0), number(240.0), &[block]);
    assert_eq!(fixed, ContainingBlock { x: number(0.0), y: number(30.0), width: number(320.0), height: number(240.0) });
}

#[test]
fn other_boxes_use_the_innermost_block_or_the_page() {
    let outer = ContainingBlock { x: number(1.0), y: number(2.0), width: number(100.0), height: number(50.0) };
    let inner = ContainingBlock { x: number(5.0), y: number(6.0), width: number(70.0), height: number(80.0) };
    assert_eq!(
        positioning_containing_block(CssPosition::Absolute, number(30.0), number(320.0), number(240.0), &[outer, inner]),
        inner
    );
    assert_eq!(
        positioning_containing_block(CssPosition::Absolute, number(30.0), number(320.0), number(240.0), &[]),
        ContainingBlock { x: number(0.0), y: number(0.0), width: number(320.0), height: number(240.0) }
    );
}
