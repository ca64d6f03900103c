use katana_render_runtime::number::CssNumber;
use katana_render_runtime::style::types::{CssStyle, CssWhiteSpace};
use katana_render_runtime::styled_wrap::{styled_line_width, wrap_text_with_initial_width};

fn px(units: i32) -> CssNumber {
    CssNumber::from_units(units)
}

fn takes(lines: &[(&str, usize)]) -> Vec<(String, usize)> {
    lines.iter().map(|(l, n)| (l.to_string(), *n)).collect()
}

#[test]
fn nowrap_suppresses_soft_wraps_but_preserves_explicit_breaks() {
    let mut style = CssStyle::browser_default();
    style.white_space = CssWhiteSpace::NoWrap;

    assert_eq!(wrap_text_with_initial_width("first second", &style, &[]), ["first second"]);
    assert_eq!(wrap_text_with_initial_width("first\nsecond", &style, &[]), ["first", "second"]);
    assert_eq!(wrap_text_with_initial_width("a  \nb\n", &style, &[]), ["a", "b", ""]);
}

#[test]
fn inline_wrapping_uses_remaining_first_line_then_the_complete_width() {
    let style = CssStyle::browser_default();
    // " next " is taken at the first line's width, the rest at the full width.
    let taken = takes(&[(" next", 6), ("remaining words", 15)]);
    let lines = wrap_text_with_initial_width(" next remaining words", &style, &taken);

    assert_eq!(lines, [" next", "remaining words"]);
}

#[test]
fn lines_are_kept_while_text_remains_and_a_final_line_feed_adds_one() {
    let style = CssStyle::browser_default();
    assert_eq!(wrap_text_with_initial_width("", &style, &[]), [""]);
    let taken = takes(&[("ab", 3), ("cd", 3), ("unused", 4)]);
    assert_eq!(wrap_text_with_initial_width("ab\ncd\n", &style, &taken), ["ab", "cd", ""]);
    assert_eq!(wrap_text_with_initial_width("ab cd", &style, &takes(&[("ab", 3), ("cd", 9), ("x", 1)])), ["ab", "cd"]);
}

#[test]
fn the_first_line_has_its_own_width() {
    assert_eq!(styled_line_width(0, px(40), px(100)), px(40));
    assert_eq!(styled_line_width(3, px(40), px(100)), px(100));
    assert_eq!(styled_line_width(0, px(-5), px(100)), px(1));
}
