use katana_render_runtime::number::CssNumber;
use katana_render_runtime::style::box_declaration::{expand_margin_values, MarginValue};

fn margin(length: f32) -> MarginValue {
    MarginValue { length: CssNumber { micros: (length as f64 * 1_000_000.0).round() as i64 }, auto: false }
}

fn value(n: CssNumber) -> f32 {
    (n.micros as f64 / 1_000_000.0) as f32
}

fn must_expand(values: Vec<MarginValue>) -> [MarginValue; 4] {
    let expanded = expand_margin_values(values);
    assert!(expanded.is_some());
    let mut values = expanded.into_iter().collect::<Vec<_>>();
    values.remove(0)
}

#[test]
fn two_value_shorthand_expands_to_horizontal_and_vertical_pairs() {
    let resolved = must_expand(vec![margin(1.0), margin(2.0)]);

    assert_eq!(value(resolved[0].length), 1.0);
    assert_eq!(value(resolved[1].length), 2.0);
    assert_eq!(value(resolved[2].length), 1.0);
    assert_eq!(value(resolved[3].length), 2.0);
    assert!(!resolved[0].auto && !resolved[1].auto && !resolved[2].auto && !resolved[3].auto);
}

#[test]
fn three_value_shorthand_expands_to_top_horizontal_and_bottom() {
    let resolved = must_expand(vec![margin(1.0), margin(2.0), margin(3.0)]);

    assert_eq!(value(resolved[0].length), 1.0);
    assert_eq!(value(resolved[1].length), 2.0);
    assert_eq!(value(resolved[2].length), 3.0);
    assert_eq!(value(resolved[3].length), 2.0);
    assert!(!resolved[0].auto && !resolved[1].auto && !resolved[2].auto && !resolved[3].auto);
}

#[test]
fn applies_margin_shorthand_to_all_sides_when_single_value_is_given() {
    let resolved = must_expand(vec![margin(5.0)]);

    assert_eq!(value(resolved[0].length), 5.0);
    assert_eq!(value(resolved[1].length), 5.0);
    assert_eq!(value(resolved[2].length), 5.0);
    assert_eq!(value(resolved[3].length), 5.0);
    assert!(!resolved[0].auto && !resolved[1].auto && !resolved[2].auto && !resolved[3].auto);
}
