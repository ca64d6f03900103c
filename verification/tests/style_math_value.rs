use katana_render_runtime::length::css_resolved_px;
use katana_render_runtime::number::CssNumber;
use katana_render_runtime::tokens::{split_top_level_commas, split_top_level_whitespace};

fn number(x: f32) -> CssNumber {
    CssNumber { micros: (x as f64 * 1_000_000.0).round() as i64 }
}

#[test]
fn math_function_rejects_unresolvable_nested_values() {
    assert!(css_resolved_px("min(1px, invalid)", number(16.0), number(100.0), number(50.0), false).is_none());
}

#[test]
fn top_level_comma_split_rejects_empty_and_unbalanced_arguments() {
    assert!(split_top_level_commas(", 1px").is_none());
    assert!(split_top_level_commas("min(1px, 2px").is_none());
    assert!(split_top_level_commas("1px,").is_none());
}

#[test]
fn top_level_whitespace_split_preserves_nested_parentheses() {
    assert_eq!(split_top_level_whitespace("calc(1px + 2px) 3px"), vec!["calc(1px + 2px)", "3px"]);
}

#[test]
fn top_level_whitespace_split_returns_final_token_without_trailing_whitespace() {
    assert_eq!(split_top_level_whitespace("  5px  "), vec!["5px"]);
}
