use katana_render_runtime::tokens::css_value_components;

#[test]
fn css_value_components_respects_nested_function_depth() {
    let components = css_value_components("  linear-gradient(red, blue)   1px solid  ");
    assert_eq!(components, vec!["linear-gradient(red, blue)", "1px", "solid"]);
}

use katana_render_runtime::document::{input_initial_value, is_input_tag, node_text, seed_input_values, table_rows, HtmlDocumentNode};
use katana_render_runtime::number::CssNumber;
use katana_render_runtime::wrap::{text_capacity, wrap_forced_line, wrap_segments, wrap_text, wrap_text_with_factor};
use std::collections::HashMap;

fn number(x: f32) -> CssNumber {
    CssNumber { micros: (x as f64 * 1_000_000.0).round() as i64 }
}

const TEXT_CHARACTER_WIDTH_FACTOR: f32 = 0.55;

#[test]
fn explicit_breaks_survive_html_whitespace_collapse_and_text_wrapping() {
    let nodes = [element(
        "h1",
        vec![
            HtmlDocumentNode::Text(" First   line ".to_string()),
            element("br", Vec::new()),
            HtmlDocumentNode::Text(" Second   line ".to_string()),
        ],
    )];

    let text = node_text(&nodes);
    assert_eq!(text, "First line\nSecond line");
    assert_eq!(wrap_text(&text, number(400.0), number(16.0)), ["First line", "Second line"]);
    assert_eq!(wrap_text("first\n\nthird", number(400.0), number(16.0)), ["first", "", "third"]);
    assert_eq!(
        wrap_text("日本語の長い文章です", number(44.0), number(10.0)),
        ["日本語の", "長い文章", "です"]
    );
    assert_eq!(wrap_text("日本語、句読点。", number(44.0), number(10.0)), ["日本語、", "句読点。"]);
    assert_eq!(wrap_text("Summary text", number(105.0), number(16.0)), ["Summary text"]);
    assert_eq!(text_capacity(number(105.0), number(16.0), number(TEXT_CHARACTER_WIDTH_FACTOR)), 12);
    assert_eq!(text_capacity(number(104.0), number(16.0), number(TEXT_CHARACTER_WIDTH_FACTOR)), 11);
}

#[test]
fn forced_lines_wrap_at_break_opportunities_within_the_capacity() {
    let mut lines = vec!["kept".to_string()];
    wrap_forced_line("alpha beta gamma", 10, &mut lines);
    assert_eq!(lines, ["kept", "alpha", "beta gamma"]);
    let mut empty = Vec::new();
    wrap_forced_line("", 10, &mut empty);
    assert_eq!(empty, [""]);
    let mut long = Vec::new();
    wrap_forced_line("unbreakable", 3, &mut long);
    assert_eq!(long, ["unbreakable"]);
}

#[test]
fn text_capacity_is_at_least_one_column() {
    assert_eq!(text_capacity(number(1.0), number(16.0), number(0.55)), 1);
    assert_eq!(text_capacity(number(-50.0), number(16.0), number(0.55)), 1);
    assert_eq!(text_capacity(number(0.0), number(0.0), number(0.55)), 1);
    assert_eq!(text_capacity(number(10.0), number(0.0), number(0.55)), usize::MAX);
    assert_eq!(text_capacity(number(88.0), number(16.0), number(0.55)), 10);
    assert_eq!(
        wrap_text_with_factor("a b c d", number(30.0), number(10.0), number(1.0)),
        ["a", "b", "c d"]
    );
}

#[test]
fn structural_helpers_preserve_rows_text_and_empty_input_defaults() {
    assert_table_rows_preserve_cells();
    assert_input_defaults_are_seeded();
}

fn assert_table_rows_preserve_cells() {
    let rows = table_rows(&[HtmlDocumentNode::Text("ignored".to_string()), table_fixture()]);
    assert_eq!(rows.len(), 1);
    assert_eq!(rows[0].len(), 2);
    assert_eq!(rows[0][0].tag, "th");
    assert!(rows[0][0].attributes.is_empty());
    assert_eq!(
        node_text(&[element("span", vec![HtmlDocumentNode::Text("Ready".to_string())])]),
        "Ready"
    );
}

fn table_fixture() -> HtmlDocumentNode {
    element(
        "table",
        vec![
            HtmlDocumentNode::Text("ignored table text".to_string()),
            element(
                "tbody",
                vec![element(
                    "tr",
                    vec![
                        HtmlDocumentNode::Text("ignored row text".to_string()),
                        element("th", vec![HtmlDocumentNode::Text("Feature".to_string())]),
                        element("td", vec![HtmlDocumentNode::Text("Ready".to_string())]),
                    ],
                )],
            ),
        ],
    )
}

fn assert_input_defaults_are_seeded() {
    let inputs = vec![element(
        "section",
        vec![
            element_with_id(1, "input", Vec::new()),
            element_with_id(2, "textarea", Vec::new()),
            element("p", vec![HtmlDocumentNode::Text("plain".to_string())]),
        ],
    )];
    let mut values = HashMap::new();
    seed_input_values(&inputs, &mut values);
    assert_eq!(values.len(), 2);
    assert!(values.values().all(String::is_empty));
    assert!(is_input_tag("textarea"));
    assert_eq!(input_initial_value(&[]), "");
}

fn element(tag: &str, children: Vec<HtmlDocumentNode>) -> HtmlDocumentNode {
    element_with_id(0, tag, children)
}

fn element_with_id(node_id: u64, tag: &str, children: Vec<HtmlDocumentNode>) -> HtmlDocumentNode {
    HtmlDocumentNode::Element { node_id, tag: tag.to_string(), attributes: Vec::new(), children }
}

#[test]
fn segments_end_at_the_given_break_offsets() {
    let mut lines = Vec::new();
    wrap_segments("ab cd", &[3, 5], 3, &mut lines);
    assert_eq!(lines, ["ab", "cd"]);
    let mut accented = Vec::new();
    wrap_segments("é", &[1, 2], 1, &mut accented);
    assert_eq!(accented, ["é"]);
    let mut whole = Vec::new();
    wrap_segments("ab cd", &[5], 3, &mut whole);
    assert_eq!(whole, ["ab cd"]);
}
