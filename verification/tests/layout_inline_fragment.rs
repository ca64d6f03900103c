use katana_render_runtime::document::HtmlDocumentNode;
use katana_render_runtime::layout::inline_flow_style;
use katana_render_runtime::style::types::CssStyle;
use std::collections::HashSet;

#[test]
fn text_nodes_are_not_fragmentable_element_runs() {
    let node = HtmlDocumentNode::Text("text".to_string());

    assert!(inline_flow_style(&node, &CssStyle::browser_default(), &HashSet::new()).is_none());
}
