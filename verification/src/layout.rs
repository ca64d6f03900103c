//! Decisions of the layout pass that do not measure: which nodes take part
//! in layout, the style of a child, which inline elements can be split
//! across lines, and the messages of layout and navigation failures.
use crate::document::{attribute, attribute_spec, attrs_view, HtmlDocumentNode, NodeView};
use crate::style::element::{element_defaults_model, element_style_model};
use crate::style::types::{CssPosition, CssStyle, StyleModel};
use crate::text::{chars_of, range_starts_with, starts_with, str_is, trim, trim_bounds};
use std::collections::HashSet;
use vstd::prelude::*;
use vstd::string::*;

verus! {

/// Whether a node takes part in layout: anything but whitespace-only text.
pub open spec fn is_layout_item_spec(n: NodeView) -> bool {
    !(n matches NodeView::Text(t) && trim(t).len() == 0)
}

/// Whether a node takes part in layout.
pub fn is_layout_item(node: &HtmlDocumentNode) -> (r: bool)
    ensures
        r == is_layout_item_spec(node@),
{
    match node {
        HtmlDocumentNode::Text(text) => {
            let v = chars_of(text.as_str());
            let (a, b) = trim_bounds(&v, 0, v.len());
            proof {
                assert(v@.subrange(0, v@.len() as int) =~= text@);
            }
            a != b
        },
        HtmlDocumentNode::Element { .. } => true,
    }
}

/// The style of a child: an element's own style, or the inherited text
/// style of a text run.
pub open spec fn child_style_spec(n: NodeView, inherited: StyleModel) -> StyleModel {
    match n {
        NodeView::Element { attributes, .. } => element_style_model(attributes, inherited),
        NodeView::Text(_) => element_defaults_model(inherited),
    }
}

/// The style of a child node.
pub fn child_style(node: &HtmlDocumentNode, inherited: &CssStyle) -> (r: CssStyle)
    ensures
        r@ == child_style_spec(node@, inherited@),
{
    match node {
        HtmlDocumentNode::Element { tag, attributes, .. } => CssStyle::from_element(tag.as_str(), attributes.as_slice(), inherited),
        HtmlDocumentNode::Text(_) => inherited.inherited_text_style(),
    }
}

/// The phrasing elements whose content may be split across lines.
pub open spec fn fragmentable_tag(tag: Seq<char>) -> bool {
    tag == "abbr"@ || tag == "b"@ || tag == "bdi"@ || tag == "bdo"@ || tag == "cite"@ || tag == "code"@
        || tag == "dfn"@ || tag == "em"@ || tag == "i"@ || tag == "kbd"@ || tag == "mark"@ || tag == "q"@
        || tag == "s"@ || tag == "samp"@ || tag == "small"@ || tag == "span"@ || tag == "strong"@
        || tag == "sub"@ || tag == "sup"@ || tag == "time"@ || tag == "u"@ || tag == "var"@
}

/// Whether an element with the tag `tag` is phrasing content that may be
/// split across lines.
pub fn is_fragmentable_phrasing_tag(tag: &str) -> (r: bool)
    ensures
        r == fragmentable_tag(tag@),
{
    str_is(tag, "abbr") || str_is(tag, "b") || str_is(tag, "bdi") || str_is(tag, "bdo") || str_is(tag, "cite")
        || str_is(tag, "code") || str_is(tag, "dfn") || str_is(tag, "em") || str_is(tag, "i") || str_is(tag, "kbd")
        || str_is(tag, "mark") || str_is(tag, "q") || str_is(tag, "s") || str_is(tag, "samp") || str_is(tag, "small")
        || str_is(tag, "span") || str_is(tag, "strong") || str_is(tag, "sub") || str_is(tag, "sup")
        || str_is(tag, "time") || str_is(tag, "u") || str_is(tag, "var")
}

/// Whether a style draws no box of its own: no background, shadow, border,
/// padding, margin, size or positioning, and full opacity.
pub open spec fn unboxed_spec(m: StyleModel) -> bool {
    &&& m.background is None
    &&& m.box_shadow is None
    &&& m.border_width.val() == 0
    &&& m.border_top_width is None
    &&& m.border_right_width is None
    &&& m.border_bottom_width is None
    &&& m.border_left_width is None
    &&& m.padding_top.val() == 0
    &&& m.padding_right.val() == 0
    &&& m.padding_bottom.val() == 0
    &&& m.padding_left.val() == 0
    &&& m.margin_top.val() == 0
    &&& m.margin_right.val() == 0
    &&& m.margin_bottom.val() == 0
    &&& m.margin_left.val() == 0
    &&& m.width is None
    &&& m.min_width is None
    &&& m.max_width is None
    &&& m.height is None
    &&& m.position == CssPosition::Static
    &&& m.opacity.val() == 1_000_000
}

/// Whether a style draws no box of its own.
pub fn unboxed_inline_style(style: &CssStyle) -> (r: bool)
    ensures
        r == unboxed_spec(style@),
{
    style.background.is_none() && style.box_shadow.is_none() && style.border_width.micros == 0
        && style.border_top_width.is_none() && style.border_right_width.is_none()
        && style.border_bottom_width.is_none() && style.border_left_width.is_none() && style.padding_top.micros == 0
        && style.padding_right.micros == 0 && style.padding_bottom.micros == 0 && style.padding_left.micros == 0
        && style.margin_top.micros == 0 && style.margin_right.micros == 0 && style.margin_bottom.micros == 0
        && style.margin_left.micros == 0 && style.width.is_none() && style.min_width.is_none()
        && style.max_width.is_none() && style.height.is_none() && style.position == CssPosition::Static
        && style.opacity.micros == 1_000_000
}

/// The style under which an inline element is laid out as part of the
/// surrounding text: only a fragmentable phrasing element that is not
/// clickable, has no `onclick`, and whose style is inline, not atomic and
/// draws no box of its own.
pub open spec fn inline_flow_spec(n: NodeView, inherited: StyleModel, clickable: Set<u64>) -> Option<StyleModel> {
    match n {
        NodeView::Element { node_id, tag, attributes, .. } => {
            if !fragmentable_tag(tag) || clickable.contains(node_id) || attribute_spec(attributes, "onclick"@) is Some {
                None
            } else {
                let s = element_style_model(attributes, inherited);
                if s.inline_block && !s.inline_atomic && unboxed_spec(s) {
                    Some(s)
                } else {
                    None
                }
            }
        },
        NodeView::Text(_) => None,
    }
}

/// The style of an inline element that is laid out as part of the
/// surrounding text (see `inline_flow_spec`).
pub fn inline_flow_style(node: &HtmlDocumentNode, inherited: &CssStyle, clickable_nodes: &HashSet<u64>) -> (r: Option<CssStyle>)
    ensures
        match r {
            Some(s) => inline_flow_spec(node@, inherited@, clickable_nodes@) == Some(s@),
            None => inline_flow_spec(node@, inherited@, clickable_nodes@) is None,
        },
{
    broadcast use vstd::std_specs::hash::group_hash_axioms;
    match node {
        HtmlDocumentNode::Element { node_id, tag, attributes, .. } => {
            if !is_fragmentable_phrasing_tag(tag.as_str()) || clickable_nodes.contains(node_id)
                || attribute(attributes.as_slice(), "onclick").is_some() {
                return None;
            }
            let style = CssStyle::from_element(tag.as_str(), attributes.as_slice(), inherited);
            if style.inline_block && !style.inline_atomic && unboxed_inline_style(&style) {
                Some(style)
            } else {
                None
            }
        },
        HtmlDocumentNode::Text(_) => None,
    }
}

/// The message of a failed flow layout.
pub fn layout_error(error: &str) -> (r: String)
    ensures
        r@ == "CSS flow layout failed: "@ + error@,
{
    let mut out = String::from_str("CSS flow layout failed: ");
    out.append(error);
    out
}

/// The message of a failed navigation: an invalid resource URL is reported
/// as an invalid link target, anything else as it is.
pub fn navigation_error(error: String) -> (r: String)
    ensures
        r@ == if starts_with(error@, "resource URL is invalid"@) {
            "link target is invalid: "@ + error@
        } else {
            error@
        },
{
    let v = chars_of(error.as_str());
    proof {
        assert(v@.subrange(0, v@.len() as int) =~= error@);
    }
    if range_starts_with(&v, 0, v.len(), "resource URL is invalid") {
        let mut out = String::from_str("link target is invalid: ");
        out.append(error.as_str());
        return out;
    }
    error
}

} // verus!
