//! The widths of inline content: of a run of text and inline blocks, of an
//! inline block, and of a floated box, and where an aligned run starts.
//!
//! Text is measured by the font; these functions take the measured width of
//! a node's text (in the node's own style) and do the rest.
use crate::document::{lemma_nodes_view_index, lemma_nodes_view_len, nodes_view, HtmlDocumentNode, NodeView};
use crate::grid_measure::MIN_LAYOUT_WIDTH_MICROS;
use crate::layout::{is_layout_item, is_layout_item_spec};
use crate::length::{max_int, min_int};
use crate::number::{max_number, min_number, saturate, saturated, CssNumber};
use crate::style::element::element_style_model;
use crate::style::geometry::{box_width_spec, outer_width_spec};
use crate::style::types::{CssDisplay, CssFloat, CssStyle, CssTextAlign, StyleModel};
use crate::text::{all_ws, split_leading_whitespace, trim_start};
use vstd::prelude::*;

verus! {

/// The content box width of an inline block whose text measures
/// `text_width`: its box width when it declares a width or a maximum width,
/// else the outer width of its text.
pub open spec fn inline_content_box_width_spec(m: StyleModel, text_width: int, available: int) -> int {
    if m.width is Some || m.max_width is Some {
        box_width_spec(m, available)
    } else {
        outer_width_spec(m, text_width)
    }
}

/// The content box width of an inline block whose text measures
/// `text_width`, in `available` pixels.
pub fn inline_content_box_width(text_width: CssNumber, style: &CssStyle, available: CssNumber) -> (r: CssNumber)
    ensures
        r.val() == inline_content_box_width_spec(style@, text_width.val(), available.val()),
{
    if style.width.is_some() || style.max_width.is_some() {
        style.box_width(available)
    } else {
        style.outer_width(text_width)
    }
}

/// The space left between the horizontal margins, at least the narrowest
/// layout width.
pub open spec fn between_margins_spec(m: StyleModel, available: int) -> int {
    max_int(saturated(available - m.margin_left.val() - m.margin_right.val()), MIN_LAYOUT_WIDTH_MICROS as int)
}

/// A margin box width `box_width` plus margins, within the available width
/// and at least the narrowest layout width.
pub open spec fn margin_box_width_spec(m: StyleModel, box_width: int, available: int) -> int {
    max_int(
        min_int(saturated(box_width + m.margin_left.val() + m.margin_right.val()), available),
        MIN_LAYOUT_WIDTH_MICROS as int,
    )
}

pub(crate) fn between_margins(style: &CssStyle, available: CssNumber) -> (r: CssNumber)
    ensures
        r.val() == between_margins_spec(style@, available.val()),
{
    max_number(
        saturate(available.micros as i128 - style.margin_left.micros as i128 - style.margin_right.micros as i128),
        CssNumber { micros: MIN_LAYOUT_WIDTH_MICROS },
    )
}

fn margin_box_width(style: &CssStyle, box_width: CssNumber, available: CssNumber) -> (r: CssNumber)
    ensures
        r.val() == margin_box_width_spec(style@, box_width.val(), available.val()),
{
    max_number(
        min_number(
            saturate(box_width.micros as i128 + style.margin_left.micros as i128 + style.margin_right.micros as i128),
            available,
        ),
        CssNumber { micros: MIN_LAYOUT_WIDTH_MICROS },
    )
}

/// The width an element takes in a run of inline content: only a displayed
/// inline block takes part, with its margins.
pub open spec fn inline_element_width_spec(
    attributes: Seq<(Seq<char>, Seq<char>)>,
    inherited: StyleModel,
    available: int,
    text_width: int,
) -> Option<int> {
    let m = element_style_model(attributes, inherited);
    if !m.inline_block || m.display == CssDisplay::Hidden {
        None
    } else {
        let content = inline_content_box_width_spec(m, text_width, between_margins_spec(m, available));
        Some(margin_box_width_spec(m, content, available))
    }
}

/// The width a node takes in a run of inline content whose node text
/// measures `text_width`: text takes its width, at most the available
/// width; an element, see `inline_element_width_spec`.
pub open spec fn inline_node_width_spec(n: NodeView, inherited: StyleModel, available: int, text_width: int) -> Option<
    int,
> {
    match n {
        NodeView::Text(_) => Some(min_int(text_width, available)),
        NodeView::Element { attributes, .. } => inline_element_width_spec(
            attributes,
            inherited,
            available,
            text_width,
        ),
    }
}

/// The width `node` takes in a run of inline content, where the text of
/// the node measures `text_width` in the node's own style; `None` for an
/// element that does not flow inline.
pub fn inline_node_width(node: &HtmlDocumentNode, inherited: &CssStyle, available: CssNumber, text_width: CssNumber) -> (r:
    Option<CssNumber>)
    ensures
        match r {
            Some(w) => inline_node_width_spec(node@, inherited@, available.val(), text_width.val()) == Some(w.val()),
            None => inline_node_width_spec(node@, inherited@, available.val(), text_width.val()) is None,
        },
{
    match node {
        HtmlDocumentNode::Text(_) => Some(min_number(text_width, available)),
        HtmlDocumentNode::Element { tag, attributes, .. } => {
            let style = CssStyle::from_element(tag.as_str(), attributes.as_slice(), inherited);
            if !style.inline_block || style.display == CssDisplay::Hidden {
                return None;
            }
            let available_box = between_margins(&style, available);
            let content = inline_content_box_width(text_width, &style, available_box);
            Some(margin_box_width(&style, content, available))
        },
    }
}

/// The width of the first `k` nodes of a run, and whether the run has
/// ended: whitespace-only text is passed over, and the run ends at the
/// first node that does not flow inline. `widths[i]` is the measured width
/// of the text of node `i`.
pub open spec fn run_prefix_spec(
    nodes: Seq<NodeView>,
    widths: Seq<CssNumber>,
    inherited: StyleModel,
    available: int,
    k: int,
) -> (int, bool)
    decreases k,
{
    if k <= 0 {
        (0, false)
    } else {
        let (sum, ended) = run_prefix_spec(nodes, widths, inherited, available, k - 1);
        if ended || !is_layout_item_spec(nodes[k - 1]) {
            (sum, ended)
        } else {
            match inline_node_width_spec(nodes[k - 1], inherited, available, widths[k - 1].val()) {
                None => (sum, true),
                Some(w) => (saturated(sum + w), false),
            }
        }
    }
}

/// Where a run of inline nodes starts in `available` pixels from `x`: the
/// run's width (at most the available width) is placed by `text-align`.
pub open spec fn inline_run_start_x_spec(
    nodes: Seq<NodeView>,
    widths: Seq<CssNumber>,
    x: int,
    available: int,
    m: StyleModel,
) -> int {
    let width = min_int(run_prefix_spec(nodes, widths, m, available, nodes.len() as int).0, available);
    let slack = max_int(available - width, 0);
    match m.text_align {
        CssTextAlign::Start => x,
        CssTextAlign::Center => saturated(x + slack / 2),
        CssTextAlign::End => saturated(x + slack),
    }
}

/// Where a run of inline nodes starts in `available` pixels from `x`, by
/// the style's `text-align`; `widths[i]` is the measured width of the text
/// of `nodes[i]`.
pub fn inline_run_start_x(
    nodes: &[HtmlDocumentNode],
    widths: &[CssNumber],
    x: CssNumber,
    available: CssNumber,
    style: &CssStyle,
) -> (r: CssNumber)
    requires
        widths@.len() == nodes@.len(),
    ensures
        r.val() == inline_run_start_x_spec(nodes_view(nodes@), widths@, x.val(), available.val(), style@),
{
    let ghost ns = nodes_view(nodes@);
    proof {
        lemma_nodes_view_len(nodes@);
    }
    let mut sum = CssNumber { micros: 0 };
    let mut ended = false;
    let mut i: usize = 0;
    while i < nodes.len()
        invariant
            i <= nodes@.len(),
            widths@.len() == nodes@.len(),
            ns == nodes_view(nodes@),
            ns.len() == nodes@.len(),
            (sum.val(), ended) == run_prefix_spec(ns, widths@, style@, available.val(), i as int),
        decreases nodes@.len() - i,
    {
        proof {
            lemma_nodes_view_index(nodes@, i as int);
        }
        if !ended && is_layout_item(&nodes[i]) {
            match inline_node_width(&nodes[i], style, available, widths[i]) {
                None => {
                    ended = true;
                },
                Some(w) => {
                    sum = saturate(sum.micros as i128 + w.micros as i128);
                },
            }
        }
        i = i + 1;
    }
    let width = min_number(sum, available);
    let slack: i128 = if available.micros >= width.micros {
        available.micros as i128 - width.micros as i128
    } else {
        0
    };
    match style.text_align {
        CssTextAlign::Start => x,
        CssTextAlign::Center => saturate(x.micros as i128 + ((slack as u128) / 2) as i128),
        CssTextAlign::End => saturate(x.micros as i128 + slack),
    }
}

/// The side and the margin box width of a floated element whose text
/// measures `text_width`; `None` for text, an element that does not float,
/// and a hidden one.
pub open spec fn float_geometry_spec(n: NodeView, inherited: StyleModel, available: int, text_width: int) -> Option<
    (CssFloat, int),
> {
    match n {
        NodeView::Text(_) => None,
        NodeView::Element { attributes, .. } => {
            let m = element_style_model(attributes, inherited);
            if m.float == CssFloat::NoFloat || m.display == CssDisplay::Hidden {
                None
            } else {
                let available_box = between_margins_spec(m, available);
                let box_width = match crate::style::geometry::explicit_width_spec(m, available_box) {
                    Some(w) => w,
                    None => inline_content_box_width_spec(m, text_width, available_box),
                };
                Some((m.float, margin_box_width_spec(m, box_width, available)))
            }
        },
    }
}

/// The side and the margin box width of a floated node in `available`
/// pixels, where the text of the node measures `text_width` in its own
/// style; `None` when the node does not float.
pub fn float_geometry(node: &HtmlDocumentNode, inherited: &CssStyle, available: CssNumber, text_width: CssNumber) -> (r:
    Option<(CssFloat, CssNumber)>)
    ensures
        match r {
            Some((side, w)) => float_geometry_spec(node@, inherited@, available.val(), text_width.val()) == Some(
                (side, w.val()),
            ),
            None => float_geometry_spec(node@, inherited@, available.val(), text_width.val()) is None,
        },
{
    match node {
        HtmlDocumentNode::Text(_) => None,
        HtmlDocumentNode::Element { tag, attributes, .. } => {
            let style = CssStyle::from_element(tag.as_str(), attributes.as_slice(), inherited);
            if style.float == CssFloat::NoFloat || style.display == CssDisplay::Hidden {
                return None;
            }
            let available_box = between_margins(&style, available);
            let box_width = match style.explicit_width(available_box) {
                Some(w) => w,
                None => inline_content_box_width(text_width, &style, available_box),
            };
            Some((style.float, margin_box_width(&style, box_width, available)))
        },
    }
}

/// A line of inline text split into its leading whitespace, which is
/// measured as a horizontal offset, and the visible rest.
pub fn visible_inline_line(line: &str) -> (r: (&str, &str))
    ensures
        r.1@ == trim_start(line@),
        r.0@ + r.1@ == line@,
        all_ws(r.0@),
{
    split_leading_whitespace(line)
}

/// Where a floated box of `float_width` goes in an inline run at `x` of
/// `width` pixels: a right float against the right edge (at least at `x`),
/// any other box at `x`.
pub open spec fn float_x_spec(side: CssFloat, x: int, width: int, float_width: int) -> int {
    match side {
        CssFloat::Right => saturated(x + max_int(width - float_width, 0)),
        _ => x,
    }
}

/// Where a floated box of `float_width` goes in an inline run at `x` of
/// `width` pixels.
pub fn float_x(side: CssFloat, x: CssNumber, width: CssNumber, float_width: CssNumber) -> (r: CssNumber)
    ensures
        r.val() == float_x_spec(side, x.val(), width.val(), float_width.val()),
{
    match side {
        CssFloat::Right => {
            let free: i128 = width.micros as i128 - float_width.micros as i128;
            saturate(x.micros as i128 + if free >= 0 { free } else { 0 })
        },
        _ => x,
    }
}

} // verus!
