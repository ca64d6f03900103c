//! Intrinsic widths: of a node, given what its parts measure, and of a
//! flex container from the widths of its items (the widest item in a
//! column, the items side by side with their gaps in a row).
use crate::document::{HtmlDocumentNode, NodeView};
use crate::length::max_int;
use crate::number::{saturate, saturated, CssNumber};
use crate::style::geometry::outer_width_spec;
use crate::style::types::{CssDisplay, CssFlexDirection, CssStyle, StyleModel};
use vstd::prelude::*;

verus! {

/// The widest of the first `k` widths, or 0 for none.
pub open spec fn widest(ws: Seq<CssNumber>, k: int) -> int
    decreases k,
{
    if k <= 0 {
        0
    } else if k == 1 {
        ws[0].val()
    } else {
        max_int(widest(ws, k - 1), ws[k - 1].val())
    }
}

/// The first `k` widths added up, in order, each sum held to the range.
pub open spec fn summed(ws: Seq<CssNumber>, k: int) -> int
    decreases k,
{
    if k <= 0 {
        0
    } else {
        saturated(summed(ws, k - 1) + ws[k - 1].val())
    }
}

/// Whether the flex direction lays items out in a column.
pub open spec fn is_column(d: CssFlexDirection) -> bool {
    d == CssFlexDirection::Column || d == CssFlexDirection::ColumnReverse
}

/// The content width of a flex container whose items (margins included)
/// are `ws` wide: the widest item in a column; in a row, the items' widths
/// added up, plus one gap between each two.
pub open spec fn flex_content_width_spec(m: StyleModel, ws: Seq<CssNumber>) -> int {
    if is_column(m.flex_direction) {
        widest(ws, ws.len() as int)
    } else {
        let gaps = if ws.len() >= 1 { ws.len() - 1 } else { 0 };
        saturated(summed(ws, ws.len() as int) + saturated(gaps * m.gap.val()))
    }
}

/// The outer width of a flex container whose items are `widths` wide (see
/// `flex_content_width_spec`).
pub fn intrinsic_flex_content_width(style: &CssStyle, widths: &[CssNumber]) -> (r: CssNumber)
    ensures
        r.val() == outer_width_spec(style@, flex_content_width_spec(style@, widths@)),
{
    let column = match style.flex_direction {
        CssFlexDirection::Column | CssFlexDirection::ColumnReverse => true,
        _ => false,
    };
    let content = if column {
        let mut best = CssNumber { micros: 0 };
        let mut i: usize = 0;
        while i < widths.len()
            invariant
                i <= widths@.len(),
                best.val() == widest(widths@, i as int),
            decreases widths@.len() - i,
        {
            if i == 0 || widths[i].micros > best.micros {
                best = widths[i];
            }
            i = i + 1;
        }
        best
    } else {
        let mut sum = CssNumber { micros: 0 };
        let mut i: usize = 0;
        while i < widths.len()
            invariant
                i <= widths@.len(),
                sum.val() == summed(widths@, i as int),
            decreases widths@.len() - i,
        {
            sum = saturate(sum.micros as i128 + widths[i].micros as i128);
            i = i + 1;
        }
        let gaps: i128 = if widths.len() >= 1 {
            widths.len() as i128 - 1
        } else {
            0
        };
        let gap = style.gap.micros as i128;
        proof {
            assert(-0x8000_0000_0000_0000 * 0xFFFF_FFFF_FFFF_FFFF <= gaps * gap <= 0x8000_0000_0000_0000
                * 0xFFFF_FFFF_FFFF_FFFF) by (nonlinear_arith)
                requires
                    0 <= gaps <= 0xFFFF_FFFF_FFFF_FFFF,
                    -0x8000_0000_0000_0000 <= gap <= 0x8000_0000_0000_0000,
            ;
        }
        let spacing = saturate(gaps * gap);
        saturate(sum.micros as i128 + spacing.micros as i128)
    };
    style.outer_width(content)
}

/// The widths that are there, in order.
pub open spec fn present_widths(ws: Seq<Option<CssNumber>>) -> Seq<CssNumber>
    decreases ws.len(),
{
    if ws.len() == 0 {
        Seq::empty()
    } else {
        match ws.last() {
            Some(w) => present_widths(ws.drop_last()).push(w),
            None => present_widths(ws.drop_last()),
        }
    }
}

/// The intrinsic width of a node: an image's own width where it is one;
/// else the measured width of a text node's text; else, for an element that
/// is not a flex container, the outer width of its inline content; else the
/// outer width of its flex content, from the widths of the children that
/// take part (`None` for a child that does not).
pub open spec fn intrinsic_layout_width_spec(
    n: NodeView,
    m: StyleModel,
    image_width: Option<CssNumber>,
    text_width: CssNumber,
    inline_width: CssNumber,
    child_widths: Seq<Option<CssNumber>>,
) -> CssNumber {
    match image_width {
        Some(w) => w,
        None => match n {
            NodeView::Text(_) => text_width,
            NodeView::Element { .. } => if m.display != CssDisplay::Flex {
                CssNumber { micros: outer_width_spec(m, inline_width.val()) as i64 }
            } else {
                CssNumber {
                    micros: outer_width_spec(m, flex_content_width_spec(m, present_widths(child_widths))) as i64,
                }
            },
        },
    }
}

/// The intrinsic width of `node` in the style `style`, given the image
/// width where the node is an image, the measured width of its text, the
/// intrinsic width of its inline content, and, for each child, its
/// intrinsic flex width with margins where it takes part
/// (see `intrinsic_layout_width_spec`).
pub fn intrinsic_layout_width(
    node: &HtmlDocumentNode,
    style: &CssStyle,
    image_width: Option<CssNumber>,
    text_width: CssNumber,
    inline_width: CssNumber,
    child_widths: &[Option<CssNumber>],
) -> (r: CssNumber)
    ensures
        r == intrinsic_layout_width_spec(node@, style@, image_width, text_width, inline_width, child_widths@),
{
    if let Some(w) = image_width {
        return w;
    }
    match node {
        HtmlDocumentNode::Text(_) => text_width,
        HtmlDocumentNode::Element { .. } => {
            if style.display != CssDisplay::Flex {
                return style.outer_width(inline_width);
            }
            let mut widths: Vec<CssNumber> = Vec::new();
            let mut i: usize = 0;
            while i < child_widths.len()
                invariant
                    i <= child_widths@.len(),
                    widths@ == present_widths(child_widths@.take(i as int)),
                decreases child_widths@.len() - i,
            {
                proof {
                    assert(child_widths@.take(i + 1).drop_last() =~= child_widths@.take(i as int));
                }
                if let Some(w) = child_widths[i] {
                    widths.push(w);
                }
                i = i + 1;
            }
            proof {
                assert(child_widths@.take(child_widths@.len() as int) =~= child_widths@);
            }
            intrinsic_flex_content_width(style, widths.as_slice())
        },
    }
}

} // verus!
