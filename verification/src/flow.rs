//! Decisions of the flow layout about its items: which axis a flex
//! container runs along, whether it stretches its children, and the least
//! height of a leaf.
use crate::document::{HtmlDocumentNode, NodeView};
use crate::layout::{is_layout_item, is_layout_item_spec};
use crate::length::max_int;
use crate::style::element::element_style_model;
use crate::number::{max_number, saturate, saturated, CssNumber};
use crate::style::geometry::outer_height_spec;
use crate::style::types::{
    CssAlignItems, CssAlignItemsKeyword, CssAlignmentSafety, CssDisplay, CssFlexDirection, CssStyle, StyleModel,
};
use vstd::prelude::*;

verus! {

/// Whether a container stretches its children across the cross axis: with
/// no `align-items`, or with plain `stretch`.
pub open spec fn stretches_children_spec(m: StyleModel) -> bool {
    match m.align_items {
        None => true,
        Some(a) => a == (CssAlignItems { keyword: CssAlignItemsKeyword::Stretch, safety: CssAlignmentSafety::Default }),
    }
}

/// Whether a container stretches its children across the cross axis.
pub fn stretches_children(parent: &CssStyle) -> (r: bool)
    ensures
        r == stretches_children_spec(parent@),
{
    match parent.align_items {
        None => true,
        Some(a) => match (a.keyword, a.safety) {
            (CssAlignItemsKeyword::Stretch, CssAlignmentSafety::Default) => true,
            _ => false,
        },
    }
}

/// Whether a flex container lays its items out in a row (either way).
pub fn is_flex_row(parent: &CssStyle) -> (r: bool)
    ensures
        r == (parent@.flex_direction == CssFlexDirection::Row || parent@.flex_direction == CssFlexDirection::RowReverse),
{
    match parent.flex_direction {
        CssFlexDirection::Row | CssFlexDirection::RowReverse => true,
        _ => false,
    }
}

/// The least height of a leaf: its measured height where the minimum height
/// is automatic, else its minimum outer height with its vertical margins;
/// never negative.
pub open spec fn leaf_minimum_height_spec(m: StyleModel, measured: int) -> int {
    let h = if m.automatic_min_height {
        measured
    } else {
        saturated(outer_height_spec(m, m.min_height.val()) + m.margin_top.val() + m.margin_bottom.val())
    };
    max_int(h, 0)
}

/// The least height of a leaf (see `leaf_minimum_height_spec`).
pub fn leaf_minimum_height(style: &CssStyle, measured_height: CssNumber) -> (r: CssNumber)
    ensures
        r.val() == leaf_minimum_height_spec(style@, measured_height.val()),
{
    let h = if style.automatic_min_height {
        measured_height
    } else {
        saturate(
            style.minimum_outer_height().micros as i128 + style.margin_top.micros as i128
                + style.margin_bottom.micros as i128,
        )
    };
    max_number(h, CssNumber { micros: 0 })
}

/// How far apart, in millionths of a pixel, two items may start and still
/// share a grid row.
pub const GRID_ROW_Y_EPSILON_MICROS: i64 = 10_000;

/// The tallest of the first `n` heights, and nothing less than zero.
pub open spec fn tallest(heights: Seq<CssNumber>, n: int) -> int
    decreases n,
{
    if n <= 0 {
        0
    } else {
        max_int(tallest(heights, n - 1), heights[n - 1].val())
    }
}

/// The height of the grid row starting at `row_y`: the tallest among the
/// first `n` items that start within the row tolerance of it, and nothing
/// less than zero.
pub open spec fn row_height_spec(row_ys: Seq<CssNumber>, heights: Seq<CssNumber>, row_y: int, n: int) -> int
    decreases n,
{
    if n <= 0 {
        0
    } else {
        let before = row_height_spec(row_ys, heights, row_y, n - 1);
        let d = row_ys[n - 1].val() - row_y;
        if -GRID_ROW_Y_EPSILON_MICROS <= d <= GRID_ROW_Y_EPSILON_MICROS {
            max_int(before, heights[n - 1].val())
        } else {
            before
        }
    }
}

/// The heights that a stretching container gives its items, given each
/// item's measured height and the position where the layout engine put it:
/// a flex row makes every item as tall as the tallest, a grid makes each
/// item as tall as its row; other containers, and containers that do not
/// stretch, leave the heights alone (`None`).
pub open spec fn stretch_heights_spec(m: StyleModel, heights: Seq<CssNumber>, row_ys: Seq<CssNumber>) -> Option<
    Seq<CssNumber>,
> {
    if !stretches_children_spec(m) {
        None
    } else if m.display == CssDisplay::Flex && (m.flex_direction == CssFlexDirection::Row || m.flex_direction
        == CssFlexDirection::RowReverse) {
        Some(Seq::new(heights.len(), |i: int| CssNumber { micros: tallest(heights, heights.len() as int) as i64 }))
    } else if m.display != CssDisplay::Grid {
        None
    } else {
        Some(
            Seq::new(
                heights.len(),
                |i: int|
                    CssNumber {
                        micros: row_height_spec(row_ys, heights, row_ys[i].val(), heights.len() as int) as i64,
                    },
            ),
        )
    }
}

/// The height of the grid row that starts at `row_y`.
pub fn grid_row_height(row_ys: &[CssNumber], heights: &[CssNumber], row_y: CssNumber) -> (r: CssNumber)
    requires
        row_ys@.len() == heights@.len(),
    ensures
        r.val() == row_height_spec(row_ys@, heights@, row_y.val(), heights@.len() as int),
{
    let mut row_height = CssNumber { micros: 0 };
    let mut i: usize = 0;
    while i < heights.len()
        invariant
            i <= heights@.len(),
            row_ys@.len() == heights@.len(),
            row_height.val() == row_height_spec(row_ys@, heights@, row_y.val(), i as int),
        decreases heights@.len() - i,
    {
        let d: i128 = row_ys[i].micros as i128 - row_y.micros as i128;
        if -(GRID_ROW_Y_EPSILON_MICROS as i128) <= d && d <= GRID_ROW_Y_EPSILON_MICROS as i128 {
            row_height = max_number(row_height, heights[i]);
        }
        i = i + 1;
    }
    row_height
}

/// The height of each item's grid row.
pub fn grid_row_heights(row_ys: &[CssNumber], heights: &[CssNumber]) -> (r: Vec<CssNumber>)
    requires
        row_ys@.len() == heights@.len(),
    ensures
        r@.len() == heights@.len(),
        forall|i: int|
            0 <= i < heights@.len() ==> (#[trigger] r@[i]).val() == row_height_spec(
                row_ys@,
                heights@,
                row_ys@[i].val(),
                heights@.len() as int,
            ),
{
    let mut out: Vec<CssNumber> = Vec::new();
    let mut i: usize = 0;
    while i < row_ys.len()
        invariant
            i <= row_ys@.len(),
            row_ys@.len() == heights@.len(),
            out@.len() == i,
            forall|j: int|
                0 <= j < i ==> (#[trigger] out@[j]).val() == row_height_spec(
                    row_ys@,
                    heights@,
                    row_ys@[j].val(),
                    heights@.len() as int,
                ),
        decreases row_ys@.len() - i,
    {
        out.push(grid_row_height(row_ys, heights, row_ys[i]));
        i = i + 1;
    }
    out
}

/// The heights that a stretching container gives its items (see
/// `stretch_heights_spec`).
pub fn flow_stretch_heights(parent: &CssStyle, heights: &[CssNumber], row_ys: &[CssNumber]) -> (r: Option<Vec<CssNumber>>)
    requires
        row_ys@.len() == heights@.len(),
    ensures
        match (r, stretch_heights_spec(parent@, heights@, row_ys@)) {
            (Some(v), Some(s)) => v@ == s,
            (None, None) => true,
            _ => false,
        },
{
    if !stretches_children(parent) {
        return None;
    }
    if parent.display == CssDisplay::Flex && is_flex_row(parent) {
        let mut height = CssNumber { micros: 0 };
        let mut i: usize = 0;
        while i < heights.len()
            invariant
                i <= heights@.len(),
                height.val() == tallest(heights@, i as int),
            decreases heights@.len() - i,
        {
            height = max_number(height, heights[i]);
            i = i + 1;
        }
        let mut out: Vec<CssNumber> = Vec::new();
        let mut k: usize = 0;
        while k < heights.len()
            invariant
                k <= heights@.len(),
                out@.len() == k,
                height.val() == tallest(heights@, heights@.len() as int),
                forall|j: int| 0 <= j < k ==> #[trigger] out@[j] == height,
            decreases heights@.len() - k,
        {
            out.push(height);
            k = k + 1;
        }
        proof {
            assert(out@ =~= Seq::new(
                heights@.len(),
                |i: int| CssNumber { micros: tallest(heights@, heights@.len() as int) as i64 },
            ));
        }
        return Some(out);
    }
    if parent.display != CssDisplay::Grid {
        return None;
    }
    let rows = grid_row_heights(row_ys, heights);
    proof {
        assert(rows@ =~= Seq::new(
            heights@.len(),
            |i: int|
                CssNumber { micros: row_height_spec(row_ys@, heights@, row_ys@[i].val(), heights@.len() as int) as i64 },
        ));
    }
    Some(rows)
}

/// The style a flow item is measured with: an element's own style, or the
/// container's style for a text run.
pub open spec fn item_style_spec(n: NodeView, inherited: StyleModel) -> StyleModel {
    match n {
        NodeView::Element { attributes, .. } => element_style_model(attributes, inherited),
        NodeView::Text(_) => inherited,
    }
}

/// The style a flow item is measured with (see `item_style_spec`); the
/// width and the number of items do not change it.
pub fn item_style(node: &HtmlDocumentNode, inherited: &CssStyle, _width: CssNumber, _count: usize) -> (r: CssStyle)
    ensures
        r@ == item_style_spec(node@, inherited@),
{
    match node {
        HtmlDocumentNode::Element { tag, attributes, .. } => CssStyle::from_element(
            tag.as_str(),
            attributes.as_slice(),
            inherited,
        ),
        HtmlDocumentNode::Text(_) => inherited.clone(),
    }
}

/// Whether a node takes part in layout and is displayed: text that is not
/// only whitespace, or an element whose style is not `display: none`.
pub open spec fn visible_layout_item_spec(n: NodeView, inherited: StyleModel) -> bool {
    is_layout_item_spec(n) && match n {
        NodeView::Text(_) => true,
        NodeView::Element { attributes, .. } => element_style_model(attributes, inherited).display
            != CssDisplay::Hidden,
    }
}

/// Whether a node takes part in layout and is displayed.
pub fn is_visible_layout_item(node: &HtmlDocumentNode, inherited: &CssStyle) -> (r: bool)
    ensures
        r == visible_layout_item_spec(node@, inherited@),
{
    if !is_layout_item(node) {
        return false;
    }
    match node {
        HtmlDocumentNode::Text(_) => true,
        HtmlDocumentNode::Element { tag, attributes, .. } => {
            let style = CssStyle::from_element(tag.as_str(), attributes.as_slice(), inherited);
            style.display != CssDisplay::Hidden
        },
    }
}

/// Whether a flex column stretches its items to its full width.
pub open spec fn stretches_flex_columns_spec(m: StyleModel) -> bool {
    m.display == CssDisplay::Flex && (m.flex_direction == CssFlexDirection::Column || m.flex_direction
        == CssFlexDirection::ColumnReverse) && stretches_children_spec(m)
}

/// Whether a flex column stretches its items to its full width.
pub fn stretches_flex_columns(style: &CssStyle) -> (r: bool)
    ensures
        r == stretches_flex_columns_spec(style@),
{
    style.display == CssDisplay::Flex && match style.flex_direction {
        CssFlexDirection::Column | CssFlexDirection::ColumnReverse => true,
        _ => false,
    } && stretches_children(style)
}

} // verus!
