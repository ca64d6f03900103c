//! Where a positioned box goes inside its containing block: its insets pin
//! its edges, and otherwise its own width and height apply.
use crate::length::min_int;
use crate::number::{min_number, saturate, saturated, CssNumber};
use crate::style::geometry::{box_width_spec, outer_height_spec};
use crate::style::types::{CssPosition, CssStyle, StyleModel};
use vstd::prelude::*;

verus! {

/// The box that positioned descendants are placed against.
#[derive(Clone, Copy, Debug, PartialEq, Eq, Structural)]
pub struct ContainingBlock {
    pub x: CssNumber,
    pub y: CssNumber,
    pub width: CssNumber,
    pub height: CssNumber,
}

/// `x` where it is positive, else zero.
pub open spec fn non_negative(x: int) -> int {
    if x >= 0 {
        x
    } else {
        0
    }
}

/// The width of a positioned box: what the left and right insets leave of
/// the containing block, or the box's own width held to the block.
pub open spec fn positioned_width_spec(c: ContainingBlock, m: StyleModel) -> int {
    match (m.inset_left, m.inset_right) {
        (Some(left), Some(right)) => saturated(non_negative(c.width.val() - left.val() - right.val())),
        _ => min_int(box_width_spec(m, c.width.val()), c.width.val()),
    }
}

/// The left edge of a positioned box: after the left inset, else before the
/// right inset, else at the start of the containing block.
pub open spec fn positioned_x_spec(c: ContainingBlock, m: StyleModel) -> int {
    match m.inset_left {
        Some(left) => saturated(c.x.val() + left.val()),
        None => match m.inset_right {
            Some(right) => saturated(c.x.val() + c.width.val() - right.val() - positioned_width_spec(c, m)),
            None => c.x.val(),
        },
    }
}

/// The height of a positioned box: what the top and bottom insets leave of
/// the containing block, or the box's own outer height, if it has one.
pub open spec fn positioned_height_spec(c: ContainingBlock, m: StyleModel) -> Option<int> {
    match (m.inset_top, m.inset_bottom) {
        (Some(top), Some(bottom)) => Some(saturated(non_negative(c.height.val() - top.val() - bottom.val()))),
        _ => match m.height {
            Some(h) => Some(outer_height_spec(m, h.val())),
            None => None,
        },
    }
}

/// The top edge of a positioned box: after the top inset, else above the
/// bottom inset where the height is known, else at the top of the block.
pub open spec fn positioned_y_spec(c: ContainingBlock, m: StyleModel) -> int {
    match m.inset_top {
        Some(top) => saturated(c.y.val() + top.val()),
        None => match (m.inset_bottom, positioned_height_spec(c, m)) {
            (Some(bottom), Some(h)) => saturated(c.y.val() + c.height.val() - bottom.val() - h),
            _ => c.y.val(),
        },
    }
}

/// The left edge and the width of a positioned box.
pub fn horizontal_position(containing: ContainingBlock, style: &CssStyle) -> (r: (CssNumber, CssNumber))
    ensures
        r.0.val() == positioned_x_spec(containing, style@),
        r.1.val() == positioned_width_spec(containing, style@),
{
    let width = match (style.inset_left, style.inset_right) {
        (Some(left), Some(right)) => {
            let rest: i128 = containing.width.micros as i128 - left.micros as i128 - right.micros as i128;
            saturate(if rest >= 0 { rest } else { 0 })
        },
        _ => min_number(style.box_width(containing.width), containing.width),
    };
    let x = match style.inset_left {
        Some(left) => saturate(containing.x.micros as i128 + left.micros as i128),
        None => match style.inset_right {
            Some(right) => saturate(
                containing.x.micros as i128 + containing.width.micros as i128 - right.micros as i128
                    - width.micros as i128,
            ),
            None => containing.x,
        },
    };
    (x, width)
}

/// The top edge of a positioned box, and its height where it is known.
pub fn vertical_position(containing: ContainingBlock, style: &CssStyle) -> (r: (CssNumber, Option<CssNumber>))
    ensures
        r.0.val() == positioned_y_spec(containing, style@),
        match (r.1, positioned_height_spec(containing, style@)) {
            (Some(h), Some(s)) => h.val() == s,
            (None, None) => true,
            _ => false,
        },
{
    let height = match (style.inset_top, style.inset_bottom) {
        (Some(top), Some(bottom)) => {
            let rest: i128 = containing.height.micros as i128 - top.micros as i128 - bottom.micros as i128;
            Some(saturate(if rest >= 0 { rest } else { 0 }))
        },
        _ => match style.height {
            Some(h) => Some(style.outer_height(h)),
            None => None,
        },
    };
    let y = match style.inset_top {
        Some(top) => saturate(containing.y.micros as i128 + top.micros as i128),
        None => match (style.inset_bottom, height) {
            (Some(bottom), Some(h)) => saturate(
                containing.y.micros as i128 + containing.height.micros as i128 - bottom.micros as i128
                    - h.micros as i128,
            ),
            _ => containing.y,
        },
    };
    (y, height)
}

/// The block a box with `position` is placed against: the viewport (at the
/// scroll position) for a fixed box; else the innermost containing block,
/// or the viewport at the top of the page when there is none.
pub open spec fn positioning_block_spec(
    position: CssPosition,
    scroll_y: CssNumber,
    viewport_width: CssNumber,
    viewport_height: CssNumber,
    blocks: Seq<ContainingBlock>,
) -> ContainingBlock {
    if position == CssPosition::Fixed {
        ContainingBlock { x: CssNumber { micros: 0 }, y: scroll_y, width: viewport_width, height: viewport_height }
    } else if blocks.len() > 0 {
        blocks.last()
    } else {
        ContainingBlock {
            x: CssNumber { micros: 0 },
            y: CssNumber { micros: 0 },
            width: viewport_width,
            height: viewport_height,
        }
    }
}

/// The block a box with `position` is placed against, with the page
/// scrolled to `scroll_y` and the containing blocks opened so far.
pub fn positioning_containing_block(
    position: CssPosition,
    scroll_y: CssNumber,
    viewport_width: CssNumber,
    viewport_height: CssNumber,
    blocks: &[ContainingBlock],
) -> (r: ContainingBlock)
    ensures
        r == positioning_block_spec(position, scroll_y, viewport_width, viewport_height, blocks@),
{
    if position == CssPosition::Fixed {
        return ContainingBlock { x: CssNumber { micros: 0 }, y: scroll_y, width: viewport_width, height: viewport_height };
    }
    if blocks.len() > 0 {
        blocks[blocks.len() - 1]
    } else {
        ContainingBlock {
            x: CssNumber { micros: 0 },
            y: CssNumber { micros: 0 },
            width: viewport_width,
            height: viewport_height,
        }
    }
}

} // verus!
