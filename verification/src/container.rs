//! The geometry of a block container: where its box goes between its
//! margins, where its content starts, and how tall it ends up.
use crate::grid_measure::MIN_LAYOUT_WIDTH_MICROS;
use crate::length::{max_int, min_int};
use crate::document::{node_text, node_text_spec, nodes_view, HtmlDocumentNode};
use crate::number::{max_number, min_number, saturate, saturated, saturating_mul_div, scaled, CssNumber, MICROS_PER_UNIT};
use crate::style::text_style::TEXT_CHARACTER_WIDTH_FACTOR_MICROS;
use crate::style::geometry::{box_width_spec, content_width_spec, outer_height_spec, outer_width_spec};
use crate::style::types::{CssStyle, StyleModel};
use vstd::prelude::*;
use vstd::string::*;

verus! {

/// Where a container's parts go.
#[derive(Clone, Copy, Debug, PartialEq, Eq, Structural)]
pub struct ContainerGeometry {
    /// The top of the box, below its top margin.
    pub start: CssNumber,
    pub box_x: CssNumber,
    pub box_width: CssNumber,
    /// The left edge of the content, inside the left border and padding.
    pub inner_x: CssNumber,
    pub inner_width: CssNumber,
}

/// The width of the left border edge.
pub open spec fn left_border_spec(m: StyleModel) -> int {
    match m.border_left_width {
        Some(w) => w.val(),
        None => m.border_width.val(),
    }
}

/// The width of the top border edge.
pub open spec fn top_border_spec(m: StyleModel) -> int {
    match m.border_top_width {
        Some(w) => w.val(),
        None => m.border_width.val(),
    }
}

/// The width of the right border edge.
pub open spec fn right_border_spec(m: StyleModel) -> int {
    match m.border_right_width {
        Some(w) => w.val(),
        None => m.border_width.val(),
    }
}

/// The width of the bottom border edge.
pub open spec fn bottom_border_spec(m: StyleModel) -> int {
    match m.border_bottom_width {
        Some(w) => w.val(),
        None => m.border_width.val(),
    }
}

/// The space between the horizontal margins, at least the narrowest layout
/// width.
pub open spec fn margin_space_spec(m: StyleModel, width: int) -> int {
    max_int(saturated(width - m.margin_left.val() - m.margin_right.val()), MIN_LAYOUT_WIDTH_MICROS as int)
}

/// The width of the box between the margins.
pub open spec fn container_box_width_spec(m: StyleModel, width: int) -> int {
    let available = margin_space_spec(m, width);
    max_int(min_int(box_width_spec(m, available), available), MIN_LAYOUT_WIDTH_MICROS as int)
}

/// The left edge of the box: after the left margin, and after an equal part
/// of the space the box leaves free for each automatic margin.
pub open spec fn container_box_x_spec(m: StyleModel, x: int, width: int) -> int {
    let available = margin_space_spec(m, width);
    let remaining = max_int(available - container_box_width_spec(m, width), 0);
    let count: int = (if m.margin_left_auto { 1int } else { 0 }) + (if m.margin_right_auto { 1int } else { 0 });
    let share = if count == 0 { 0 } else { remaining / count };
    let auto_left = if m.margin_left_auto { share } else { 0 };
    saturated(x + m.margin_left.val() + auto_left)
}

/// The left edge and the width of a block box in `width` pixels from `x`.
pub fn horizontal_box_geometry(x: CssNumber, width: CssNumber, style: &CssStyle) -> (r: (CssNumber, CssNumber))
    ensures
        r.0.val() == container_box_x_spec(style@, x.val(), width.val()),
        r.1.val() == container_box_width_spec(style@, width.val()),
{
    let minimum = CssNumber { micros: MIN_LAYOUT_WIDTH_MICROS };
    let available = max_number(
        saturate(width.micros as i128 - style.margin_left.micros as i128 - style.margin_right.micros as i128),
        minimum,
    );
    let box_width = max_number(min_number(style.box_width(available), available), minimum);
    let remaining: i128 = if available.micros >= box_width.micros {
        available.micros as i128 - box_width.micros as i128
    } else {
        0
    };
    let count: i128 = (if style.margin_left_auto { 1i128 } else { 0 }) + (if style.margin_right_auto { 1i128 } else { 0 });
    let share: i128 = if count == 0 {
        0
    } else if count == 1 {
        remaining
    } else {
        ((remaining as u128) / 2) as i128
    };
    proof {
        assert(remaining >= 0);
        assert(remaining == max_int(margin_space_spec(style@, width.val()) - container_box_width_spec(style@, width.val()), 0));
        assert(count == 2 ==> share == remaining / count);
    }
    let auto_left: i128 = if style.margin_left_auto { share } else { 0 };
    (saturate(x.micros as i128 + style.margin_left.micros as i128 + auto_left), box_width)
}

/// Where a container's parts go, for a container at `(x, y)` in `width`
/// pixels.
pub fn container_geometry(x: CssNumber, y: CssNumber, width: CssNumber, style: &CssStyle) -> (r: ContainerGeometry)
    ensures
        r.start.val() == saturated(y.val() + style@.margin_top.val()),
        r.box_x.val() == container_box_x_spec(style@, x.val(), width.val()),
        r.box_width.val() == container_box_width_spec(style@, width.val()),
        r.inner_x.val() == saturated(
            container_box_x_spec(style@, x.val(), width.val()) + left_border_spec(style@) + style@.padding_left.val(),
        ),
        r.inner_width.val() == max_int(
            content_width_spec(style@, container_box_width_spec(style@, width.val())),
            MIN_LAYOUT_WIDTH_MICROS as int,
        ),
{
    let start = saturate(y.micros as i128 + style.margin_top.micros as i128);
    let (box_x, box_width) = horizontal_box_geometry(x, width, style);
    let left_border = match style.border_left_width {
        Some(w) => w,
        None => style.border_width,
    };
    ContainerGeometry {
        start,
        box_x,
        box_width,
        inner_x: saturate(box_x.micros as i128 + left_border.micros as i128 + style.padding_left.micros as i128),
        inner_width: max_number(style.content_width(box_width), CssNumber { micros: MIN_LAYOUT_WIDTH_MICROS }),
    }
}

/// The outer height of a container whose content ends at `bottom` and whose
/// box starts at `start`: the declared height or the content's, at least
/// the minimum height and at most the maximum height.
pub open spec fn container_height_spec(m: StyleModel, bottom: int, start: int) -> int {
    let natural = saturated(bottom - start + m.padding_bottom.val() + bottom_border_spec(m));
    let minimum = outer_height_spec(m, m.min_height.val());
    let resolved = match m.height {
        None => max_int(natural, minimum),
        Some(h) => max_int(outer_height_spec(m, h.val()), minimum),
    };
    match m.max_height {
        None => resolved,
        Some(mx) => min_int(resolved, outer_height_spec(m, mx.val())),
    }
}

/// The outer height of a container (see `container_height_spec`).
pub fn container_height(bottom: CssNumber, start: CssNumber, style: &CssStyle) -> (r: CssNumber)
    ensures
        r.val() == container_height_spec(style@, bottom.val(), start.val()),
{
    let bottom_border = match style.border_bottom_width {
        Some(w) => w,
        None => style.border_width,
    };
    let natural = saturate(
        bottom.micros as i128 - start.micros as i128 + style.padding_bottom.micros as i128
            + bottom_border.micros as i128,
    );
    let minimum = style.minimum_outer_height();
    let resolved = match style.height {
        None => max_number(natural, minimum),
        Some(h) => max_number(style.outer_height(h), minimum),
    };
    match style.max_height {
        None => resolved,
        Some(maximum) => min_number(resolved, style.outer_height(maximum)),
    }
}

/// The bottom of a flow that laid out, or, for one that failed, the
/// container's start, with the failure kept in `layout_error`.
pub fn accept_flow_result(layout_error: &mut Option<String>, result: Result<CssNumber, String>, start: CssNumber) -> (r:
    CssNumber)
    ensures
        match result {
            Ok(bottom) => r == bottom && *final(layout_error) == *old(layout_error),
            Err(e) => r == start && *final(layout_error) == Some(e),
        },
{
    match result {
        Ok(bottom) => bottom,
        Err(error) => {
            *layout_error = Some(error);
            start
        },
    }
}

/// The bottom of a list item's flow that laid out, or, for one that failed,
/// the item's start, with the failure kept in `layout_error`.
pub fn accept_list_flow_result(layout_error: &mut Option<String>, result: Result<CssNumber, String>, start: CssNumber) -> (r:
    CssNumber)
    ensures
        match result {
            Ok(bottom) => r == bottom && *final(layout_error) == *old(layout_error),
            Err(e) => r == start && *final(layout_error) == Some(e),
        },
{
    match result {
        Ok(bottom) => bottom,
        Err(error) => {
            *layout_error = Some(error);
            start
        },
    }
}

/// The outer height of a box of `n` lines of text: the declared height or
/// the lines' height, at least the minimum height.
pub open spec fn text_box_height_spec(m: StyleModel, n: int) -> int {
    let content = saturated(n * m.line_height.val());
    let minimum = outer_height_spec(m, m.min_height.val());
    match m.height {
        None => max_int(outer_height_spec(m, content), minimum),
        Some(h) => max_int(outer_height_spec(m, h.val()), minimum),
    }
}

/// The outer height of a box holding the given lines of text.
pub fn text_box_height(lines: &[String], style: &CssStyle) -> (r: CssNumber)
    ensures
        r.val() == text_box_height_spec(style@, lines@.len() as int),
{
    let n = lines.len() as i128;
    let h = style.line_height.micros as i128;
    proof {
        assert(-0x8000_0000_0000_0000 * 0xFFFF_FFFF_FFFF_FFFF <= n * h <= 0x8000_0000_0000_0000
            * 0xFFFF_FFFF_FFFF_FFFF) by (nonlinear_arith)
            requires
                0 <= n <= 0xFFFF_FFFF_FFFF_FFFF,
                -0x8000_0000_0000_0000 <= h <= 0x8000_0000_0000_0000,
        ;
    }
    let content = saturate(n * h);
    let minimum = style.minimum_outer_height();
    match style.height {
        None => max_number(style.outer_height(content), minimum),
        Some(height) => max_number(style.outer_height(height), minimum),
    }
}

/// The outer width of a box of text whose text measures `text_width`, in
/// `available` pixels: an inline block without a declared width or maximum
/// shrinks to its text, any other box takes its box width; never more than
/// the available width, never less than the narrowest layout width.
pub open spec fn text_box_width_spec(m: StyleModel, text_width: int, available: int) -> int {
    if !m.inline_block || m.width is Some || m.max_width is Some {
        max_int(min_int(box_width_spec(m, available), available), MIN_LAYOUT_WIDTH_MICROS as int)
    } else {
        max_int(min_int(outer_width_spec(m, text_width), available), MIN_LAYOUT_WIDTH_MICROS as int)
    }
}

/// The outer width of a box of text that measures `text_width`, in
/// `available` pixels.
pub fn text_box_width(text_width: CssNumber, available: CssNumber, style: &CssStyle) -> (r: CssNumber)
    ensures
        r.val() == text_box_width_spec(style@, text_width.val(), available.val()),
{
    let minimum = CssNumber { micros: MIN_LAYOUT_WIDTH_MICROS };
    if !style.inline_block || style.width.is_some() || style.max_width.is_some() {
        return max_number(min_number(style.box_width(available), available), minimum);
    }
    max_number(min_number(style.outer_width(text_width), available), minimum)
}

/// The width of `n` characters at the style's font size and the default
/// character width factor.
pub open spec fn character_run_width_spec(n: int, m: StyleModel) -> int {
    saturated(
        scaled(saturated(n * m.font_size.val()), TEXT_CHARACTER_WIDTH_FACTOR_MICROS as int, MICROS_PER_UNIT as int),
    )
}

/// The outer width of an inline container whose children's text has
/// `n` characters, in `available` pixels: an inline block without a declared
/// width or maximum width shrinks to its characters; any other container
/// takes the available width.
pub open spec fn inline_container_width_spec(n: int, available: int, m: StyleModel) -> int {
    if !m.inline_block || m.width is Some || m.max_width is Some {
        available
    } else {
        max_int(
            min_int(outer_width_spec(m, character_run_width_spec(n, m)), available),
            MIN_LAYOUT_WIDTH_MICROS as int,
        )
    }
}

/// The outer width of an inline container holding `children`, in
/// `available` pixels.
pub fn inline_container_width(children: &[HtmlDocumentNode], available: CssNumber, style: &CssStyle) -> (r: CssNumber)
    ensures
        r.val() == inline_container_width_spec(
            node_text_spec(nodes_view(children@)).len() as int,
            available.val(),
            style@,
        ),
{
    if !style.inline_block || style.width.is_some() || style.max_width.is_some() {
        return available;
    }
    let text = node_text(children);
    let n = text.as_str().unicode_len() as i128;
    let f = style.font_size.micros as i128;
    proof {
        assert(-0x8000_0000_0000_0000 * 0xFFFF_FFFF_FFFF_FFFF <= n * f <= 0x8000_0000_0000_0000 * 0xFFFF_FFFF_FFFF_FFFF)
            by (nonlinear_arith)
            requires
                0 <= n <= 0xFFFF_FFFF_FFFF_FFFF,
                -0x8000_0000_0000_0000 <= f <= 0x8000_0000_0000_0000,
        ;
    }
    let advances = saturate(n * f);
    let content = saturating_mul_div(
        advances,
        CssNumber { micros: TEXT_CHARACTER_WIDTH_FACTOR_MICROS },
        MICROS_PER_UNIT as u64,
    );
    max_number(min_number(style.outer_width(content), available), CssNumber { micros: MIN_LAYOUT_WIDTH_MICROS })
}

} // verus!
