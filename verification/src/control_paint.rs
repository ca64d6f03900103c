//! Where a button's label goes inside the button: inset from the sides, or
//! centred on the axes that a flex button centres its content on.
use crate::container::{left_border_spec, right_border_spec, top_border_spec};
use crate::inline_measure::{between_margins, between_margins_spec};
use crate::length::{max_int, min_int};
use crate::number::{max_number, min_number, saturate, saturated, CssNumber, MICROS_PER_UNIT};
use crate::style::geometry::{content_height_spec, content_width_spec, explicit_width_spec, outer_height_spec};
use crate::style::types::{
    CssAlignContent, CssAlignContentKeyword, CssAlignItems, CssAlignItemsKeyword, CssAlignmentSafety, CssDisplay,
    CssFlexDirection, CssStyle, StyleModel,
};
use vstd::prelude::*;

verus! {

/// The box of a control.
#[derive(Clone, Copy, Debug, PartialEq, Eq, Structural)]
pub struct ControlBox {
    pub x: CssNumber,
    pub y: CssNumber,
    pub width: CssNumber,
    pub height: CssNumber,
}

/// Where the label of a control is painted.
#[derive(Clone, Copy, Debug, PartialEq, Eq, Structural)]
pub struct ControlTextLayout {
    pub x: CssNumber,
    pub width: CssNumber,
    pub y: CssNumber,
    pub height: CssNumber,
}

/// `align-items: center`.
pub open spec fn centered_items(a: Option<CssAlignItems>) -> bool {
    a == Some(CssAlignItems { keyword: CssAlignItemsKeyword::Center, safety: CssAlignmentSafety::Default })
}

/// `justify-content: center`.
pub open spec fn centered_content(a: Option<CssAlignContent>) -> bool {
    a == Some(CssAlignContent { keyword: CssAlignContentKeyword::Center, safety: CssAlignmentSafety::Default })
}

/// For a flex box, whether it centres its content horizontally and
/// vertically: on its main axis by `justify-content`, on its cross axis by
/// `align-items`. `None` for a box that is not a flex box.
pub open spec fn flex_center_axes_spec(m: StyleModel) -> Option<(bool, bool)> {
    if m.display == CssDisplay::Flex {
        let row_axis = m.flex_direction == CssFlexDirection::Row || m.flex_direction == CssFlexDirection::RowReverse;
        if row_axis {
            Some((centered_content(m.justify_content), centered_items(m.align_items)))
        } else {
            Some((centered_items(m.align_items), centered_content(m.justify_content)))
        }
    } else {
        None
    }
}

fn is_centered_items(a: Option<CssAlignItems>) -> (r: bool)
    ensures
        r == centered_items(a),
{
    match a {
        Some(v) => match (v.keyword, v.safety) {
            (CssAlignItemsKeyword::Center, CssAlignmentSafety::Default) => true,
            _ => false,
        },
        None => false,
    }
}

fn is_centered_content(a: Option<CssAlignContent>) -> (r: bool)
    ensures
        r == centered_content(a),
{
    match a {
        Some(v) => match (v.keyword, v.safety) {
            (CssAlignContentKeyword::Center, CssAlignmentSafety::Default) => true,
            _ => false,
        },
        None => false,
    }
}

/// Whether a flex box centres its content horizontally and vertically;
/// `None` when it is not a flex box.
pub fn flex_center_axes(style: &CssStyle) -> (r: Option<(bool, bool)>)
    ensures
        r == flex_center_axes_spec(style@),
{
    match style.display {
        CssDisplay::Flex => {
            let row_axis = match style.flex_direction {
                CssFlexDirection::Row | CssFlexDirection::RowReverse => true,
                CssFlexDirection::Column | CssFlexDirection::ColumnReverse => false,
            };
            let main = is_centered_content(style.justify_content);
            let cross = is_centered_items(style.align_items);
            if row_axis {
                Some((main, cross))
            } else {
                Some((cross, main))
            }
        },
        _ => None,
    }
}

/// The label box of a button whose label measures `text_width`: inset by
/// `inset` on both sides, then centred on each axis the button centres its
/// content on, inside its border and padding.
pub open spec fn button_text_layout_spec(m: StyleModel, b: ControlBox, text_width: int, inset: int) -> (int, int, int, int) {
    let inset_width = saturated(b.width.val() - 2 * inset);
    let plain = (
        saturated(b.x.val() + inset),
        if inset_width >= 0 { inset_width } else { 0 },
        b.y.val(),
        b.height.val(),
    );
    match flex_center_axes_spec(m) {
        None => plain,
        Some((horizontal, vertical)) => {
            let content_width = content_width_spec(m, b.width.val());
            let measured = min_int(text_width, content_width);
            let content_x = saturated(b.x.val() + left_border_spec(m) + m.padding_left.val());
            let (x, width) = if horizontal {
                (saturated(content_x + (content_width - measured) / 2), measured)
            } else {
                (plain.0, plain.1)
            };
            let (y, height) = if vertical {
                (saturated(b.y.val() + top_border_spec(m) + m.padding_top.val()), content_height_spec(m, b.height.val()))
            } else {
                (plain.2, plain.3)
            };
            (x, width, y, height)
        },
    }
}

/// The label box of a button whose label measures `text_width`, inset by
/// `inset` from its sides unless the button centres its content.
pub fn button_text_layout(text_width: CssNumber, inset: CssNumber, control: ControlBox, style: &CssStyle) -> (r:
    ControlTextLayout)
    ensures
        (r.x.val(), r.width.val(), r.y.val(), r.height.val()) == button_text_layout_spec(
            style@,
            control,
            text_width.val(),
            inset.val(),
        ),
{
    let inset_width = saturate(control.width.micros as i128 - 2 * (inset.micros as i128));
    let mut layout = ControlTextLayout {
        x: saturate(control.x.micros as i128 + inset.micros as i128),
        width: if inset_width.micros >= 0 { inset_width } else { CssNumber { micros: 0 } },
        y: control.y,
        height: control.height,
    };
    let axes = flex_center_axes(style);
    match axes {
        None => layout,
        Some((horizontal, vertical)) => {
            if horizontal {
                let left_border = match style.border_left_width {
                    Some(w) => w,
                    None => style.border_width,
                };
                let content_x: i128 = control.x.micros as i128 + left_border.micros as i128
                    + style.padding_left.micros as i128;
                let content_x = saturate(content_x);
                let content_width = style.content_width(control.width);
                let measured = min_number(text_width, content_width);
                let free: i128 = content_width.micros as i128 - measured.micros as i128;
                proof {
                    assert(free >= 0);
                }
                let half: i128 = ((free as u128) / 2) as i128;
                layout.x = saturate(content_x.micros as i128 + half);
                layout.width = measured;
            }
            if vertical {
                let top_border = match style.border_top_width {
                    Some(w) => w,
                    None => style.border_width,
                };
                layout.y = saturate(
                    control.y.micros as i128 + top_border.micros as i128 + style.padding_top.micros as i128,
                );
                layout.height = style.content_height(control.height);
            }
            layout
        },
    }
}

/// The sizes controls take when their style gives none.
#[derive(Clone, Copy, Debug, PartialEq, Eq, Structural)]
pub struct ControlSizes {
    /// The least height of a text input, and the side of a checkbox.
    pub control_height: CssNumber,
    /// The widest a text input is without a declared width.
    pub default_input_width: CssNumber,
}

/// The box of a text input at `(x, y)` in `width` pixels: inside its
/// margins; its declared width, else the available width up to the default
/// input width, never more than the available width; its declared outer
/// height, else its line's outer height and at least the control height;
/// never less than its minimum outer height.
pub open spec fn input_geometry_spec(x: int, y: int, width: int, m: StyleModel, sizes: ControlSizes) -> (int, int, int, int) {
    let available = between_margins_spec(m, width);
    let w = min_int(
        match explicit_width_spec(m, available) {
            Some(e) => e,
            None => min_int(available, sizes.default_input_width.val()),
        },
        available,
    );
    let h = max_int(
        match m.height {
            Some(h) => outer_height_spec(m, h.val()),
            None => max_int(outer_height_spec(m, m.line_height.val()), sizes.control_height.val()),
        },
        outer_height_spec(m, m.min_height.val()),
    );
    (saturated(x + m.margin_left.val()), saturated(y + m.margin_top.val()), w, h)
}

/// The box of a text input at `(x, y)` in `width` pixels.
pub fn input_geometry(x: CssNumber, y: CssNumber, width: CssNumber, style: &CssStyle, sizes: ControlSizes) -> (r:
    ControlBox)
    ensures
        (r.x.val(), r.y.val(), r.width.val(), r.height.val()) == input_geometry_spec(
            x.val(),
            y.val(),
            width.val(),
            style@,
            sizes,
        ),
{
    let available = between_margins(style, width);
    let w = min_number(
        match style.explicit_width(available) {
            Some(e) => e,
            None => min_number(available, sizes.default_input_width),
        },
        available,
    );
    let h = max_number(
        match style.height {
            Some(h) => style.outer_height(h),
            None => max_number(style.outer_height(style.line_height), sizes.control_height),
        },
        style.minimum_outer_height(),
    );
    ControlBox {
        x: saturate(x.micros as i128 + style.margin_left.micros as i128),
        y: saturate(y.micros as i128 + style.margin_top.micros as i128),
        width: w,
        height: h,
    }
}

/// The box of a checkbox at `(x, y)` in `width` pixels: inside its
/// margins; its declared width, else the control height, never more than
/// the available width; as high as its declared height, else as wide; never
/// less than its minimum height.
pub open spec fn checkbox_geometry_spec(x: int, y: int, width: int, m: StyleModel, sizes: ControlSizes) -> (int, int, int, int) {
    let available = between_margins_spec(m, width);
    let w = min_int(
        match explicit_width_spec(m, available) {
            Some(e) => e,
            None => sizes.control_height.val(),
        },
        available,
    );
    let h = max_int(
        match m.height {
            Some(h) => h.val(),
            None => w,
        },
        m.min_height.val(),
    );
    (saturated(x + m.margin_left.val()), saturated(y + m.margin_top.val()), w, h)
}

/// The box of a checkbox at `(x, y)` in `width` pixels.
pub fn checkbox_geometry(x: CssNumber, y: CssNumber, width: CssNumber, style: &CssStyle, sizes: ControlSizes) -> (r:
    ControlBox)
    ensures
        (r.x.val(), r.y.val(), r.width.val(), r.height.val()) == checkbox_geometry_spec(
            x.val(),
            y.val(),
            width.val(),
            style@,
            sizes,
        ),
{
    let available = between_margins(style, width);
    let w = min_number(
        match style.explicit_width(available) {
            Some(e) => e,
            None => sizes.control_height,
        },
        available,
    );
    let h = max_number(
        match style.height {
            Some(h) => h,
            None => w,
        },
        style.min_height,
    );
    ControlBox {
        x: saturate(x.micros as i128 + style.margin_left.micros as i128),
        y: saturate(y.micros as i128 + style.margin_top.micros as i128),
        width: w,
        height: h,
    }
}

/// The inset of a checkbox's mark from its edges: a quarter of the side,
/// at most two pixels.
pub open spec fn checkbox_inset_spec(dimension: int) -> int {
    min_int(2 * MICROS_PER_UNIT, dimension / 4)
}

/// The inset of a checkbox's mark from its edges, for a side of `dimension`.
pub fn checkbox_inset(dimension: CssNumber) -> (r: CssNumber)
    ensures
        r.val() == checkbox_inset_spec(dimension.val()),
{
    let quarter: i64 = if dimension.micros >= 0 {
        dimension.micros / 4
    } else {
        -((-(dimension.micros as i128) + 3) / 4) as i64
    };
    min_number(CssNumber { micros: 2 * MICROS_PER_UNIT }, CssNumber { micros: quarter })
}

/// The inset of an input's text from one side: the border and padding of
/// that side where the padding is positive, else `default_inset`.
pub open spec fn input_text_inset_spec(border: int, padding: int, default_inset: int) -> int {
    if padding > 0 {
        saturated(border + padding)
    } else {
        default_inset
    }
}

/// The left edge and the width of the text inside an input's box:
/// inset from each side (see `input_text_inset_spec`), never negative.
pub open spec fn input_text_box_spec(b: ControlBox, m: StyleModel, default_inset: int) -> (int, int) {
    let left = input_text_inset_spec(left_border_spec(m), m.padding_left.val(), default_inset);
    let right = input_text_inset_spec(right_border_spec(m), m.padding_right.val(), default_inset);
    let inner = saturated(b.width.val() - left - right);
    (saturated(b.x.val() + left), if inner >= 0 { inner } else { 0 })
}

/// The left edge and the width of the text inside an input's box.
pub fn input_text_box(control: ControlBox, style: &CssStyle, default_inset: CssNumber) -> (r: (CssNumber, CssNumber))
    ensures
        (r.0.val(), r.1.val()) == input_text_box_spec(control, style@, default_inset.val()),
{
    let left = if style.padding_left.micros > 0 {
        let border = match style.border_left_width {
            Some(w) => w,
            None => style.border_width,
        };
        saturate(border.micros as i128 + style.padding_left.micros as i128)
    } else {
        default_inset
    };
    let right = if style.padding_right.micros > 0 {
        let border = match style.border_right_width {
            Some(w) => w,
            None => style.border_width,
        };
        saturate(border.micros as i128 + style.padding_right.micros as i128)
    } else {
        default_inset
    };
    let inner = saturate(control.width.micros as i128 - left.micros as i128 - right.micros as i128);
    (
        saturate(control.x.micros as i128 + left.micros as i128),
        if inner.micros >= 0 { inner } else { CssNumber { micros: 0 } },
    )
}

/// The baseline of a control's one line of text: the text is centred in
/// the box's height by its font size, two pixels up.
pub open spec fn control_text_baseline_spec(start: int, height: int, font_size: int) -> int {
    saturated(start + (height + font_size) / 2 - 2 * MICROS_PER_UNIT)
}

/// The baseline of a control's text in a box from `start` of `height`.
pub fn control_text_baseline(start: CssNumber, height: CssNumber, font_size: CssNumber) -> (r: CssNumber)
    ensures
        r.val() == control_text_baseline_spec(start.val(), height.val(), font_size.val()),
{
    let sum: i128 = height.micros as i128 + font_size.micros as i128;
    let half: i128 = if sum >= 0 {
        sum / 2
    } else {
        -((-sum + 1) / 2)
    };
    saturate(start.micros as i128 + half - 2 * (MICROS_PER_UNIT as i128))
}

/// The height of a details summary: its declared height, else the control
/// height, with its top and bottom padding, at least its minimum height.
pub open spec fn summary_height_spec(m: StyleModel, sizes: ControlSizes) -> int {
    let base = match m.height {
        Some(h) => h.val(),
        None => sizes.control_height.val(),
    };
    max_int(saturated(base + m.padding_top.val() + m.padding_bottom.val()), m.min_height.val())
}

/// The height of a details summary.
pub fn summary_height(style: &CssStyle, sizes: ControlSizes) -> (r: CssNumber)
    ensures
        r.val() == summary_height_spec(style@, sizes),
{
    let base = match style.height {
        Some(h) => h,
        None => sizes.control_height,
    };
    max_number(
        saturate(base.micros as i128 + style.padding_top.micros as i128 + style.padding_bottom.micros as i128),
        style.min_height,
    )
}

/// The box of a details summary at `(x, y)` in `width` pixels: inside its
/// margins, at least the narrowest layout width, as high as
/// `summary_height_spec`.
pub open spec fn summary_layout_spec(x: int, y: int, width: int, m: StyleModel, sizes: ControlSizes) -> (int, int, int, int) {
    (
        saturated(x + m.margin_left.val()),
        saturated(y + m.margin_top.val()),
        between_margins_spec(m, width),
        summary_height_spec(m, sizes),
    )
}

/// The box of a details summary at `(x, y)` in `width` pixels.
pub fn summary_layout(x: CssNumber, y: CssNumber, width: CssNumber, style: &CssStyle, sizes: ControlSizes) -> (r:
    ControlBox)
    ensures
        (r.x.val(), r.y.val(), r.width.val(), r.height.val()) == summary_layout_spec(
            x.val(),
            y.val(),
            width.val(),
            style@,
            sizes,
        ),
{
    ControlBox {
        x: saturate(x.micros as i128 + style.margin_left.micros as i128),
        y: saturate(y.micros as i128 + style.margin_top.micros as i128),
        width: between_margins(style, width),
        height: summary_height(style, sizes),
    }
}

} // verus!
