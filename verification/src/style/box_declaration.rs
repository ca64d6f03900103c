//! Box-model declarations: sizing, overflow, border widths and radius,
//! padding, margins, dimensions and insets.
use crate::length::resolved_px;
use crate::number::{
    checked, num, num_or, opt_num, opt_val, percent_of, scaled, scalar_spec, CssNumber,
    MICROS_PER_UNIT,
};
use crate::style::border::set_side_width_model;
use crate::style::types::{CssBoxSizing, CssLength, CssOverflow, CssStyle, StyleModel};
use crate::style::value::{box_sides, box_sides_spec, css_px, expand_sides, length_spec, px_spec};
use crate::text::{
    chars_of, ends_with, eq_ci, lower, lowered_range, range_ends_with, str_is, strip_prefix,
    strip_suffix, trim, trim_bounds, trimmed_lower_is,
};
use crate::tokens::{split_top_level_whitespace, top_level_whitespace_tokens, views};
use crate::length::css_resolved_px;
use crate::number::parse_literal;
use vstd::prelude::*;
use vstd::string::*;

verus! {

/// A length in pixels resolved against the style's font size and viewport,
/// refusing negative values unless `signed`.
pub open spec fn box_length_spec(m: StyleModel, value: Seq<char>, signed: bool) -> Option<int> {
    resolved_px(value, m.font_size.val(), m.viewport_width.val(), m.viewport_height.val(), signed)
}

/// `box-sizing`: `border-box` or `content-box`; anything else changes nothing.
#[verifier::opaque]
pub open spec fn box_sizing_model(m: StyleModel, value: Seq<char>) -> StyleModel {
    let l = lower(trim(value));
    let box_sizing = if l == "border-box"@ {
        CssBoxSizing::BorderBox
    } else if l == "content-box"@ {
        CssBoxSizing::ContentBox
    } else {
        m.box_sizing
    };
    StyleModel { box_sizing, ..m }
}

/// `overflow`: the clipping keywords clip, `visible` does not; anything else
/// changes nothing.
#[verifier::opaque]
pub open spec fn overflow_model(m: StyleModel, value: Seq<char>) -> StyleModel {
    let l = lower(trim(value));
    let overflow = if l == "hidden"@ || l == "clip"@ || l == "auto"@ || l == "scroll"@ {
        CssOverflow::Clip
    } else if l == "visible"@ {
        CssOverflow::Visible
    } else {
        m.overflow
    };
    StyleModel { overflow, ..m }
}

/// The names that `apply_simple_box_property` handles.
pub open spec fn simple_box_name(name: Seq<char>) -> bool {
    name == "box-sizing"@ || name == "overflow"@
}

/// `apply_simple_box_property`.
#[verifier::opaque]
pub open spec fn simple_box_model(m: StyleModel, name: Seq<char>, value: Seq<char>) -> StyleModel {
    if name == "box-sizing"@ {
        box_sizing_model(m, value)
    } else if name == "overflow"@ {
        overflow_model(m, value)
    } else {
        m
    }
}

/// `border-radius`: a length or percentage; anything else changes nothing.
#[verifier::opaque]
pub open spec fn border_radius_model(m: StyleModel, value: Seq<char>) -> StyleModel {
    let border_radius = match length_spec(value, m.font_size.val(), m.viewport_width.val(), m.viewport_height.val()) {
        Some(l) => l,
        None => m.border_radius,
    };
    StyleModel { border_radius, ..m }
}

/// The width and edge overrides after `border-width`: the top width becomes
/// the border width and every other edge that differs from it an override.
pub open spec fn border_widths_fields(m: StyleModel, value: Seq<char>) -> (
    CssNumber,
    Option<CssNumber>,
    Option<CssNumber>,
    Option<CssNumber>,
    Option<CssNumber>,
) {
    match box_sides_spec(value, m.font_size.val(), m.viewport_width.val(), m.viewport_height.val(), false) {
        Some((t, r, b, l)) => (
            num(t),
            None,
            if r != t { Some(num(r)) } else { None },
            if b != t { Some(num(b)) } else { None },
            if l != t { Some(num(l)) } else { None },
        ),
        None => (
            m.border_width,
            m.border_top_width,
            m.border_right_width,
            m.border_bottom_width,
            m.border_left_width,
        ),
    }
}

/// `border-width`: a one-to-four value shorthand of non-negative lengths.
#[verifier::opaque]
pub open spec fn border_widths_model(m: StyleModel, value: Seq<char>) -> StyleModel {
    let f = border_widths_fields(m, value);
    StyleModel {
        border_width: f.0,
        border_top_width: f.1,
        border_right_width: f.2,
        border_bottom_width: f.3,
        border_left_width: f.4,
        ..m
    }
}

/// The edge named by `border-<edge>-width`.
pub open spec fn width_name_side(name: Seq<char>) -> Option<Seq<char>> {
    match strip_prefix(name, "border-"@) {
        Some(rest) => strip_suffix(rest, "-width"@),
        None => None,
    }
}

/// `border-<edge>-width`: a non-negative pixel length for that edge.
#[verifier::opaque]
pub open spec fn border_side_width_model(m: StyleModel, name: Seq<char>, value: Seq<char>) -> StyleModel {
    match (px_spec(value), width_name_side(name)) {
        (Some(w), Some(side)) => set_side_width_model(m, side, num(w)),
        _ => m,
    }
}

/// The per-edge width names.
pub open spec fn side_width_name(name: Seq<char>) -> bool {
    name == "border-top-width"@ || name == "border-right-width"@ || name == "border-bottom-width"@
        || name == "border-left-width"@
}

/// The names that `apply_border_box_property` handles.
pub open spec fn border_box_name(name: Seq<char>) -> bool {
    name == "border-width"@ || side_width_name(name) || name == "border-radius"@
}

/// `apply_border_box_property`.
#[verifier::opaque]
pub open spec fn border_box_model(m: StyleModel, name: Seq<char>, value: Seq<char>) -> StyleModel {
    if name == "border-width"@ {
        border_widths_model(m, value)
    } else if side_width_name(name) {
        border_side_width_model(m, name, value)
    } else if name == "border-radius"@ {
        border_radius_model(m, value)
    } else {
        m
    }
}

/// The padding edges after `padding`: a one-to-four value shorthand of
/// non-negative lengths.
pub open spec fn padding_fields(m: StyleModel, value: Seq<char>) -> (CssNumber, CssNumber, CssNumber, CssNumber) {
    match box_sides_spec(value, m.font_size.val(), m.viewport_width.val(), m.viewport_height.val(), false) {
        Some((t, r, b, l)) => (num(t), num(r), num(b), num(l)),
        None => (m.padding_top, m.padding_right, m.padding_bottom, m.padding_left),
    }
}

/// `padding`.
#[verifier::opaque]
pub open spec fn padding_model(m: StyleModel, value: Seq<char>) -> StyleModel {
    let f = padding_fields(m, value);
    StyleModel { padding_top: f.0, padding_right: f.1, padding_bottom: f.2, padding_left: f.3, ..m }
}

/// The padding edges after a `padding-<edge>` longhand.
pub open spec fn padding_edge_fields(m: StyleModel, name: Seq<char>, value: Seq<char>) -> (
    CssNumber,
    CssNumber,
    CssNumber,
    CssNumber,
) {
    let x = box_length_spec(m, value, false);
    (
        if name == "padding-top"@ { num_or(x, m.padding_top) } else { m.padding_top },
        if name == "padding-right"@ { num_or(x, m.padding_right) } else { m.padding_right },
        if name == "padding-bottom"@ { num_or(x, m.padding_bottom) } else { m.padding_bottom },
        if name == "padding-left"@ { num_or(x, m.padding_left) } else { m.padding_left },
    )
}

/// `apply_padding_property`: the shorthand or one longhand; other names
/// change nothing.
#[verifier::opaque]
pub open spec fn padding_property_model(m: StyleModel, name: Seq<char>, value: Seq<char>) -> StyleModel {
    if name == "padding"@ {
        padding_model(m, value)
    } else {
        let f = padding_edge_fields(m, name, value);
        StyleModel { padding_top: f.0, padding_right: f.1, padding_bottom: f.2, padding_left: f.3, ..m }
    }
}

/// One margin value: `auto` (zero, marked automatic) or a possibly negative
/// length.
pub open spec fn margin_value_spec(m: StyleModel, value: Seq<char>) -> Option<(int, bool)> {
    if eq_ci(trim(value), "auto"@) {
        Some((0, true))
    } else {
        match box_length_spec(m, value, true) {
            Some(x) => Some((x, false)),
            None => None,
        }
    }
}

/// The margin values of every token; `None` if one fails.
pub open spec fn margin_values_all(m: StyleModel, tokens: Seq<Seq<char>>) -> Option<Seq<(int, bool)>>
    decreases tokens.len(),
{
    if tokens.len() == 0 {
        Some(Seq::empty())
    } else {
        match (margin_values_all(m, tokens.drop_last()), margin_value_spec(m, tokens.last())) {
            (Some(r), Some(x)) => Some(r.push(x)),
            _ => None,
        }
    }
}

/// The margin lengths and automatic flags of the four edges.
pub open spec fn margin_fields(m: StyleModel, value: Seq<char>) -> (
    CssNumber,
    CssNumber,
    CssNumber,
    CssNumber,
    bool,
    bool,
    bool,
    bool,
) {
    let sides = match margin_values_all(m, top_level_whitespace_tokens(value)) {
        Some(vs) => expand_sides(vs),
        None => None,
    };
    match sides {
        Some((t, r, b, l)) => (num(t.0), num(r.0), num(b.0), num(l.0), t.1, r.1, b.1, l.1),
        None => (
            m.margin_top,
            m.margin_right,
            m.margin_bottom,
            m.margin_left,
            m.margin_top_auto,
            m.margin_right_auto,
            m.margin_bottom_auto,
            m.margin_left_auto,
        ),
    }
}

/// The style with the eight margin fields of `f`.
#[verifier::opaque]
pub open spec fn with_margins(
    m: StyleModel,
    f: (CssNumber, CssNumber, CssNumber, CssNumber, bool, bool, bool, bool),
) -> StyleModel {
    StyleModel {
        margin_top: f.0,
        margin_right: f.1,
        margin_bottom: f.2,
        margin_left: f.3,
        margin_top_auto: f.4,
        margin_right_auto: f.5,
        margin_bottom_auto: f.6,
        margin_left_auto: f.7,
        ..m
    }
}

/// `margin`: a one-to-four value shorthand of margin values.
#[verifier::opaque]
pub open spec fn margin_model(m: StyleModel, value: Seq<char>) -> StyleModel {
    with_margins(m, margin_fields(m, value))
}

/// The margins after a `margin-<edge>` longhand.
pub open spec fn margin_edge_fields(m: StyleModel, name: Seq<char>, value: Seq<char>) -> (
    CssNumber,
    CssNumber,
    CssNumber,
    CssNumber,
    bool,
    bool,
    bool,
    bool,
) {
    let x = margin_value_spec(m, value);
    let top = name == "margin-top"@ && x is Some;
    let right = name == "margin-right"@ && x is Some;
    let bottom = name == "margin-bottom"@ && x is Some;
    let left = name == "margin-left"@ && x is Some;
    let pair = x->0;
    (
        if top { num(pair.0) } else { m.margin_top },
        if right { num(pair.0) } else { m.margin_right },
        if bottom { num(pair.0) } else { m.margin_bottom },
        if left { num(pair.0) } else { m.margin_left },
        if top { pair.1 } else { m.margin_top_auto },
        if right { pair.1 } else { m.margin_right_auto },
        if bottom { pair.1 } else { m.margin_bottom_auto },
        if left { pair.1 } else { m.margin_left_auto },
    )
}

/// `apply_margin_property`: the shorthand or one longhand; other names
/// change nothing.
#[verifier::opaque]
pub open spec fn margin_property_model(m: StyleModel, name: Seq<char>, value: Seq<char>) -> StyleModel {
    if name == "margin"@ {
        margin_model(m, value)
    } else {
        with_margins(m, margin_edge_fields(m, name, value))
    }
}

/// The padding names.
pub open spec fn padding_name(name: Seq<char>) -> bool {
    name == "padding"@ || name == "padding-top"@ || name == "padding-right"@ || name == "padding-bottom"@
        || name == "padding-left"@
}

/// The margin names.
pub open spec fn margin_name(name: Seq<char>) -> bool {
    name == "margin"@ || name == "margin-top"@ || name == "margin-right"@ || name == "margin-bottom"@
        || name == "margin-left"@
}

/// `apply_spacing_box_property`.
#[verifier::opaque]
pub open spec fn spacing_box_model(m: StyleModel, name: Seq<char>, value: Seq<char>) -> StyleModel {
    if padding_name(name) {
        padding_property_model(m, name, value)
    } else if margin_name(name) {
        margin_property_model(m, name, value)
    } else {
        m
    }
}

/// A block-axis length: a non-negative percentage of the percentage height
/// basis (none without a basis), or a non-negative length.
pub open spec fn block_length_spec(m: StyleModel, value: Seq<char>) -> Option<int> {
    let t = trim(value);
    if ends_with(t, "%"@) {
        match scalar_spec(strip_suffix(t, "%"@)->0) {
            Some(p) => if p >= 0 {
                match m.percentage_height_basis {
                    Some(b) => checked(scaled(b.val(), p, 100 * MICROS_PER_UNIT)),
                    None => None,
                }
            } else {
                None
            },
            None => None,
        }
    } else {
        box_length_spec(m, value, false)
    }
}

/// The widths after `width`, `min-width` or `max-width` (an invalid value
/// clears the named one).
pub open spec fn width_dimension_fields(m: StyleModel, name: Seq<char>, value: Seq<char>) -> (
    Option<CssLength>,
    Option<CssLength>,
    Option<CssLength>,
) {
    let resolved = length_spec(value, m.font_size.val(), m.viewport_width.val(), m.viewport_height.val());
    (
        if name == "width"@ { resolved } else { m.width },
        if name == "min-width"@ { resolved } else { m.min_width },
        if name == "max-width"@ { resolved } else { m.max_width },
    )
}

/// `apply_width_dimension`.
#[verifier::opaque]
pub open spec fn width_dimension_model(m: StyleModel, name: Seq<char>, value: Seq<char>) -> StyleModel {
    let f = width_dimension_fields(m, name, value);
    StyleModel { width: f.0, min_width: f.1, max_width: f.2, ..m }
}

/// The minimum height and its automatic flag after `min-height`.
pub open spec fn minimum_height_fields(m: StyleModel, value: Seq<char>) -> (CssNumber, bool) {
    if eq_ci(trim(value), "auto"@) {
        (num(0), true)
    } else {
        match block_length_spec(m, value) {
            Some(x) => (num(x), false),
            None => (m.min_height, m.automatic_min_height),
        }
    }
}

/// `min-height`: `auto` restores the automatic minimum, a block length sets
/// it; anything else changes nothing.
#[verifier::opaque]
pub open spec fn minimum_height_model(m: StyleModel, value: Seq<char>) -> StyleModel {
    let f = minimum_height_fields(m, value);
    StyleModel { min_height: f.0, automatic_min_height: f.1, ..m }
}

/// The width names.
pub open spec fn width_name(name: Seq<char>) -> bool {
    name == "width"@ || name == "min-width"@ || name == "max-width"@
}

/// `apply_dimensions`: `height` and `max-height` take a block length (an
/// invalid one clears them).
#[verifier::opaque]
pub open spec fn dimensions_model(m: StyleModel, name: Seq<char>, value: Seq<char>) -> StyleModel {
    if width_name(name) {
        width_dimension_model(m, name, value)
    } else if name == "height"@ {
        StyleModel { height: opt_num(block_length_spec(m, value)), ..m }
    } else if name == "min-height"@ {
        minimum_height_model(m, value)
    } else if name == "max-height"@ {
        StyleModel { max_height: opt_num(block_length_spec(m, value)), ..m }
    } else {
        m
    }
}

/// The names that `apply_dimension_box_property` handles.
pub open spec fn dimension_name(name: Seq<char>) -> bool {
    width_name(name) || name == "height"@ || name == "min-height"@ || name == "max-height"@
}

/// The insets after `inset` (a one-to-four value shorthand of lengths that
/// may be negative) or one of `top`, `right`, `bottom`, `left` (an invalid
/// value clears it).
pub open spec fn inset_fields(m: StyleModel, name: Seq<char>, value: Seq<char>) -> (
    Option<CssNumber>,
    Option<CssNumber>,
    Option<CssNumber>,
    Option<CssNumber>,
) {
    if name == "inset"@ {
        match box_sides_spec(value, m.font_size.val(), m.viewport_width.val(), m.viewport_height.val(), true) {
            Some((t, r, b, l)) => (Some(num(t)), Some(num(r)), Some(num(b)), Some(num(l))),
            None => (m.inset_top, m.inset_right, m.inset_bottom, m.inset_left),
        }
    } else {
        let resolved = opt_num(box_length_spec(m, value, true));
        (
            if name == "top"@ { resolved } else { m.inset_top },
            if name == "right"@ { resolved } else { m.inset_right },
            if name == "bottom"@ { resolved } else { m.inset_bottom },
            if name == "left"@ { resolved } else { m.inset_left },
        )
    }
}

/// `apply_inset`.
#[verifier::opaque]
pub open spec fn inset_model(m: StyleModel, name: Seq<char>, value: Seq<char>) -> StyleModel {
    let f = inset_fields(m, name, value);
    StyleModel { inset_top: f.0, inset_right: f.1, inset_bottom: f.2, inset_left: f.3, ..m }
}

/// The names that `apply_position_box_property` handles.
pub open spec fn position_box_name(name: Seq<char>) -> bool {
    name == "inset"@ || name == "top"@ || name == "right"@ || name == "bottom"@ || name == "left"@
}

/// The names that `apply_box_property_with_name` handles.
pub open spec fn box_name(name: Seq<char>) -> bool {
    name == "box-sizing"@ || name == "overflow"@ || name == "overflow-x"@ || name == "overflow-y"@
        || border_box_name(name) || padding_name(name) || margin_name(name) || dimension_name(name)
        || position_box_name(name)
}

/// `apply_box_property_with_name`, for a name already in lower case: the
/// overflow axes share `overflow`.
#[verifier::opaque]
pub open spec fn box_property_model(m: StyleModel, name: Seq<char>, value: Seq<char>) -> StyleModel {
    if name == "box-sizing"@ {
        box_sizing_model(m, value)
    } else if name == "overflow"@ || name == "overflow-x"@ || name == "overflow-y"@ {
        overflow_model(m, value)
    } else if border_box_name(name) {
        border_box_model(m, name, value)
    } else if padding_name(name) || margin_name(name) {
        spacing_box_model(m, name, value)
    } else if dimension_name(name) {
        dimensions_model(m, name, value)
    } else if position_box_name(name) {
        inset_model(m, name, value)
    } else {
        m
    }
}

proof fn lemma_margin_values_step(m: StyleModel, t: Seq<Seq<char>>, i: int)
    requires
        0 <= i < t.len(),
    ensures
        margin_values_all(m, t.take(i + 1)) == match (margin_values_all(m, t.take(i)), margin_value_spec(m, t[i])) {
            (Some(r), Some(x)) => Some(r.push(x)),
            _ => None,
        },
{
    assert(t.take(i + 1).drop_last() =~= t.take(i));
    assert(t.take(i + 1).last() == t[i]);
}

proof fn lemma_margin_values_prefix_none(m: StyleModel, t: Seq<Seq<char>>, n: int)
    requires
        0 <= n <= t.len(),
        margin_values_all(m, t.take(n)) is None,
    ensures
        margin_values_all(m, t) is None,
    decreases t.len() - n,
{
    if n < t.len() {
        assert(t.take(n + 1).drop_last() =~= t.take(n));
        lemma_margin_values_prefix_none(m, t, n + 1);
    } else {
        assert(t.take(n) =~= t);
    }
}

/// One value of a margin declaration: its length, and whether it is `auto`.
#[derive(Clone, Copy, Debug, PartialEq, Eq, Structural)]
pub struct MarginValue {
    pub length: CssNumber,
    pub auto: bool,
}

/// The length and automatic flag of a margin value.
pub open spec fn margin_pair(v: MarginValue) -> (int, bool) {
    (v.length.val(), v.auto)
}

/// The margin lengths and automatic flags of a list of values.
pub open spec fn margin_pairs(v: Seq<MarginValue>) -> Seq<(int, bool)> {
    v.map_values(|p: MarginValue| margin_pair(p))
}

/// The four edges of a one-to-four value margin shorthand, in CSS order.
pub fn expand_margin_values(values: Vec<MarginValue>) -> (r: Option<[MarginValue; 4]>)
    ensures
        match r {
            Some(a) => expand_sides(values@) == Some((a@[0], a@[1], a@[2], a@[3])),
            None => expand_sides(values@) is None,
        },
{
    let n = values.len();
    if n == 1 {
        Some([values[0], values[0], values[0], values[0]])
    } else if n == 2 {
        Some([values[0], values[1], values[0], values[1]])
    } else if n == 3 {
        Some([values[0], values[1], values[2], values[1]])
    } else if n == 4 {
        Some([values[0], values[1], values[2], values[3]])
    } else {
        None
    }
}

impl CssStyle {
    /// A length in pixels (`box_length`).
    pub fn box_length(&self, value: &str, signed: bool) -> (r: Option<CssNumber>)
        ensures
            opt_val(r) == box_length_spec(self@, value@, signed),
    {
        css_resolved_px(value, self.font_size, self.viewport_width, self.viewport_height, signed)
    }

    /// One margin value: its length and whether it is `auto`.
    pub fn margin_value(&self, value: &str) -> (r: Option<MarginValue>)
        ensures
            match r {
                Some(x) => margin_value_spec(self@, value@) == Some(margin_pair(x)),
                None => margin_value_spec(self@, value@) is None,
            },
    {
        let v = chars_of(value);
        let (a, b) = trim_bounds(&v, 0, v.len());
        proof {
            assert(v@.subrange(0, v@.len() as int) =~= value@);
            reveal_strlit("auto");
            assert(crate::text::lower("auto"@) =~= "auto"@);
        }
        if crate::text::lower_range_is(&v, a, b, "auto") {
            return Some(MarginValue { length: CssNumber { micros: 0 }, auto: true });
        }
        match self.box_length(value, true) {
            Some(x) => Some(MarginValue { length: x, auto: false }),
            None => None,
        }
    }

    /// Applies `box-sizing`.
    pub fn apply_box_sizing(&mut self, value: &str)
        ensures
            final(self)@ == box_sizing_model(old(self)@, value@),
    {
        reveal(box_sizing_model);
        let box_sizing = if trimmed_lower_is(value, "border-box") {
            CssBoxSizing::BorderBox
        } else if trimmed_lower_is(value, "content-box") {
            CssBoxSizing::ContentBox
        } else {
            self.box_sizing
        };
        self.box_sizing = box_sizing;
    }

    /// Applies `overflow`.
    pub fn apply_overflow(&mut self, value: &str)
        ensures
            final(self)@ == overflow_model(old(self)@, value@),
    {
        reveal(overflow_model);
        let overflow = if trimmed_lower_is(value, "hidden") || trimmed_lower_is(value, "clip")
            || trimmed_lower_is(value, "auto") || trimmed_lower_is(value, "scroll") {
            CssOverflow::Clip
        } else if trimmed_lower_is(value, "visible") {
            CssOverflow::Visible
        } else {
            self.overflow
        };
        self.overflow = overflow;
    }

    /// Applies `box-sizing` or `overflow`; whether `name` was one of them.
    pub fn apply_simple_box_property(&mut self, name: &str, value: &str) -> (r: bool)
        ensures
            r == simple_box_name(name@),
            final(self)@ == simple_box_model(old(self)@, name@, value@),
    {
        reveal(simple_box_model);
        if str_is(name, "box-sizing") {
            self.apply_box_sizing(value);
            true
        } else if str_is(name, "overflow") {
            self.apply_overflow(value);
            true
        } else {
            false
        }
    }

    /// Applies `border-radius`.
    pub fn apply_border_radius(&mut self, value: &str)
        ensures
            final(self)@ == border_radius_model(old(self)@, value@),
    {
        reveal(border_radius_model);
        let radius = match CssLength::parse(value, self.font_size, self.viewport_width, self.viewport_height) {
            Some(l) => l,
            None => self.border_radius,
        };
        self.border_radius = radius;
    }

    fn border_widths_values(&self, value: &str) -> (r: (
        CssNumber,
        Option<CssNumber>,
        Option<CssNumber>,
        Option<CssNumber>,
        Option<CssNumber>,
    ))
        ensures
            r == border_widths_fields(self@, value@),
    {
        match box_sides(value, self.font_size, self.viewport_width, self.viewport_height, false) {
            Some(s) => (
                s.top,
                None,
                if s.right != s.top { Some(s.right) } else { None },
                if s.bottom != s.top { Some(s.bottom) } else { None },
                if s.left != s.top { Some(s.left) } else { None },
            ),
            None => (
                self.border_width,
                self.border_top_width,
                self.border_right_width,
                self.border_bottom_width,
                self.border_left_width,
            ),
        }
    }

    /// Applies `border-width`.
    pub fn apply_border_widths(&mut self, value: &str)
        ensures
            final(self)@ == border_widths_model(old(self)@, value@),
    {
        reveal(border_widths_model);
        let f = self.border_widths_values(value);
        self.border_width = f.0;
        self.border_top_width = f.1;
        self.border_right_width = f.2;
        self.border_bottom_width = f.3;
        self.border_left_width = f.4;
    }

    /// Applies `border-<edge>-width`.
    pub fn apply_border_side_width(&mut self, name: &str, value: &str)
        ensures
            final(self)@ == border_side_width_model(old(self)@, name@, value@),
    {
        reveal(border_side_width_model);
        let width = match css_px(value) {
            Some(w) => w,
            None => return,
        };
        let v = chars_of(name);
        let n = v.len();
        proof {
            reveal_strlit("border-");
            reveal_strlit("-width");
        }
        if n >= 7 && crate::text::range_starts_with(&v, 0, n, "border-") && range_ends_with(&v, 7, n, "-width") {
            proof {
                let s = name@;
                assert(v@.subrange(0, n as int) =~= s);
                assert(s.subrange(7, n as int).subrange(0, n - 7 - 6) =~= s.subrange(7, n - 6));
            }
            let side = name.substring_char(7, n - 6);
            self.set_border_side_width(side, width);
        } else {
            proof {
                let s = name@;
                assert(v@.subrange(0, n as int) =~= s);
                if n >= 7 && crate::text::starts_with(s, "border-"@) {
                    assert(s.subrange(7, n as int) =~= v@.subrange(7, n as int));
                }
            }
        }
    }

    /// Applies `border-width`, `border-<edge>-width` or `border-radius`;
    /// whether `name` was one of them.
    pub fn apply_border_box_property(&mut self, name: &str, value: &str) -> (r: bool)
        ensures
            r == border_box_name(name@),
            final(self)@ == border_box_model(old(self)@, name@, value@),
    {
        reveal(border_box_model);
        if str_is(name, "border-width") {
            self.apply_border_widths(value);
            true
        } else if str_is(name, "border-top-width") || str_is(name, "border-right-width")
            || str_is(name, "border-bottom-width") || str_is(name, "border-left-width") {
            self.apply_border_side_width(name, value);
            true
        } else if str_is(name, "border-radius") {
            self.apply_border_radius(value);
            true
        } else {
            false
        }
    }

    fn padding_values(&self, value: &str) -> (r: (CssNumber, CssNumber, CssNumber, CssNumber))
        ensures
            r == padding_fields(self@, value@),
    {
        match box_sides(value, self.font_size, self.viewport_width, self.viewport_height, false) {
            Some(s) => (s.top, s.right, s.bottom, s.left),
            None => (self.padding_top, self.padding_right, self.padding_bottom, self.padding_left),
        }
    }

    /// Applies the `padding` shorthand.
    pub fn apply_padding(&mut self, value: &str)
        ensures
            final(self)@ == padding_model(old(self)@, value@),
    {
        reveal(padding_model);
        let f = self.padding_values(value);
        self.padding_top = f.0;
        self.padding_right = f.1;
        self.padding_bottom = f.2;
        self.padding_left = f.3;
    }

    fn padding_edge_values(&self, name: &str, value: &str) -> (r: (CssNumber, CssNumber, CssNumber, CssNumber))
        ensures
            r == padding_edge_fields(self@, name@, value@),
    {
        let x = self.box_length(value, false);
        let pick = |on: bool, current: CssNumber| -> (c: CssNumber)
            ensures
                c == (if on { num_or(opt_val(x), current) } else { current }),
            {
                match x {
                    Some(n) => if on { n } else { current },
                    None => current,
                }
            };
        (
            pick(str_is(name, "padding-top"), self.padding_top),
            pick(str_is(name, "padding-right"), self.padding_right),
            pick(str_is(name, "padding-bottom"), self.padding_bottom),
            pick(str_is(name, "padding-left"), self.padding_left),
        )
    }

    /// Applies `padding` or one of its longhands.
    pub fn apply_padding_property(&mut self, name: &str, value: &str)
        ensures
            final(self)@ == padding_property_model(old(self)@, name@, value@),
    {
        reveal(padding_property_model);
        if str_is(name, "padding") {
            self.apply_padding(value);
            return;
        }
        let f = self.padding_edge_values(name, value);
        self.padding_top = f.0;
        self.padding_right = f.1;
        self.padding_bottom = f.2;
        self.padding_left = f.3;
    }

    fn margin_values(&self, value: &str) -> (r: (CssNumber, CssNumber, CssNumber, CssNumber, bool, bool, bool, bool))
        ensures
            r == margin_fields(self@, value@),
    {
        let tokens = split_top_level_whitespace(value);
        let ghost tv = views(tokens@);
        let ghost m = self@;
        let current = (
            self.margin_top,
            self.margin_right,
            self.margin_bottom,
            self.margin_left,
            self.margin_top_auto,
            self.margin_right_auto,
            self.margin_bottom_auto,
            self.margin_left_auto,
        );
        let mut values: Vec<MarginValue> = Vec::new();
        let mut i: usize = 0;
        while i < tokens.len()
            invariant
                tv == views(tokens@),
                tv == top_level_whitespace_tokens(value@),
                m == self@,
                current == (
                    m.margin_top,
                    m.margin_right,
                    m.margin_bottom,
                    m.margin_left,
                    m.margin_top_auto,
                    m.margin_right_auto,
                    m.margin_bottom_auto,
                    m.margin_left_auto,
                ),
                i <= tokens@.len(),
                margin_values_all(m, tv.take(i as int)) == Some(margin_pairs(values@)),
            decreases tokens@.len() - i,
        {
            proof {
                lemma_margin_values_step(m, tv, i as int);
            }
            match self.margin_value(tokens[i]) {
                Some(x) => {
                    let ghost before = margin_pairs(values@);
                    values.push(x);
                    proof {
                        assert(margin_pairs(values@) =~= before.push(margin_pair(x)));
                    }
                },
                None => {
                    proof {
                        lemma_margin_values_prefix_none(m, tv, i + 1);
                    }
                    return current;
                },
            }
            i = i + 1;
        }
        proof {
            assert(tv.take(tokens@.len() as int) =~= tv);
        }
        let ghost pairs = margin_pairs(values@);
        let ghost vals = values@;
        proof {
            assert(pairs.len() == vals.len());
            assert forall|k: int| 0 <= k < vals.len() implies pairs[k] == margin_pair(#[trigger] vals[k]) by {}
        }
        match expand_margin_values(values) {
            Some(sides) => {
                let t = sides[0];
                let r = sides[1];
                let b = sides[2];
                let l = sides[3];
                (t.length, r.length, b.length, l.length, t.auto, r.auto, b.auto, l.auto)
            },
            None => current,
        }
    }

    /// Applies the `margin` shorthand.
    pub fn apply_margin(&mut self, value: &str)
        ensures
            final(self)@ == margin_model(old(self)@, value@),
    {
        reveal(margin_model);
        reveal(with_margins);
        let f = self.margin_values(value);
        self.margin_top = f.0;
        self.margin_right = f.1;
        self.margin_bottom = f.2;
        self.margin_left = f.3;
        self.margin_top_auto = f.4;
        self.margin_right_auto = f.5;
        self.margin_bottom_auto = f.6;
        self.margin_left_auto = f.7;
    }

    fn margin_edge_values(&self, name: &str, value: &str) -> (r: (CssNumber, CssNumber, CssNumber, CssNumber, bool, bool, bool, bool))
        ensures
            r == margin_edge_fields(self@, name@, value@),
    {
        let x = self.margin_value(value);
        let top = str_is(name, "margin-top") && x.is_some();
        let right = str_is(name, "margin-right") && x.is_some();
        let bottom = str_is(name, "margin-bottom") && x.is_some();
        let left = str_is(name, "margin-left") && x.is_some();
        let (length, auto) = match x {
            Some(p) => (p.length, p.auto),
            None => (CssNumber { micros: 0 }, false),
        };
        (
            if top { length } else { self.margin_top },
            if right { length } else { self.margin_right },
            if bottom { length } else { self.margin_bottom },
            if left { length } else { self.margin_left },
            if top { auto } else { self.margin_top_auto },
            if right { auto } else { self.margin_right_auto },
            if bottom { auto } else { self.margin_bottom_auto },
            if left { auto } else { self.margin_left_auto },
        )
    }

    /// Applies `margin` or one of its longhands.
    pub fn apply_margin_property(&mut self, name: &str, value: &str)
        ensures
            final(self)@ == margin_property_model(old(self)@, name@, value@),
    {
        reveal(margin_property_model);
        reveal(with_margins);
        if str_is(name, "margin") {
            self.apply_margin(value);
            return;
        }
        let f = self.margin_edge_values(name, value);
        self.margin_top = f.0;
        self.margin_right = f.1;
        self.margin_bottom = f.2;
        self.margin_left = f.3;
        self.margin_top_auto = f.4;
        self.margin_right_auto = f.5;
        self.margin_bottom_auto = f.6;
        self.margin_left_auto = f.7;
    }

    /// Applies a padding or margin declaration; whether `name` was one.
    pub fn apply_spacing_box_property(&mut self, name: &str, value: &str) -> (r: bool)
        ensures
            r == (padding_name(name@) || margin_name(name@)),
            final(self)@ == spacing_box_model(old(self)@, name@, value@),
    {
        reveal(spacing_box_model);
        if str_is(name, "padding") || str_is(name, "padding-top") || str_is(name, "padding-right")
            || str_is(name, "padding-bottom") || str_is(name, "padding-left") {
            self.apply_padding_property(name, value);
            true
        } else if str_is(name, "margin") || str_is(name, "margin-top") || str_is(name, "margin-right")
            || str_is(name, "margin-bottom") || str_is(name, "margin-left") {
            self.apply_margin_property(name, value);
            true
        } else {
            false
        }
    }

    /// A block-axis length (`block_length`).
    pub fn block_length(&self, value: &str) -> (r: Option<CssNumber>)
        ensures
            opt_val(r) == block_length_spec(self@, value@),
    {
        let v = chars_of(value);
        let (a, b) = trim_bounds(&v, 0, v.len());
        proof {
            assert(v@.subrange(0, v@.len() as int) =~= value@);
        }
        let ghost t = v@.subrange(a as int, b as int);
        if range_ends_with(&v, a, b, "%") {
            proof {
                reveal_strlit("%");
                assert(t.subrange(0, t.len() - 1) =~= v@.subrange(a as int, b - 1));
            }
            let (c, d) = trim_bounds(&v, a, b - 1);
            return match parse_literal(&v, c, d) {
                Some(p) => if p.micros < 0 {
                    None
                } else {
                    match self.percentage_height_basis {
                        Some(basis) => percent_of(basis, p),
                        None => None,
                    }
                },
                None => None,
            };
        }
        self.box_length(value, false)
    }

    fn width_dimension_values(&self, name: &str, value: &str) -> (r: (
        Option<CssLength>,
        Option<CssLength>,
        Option<CssLength>,
    ))
        ensures
            r == width_dimension_fields(self@, name@, value@),
    {
        let resolved = CssLength::parse(value, self.font_size, self.viewport_width, self.viewport_height);
        (
            if str_is(name, "width") { resolved } else { self.width },
            if str_is(name, "min-width") { resolved } else { self.min_width },
            if str_is(name, "max-width") { resolved } else { self.max_width },
        )
    }

    /// Applies `width`, `min-width` or `max-width`.
    pub fn apply_width_dimension(&mut self, name: &str, value: &str)
        ensures
            final(self)@ == width_dimension_model(old(self)@, name@, value@),
    {
        reveal(width_dimension_model);
        let f = self.width_dimension_values(name, value);
        self.width = f.0;
        self.min_width = f.1;
        self.max_width = f.2;
    }

    fn minimum_height_values(&self, value: &str) -> (r: (CssNumber, bool))
        ensures
            r == minimum_height_fields(self@, value@),
    {
        proof {
            reveal_strlit("auto");
            assert(lower("auto"@) =~= "auto"@);
        }
        if trimmed_lower_is(value, "auto") {
            (CssNumber { micros: 0 }, true)
        } else {
            match self.block_length(value) {
                Some(x) => (x, false),
                None => (self.min_height, self.automatic_min_height),
            }
        }
    }

    /// Applies `min-height`.
    pub fn apply_minimum_height(&mut self, value: &str)
        ensures
            final(self)@ == minimum_height_model(old(self)@, value@),
    {
        reveal(minimum_height_model);
        let f = self.minimum_height_values(value);
        self.min_height = f.0;
        self.automatic_min_height = f.1;
    }

    fn set_height(&mut self, value: &str)
        ensures
            final(self)@ == (StyleModel { height: opt_num(block_length_spec(old(self)@, value@)), ..old(self)@ }),
    {
        let h = self.block_length(value);
        self.height = h;
    }

    fn set_max_height(&mut self, value: &str)
        ensures
            final(self)@ == (StyleModel { max_height: opt_num(block_length_spec(old(self)@, value@)), ..old(self)@ }),
    {
        let h = self.block_length(value);
        self.max_height = h;
    }

    /// Applies one of the dimension declarations.
    pub fn apply_dimensions(&mut self, name: &str, value: &str)
        ensures
            final(self)@ == dimensions_model(old(self)@, name@, value@),
    {
        reveal(dimensions_model);
        if str_is(name, "width") || str_is(name, "min-width") || str_is(name, "max-width") {
            self.apply_width_dimension(name, value);
        } else if str_is(name, "height") {
            self.set_height(value);
        } else if str_is(name, "min-height") {
            self.apply_minimum_height(value);
        } else if str_is(name, "max-height") {
            self.set_max_height(value);
        }
    }

    /// Applies a dimension declaration; whether `name` was one.
    pub fn apply_dimension_box_property(&mut self, name: &str, value: &str) -> (r: bool)
        ensures
            r == dimension_name(name@),
            final(self)@ == (if r { dimensions_model(old(self)@, name@, value@) } else { old(self)@ }),
    {
        if str_is(name, "width") || str_is(name, "min-width") || str_is(name, "max-width") || str_is(name, "height")
            || str_is(name, "min-height") || str_is(name, "max-height") {
            self.apply_dimensions(name, value);
            true
        } else {
            false
        }
    }

    fn inset_values(&self, name: &str, value: &str) -> (r: (
        Option<CssNumber>,
        Option<CssNumber>,
        Option<CssNumber>,
        Option<CssNumber>,
    ))
        ensures
            r == inset_fields(self@, name@, value@),
    {
        if str_is(name, "inset") {
            return match box_sides(value, self.font_size, self.viewport_width, self.viewport_height, true) {
                Some(s) => (Some(s.top), Some(s.right), Some(s.bottom), Some(s.left)),
                None => (self.inset_top, self.inset_right, self.inset_bottom, self.inset_left),
            };
        }
        let resolved = self.box_length(value, true);
        (
            if str_is(name, "top") { resolved } else { self.inset_top },
            if str_is(name, "right") { resolved } else { self.inset_right },
            if str_is(name, "bottom") { resolved } else { self.inset_bottom },
            if str_is(name, "left") { resolved } else { self.inset_left },
        )
    }

    /// Applies `inset` or one of `top`, `right`, `bottom`, `left`.
    pub fn apply_inset(&mut self, name: &str, value: &str)
        ensures
            final(self)@ == inset_model(old(self)@, name@, value@),
    {
        reveal(inset_model);
        let f = self.inset_values(name, value);
        self.inset_top = f.0;
        self.inset_right = f.1;
        self.inset_bottom = f.2;
        self.inset_left = f.3;
    }

    /// Applies an inset declaration; whether `name` was one.
    pub fn apply_position_box_property(&mut self, name: &str, value: &str) -> (r: bool)
        ensures
            r == position_box_name(name@),
            final(self)@ == (if r { inset_model(old(self)@, name@, value@) } else { old(self)@ }),
    {
        if str_is(name, "inset") || str_is(name, "top") || str_is(name, "right") || str_is(name, "bottom")
            || str_is(name, "left") {
            self.apply_inset(name, value);
            return true;
        }
        false
    }

    /// Applies a box-model declaration whose name is already in lower case;
    /// whether `name` was one.
    pub fn apply_box_property_with_name(&mut self, name: &str, value: &str) -> (r: bool)
        ensures
            r == box_name(name@),
            final(self)@ == (if r { box_property_model(old(self)@, name@, value@) } else { old(self)@ }),
    {
        reveal(box_property_model);
        reveal(simple_box_model);
        reveal(border_box_model);
        reveal(spacing_box_model);
        if str_is(name, "box-sizing") {
            return self.apply_simple_box_property("box-sizing", value);
        }
        if str_is(name, "overflow") || str_is(name, "overflow-x") || str_is(name, "overflow-y") {
            proof {
                reveal_strlit("overflow");
                reveal_strlit("box-sizing");
                assert("overflow"@.len() != "box-sizing"@.len());
            }
            return self.apply_simple_box_property("overflow", value);
        }
        if self.apply_border_box_property(name, value) {
            return true;
        }
        if self.apply_spacing_box_property(name, value) {
            return true;
        }
        if self.apply_dimension_box_property(name, value) {
            return true;
        }
        self.apply_position_box_property(name, value)
    }

    /// Applies a box-model declaration, matching its name in any ASCII case;
    /// whether it was one.
    pub fn apply_box_property(&mut self, name: &str, value: &str) -> (r: bool)
        ensures
            r == box_name(lower(name@)),
            final(self)@ == (if r { box_property_model(old(self)@, lower(name@), value@) } else { old(self)@ }),
    {
        let v = chars_of(name);
        let lowered = lowered_range(&v, 0, v.len());
        proof {
            assert(v@.subrange(0, v@.len() as int) =~= name@);
        }
        self.apply_box_property_with_name(lowered.as_str(), value)
    }
}

} // verus!
