//! The declarations that set one field of a style each: list style, opacity,
//! stacking order, positioning scheme, display, colors and line height.
use crate::number::{num, opt_num, parse_i32, i32_spec, css_scalar, scalar_spec, CssNumber, MICROS_PER_UNIT};
use crate::style::keywords::{parse_display, taffy_display};
use crate::style::types::{CssDisplay, CssPosition, CssStyle, StyleModel};
use crate::style::value::{css_line_height, line_height_spec};
use crate::text::{
    chars_of, eq_ci, lower, lower_range_is, lowered_range, str_lower_is, trim, trim_bounds,
    trimmed_lower_is,
};
use crate::tokens::{split_whitespace, views, whitespace_tokens};
use vstd::prelude::*;
use vstd::string::*;

verus! {

/// What one token of `list-style` says of the marker: `Some(true)` for
/// `none`, `Some(false)` for a marker type, `None` for anything else.
pub open spec fn list_style_token(t: Seq<char>) -> Option<bool> {
    let l = lower(t);
    if l == "none"@ {
        Some(true)
    } else if l == "disc"@ || l == "circle"@ || l == "square"@ || l == "decimal"@ {
        Some(false)
    } else {
        None
    }
}

/// What the last recognized token of `tokens` says, if any.
pub open spec fn last_list_style(tokens: Seq<Seq<char>>) -> Option<bool>
    decreases tokens.len(),
{
    if tokens.len() == 0 {
        None
    } else {
        match list_style_token(tokens.last()) {
            Some(b) => Some(b),
            None => last_list_style(tokens.drop_last()),
        }
    }
}

/// `list-style` and `list-style-type`: the last recognized token decides;
/// without one, `initial` restores the marker and anything else changes nothing.
#[verifier::opaque]
pub open spec fn list_style_model(m: StyleModel, value: Seq<char>) -> StyleModel {
    let none = match last_list_style(whitespace_tokens(value)) {
        Some(b) => b,
        None => if eq_ci(trim(value), "initial"@) {
            false
        } else {
            m.list_style_none
        },
    };
    StyleModel { list_style_none: none, ..m }
}

/// `x` clamped to `[lo, hi]`.
pub open spec fn clamp_int(x: int, lo: int, hi: int) -> int {
    if x < lo {
        lo
    } else if x > hi {
        hi
    } else {
        x
    }
}

/// `opacity`: a finite number, clamped to `[0, 1]`; anything else changes nothing.
#[verifier::opaque]
pub open spec fn opacity_model(m: StyleModel, value: Seq<char>) -> StyleModel {
    let opacity = match scalar_spec(value) {
        Some(x) => num(clamp_int(x, 0, MICROS_PER_UNIT as int)),
        None => m.opacity,
    };
    StyleModel { opacity, ..m }
}

/// `z-index`: `auto` clears it, an `i32` sets it, anything else changes nothing.
#[verifier::opaque]
pub open spec fn z_index_model(m: StyleModel, value: Seq<char>) -> StyleModel {
    let z_index = if eq_ci(trim(value), "auto"@) {
        None
    } else {
        match i32_spec(trim(value)) {
            Some(z) => Some(z as i32),
            None => m.z_index,
        }
    };
    StyleModel { z_index, ..m }
}

/// The positioning scheme named by a keyword.
pub open spec fn position_keyword(t: Seq<char>) -> Option<CssPosition> {
    let l = lower(trim(t));
    if l == "static"@ {
        Some(CssPosition::Static)
    } else if l == "relative"@ {
        Some(CssPosition::Relative)
    } else if l == "absolute"@ {
        Some(CssPosition::Absolute)
    } else if l == "fixed"@ {
        Some(CssPosition::Fixed)
    } else {
        None
    }
}

/// `position`: a known keyword sets it, anything else changes nothing.
#[verifier::opaque]
pub open spec fn position_model(m: StyleModel, value: Seq<char>) -> StyleModel {
    let position = match position_keyword(value) {
        Some(p) => p,
        None => m.position,
    };
    StyleModel { position, ..m }
}

/// The inline display keywords: the box's layout mode and whether it is an
/// atomic inline box.
pub open spec fn inline_display_spec(value: Seq<char>) -> Option<(CssDisplay, bool)> {
    if value == "inline"@ {
        Some((CssDisplay::Block, false))
    } else if value == "inline-block"@ {
        Some((CssDisplay::Block, true))
    } else if value == "inline-flex"@ {
        Some((CssDisplay::Flex, true))
    } else if value == "inline-grid"@ {
        Some((CssDisplay::Grid, true))
    } else {
        None
    }
}

/// An inline display keyword applied to a style.
#[verifier::opaque]
pub open spec fn inline_display_model(m: StyleModel, value: Seq<char>) -> StyleModel {
    let f = inline_display_fields(m, value);
    StyleModel { display: f.0, inline_block: f.1, inline_atomic: f.2, ..m }
}

/// The display, inline and atomic flags after an inline display keyword.
pub open spec fn inline_display_fields(m: StyleModel, value: Seq<char>) -> (CssDisplay, bool, bool) {
    match inline_display_spec(value) {
        Some((d, atomic)) => (d, true, atomic),
        None => (m.display, m.inline_block, m.inline_atomic),
    }
}

/// `display`: an inline keyword (matched trimmed and in lower case) makes
/// the box inline; otherwise what the layout engine parses of the value
/// makes it a block-level box of that mode; anything else changes nothing.
#[verifier::opaque]
pub open spec fn display_model(m: StyleModel, value: Seq<char>) -> StyleModel {
    let normalized = lower(trim(value));
    if inline_display_spec(normalized) is Some {
        inline_display_model(m, normalized)
    } else {
        let f = block_display_fields(m, value);
        StyleModel { display: f.0, inline_block: f.1, inline_atomic: f.2, ..m }
    }
}

/// The display, inline and atomic flags after a non-inline `display`
/// value: what the layout engine parses of it, as a block-level box.
pub open spec fn block_display_fields(m: StyleModel, value: Seq<char>) -> (CssDisplay, bool, bool) {
    match taffy_display(value) {
        Some(d) => (d, false, false),
        None => (m.display, m.inline_block, m.inline_atomic),
    }
}

/// `color`: the value, verbatim, marked as explicit.
#[verifier::opaque]
pub open spec fn color_model(m: StyleModel, value: Seq<char>) -> StyleModel {
    StyleModel { color: value, explicit_color: true, ..m }
}

/// `background` and `background-color`: the value, verbatim, marked as explicit.
#[verifier::opaque]
pub open spec fn background_model(m: StyleModel, value: Seq<char>) -> StyleModel {
    StyleModel { background: Some(value), explicit_background: true, ..m }
}

/// `line-height`: resolved against the current font size; a unitless value
/// is also kept as the factor that children inherit.
#[verifier::opaque]
pub open spec fn line_height_model(m: StyleModel, value: Seq<char>) -> StyleModel {
    let f = line_height_fields(m, value);
    StyleModel { line_height: f.0, line_height_factor: f.1, ..m }
}

/// The line height and inherited factor after a `line-height` declaration.
pub open spec fn line_height_fields(m: StyleModel, value: Seq<char>) -> (CssNumber, Option<CssNumber>) {
    match line_height_spec(value, m.font_size.val(), m.viewport_width.val(), m.viewport_height.val()) {
        Some((x, f)) => (num(x), opt_num(f)),
        None => (m.line_height, m.line_height_factor),
    }
}

proof fn lemma_last_list_style_step(t: Seq<Seq<char>>, i: int)
    requires
        0 <= i < t.len(),
    ensures
        last_list_style(t.take(i + 1)) == match list_style_token(t[i]) {
            Some(b) => Some(b),
            None => last_list_style(t.take(i)),
        },
{
    assert(t.take(i + 1).drop_last() =~= t.take(i));
    assert(t.take(i + 1).last() == t[i]);
}

/// Whether `token` names a list marker: `Some(true)` for `none`,
/// `Some(false)` for a marker type.
fn list_style_token_of(token: &str) -> (r: Option<bool>)
    ensures
        r == list_style_token(token@),
{
    if str_lower_is(token, "none") {
        Some(true)
    } else if str_lower_is(token, "disc") || str_lower_is(token, "circle") || str_lower_is(token, "square")
        || str_lower_is(token, "decimal") {
        Some(false)
    } else {
        None
    }
}

impl CssStyle {
    /// Applies `list-style` or `list-style-type`.
    pub fn apply_list_style(&mut self, value: &str)
        ensures
            final(self)@ == list_style_model(old(self)@, value@),
    {
        reveal(list_style_model);
        let tokens = split_whitespace(value);
        let ghost t = views(tokens@);
        let mut last: Option<bool> = None;
        let mut i: usize = 0;
        while i < tokens.len()
            invariant
                t == views(tokens@),
                t == whitespace_tokens(value@),
                i <= tokens@.len(),
                last == last_list_style(t.take(i as int)),
            decreases tokens@.len() - i,
        {
            proof {
                lemma_last_list_style_step(t, i as int);
            }
            match list_style_token_of(tokens[i]) {
                Some(b) => {
                    last = Some(b);
                },
                None => {},
            }
            i = i + 1;
        }
        proof {
            assert(t.take(t.len() as int) =~= t);
        }
        let none = match last {
            Some(b) => b,
            None => if trimmed_initial(value) {
                false
            } else {
                self.list_style_none
            },
        };
        self.list_style_none = none;
    }

    /// Applies `opacity`.
    pub fn apply_opacity(&mut self, value: &str)
        ensures
            final(self)@ == opacity_model(old(self)@, value@),
    {
        reveal(opacity_model);
        let opacity = match css_scalar(value) {
            Some(x) => {
                let clamped = if x.micros < 0 {
                    0
                } else if x.micros > MICROS_PER_UNIT {
                    MICROS_PER_UNIT
                } else {
                    x.micros
                };
                CssNumber { micros: clamped }
            },
            None => self.opacity,
        };
        self.opacity = opacity;
    }

    /// Applies `z-index`.
    pub fn apply_z_index(&mut self, value: &str)
        ensures
            final(self)@ == z_index_model(old(self)@, value@),
    {
        reveal(z_index_model);
        let v = chars_of(value);
        let (a, b) = trim_bounds(&v, 0, v.len());
        proof {
            assert(v@.subrange(0, v@.len() as int) =~= value@);
        }
        proof {
            reveal_strlit("auto");
            assert(lower("auto"@) =~= "auto"@);
        }
        let z_index = if lower_range_is(&v, a, b, "auto") {
            None
        } else {
            match parse_i32(value.substring_char(a, b)) {
                Some(z) => Some(z),
                None => self.z_index,
            }
        };
        self.z_index = z_index;
    }

    /// Applies `position`.
    pub fn apply_position(&mut self, value: &str)
        ensures
            final(self)@ == position_model(old(self)@, value@),
    {
        reveal(position_model);
        let position = if trimmed_lower_is(value, "static") {
            CssPosition::Static
        } else if trimmed_lower_is(value, "relative") {
            CssPosition::Relative
        } else if trimmed_lower_is(value, "absolute") {
            CssPosition::Absolute
        } else if trimmed_lower_is(value, "fixed") {
            CssPosition::Fixed
        } else {
            self.position
        };
        self.position = position;
    }

    /// Applies `display`.
    pub fn apply_display(&mut self, value: &str)
        ensures
            final(self)@ == display_model(old(self)@, value@),
    {
        reveal(display_model);
        let v = chars_of(value);
        let (a, b) = trim_bounds(&v, 0, v.len());
        proof {
            assert(v@.subrange(0, v@.len() as int) =~= value@);
        }
        let normalized = lowered_range(&v, a, b);
        if self.apply_inline_display(normalized.as_str()) {
            return;
        }
        let f = self.block_display_values(value);
        self.display = f.0;
        self.inline_block = f.1;
        self.inline_atomic = f.2;
    }

    /// Applies an inline display keyword (already trimmed and in lower
    /// case); whether `value` was one.
    pub fn apply_inline_display(&mut self, value: &str) -> (r: bool)
        ensures
            r == (inline_display_spec(value@) is Some),
            final(self)@ == (if r { inline_display_model(old(self)@, value@) } else { old(self)@ }),
    {
        reveal(inline_display_model);
        let (f, recognized) = self.inline_display_values(value);
        self.display = f.0;
        self.inline_block = f.1;
        self.inline_atomic = f.2;
        recognized
    }

    fn inline_display_values(&self, value: &str) -> (r: ((CssDisplay, bool, bool), bool))
        ensures
            r.0 == inline_display_fields(self@, value@),
            r.1 == (inline_display_spec(value@) is Some),
    {
        match inline_display(value) {
            Some((d, atomic)) => ((d, true, atomic), true),
            None => ((self.display, self.inline_block, self.inline_atomic), false),
        }
    }

    fn block_display_values(&self, value: &str) -> (r: (CssDisplay, bool, bool))
        ensures
            r == block_display_fields(self@, value@),
    {
        match parse_display(value) {
            Some(d) => (d, false, false),
            None => (self.display, self.inline_block, self.inline_atomic),
        }
    }

    fn line_height_values(&self, value: &str) -> (r: (CssNumber, Option<CssNumber>))
        ensures
            r == line_height_fields(self@, value@),
    {
        match css_line_height(value, self.font_size, self.viewport_width, self.viewport_height) {
            Some((resolved, factor)) => (resolved, factor),
            None => (self.line_height, self.line_height_factor),
        }
    }

    /// Applies `color`.
    pub fn apply_color(&mut self, value: &str)
        ensures
            final(self)@ == color_model(old(self)@, value@),
    {
        reveal(color_model);
        self.color = String::from_str(value);
        self.explicit_color = true;
    }

    /// Applies `background` or `background-color`.
    pub fn apply_background(&mut self, value: &str)
        ensures
            final(self)@ == background_model(old(self)@, value@),
    {
        reveal(background_model);
        self.background = Some(String::from_str(value));
        self.explicit_background = true;
    }

    /// Applies `line-height`.
    pub fn apply_line_height(&mut self, value: &str)
        ensures
            final(self)@ == line_height_model(old(self)@, value@),
    {
        reveal(line_height_model);
        let f = self.line_height_values(value);
        self.line_height = f.0;
        self.line_height_factor = f.1;
    }
}

/// Whether the trimmed `value` is `initial`, ignoring ASCII case.
fn trimmed_initial(value: &str) -> (r: bool)
    ensures
        r == eq_ci(trim(value@), "initial"@),
{
    let r = trimmed_lower_is(value, "initial");
    proof {
        reveal_strlit("initial");
        assert(lower("initial"@) =~= "initial"@);
    }
    r
}

/// The inline display keywords (exact matches).
fn inline_display(value: &str) -> (r: Option<(CssDisplay, bool)>)
    ensures
        r == inline_display_spec(value@),
{
    if crate::text::str_is(value, "inline") {
        Some((CssDisplay::Block, false))
    } else if crate::text::str_is(value, "inline-block") {
        Some((CssDisplay::Block, true))
    } else if crate::text::str_is(value, "inline-flex") {
        Some((CssDisplay::Flex, true))
    } else if crate::text::str_is(value, "inline-grid") {
        Some((CssDisplay::Grid, true))
    } else {
        None
    }
}

} // verus!
