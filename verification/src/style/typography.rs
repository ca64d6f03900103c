//! Text declarations (font size, family, weight and style, alignment,
//! spacing, decoration, case and wrapping, font features) and the
//! non-inherited `float`, `appearance` and `transform: rotate(..)`.
use crate::length::{resolved_px, times_opt};
use crate::number::{
    checked, css_scalar, multiply, mul_div, num, num_or, opt_val, parse_i32, parse_literal,
    percent_of, scalar_spec, scaled, i32_spec, CssNumber, MICROS_PER_UNIT,
};
use crate::length::css_resolved_px;
use crate::style::types::{
    copy_opt_string, opt_str, CssFloat, CssStyle, CssTextAlign, CssTextTransform, CssWhiteSpace,
    StyleModel,
};
use crate::text::{
    chars_of, ends_with, lower, lowered_range, range_ends_with, str_is, str_lower_is,
    strip_suffix, trim, trim_bounds, trimmed_lower_is,
};
use crate::tokens::{css_function_arguments, function_arguments, opt_views, split_whitespace, views, whitespace_tokens};
use vstd::prelude::*;
use vstd::string::*;

verus! {

/// Degrees per radian, in millionths of millionths (`180 / π × 10^12`).
pub const DEGREES_PER_RADIAN_PICOS: i64 = 57_295_779_513_082;

/// The font weight that `bold` stands for.
pub const FONT_WEIGHT_BOLD: u16 = 700;

/// The font weight that `normal` stands for.
pub const FONT_WEIGHT_NORMAL: u16 = 400;

/// The lightest weight drawn in bold.
pub const BOLD_THRESHOLD: u16 = 600;

/// `font-size`: a non-negative percentage of the current size, or a
/// non-negative length with `em` relative to the current size.
pub open spec fn font_size_spec(m: StyleModel, value: Seq<char>) -> Option<int> {
    let t = trim(value);
    if ends_with(t, "%"@) {
        match scalar_spec(strip_suffix(t, "%"@)->0) {
            Some(p) => if p >= 0 {
                checked(scaled(m.font_size.val(), p, 100 * MICROS_PER_UNIT))
            } else {
                None
            },
            None => None,
        }
    } else {
        resolved_px(value, m.font_size.val(), m.viewport_width.val(), m.viewport_height.val(), false)
    }
}

/// `font-weight`: `bold`/`bolder`, `normal`/`lighter`, or a number from 1 to 1000.
pub open spec fn font_weight_spec(value: Seq<char>) -> Option<u16> {
    let l = lower(trim(value));
    if l == "bold"@ || l == "bolder"@ {
        Some(FONT_WEIGHT_BOLD)
    } else if l == "normal"@ || l == "lighter"@ {
        Some(FONT_WEIGHT_NORMAL)
    } else {
        match i32_spec(trim(value)) {
            Some(w) => if 1 <= w <= 1000 {
                Some(w as u16)
            } else {
                None
            },
            None => None,
        }
    }
}

/// `font-style`: `italic` and `oblique` slant the text, `normal` does not.
pub open spec fn italic_spec(value: Seq<char>) -> Option<bool> {
    let l = lower(trim(value));
    if l == "italic"@ || l == "oblique"@ {
        Some(true)
    } else if l == "normal"@ {
        Some(false)
    } else {
        None
    }
}

/// `text-align`.
pub open spec fn text_align_spec(value: Seq<char>) -> Option<CssTextAlign> {
    let l = lower(trim(value));
    if l == "center"@ {
        Some(CssTextAlign::Center)
    } else if l == "right"@ || l == "end"@ {
        Some(CssTextAlign::End)
    } else if l == "left"@ || l == "start"@ || l == "justify"@ {
        Some(CssTextAlign::Start)
    } else {
        None
    }
}

/// `letter-spacing`: `normal` is zero; otherwise a length that may be negative.
pub open spec fn letter_spacing_spec(m: StyleModel, value: Seq<char>) -> Option<int> {
    if lower(trim(value)) == "normal"@ {
        Some(0)
    } else {
        resolved_px(value, m.font_size.val(), m.viewport_width.val(), m.viewport_height.val(), true)
    }
}

/// Whether one of the tokens is `underline`.
pub open spec fn has_underline(tokens: Seq<Seq<char>>) -> bool {
    exists|i: int| 0 <= i < tokens.len() && lower(#[trigger] tokens[i]) == "underline"@
}

/// `text-decoration`: an `underline` token underlines, `none` does not.
pub open spec fn underline_spec(value: Seq<char>) -> Option<bool> {
    if has_underline(whitespace_tokens(value)) {
        Some(true)
    } else if lower(trim(value)) == "none"@ {
        Some(false)
    } else {
        None
    }
}

/// `text-transform`.
pub open spec fn text_transform_spec(value: Seq<char>) -> Option<CssTextTransform> {
    let l = lower(trim(value));
    if l == "none"@ {
        Some(CssTextTransform::NoTransform)
    } else if l == "uppercase"@ {
        Some(CssTextTransform::Uppercase)
    } else if l == "lowercase"@ {
        Some(CssTextTransform::Lowercase)
    } else if l == "capitalize"@ {
        Some(CssTextTransform::Capitalize)
    } else {
        None
    }
}

/// `white-space`: `nowrap` and `pre` suppress soft wraps, `normal` allows them.
pub open spec fn white_space_spec(value: Seq<char>) -> Option<CssWhiteSpace> {
    let l = lower(trim(value));
    if l == "nowrap"@ || l == "pre"@ {
        Some(CssWhiteSpace::NoWrap)
    } else if l == "normal"@ {
        Some(CssWhiteSpace::Normal)
    } else {
        None
    }
}

/// `float`.
pub open spec fn float_spec(value: Seq<char>) -> Option<CssFloat> {
    let l = lower(trim(value));
    if l == "left"@ {
        Some(CssFloat::Left)
    } else if l == "right"@ {
        Some(CssFloat::Right)
    } else if l == "none"@ {
        Some(CssFloat::NoFloat)
    } else {
        None
    }
}

/// An angle in degrees: `deg`, `grad` (0.9°), `rad` (180/π°) or `turn` (360°).
pub open spec fn angle_spec(a: Seq<char>) -> Option<int> {
    let l = lower(a);
    if ends_with(l, "deg"@) {
        scalar_spec(a.subrange(0, a.len() - 3))
    } else if ends_with(l, "grad"@) {
        times_opt(scalar_spec(a.subrange(0, a.len() - 4)), 900_000)
    } else if ends_with(l, "rad"@) {
        match scalar_spec(a.subrange(0, a.len() - 3)) {
            Some(x) => checked(scaled(x, DEGREES_PER_RADIAN_PICOS as int, 1_000_000_000_000)),
            None => None,
        }
    } else if ends_with(l, "turn"@) {
        times_opt(scalar_spec(a.subrange(0, a.len() - 4)), 360 * MICROS_PER_UNIT)
    } else {
        None
    }
}

/// `transform`: `none` is no rotation; `rotate(<angle>)` rotates by it.
pub open spec fn rotation_spec(value: Seq<char>) -> Option<int> {
    if lower(trim(value)) == "none"@ {
        Some(0)
    } else {
        match function_arguments(trim(value), "rotate"@) {
            Some(args) => if args.len() == 1 {
                angle_spec(args[0])
            } else {
                None
            },
            None => None,
        }
    }
}

/// The font weight and bold flag after `font-weight`.
pub open spec fn font_weight_fields(m: StyleModel, value: Seq<char>) -> (u16, bool) {
    match font_weight_spec(value) {
        Some(w) => (w, w >= BOLD_THRESHOLD),
        None => (m.font_weight, m.bold),
    }
}

/// The font features after `font-feature-settings`: `normal` clears them,
/// anything else is kept verbatim.
pub open spec fn font_features_spec(value: Seq<char>) -> Option<Seq<char>> {
    if lower(trim(value)) == "normal"@ {
        None
    } else {
        Some(value)
    }
}

/// The text declaration names.
pub open spec fn typography_name(name: Seq<char>) -> bool {
    name == "font-size"@ || name == "font-family"@ || name == "font-weight"@ || name == "font-style"@
        || name == "text-align"@ || name == "letter-spacing"@ || name == "text-decoration"@
        || name == "text-decoration-line"@ || name == "text-transform"@ || name == "white-space"@
        || name == "font-feature-settings"@ || name == "float"@ || name == "appearance"@
        || name == "-webkit-appearance"@ || name == "transform"@ || name == "-webkit-transform"@
}

/// `font-size`.
#[verifier::opaque]
pub open spec fn font_size_model(m: StyleModel, value: Seq<char>) -> StyleModel {
    StyleModel { font_size: num_or(font_size_spec(m, value), m.font_size), ..m }
}

/// `font-family`: the value, verbatim.
#[verifier::opaque]
pub open spec fn font_family_model(m: StyleModel, value: Seq<char>) -> StyleModel {
    StyleModel { font_family: value, ..m }
}

/// `font-weight`.
#[verifier::opaque]
pub open spec fn font_weight_model(m: StyleModel, value: Seq<char>) -> StyleModel {
    let f = font_weight_fields(m, value);
    StyleModel { font_weight: f.0, bold: f.1, ..m }
}

/// `font-style`.
#[verifier::opaque]
pub open spec fn font_style_model(m: StyleModel, value: Seq<char>) -> StyleModel {
    StyleModel { italic: or_else(italic_spec(value), m.italic), ..m }
}

/// `text-align`.
#[verifier::opaque]
pub open spec fn text_align_model(m: StyleModel, value: Seq<char>) -> StyleModel {
    StyleModel { text_align: or_else(text_align_spec(value), m.text_align), ..m }
}

/// `letter-spacing`.
#[verifier::opaque]
pub open spec fn letter_spacing_model(m: StyleModel, value: Seq<char>) -> StyleModel {
    StyleModel { letter_spacing: num_or(letter_spacing_spec(m, value), m.letter_spacing), ..m }
}

/// `text-decoration` and `text-decoration-line`.
#[verifier::opaque]
pub open spec fn text_decoration_model(m: StyleModel, value: Seq<char>) -> StyleModel {
    StyleModel { underline: or_else(underline_spec(value), m.underline), ..m }
}

/// `text-transform`.
#[verifier::opaque]
pub open spec fn text_transform_model(m: StyleModel, value: Seq<char>) -> StyleModel {
    StyleModel { text_transform: or_else(text_transform_spec(value), m.text_transform), ..m }
}

/// `white-space`.
#[verifier::opaque]
pub open spec fn white_space_model(m: StyleModel, value: Seq<char>) -> StyleModel {
    StyleModel { white_space: or_else(white_space_spec(value), m.white_space), ..m }
}

/// `font-feature-settings`.
#[verifier::opaque]
pub open spec fn font_features_model(m: StyleModel, value: Seq<char>) -> StyleModel {
    StyleModel { font_feature_settings: font_features_spec(value), ..m }
}

/// `float`.
#[verifier::opaque]
pub open spec fn float_model(m: StyleModel, value: Seq<char>) -> StyleModel {
    StyleModel { float: or_else(float_spec(value), m.float), ..m }
}

/// `appearance` and `-webkit-appearance`: whether the value is `none`.
#[verifier::opaque]
pub open spec fn appearance_model(m: StyleModel, value: Seq<char>) -> StyleModel {
    StyleModel { appearance_none: lower(trim(value)) == "none"@, ..m }
}

/// `transform` and `-webkit-transform`.
#[verifier::opaque]
pub open spec fn rotation_model(m: StyleModel, value: Seq<char>) -> StyleModel {
    StyleModel { rotation_degrees: num_or(rotation_spec(value), m.rotation_degrees), ..m }
}

/// `apply_typography_property`, for a name already in lower case.
#[verifier::opaque]
pub open spec fn typography_model(m: StyleModel, name: Seq<char>, value: Seq<char>) -> StyleModel {
    if name == "font-size"@ {
        font_size_model(m, value)
    } else if name == "font-family"@ {
        font_family_model(m, value)
    } else if name == "font-weight"@ {
        font_weight_model(m, value)
    } else if name == "font-style"@ {
        font_style_model(m, value)
    } else if name == "text-align"@ {
        text_align_model(m, value)
    } else if name == "letter-spacing"@ {
        letter_spacing_model(m, value)
    } else if name == "text-decoration"@ || name == "text-decoration-line"@ {
        text_decoration_model(m, value)
    } else if name == "text-transform"@ {
        text_transform_model(m, value)
    } else if name == "white-space"@ {
        white_space_model(m, value)
    } else if name == "font-feature-settings"@ {
        font_features_model(m, value)
    } else if name == "float"@ {
        float_model(m, value)
    } else if name == "appearance"@ || name == "-webkit-appearance"@ {
        appearance_model(m, value)
    } else if name == "transform"@ || name == "-webkit-transform"@ {
        rotation_model(m, value)
    } else {
        m
    }
}

/// The value of an option, else `d`.
pub open spec fn or_else<T>(o: Option<T>, d: T) -> T {
    match o {
        Some(x) => x,
        None => d,
    }
}

/// Whether one of `tokens` is `underline`, in any ASCII case.
fn any_underline(tokens: &Vec<&str>) -> (r: bool)
    ensures
        r == has_underline(views(tokens@)),
{
    let ghost t = views(tokens@);
    let mut i: usize = 0;
    while i < tokens.len()
        invariant
            t == views(tokens@),
            i <= tokens@.len(),
            forall|k: int| 0 <= k < i ==> lower(#[trigger] t[k]) != "underline"@,
        decreases tokens@.len() - i,
    {
        if str_lower_is(tokens[i], "underline") {
            assert(lower(t[i as int]) == "underline"@);
            return true;
        }
        i = i + 1;
    }
    false
}

/// The number written, between whitespace, in `v[0..end]`.
fn scalar_in(v: &Vec<char>, end: usize) -> (r: Option<CssNumber>)
    requires
        end <= v@.len(),
    ensures
        opt_val(r) == scalar_spec(v@.subrange(0, end as int)),
{
    let (a, b) = trim_bounds(v, 0, end);
    parse_literal(v, a, b)
}

/// An angle in degrees (see `angle_spec`).
fn parse_angle(a: &str) -> (r: Option<CssNumber>)
    ensures
        opt_val(r) == angle_spec(a@),
{
    let v = chars_of(a);
    let n = v.len();
    let lowered = lowered_range(&v, 0, n);
    let lv = chars_of(lowered.as_str());
    proof {
        assert(v@.subrange(0, n as int) =~= a@);
        assert(lv@.subrange(0, n as int) =~= lv@);
        reveal_strlit("deg");
        reveal_strlit("grad");
        reveal_strlit("rad");
        reveal_strlit("turn");
    }
    if range_ends_with(&lv, 0, n, "deg") {
        return scalar_in(&v, n - 3);
    }
    if range_ends_with(&lv, 0, n, "grad") {
        return match scalar_in(&v, n - 4) {
            Some(x) => multiply(x, CssNumber { micros: 900_000 }),
            None => None,
        };
    }
    if range_ends_with(&lv, 0, n, "rad") {
        return match scalar_in(&v, n - 3) {
            Some(x) => mul_div(x, CssNumber { micros: DEGREES_PER_RADIAN_PICOS }, 1_000_000_000_000),
            None => None,
        };
    }
    if range_ends_with(&lv, 0, n, "turn") {
        return match scalar_in(&v, n - 4) {
            Some(x) => multiply(x, CssNumber { micros: 360 * MICROS_PER_UNIT }),
            None => None,
        };
    }
    None
}

/// The rotation of a `transform` value, in degrees (see `rotation_spec`).
pub fn parse_rotation(value: &str) -> (r: Option<CssNumber>)
    ensures
        opt_val(r) == rotation_spec(value@),
{
    proof {
        reveal_strlit("none");
        assert(lower("none"@) =~= "none"@);
    }
    if trimmed_lower_is(value, "none") {
        return Some(CssNumber { micros: 0 });
    }
    let v = chars_of(value);
    let (a, b) = trim_bounds(&v, 0, v.len());
    proof {
        assert(v@.subrange(0, v@.len() as int) =~= value@);
    }
    let trimmed = value.substring_char(a, b);
    match css_function_arguments(trimmed, "rotate") {
        Some(args) => if args.len() == 1 {
            parse_angle(args[0])
        } else {
            None
        },
        None => None,
    }
}

fn italic_of(value: &str) -> (r: Option<bool>)
    ensures
        r == italic_spec(value@),
{
    if trimmed_lower_is(value, "italic") || trimmed_lower_is(value, "oblique") {
        Some(true)
    } else if trimmed_lower_is(value, "normal") {
        Some(false)
    } else {
        None
    }
}

fn text_align_of(value: &str) -> (r: Option<CssTextAlign>)
    ensures
        r == text_align_spec(value@),
{
    if trimmed_lower_is(value, "center") {
        Some(CssTextAlign::Center)
    } else if trimmed_lower_is(value, "right") || trimmed_lower_is(value, "end") {
        Some(CssTextAlign::End)
    } else if trimmed_lower_is(value, "left") || trimmed_lower_is(value, "start") || trimmed_lower_is(value, "justify") {
        Some(CssTextAlign::Start)
    } else {
        None
    }
}

fn underline_of(value: &str) -> (r: Option<bool>)
    ensures
        r == underline_spec(value@),
{
    let tokens = split_whitespace(value);
    if any_underline(&tokens) {
        Some(true)
    } else if trimmed_lower_is(value, "none") {
        Some(false)
    } else {
        None
    }
}

fn text_transform_of(value: &str) -> (r: Option<CssTextTransform>)
    ensures
        r == text_transform_spec(value@),
{
    if trimmed_lower_is(value, "none") {
        Some(CssTextTransform::NoTransform)
    } else if trimmed_lower_is(value, "uppercase") {
        Some(CssTextTransform::Uppercase)
    } else if trimmed_lower_is(value, "lowercase") {
        Some(CssTextTransform::Lowercase)
    } else if trimmed_lower_is(value, "capitalize") {
        Some(CssTextTransform::Capitalize)
    } else {
        None
    }
}

fn white_space_of(value: &str) -> (r: Option<CssWhiteSpace>)
    ensures
        r == white_space_spec(value@),
{
    if trimmed_lower_is(value, "nowrap") || trimmed_lower_is(value, "pre") {
        Some(CssWhiteSpace::NoWrap)
    } else if trimmed_lower_is(value, "normal") {
        Some(CssWhiteSpace::Normal)
    } else {
        None
    }
}

fn font_features_of(value: &str) -> (r: Option<String>)
    ensures
        opt_str(r) == font_features_spec(value@),
{
    if trimmed_lower_is(value, "normal") {
        None
    } else {
        Some(String::from_str(value))
    }
}

fn float_of(value: &str) -> (r: Option<CssFloat>)
    ensures
        r == float_spec(value@),
{
    if trimmed_lower_is(value, "left") {
        Some(CssFloat::Left)
    } else if trimmed_lower_is(value, "right") {
        Some(CssFloat::Right)
    } else if trimmed_lower_is(value, "none") {
        Some(CssFloat::NoFloat)
    } else {
        None
    }
}

impl CssStyle {
    /// The font size a `font-size` value gives (see `font_size_spec`).
    pub fn font_size_value(&self, value: &str) -> (r: Option<CssNumber>)
        ensures
            opt_val(r) == font_size_spec(self@, value@),
    {
        let v = chars_of(value);
        let (a, b) = trim_bounds(&v, 0, v.len());
        proof {
            assert(v@.subrange(0, v@.len() as int) =~= value@);
        }
        let ghost t = v@.subrange(a as int, b as int);
        if range_ends_with(&v, a, b, "%") {
            proof {
                reveal_strlit("%");
                assert(t.subrange(0, t.len() - 1) =~= v@.subrange(a as int, b - 1));
            }
            let (c, d) = trim_bounds(&v, a, b - 1);
            return match parse_literal(&v, c, d) {
                Some(p) => if p.micros < 0 {
                    None
                } else {
                    percent_of(self.font_size, p)
                },
                None => None,
            };
        }
        css_resolved_px(value, self.font_size, self.viewport_width, self.viewport_height, false)
    }

    fn font_weight_values(&self, value: &str) -> (r: (u16, bool))
        ensures
            r == font_weight_fields(self@, value@),
    {
        let weight = if trimmed_lower_is(value, "bold") || trimmed_lower_is(value, "bolder") {
            Some(FONT_WEIGHT_BOLD)
        } else if trimmed_lower_is(value, "normal") || trimmed_lower_is(value, "lighter") {
            Some(FONT_WEIGHT_NORMAL)
        } else {
            let v = chars_of(value);
            let (a, b) = trim_bounds(&v, 0, v.len());
            proof {
                assert(v@.subrange(0, v@.len() as int) =~= value@);
            }
            match parse_i32(value.substring_char(a, b)) {
                Some(w) => if 1 <= w && w <= 1000 {
                    Some(w as u16)
                } else {
                    None
                },
                None => None,
            }
        };
        match weight {
            Some(w) => (w, w >= BOLD_THRESHOLD),
            None => (self.font_weight, self.bold),
        }
    }

    fn set_font_size(&mut self, value: &str)
        ensures
            final(self)@ == font_size_model(old(self)@, value@),
    {
        reveal(font_size_model);
        let size = match self.font_size_value(value) {
            Some(x) => x,
            None => self.font_size,
        };
        self.font_size = size;
    }

    fn set_font_family(&mut self, value: &str)
        ensures
            final(self)@ == font_family_model(old(self)@, value@),
    {
        reveal(font_family_model);
        self.font_family = String::from_str(value);
    }

    fn set_font_weight(&mut self, value: &str)
        ensures
            final(self)@ == font_weight_model(old(self)@, value@),
    {
        reveal(font_weight_model);
        let f = self.font_weight_values(value);
        self.font_weight = f.0;
        self.bold = f.1;
    }

    fn set_italic(&mut self, value: &str)
        ensures
            final(self)@ == font_style_model(old(self)@, value@),
    {
        reveal(font_style_model);
        let italic = match italic_of(value) {
            Some(b) => b,
            None => self.italic,
        };
        self.italic = italic;
    }

    fn set_text_align(&mut self, value: &str)
        ensures
            final(self)@ == text_align_model(old(self)@, value@),
    {
        reveal(text_align_model);
        let align = match text_align_of(value) {
            Some(a) => a,
            None => self.text_align,
        };
        self.text_align = align;
    }

    fn set_letter_spacing(&mut self, value: &str)
        ensures
            final(self)@ == letter_spacing_model(old(self)@, value@),
    {
        reveal(letter_spacing_model);
        let spacing = match self.letter_spacing_value(value) {
            Some(x) => x,
            None => self.letter_spacing,
        };
        self.letter_spacing = spacing;
    }

    fn set_underline(&mut self, value: &str)
        ensures
            final(self)@ == text_decoration_model(old(self)@, value@),
    {
        reveal(text_decoration_model);
        let underline = match underline_of(value) {
            Some(b) => b,
            None => self.underline,
        };
        self.underline = underline;
    }

    fn set_text_transform(&mut self, value: &str)
        ensures
            final(self)@ == text_transform_model(old(self)@, value@),
    {
        reveal(text_transform_model);
        let transform = match text_transform_of(value) {
            Some(t) => t,
            None => self.text_transform,
        };
        self.text_transform = transform;
    }

    fn set_white_space(&mut self, value: &str)
        ensures
            final(self)@ == white_space_model(old(self)@, value@),
    {
        reveal(white_space_model);
        let white_space = match white_space_of(value) {
            Some(w) => w,
            None => self.white_space,
        };
        self.white_space = white_space;
    }

    fn set_font_features(&mut self, value: &str)
        ensures
            final(self)@ == font_features_model(old(self)@, value@),
    {
        reveal(font_features_model);
        let features = font_features_of(value);
        self.font_feature_settings = features;
    }

    fn set_float(&mut self, value: &str)
        ensures
            final(self)@ == float_model(old(self)@, value@),
    {
        reveal(float_model);
        let float = match float_of(value) {
            Some(f) => f,
            None => self.float,
        };
        self.float = float;
    }

    fn set_appearance(&mut self, value: &str)
        ensures
            final(self)@ == appearance_model(old(self)@, value@),
    {
        reveal(appearance_model);
        let none = trimmed_lower_is(value, "none");
        self.appearance_none = none;
    }

    fn set_rotation(&mut self, value: &str)
        ensures
            final(self)@ == rotation_model(old(self)@, value@),
    {
        reveal(rotation_model);
        let degrees = match parse_rotation(value) {
            Some(d) => d,
            None => self.rotation_degrees,
        };
        self.rotation_degrees = degrees;
    }

    fn letter_spacing_value(&self, value: &str) -> (r: Option<CssNumber>)
        ensures
            opt_val(r) == letter_spacing_spec(self@, value@),
    {
        if trimmed_lower_is(value, "normal") {
            Some(CssNumber { micros: 0 })
        } else {
            css_resolved_px(value, self.font_size, self.viewport_width, self.viewport_height, true)
        }
    }

    /// Applies a text declaration (or `float`, `appearance`, `transform`)
    /// whose name is already in lower case; whether `name` was one.
    pub fn apply_typography_property(&mut self, name: &str, value: &str) -> (r: bool)
        ensures
            r == typography_name(name@),
            final(self)@ == (if r { typography_model(old(self)@, name@, value@) } else { old(self)@ }),
    {
        reveal(typography_model);
        if str_is(name, "font-size") {
            self.set_font_size(value);
        } else if str_is(name, "font-family") {
            self.set_font_family(value);
        } else if str_is(name, "font-weight") {
            self.set_font_weight(value);
        } else if str_is(name, "font-style") {
            self.set_italic(value);
        } else if str_is(name, "text-align") {
            self.set_text_align(value);
        } else if str_is(name, "letter-spacing") {
            self.set_letter_spacing(value);
        } else if str_is(name, "text-decoration") || str_is(name, "text-decoration-line") {
            self.set_underline(value);
        } else if str_is(name, "text-transform") {
            self.set_text_transform(value);
        } else if str_is(name, "white-space") {
            self.set_white_space(value);
        } else if str_is(name, "font-feature-settings") {
            self.set_font_features(value);
        } else if str_is(name, "float") {
            self.set_float(value);
        } else if str_is(name, "appearance") || str_is(name, "-webkit-appearance") {
            self.set_appearance(value);
        } else if str_is(name, "transform") || str_is(name, "-webkit-transform") {
            self.set_rotation(value);
        } else {
            return false;
        }
        true
    }
}

} // verus!
