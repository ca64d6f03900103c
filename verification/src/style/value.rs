//! Parsing of the numeric CSS values that declarations assign: plain
//! numbers, pixel lengths, box shorthands, line heights and lengths that may
//! be percentages.
use crate::length::{
    css_resolved_px, percent_opt, resolved_px, times, DEFAULT_FONT_SIZE_MICROS,
    LINE_HEIGHT_FACTOR_MICROS,
};
use crate::number::{
    checked, css_scalar, div_trunc, literal_micros, multiply, opt_val, parse_literal, percent_of,
    scalar_spec, CssNumber,
};
use crate::style::types::CssLength;
use crate::text::{
    chars_of, ends_with, lower, lower_range_is, range_ends_with, strip_suffix, trim, trim_bounds,
};
use crate::tokens::{split_top_level_whitespace, top_level_whitespace_tokens, views};
use vstd::prelude::*;
use vstd::string::*;

verus! {

/// `css_number` of the declaration values: a trimmed, finite plain number.
pub fn css_number(value: &str) -> (r: Option<CssNumber>)
    ensures
        opt_val(r) == scalar_spec(value@),
{
    css_scalar(value)
}

/// The number of a pixel length: the trimmed value without a trailing `px`
/// (no further trimming), parsed as a finite number.
pub open spec fn px_number(s: Seq<char>) -> Option<int> {
    let t = trim(s);
    if ends_with(t, "px"@) {
        literal_micros(strip_suffix(t, "px"@)->0)
    } else {
        literal_micros(t)
    }
}

/// `css_px`: a non-negative pixel length with an optional `px` unit.
pub open spec fn px_spec(s: Seq<char>) -> Option<int> {
    match px_number(s) {
        Some(x) => if x >= 0 {
            Some(x)
        } else {
            None
        },
        None => None,
    }
}

/// Parses a non-negative pixel length such as `12px` or `12`.
pub fn css_px(value: &str) -> (r: Option<CssNumber>)
    ensures
        opt_val(r) == px_spec(value@),
{
    let v = chars_of(value);
    let (a, b) = trim_bounds(&v, 0, v.len());
    proof {
        assert(v@.subrange(0, v@.len() as int) =~= value@);
    }
    let parsed = if range_ends_with(&v, a, b, "px") {
        proof {
            reveal_strlit("px");
            let t = v@.subrange(a as int, b as int);
            assert(t.subrange(0, t.len() - 2) =~= v@.subrange(a as int, b - 2));
        }
        parse_literal(&v, a, b - 2)
    } else {
        parse_literal(&v, a, b)
    };
    match parsed {
        Some(n) => if n.micros >= 0 {
            Some(n)
        } else {
            None
        },
        None => None,
    }
}

/// The four edges of a box, in CSS order.
#[derive(Clone, Copy, Debug, PartialEq, Eq, Structural)]
pub struct BoxSides {
    pub top: CssNumber,
    pub right: CssNumber,
    pub bottom: CssNumber,
    pub left: CssNumber,
}

/// The CSS shorthand expansion of one to four values into top, right,
/// bottom and left.
pub open spec fn expand_sides<T>(v: Seq<T>) -> Option<(T, T, T, T)> {
    if v.len() == 1 {
        Some((v[0], v[0], v[0], v[0]))
    } else if v.len() == 2 {
        Some((v[0], v[1], v[0], v[1]))
    } else if v.len() == 3 {
        Some((v[0], v[1], v[2], v[1]))
    } else if v.len() == 4 {
        Some((v[0], v[1], v[2], v[3]))
    } else {
        None
    }
}

/// Resolves every token; `None` if one fails.
pub open spec fn resolve_all(tokens: Seq<Seq<char>>, em: int, vw: int, vh: int, signed: bool) -> Option<Seq<int>>
    decreases tokens.len(),
{
    if tokens.len() == 0 {
        Some(Seq::empty())
    } else {
        match (resolve_all(tokens.drop_last(), em, vw, vh, signed), resolved_px(tokens.last(), em, vw, vh, signed)) {
            (Some(r), Some(x)) => Some(r.push(x)),
            _ => None,
        }
    }
}

/// `box_sides`: a one-to-four value box shorthand of lengths.
pub open spec fn box_sides_spec(s: Seq<char>, em: int, vw: int, vh: int, signed: bool) -> Option<(int, int, int, int)> {
    match resolve_all(top_level_whitespace_tokens(s), em, vw, vh, signed) {
        Some(values) => expand_sides(values),
        None => None,
    }
}

/// The view of optional box sides.
pub open spec fn sides_view(r: Option<BoxSides>) -> Option<(int, int, int, int)> {
    match r {
        Some(b) => Some((b.top.val(), b.right.val(), b.bottom.val(), b.left.val())),
        None => None,
    }
}

/// Resolves a box shorthand such as `1px 2px` into its four edges.
pub fn box_sides(value: &str, em_base: CssNumber, viewport_width: CssNumber, viewport_height: CssNumber, signed: bool) -> (r: Option<BoxSides>)
    ensures
        sides_view(r) == box_sides_spec(value@, em_base.val(), viewport_width.val(), viewport_height.val(), signed),
{
    let tokens = split_top_level_whitespace(value);
    let ghost tv = views(tokens@);
    let ghost em = em_base.val();
    let ghost vw = viewport_width.val();
    let ghost vh = viewport_height.val();
    let mut values: Vec<CssNumber> = Vec::new();
    let mut i: usize = 0;
    while i < tokens.len()
        invariant
            tv == views(tokens@),
            tv == top_level_whitespace_tokens(value@),
            em == em_base.val(),
            vw == viewport_width.val(),
            vh == viewport_height.val(),
            i <= tokens@.len(),
            resolve_all(tv.take(i as int), em, vw, vh, signed) == Some(values@.map_values(|n: CssNumber| n.val())),
        decreases tokens@.len() - i,
    {
        let t = tokens[i];
        let resolved = css_resolved_px(t, em_base, viewport_width, viewport_height, signed);
        proof {
            assert(tv.take(i + 1).drop_last() =~= tv.take(i as int));
            assert(tv.take(i + 1).last() == t@);
        }
        match resolved {
            Some(x) => {
                let ghost before = values@.map_values(|n: CssNumber| n.val());
                values.push(x);
                proof {
                    assert(values@.map_values(|n: CssNumber| n.val()) =~= before.push(x.val()));
                }
            },
            None => {
                proof {
                    lemma_resolve_all_prefix_none(tv, i + 1, em, vw, vh, signed);
                }
                return None;
            },
        }
        i = i + 1;
    }
    proof {
        assert(tv.take(tokens@.len() as int) =~= tv);
    }
    let n = values.len();
    if n == 1 {
        Some(BoxSides { top: values[0], right: values[0], bottom: values[0], left: values[0] })
    } else if n == 2 {
        Some(BoxSides { top: values[0], right: values[1], bottom: values[0], left: values[1] })
    } else if n == 3 {
        Some(BoxSides { top: values[0], right: values[1], bottom: values[2], left: values[1] })
    } else if n == 4 {
        Some(BoxSides { top: values[0], right: values[1], bottom: values[2], left: values[3] })
    } else {
        None
    }
}

proof fn lemma_resolve_all_prefix_none(t: Seq<Seq<char>>, n: int, em: int, vw: int, vh: int, signed: bool)
    requires
        0 <= n <= t.len(),
        resolve_all(t.take(n), em, vw, vh, signed) is None,
    ensures
        resolve_all(t, em, vw, vh, signed) is None,
    decreases t.len() - n,
{
    if n < t.len() {
        assert(t.take(n + 1).drop_last() =~= t.take(n));
        lemma_resolve_all_prefix_none(t, n + 1, em, vw, vh, signed);
    } else {
        assert(t.take(n) =~= t);
    }
}

/// `css_line_height`: `normal`, a unitless factor (inherited as a factor),
/// a percentage of the font size, or a length; the resolved height and the
/// factor that children inherit, if any.
#[verifier::opaque]
pub open spec fn line_height_spec(s: Seq<char>, font: int, vw: int, vh: int) -> Option<(int, Option<int>)> {
    let t = trim(s);
    if lower(t) == "normal"@ {
        match times(font, LINE_HEIGHT_FACTOR_MICROS as int) {
            Some(x) => Some((x, Some(LINE_HEIGHT_FACTOR_MICROS as int))),
            None => None,
        }
    } else if literal_micros(t) is Some {
        let n = literal_micros(t)->0;
        if n >= 0 {
            match times(font, n) {
                Some(x) => Some((x, Some(n))),
                None => None,
            }
        } else {
            None
        }
    } else if ends_with(t, "%"@) {
        match scalar_spec(strip_suffix(t, "%"@)->0) {
            Some(p) => if p >= 0 {
                match percent_opt(Some(p), font) {
                    Some(x) => Some((x, None)),
                    None => None,
                }
            } else {
                None
            },
            None => None,
        }
    } else {
        match resolved_px(t, font, vw, vh, false) {
            Some(x) => Some((x, None)),
            None => None,
        }
    }
}

/// The view of a resolved line height.
pub open spec fn line_height_view(r: Option<(CssNumber, Option<CssNumber>)>) -> Option<(int, Option<int>)> {
    match r {
        Some((x, f)) => Some((x.val(), opt_val(f))),
        None => None,
    }
}

/// Resolves a `line-height` value against the font size.
pub fn css_line_height(value: &str, font_size: CssNumber, viewport_width: CssNumber, viewport_height: CssNumber) -> (r: Option<(CssNumber, Option<CssNumber>)>)
    ensures
        line_height_view(r) == line_height_spec(value@, font_size.val(), viewport_width.val(), viewport_height.val()),
{
    reveal(line_height_spec);
    let v = chars_of(value);
    let (a, b) = trim_bounds(&v, 0, v.len());
    proof {
        assert(v@.subrange(0, v@.len() as int) =~= value@);
    }
    let ghost t = v@.subrange(a as int, b as int);
    if lower_range_is(&v, a, b, "normal") {
        let factor = CssNumber { micros: LINE_HEIGHT_FACTOR_MICROS };
        return match multiply(font_size, factor) {
            Some(x) => Some((x, Some(factor))),
            None => None,
        };
    }
    match parse_literal(&v, a, b) {
        Some(n) => {
            if n.micros >= 0 {
                return match multiply(font_size, n) {
                    Some(x) => Some((x, Some(n))),
                    None => None,
                };
            } else {
                return None;
            }
        },
        None => {},
    }
    if range_ends_with(&v, a, b, "%") {
        proof {
            reveal_strlit("%");
            assert(t.subrange(0, t.len() - 1) =~= v@.subrange(a as int, b - 1));
        }
        let (c, d) = trim_bounds(&v, a, b - 1);
        return match parse_literal(&v, c, d) {
            Some(p) => if p.micros >= 0 {
                match percent_of(font_size, p) {
                    Some(x) => Some((x, None)),
                    None => None,
                }
            } else {
                None
            },
            None => None,
        };
    }
    let trimmed = value.substring_char(a, b);
    match css_resolved_px(trimmed, font_size, viewport_width, viewport_height, false) {
        Some(x) => Some((x, None)),
        None => None,
    }
}

/// `CssLength::parse`: a non-negative percentage (stored as a fraction) or a
/// non-negative length in pixels.
pub open spec fn length_spec(s: Seq<char>, font: int, vw: int, vh: int) -> Option<CssLength> {
    let t = trim(s);
    if ends_with(t, "%"@) {
        match scalar_spec(strip_suffix(t, "%"@)->0) {
            Some(p) => if p >= 0 {
                Some(CssLength::Percent(CssNumber { micros: div_trunc(p, 100) as i64 }))
            } else {
                None
            },
            None => None,
        }
    } else {
        match resolved_px(t, font, vw, vh, false) {
            Some(x) => Some(CssLength::Px(CssNumber { micros: x as i64 })),
            None => None,
        }
    }
}

impl CssLength {
    /// Parses a width-like length: a percentage of the available space or a
    /// length in pixels.
    pub fn parse(value: &str, font_size: CssNumber, viewport_width: CssNumber, viewport_height: CssNumber) -> (r: Option<CssLength>)
        ensures
            r == length_spec(value@, font_size.val(), viewport_width.val(), viewport_height.val()),
    {
        let v = chars_of(value);
        let (a, b) = trim_bounds(&v, 0, v.len());
        proof {
            assert(v@.subrange(0, v@.len() as int) =~= value@);
        }
        let ghost t = v@.subrange(a as int, b as int);
        if range_ends_with(&v, a, b, "%") {
            proof {
                reveal_strlit("%");
                assert(t.subrange(0, t.len() - 1) =~= v@.subrange(a as int, b - 1));
            }
            let (c, d) = trim_bounds(&v, a, b - 1);
            return match parse_literal(&v, c, d) {
                Some(p) => if p.micros >= 0 {
                    Some(CssLength::Percent(CssNumber { micros: p.micros / 100 }))
                } else {
                    None
                },
                None => None,
            };
        }
        let trimmed = value.substring_char(a, b);
        match css_resolved_px(trimmed, font_size, viewport_width, viewport_height, false) {
            Some(x) => Some(CssLength::Px(x)),
            None => None,
        }
    }
}

} // verus!
