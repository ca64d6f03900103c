//! The dimensions written on an embedded SVG element: its `width` and
//! `height` attributes and its `viewBox`.
use crate::length::{lemma_strip, scalar_range};
use crate::number::{
    literal_micros, opt_val, parse_literal, saturated, saturating_mul_div, scalar_spec, scaled, CssNumber,
    MICROS_PER_UNIT,
};
use crate::text::{chars_of, ends_with, is_ascii_whitespace_char, is_ascii_ws, range_ends_with, strip_suffix, trim, trim_bounds};
use crate::document::{attribute, attribute_spec, attrs_view};
use crate::grid_measure::MIN_LAYOUT_WIDTH_MICROS;
use crate::length::{max_int, min_int};
use crate::number::{max_number, min_number};
use crate::style::geometry::box_width_spec;
use crate::style::types::{CssStyle, StyleModel};
use crate::tokens::views;
use vstd::prelude::*;
use vstd::string::*;

verus! {

/// An SVG length attribute: a positive percentage of the available width,
/// or a positive number of pixels with an optional `px`.
pub open spec fn svg_length_spec(value: Seq<char>, available: int) -> Option<int> {
    let t = trim(value);
    if ends_with(t, "%"@) {
        match scalar_spec(strip_suffix(t, "%"@)->0) {
            Some(p) => if p > 0 {
                Some(saturated(scaled(available, p, 100 * MICROS_PER_UNIT)))
            } else {
                None
            },
            None => None,
        }
    } else {
        let number = if ends_with(t, "px"@) {
            strip_suffix(t, "px"@)->0
        } else {
            t
        };
        match scalar_spec(number) {
            Some(x) => if x > 0 {
                Some(x)
            } else {
                None
            },
            None => None,
        }
    }
}

/// Reads an SVG length attribute (see `svg_length_spec`).
pub fn parse_svg_length(value: &str, available_width: CssNumber) -> (r: Option<CssNumber>)
    ensures
        opt_val(r) == svg_length_spec(value@, available_width.val()),
{
    let v = chars_of(value);
    proof {
        assert(v@.subrange(0, v@.len() as int) =~= value@);
    }
    let (a, b) = trim_bounds(&v, 0, v.len());
    if range_ends_with(&v, a, b, "%") {
        proof {
            reveal_strlit("%");
            lemma_strip(v@, a as int, b as int, 1, "%"@);
        }
        return match scalar_range(&v, a, b - 1) {
            Some(p) => if p.micros > 0 {
                Some(saturating_mul_div(available_width, p, 100 * MICROS_PER_UNIT as u64))
            } else {
                None
            },
            None => None,
        };
    }
    let end = if range_ends_with(&v, a, b, "px") {
        proof {
            reveal_strlit("px");
            lemma_strip(v@, a as int, b as int, 2, "px"@);
        }
        b - 2
    } else {
        b
    };
    match scalar_range(&v, a, end) {
        Some(x) => if x.micros > 0 {
            Some(x)
        } else {
            None
        },
        None => None,
    }
}

/// Whether `c` separates the numbers of a `viewBox`: ASCII whitespace or a
/// comma.
pub open spec fn view_box_separator(c: char) -> bool {
    is_ascii_ws(c) || c == ','
}

/// The numbers of a `viewBox` from position `i` on: the non-empty runs
/// between separators.
pub open spec fn view_box_scan(s: Seq<char>, i: int, start: Option<int>) -> Seq<Seq<char>>
    decreases s.len() - i,
{
    if i < 0 || i >= s.len() {
        match start {
            Some(a) => seq![s.subrange(a, s.len() as int)],
            None => Seq::empty(),
        }
    } else if view_box_separator(s[i]) {
        match start {
            Some(a) => seq![s.subrange(a, i)] + view_box_scan(s, i + 1, None),
            None => view_box_scan(s, i + 1, None),
        }
    } else {
        let st = match start {
            Some(a) => Some(a),
            None => Some(i),
        };
        view_box_scan(s, i + 1, st)
    }
}

/// The numbers of a `viewBox`, as written.
pub open spec fn view_box_tokens_spec(s: Seq<char>) -> Seq<Seq<char>> {
    view_box_scan(s, 0, None)
}

/// The numbers of a `viewBox`, as written.
pub fn view_box_tokens(value: &str) -> (out: Vec<&str>)
    ensures
        views(out@) == view_box_tokens_spec(value@),
{
    let v = chars_of(value);
    let n = v.len();
    let mut out: Vec<&str> = Vec::new();
    let mut start: Option<usize> = None;
    let mut i: usize = 0;
    let ghost s = value@;
    while i < n
        invariant
            v@ == s,
            s == value@,
            n == s.len(),
            i <= n,
            start matches Some(a) ==> a < i,
            views(out@) + view_box_scan(s, i as int, match start {
                Some(a) => Some(a as int),
                None => None,
            }) == view_box_tokens_spec(s),
        decreases n - i,
    {
        let c = v[i];
        let ghost old_out = views(out@);
        if is_ascii_whitespace_char(c) || c == ',' {
            match start {
                Some(a) => {
                    let t = value.substring_char(a, i);
                    out.push(t);
                    proof {
                        assert(views(out@) =~= old_out + seq![s.subrange(a as int, i as int)]);
                    }
                },
                None => {},
            }
            start = None;
        } else if start.is_none() {
            start = Some(i);
        }
        i = i + 1;
    }
    let ghost before = views(out@);
    match start {
        Some(a) => {
            let t = value.substring_char(a, n);
            out.push(t);
            proof {
                assert(views(out@) =~= before + seq![s.subrange(a as int, n as int)]);
            }
        },
        None => {
            proof {
                assert(before + Seq::<Seq<char>>::empty() =~= before);
            }
        },
    }
    out
}

/// The values of the numbers, each parsed as written; `None` if one fails.
pub open spec fn literals_of(tokens: Seq<Seq<char>>) -> Option<Seq<int>>
    decreases tokens.len(),
{
    if tokens.len() == 0 {
        Some(Seq::empty())
    } else {
        match (literals_of(tokens.drop_last()), literal_micros(tokens.last())) {
            (Some(r), Some(x)) => Some(r.push(x)),
            _ => None,
        }
    }
}

/// A `viewBox`: exactly four finite numbers, the last two (its width and
/// height) positive.
pub open spec fn view_box_spec(value: Seq<char>) -> Option<(int, int, int, int)> {
    match literals_of(view_box_tokens_spec(value)) {
        Some(v) => if v.len() == 4 && v[2] > 0 && v[3] > 0 {
            Some((v[0], v[1], v[2], v[3]))
        } else {
            None
        },
        None => None,
    }
}

/// Reads a `viewBox` attribute (see `view_box_spec`).
pub fn parse_view_box(value: &str) -> (r: Option<(CssNumber, CssNumber, CssNumber, CssNumber)>)
    ensures
        match r {
            Some((x, y, w, h)) => view_box_spec(value@) == Some((x.val(), y.val(), w.val(), h.val())),
            None => view_box_spec(value@) is None,
        },
{
    let tokens = view_box_tokens(value);
    let ghost ts = views(tokens@);
    let mut values: Vec<CssNumber> = Vec::new();
    let mut i: usize = 0;
    while i < tokens.len()
        invariant
            ts == views(tokens@),
            ts == view_box_tokens_spec(value@),
            i <= tokens@.len(),
            values@.len() == i,
            literals_of(ts.take(i as int)) == Some(Seq::new(i as nat, |k: int| values@[k].val())),
        decreases tokens@.len() - i,
    {
        let t = tokens[i];
        let v = chars_of(t);
        proof {
            assert(v@.subrange(0, v@.len() as int) =~= t@);
            assert(ts.take(i + 1).drop_last() =~= ts.take(i as int));
            assert(ts.take(i + 1).last() == t@);
        }
        match parse_literal(&v, 0, v.len()) {
            Some(x) => {
                let ghost before = values@;
                values.push(x);
                proof {
                    assert(Seq::new((i + 1) as nat, |k: int| values@[k].val()) =~= Seq::new(
                        i as nat,
                        |k: int| before[k].val(),
                    ).push(x.val()));
                }
            },
            None => {
                proof {
                    assert forall|j: int| i < j <= ts.len() implies #[trigger] literals_of(ts.take(j)) is None by {
                        lemma_literals_fail(ts, i as int, j);
                    }
                    assert(ts.take(ts.len() as int) =~= ts);
                }
                return None;
            },
        }
        i = i + 1;
    }
    proof {
        assert(ts.take(ts.len() as int) =~= ts);
    }
    if values.len() == 4 && values[2].micros > 0 && values[3].micros > 0 {
        Some((values[0], values[1], values[2], values[3]))
    } else {
        None
    }
}

proof fn lemma_literals_fail(ts: Seq<Seq<char>>, i: int, j: int)
    requires
        0 <= i < j <= ts.len(),
        literal_micros(ts[i]) is None,
    ensures
        literals_of(ts.take(j)) is None,
    decreases j,
{
    assert(ts.take(j).drop_last() =~= ts.take(j - 1));
    if j - 1 > i {
        lemma_literals_fail(ts, i, j - 1);
    } else {
        assert(ts.take(j).last() == ts[i]);
    }
}

/// The height an image takes when nothing gives it one, in millionths.
pub const DEFAULT_IMAGE_MAX_HEIGHT_MICROS: i64 = 240_000_000;

/// A length attribute of an embedded SVG, in `available` pixels.
pub open spec fn svg_attribute_length(attrs: Seq<(Seq<char>, Seq<char>)>, name: Seq<char>, available: int) -> Option<
    int,
> {
    match attribute_spec(attrs, name) {
        Some(v) => svg_length_spec(v, available),
        None => None,
    }
}

/// The `viewBox` of an embedded SVG.
pub open spec fn svg_view_box(attrs: Seq<(Seq<char>, Seq<char>)>) -> Option<(int, int, int, int)> {
    match attribute_spec(attrs, "viewbox"@) {
        Some(v) => view_box_spec(v),
        None => None,
    }
}

/// The size an embedded SVG is drawn at in `available` pixels: its natural
/// size is its `width` and `height`, else its `viewBox` size, else the
/// available width and the default image height (at least the narrowest
/// layout width and `min_height`). A declared width or maximum width gives
/// the box width; the width stays within the available width, and the
/// height is the declared height, else the natural height scaled with the
/// width, at least `min_height`.
pub open spec fn embedded_svg_size_spec(
    attrs: Seq<(Seq<char>, Seq<char>)>,
    available: int,
    m: StyleModel,
    min_height: int,
) -> (int, int) {
    let view_box = svg_view_box(attrs);
    let natural_width = max_int(
        match svg_attribute_length(attrs, "width"@, available) {
            Some(w) => w,
            None => match view_box {
                Some((_, _, w, _)) => w,
                None => available,
            },
        },
        MIN_LAYOUT_WIDTH_MICROS as int,
    );
    let natural_height = max_int(
        match svg_attribute_length(attrs, "height"@, available) {
            Some(h) => h,
            None => match view_box {
                Some((_, _, _, h)) => h,
                None => DEFAULT_IMAGE_MAX_HEIGHT_MICROS as int,
            },
        },
        min_height,
    );
    let styled_width = if m.width is Some || m.max_width is Some {
        box_width_spec(m, available)
    } else {
        natural_width
    };
    let width = max_int(min_int(styled_width, available), MIN_LAYOUT_WIDTH_MICROS as int);
    let height = max_int(
        match m.height {
            Some(h) => h.val(),
            None => saturated(scaled(natural_height, width, natural_width)),
        },
        min_height,
    );
    (width, height)
}

/// The width and height an embedded SVG is drawn at in `available_width`
/// pixels, at least `min_height` high.
pub fn embedded_svg_size(
    attributes: &[(String, String)],
    available_width: CssNumber,
    style: &CssStyle,
    min_height: CssNumber,
) -> (r: (CssNumber, CssNumber))
    ensures
        (r.0.val(), r.1.val()) == embedded_svg_size_spec(
            attrs_view(attributes@),
            available_width.val(),
            style@,
            min_height.val(),
        ),
{
    let view_box = match attribute(attributes, "viewbox") {
        Some(v) => parse_view_box(v),
        None => None,
    };
    let declared_width = match attribute(attributes, "width") {
        Some(v) => parse_svg_length(v, available_width),
        None => None,
    };
    let declared_height = match attribute(attributes, "height") {
        Some(v) => parse_svg_length(v, available_width),
        None => None,
    };
    let natural_width = max_number(
        match declared_width {
            Some(w) => w,
            None => match view_box {
                Some((_, _, w, _)) => w,
                None => available_width,
            },
        },
        CssNumber { micros: MIN_LAYOUT_WIDTH_MICROS },
    );
    let natural_height = max_number(
        match declared_height {
            Some(h) => h,
            None => match view_box {
                Some((_, _, _, h)) => h,
                None => CssNumber { micros: DEFAULT_IMAGE_MAX_HEIGHT_MICROS },
            },
        },
        min_height,
    );
    let styled_width = if style.width.is_some() || style.max_width.is_some() {
        style.box_width(available_width)
    } else {
        natural_width
    };
    let width = max_number(min_number(styled_width, available_width), CssNumber { micros: MIN_LAYOUT_WIDTH_MICROS });
    let height = max_number(
        match style.height {
            Some(h) => h,
            None => saturating_mul_div(natural_height, width, natural_width.micros as u64),
        },
        min_height,
    );
    (width, height)
}

} // verus!
