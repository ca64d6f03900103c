//! Border declarations: the `border` shorthand, border colors and the
//! per-edge overrides of width and color.
use crate::document::{border_color, border_color_spec};
use crate::number::{num, opt_val, CssNumber};
use crate::style::types::{copy_opt_string, opt_str, CssStyle, StyleModel};
use crate::style::value::{css_px, px_spec};
use crate::text::{
    chars_of, eq_ci, lower, lowered_range, range_ends_with, range_starts_with, starts_with, str_is,
    strip_prefix, strip_suffix, trim, trimmed_lower_is,
};
use crate::tokens::{split_whitespace, views, whitespace_tokens};
use vstd::prelude::*;
use vstd::string::*;

verus! {

/// The four per-edge width overrides after setting the edge named `side`
/// (`top`, `right`, `bottom` or `left`) to `w`; any other name changes nothing.
pub open spec fn side_widths_with(m: StyleModel, side: Seq<char>, w: CssNumber) -> (
    Option<CssNumber>,
    Option<CssNumber>,
    Option<CssNumber>,
    Option<CssNumber>,
) {
    (
        if side == "top"@ { Some(w) } else { m.border_top_width },
        if side == "right"@ { Some(w) } else { m.border_right_width },
        if side == "bottom"@ { Some(w) } else { m.border_bottom_width },
        if side == "left"@ { Some(w) } else { m.border_left_width },
    )
}

/// The style after setting the width override of the edge named `side`.
#[verifier::opaque]
pub open spec fn set_side_width_model(m: StyleModel, side: Seq<char>, w: CssNumber) -> StyleModel {
    let f = side_widths_with(m, side, w);
    StyleModel {
        border_top_width: f.0,
        border_right_width: f.1,
        border_bottom_width: f.2,
        border_left_width: f.3,
        ..m
    }
}

/// The first whitespace-separated token that is a pixel length.
pub open spec fn first_px(tokens: Seq<Seq<char>>) -> Option<int>
    decreases tokens.len(),
{
    if tokens.len() == 0 {
        None
    } else {
        match px_spec(tokens[0]) {
            Some(x) => Some(x),
            None => first_px(tokens.drop_first()),
        }
    }
}

/// The style without any per-edge width or color override.
#[verifier::opaque]
pub open spec fn clear_overrides_model(m: StyleModel) -> StyleModel {
    StyleModel {
        border_top_width: None,
        border_right_width: None,
        border_bottom_width: None,
        border_left_width: None,
        border_top_color: None,
        border_right_color: None,
        border_bottom_color: None,
        border_left_color: None,
        ..m
    }
}

/// The width a border declaration gives: `none` gives zero; otherwise the
/// first pixel length, else one pixel where the border has a color, else
/// `current`.
pub open spec fn declared_border_width(value: Seq<char>, has_color: bool, current: CssNumber) -> CssNumber {
    if eq_ci(trim(value), "none"@) {
        num(0)
    } else {
        match first_px(whitespace_tokens(value)) {
            Some(x) => num(x),
            None => if has_color {
                num(1_000_000)
            } else {
                current
            },
        }
    }
}

/// The border color and width after the `border` shorthand.
pub open spec fn border_fields(m: StyleModel, value: Seq<char>) -> (Option<Seq<char>>, CssNumber) {
    if eq_ci(trim(value), "none"@) {
        (None, num(0))
    } else {
        let b = match border_color_spec(value) {
            Some(c) => Some(c),
            None => m.border,
        };
        (b, declared_border_width(value, b is Some, m.border_width))
    }
}

/// `border`: clears every edge override, then `none` removes the border;
/// otherwise the value's color (or the current one) and width.
#[verifier::opaque]
pub open spec fn border_model(m: StyleModel, value: Seq<char>) -> StyleModel {
    let f = border_fields(m, value);
    StyleModel { border: f.0, border_width: f.1, ..clear_overrides_model(m) }
}

/// The border color and edge colors after `border-color`.
pub open spec fn border_color_fields(m: StyleModel, value: Seq<char>) -> (
    Option<Seq<char>>,
    Option<Seq<char>>,
    Option<Seq<char>>,
    Option<Seq<char>>,
    Option<Seq<char>>,
) {
    match border_color_spec(value) {
        Some(c) => (Some(c), None, None, None, None),
        None => (m.border, m.border_top_color, m.border_right_color, m.border_bottom_color, m.border_left_color),
    }
}

/// `border-color`: a color replaces the border color and clears the edge
/// colors; anything else changes nothing.
#[verifier::opaque]
pub open spec fn border_color_model(m: StyleModel, value: Seq<char>) -> StyleModel {
    let f = border_color_fields(m, value);
    StyleModel {
        border: f.0,
        border_top_color: f.1,
        border_right_color: f.2,
        border_bottom_color: f.3,
        border_left_color: f.4,
        ..m
    }
}

/// The width of the edge named `side`: its override, else the border width.
pub open spec fn side_width_of(m: StyleModel, side: Seq<char>) -> CssNumber {
    let o = if side == "top"@ {
        m.border_top_width
    } else if side == "right"@ {
        m.border_right_width
    } else if side == "bottom"@ {
        m.border_bottom_width
    } else if side == "left"@ {
        m.border_left_width
    } else {
        None
    };
    match o {
        Some(w) => w,
        None => m.border_width,
    }
}

/// The four per-edge color overrides after setting the edge named `side`.
pub open spec fn side_colors_with(m: StyleModel, side: Seq<char>, c: Seq<char>) -> (
    Option<Seq<char>>,
    Option<Seq<char>>,
    Option<Seq<char>>,
    Option<Seq<char>>,
) {
    (
        if side == "top"@ { Some(c) } else { m.border_top_color },
        if side == "right"@ { Some(c) } else { m.border_right_color },
        if side == "bottom"@ { Some(c) } else { m.border_bottom_color },
        if side == "left"@ { Some(c) } else { m.border_left_color },
    )
}

/// The style after setting the color override of the edge named `side`.
#[verifier::opaque]
pub open spec fn set_side_color_model(m: StyleModel, side: Seq<char>, c: Seq<char>) -> StyleModel {
    let f = side_colors_with(m, side, c);
    StyleModel {
        border_top_color: f.0,
        border_right_color: f.1,
        border_bottom_color: f.2,
        border_left_color: f.3,
        ..m
    }
}

/// `border-<edge>` (the name in any ASCII case): the edge's width as the
/// shorthand would give it, starting from the edge's current width, and its
/// color where the value has one.
#[verifier::opaque]
pub open spec fn border_side_model(m: StyleModel, name: Seq<char>, value: Seq<char>) -> StyleModel {
    match strip_prefix(lower(name), "border-"@) {
        None => m,
        Some(side) => {
            let color = border_color_spec(value);
            let width = declared_border_width(value, color is Some, side_width_of(m, side));
            let m1 = set_side_width_model(m, side, width);
            match color {
                Some(c) => set_side_color_model(m1, side, c),
                None => m1,
            }
        },
    }
}

/// The edge named by `border-<edge>-color`.
pub open spec fn color_name_side(name: Seq<char>) -> Option<Seq<char>> {
    match strip_prefix(name, "border-"@) {
        Some(rest) => strip_suffix(rest, "-color"@),
        None => None,
    }
}

/// `border-<edge>-color` (the name in any ASCII case): a color for that edge.
#[verifier::opaque]
pub open spec fn border_side_color_model(m: StyleModel, name: Seq<char>, value: Seq<char>) -> StyleModel {
    match (border_color_spec(value), color_name_side(lower(name))) {
        (Some(c), Some(side)) => set_side_color_model(m, side, c),
        _ => m,
    }
}

proof fn lemma_skip_step<T>(s: Seq<T>, i: int)
    requires
        0 <= i < s.len(),
    ensures
        s.skip(i).drop_first() == s.skip(i + 1),
        s.skip(i)[0] == s[i],
        s.skip(i).len() > 0,
{
    assert(s.skip(i).drop_first() =~= s.skip(i + 1));
}

/// The first whitespace-separated token of `value` that is a pixel length.
fn first_px_of(value: &str) -> (r: Option<CssNumber>)
    ensures
        opt_val(r) == first_px(whitespace_tokens(value@)),
{
    let tokens = split_whitespace(value);
    let ghost t = views(tokens@);
    proof {
        assert(t.skip(0) =~= t);
    }
    let mut i: usize = 0;
    while i < tokens.len()
        invariant
            t == views(tokens@),
            t == whitespace_tokens(value@),
            i <= tokens@.len(),
            first_px(t) == first_px(t.skip(i as int)),
        decreases tokens@.len() - i,
    {
        proof {
            lemma_skip_step(t, i as int);
        }
        match css_px(tokens[i]) {
            Some(w) => {
                return Some(w);
            },
            None => {},
        }
        i = i + 1;
    }
    proof {
        assert(t.skip(t.len() as int) =~= Seq::<Seq<char>>::empty());
    }
    None
}

/// The width a border declaration gives (see `declared_border_width`).
fn declared_width(value: &str, has_color: bool, current: CssNumber) -> (r: CssNumber)
    ensures
        r == declared_border_width(value@, has_color, current),
{
    proof {
        reveal_strlit("none");
        assert(lower("none"@) =~= "none"@);
    }
    if trimmed_lower_is(value, "none") {
        return CssNumber { micros: 0 };
    }
    match first_px_of(value) {
        Some(w) => w,
        None => if has_color {
            CssNumber { micros: 1_000_000 }
        } else {
            current
        },
    }
}

impl CssStyle {
    fn side_widths_values(&self, side: &str, width: CssNumber) -> (r: (
        Option<CssNumber>,
        Option<CssNumber>,
        Option<CssNumber>,
        Option<CssNumber>,
    ))
        ensures
            r == side_widths_with(self@, side@, width),
    {
        (
            if str_is(side, "top") { Some(width) } else { self.border_top_width },
            if str_is(side, "right") { Some(width) } else { self.border_right_width },
            if str_is(side, "bottom") { Some(width) } else { self.border_bottom_width },
            if str_is(side, "left") { Some(width) } else { self.border_left_width },
        )
    }

    /// Sets the width override of the edge named `side`.
    pub fn set_border_side_width(&mut self, side: &str, width: CssNumber)
        ensures
            final(self)@ == set_side_width_model(old(self)@, side@, width),
    {
        reveal(set_side_width_model);
        let f = self.side_widths_values(side, width);
        self.border_top_width = f.0;
        self.border_right_width = f.1;
        self.border_bottom_width = f.2;
        self.border_left_width = f.3;
    }
}


impl CssStyle {
    /// Removes every per-edge width and color override.
    pub fn clear_border_edge_overrides(&mut self)
        ensures
            final(self)@ == clear_overrides_model(old(self)@),
    {
        reveal(clear_overrides_model);
        self.border_top_width = None;
        self.border_right_width = None;
        self.border_bottom_width = None;
        self.border_left_width = None;
        self.border_top_color = None;
        self.border_right_color = None;
        self.border_bottom_color = None;
        self.border_left_color = None;
    }

    fn border_values(&self, value: &str) -> (r: (Option<String>, CssNumber))
        ensures
            opt_str(r.0) == border_fields(self@, value@).0,
            r.1 == border_fields(self@, value@).1,
    {
        proof {
            reveal_strlit("none");
            assert(lower("none"@) =~= "none"@);
        }
        if trimmed_lower_is(value, "none") {
            return (None, CssNumber { micros: 0 });
        }
        let b = match border_color(value) {
            Some(c) => Some(c),
            None => copy_opt_string(&self.border),
        };
        let w = declared_width(value, b.is_some(), self.border_width);
        (b, w)
    }

    /// Applies the `border` shorthand.
    pub fn apply_border(&mut self, value: &str)
        ensures
            final(self)@ == border_model(old(self)@, value@),
    {
        reveal(border_model);
        reveal(clear_overrides_model);
        let f = self.border_values(value);
        self.clear_border_edge_overrides();
        self.border = f.0;
        self.border_width = f.1;
    }

    fn border_color_values(&self, value: &str) -> (r: (
        Option<String>,
        Option<String>,
        Option<String>,
        Option<String>,
        Option<String>,
    ))
        ensures
            opt_str(r.0) == border_color_fields(self@, value@).0,
            opt_str(r.1) == border_color_fields(self@, value@).1,
            opt_str(r.2) == border_color_fields(self@, value@).2,
            opt_str(r.3) == border_color_fields(self@, value@).3,
            opt_str(r.4) == border_color_fields(self@, value@).4,
    {
        match border_color(value) {
            Some(c) => (Some(c), None, None, None, None),
            None => (
                copy_opt_string(&self.border),
                copy_opt_string(&self.border_top_color),
                copy_opt_string(&self.border_right_color),
                copy_opt_string(&self.border_bottom_color),
                copy_opt_string(&self.border_left_color),
            ),
        }
    }

    /// Applies `border-color`.
    pub fn apply_border_color(&mut self, value: &str)
        ensures
            final(self)@ == border_color_model(old(self)@, value@),
    {
        reveal(border_color_model);
        let f = self.border_color_values(value);
        self.border = f.0;
        self.border_top_color = f.1;
        self.border_right_color = f.2;
        self.border_bottom_color = f.3;
        self.border_left_color = f.4;
    }

    /// The width of the edge named `side`: its override, else the border width.
    pub fn border_side_width(&self, side: &str) -> (r: CssNumber)
        ensures
            r == side_width_of(self@, side@),
    {
        let o = if str_is(side, "top") {
            self.border_top_width
        } else if str_is(side, "right") {
            self.border_right_width
        } else if str_is(side, "bottom") {
            self.border_bottom_width
        } else if str_is(side, "left") {
            self.border_left_width
        } else {
            None
        };
        match o {
            Some(w) => w,
            None => self.border_width,
        }
    }

    fn side_colors_values(&self, side: &str, color: &String) -> (r: (
        Option<String>,
        Option<String>,
        Option<String>,
        Option<String>,
    ))
        ensures
            opt_str(r.0) == side_colors_with(self@, side@, color@).0,
            opt_str(r.1) == side_colors_with(self@, side@, color@).1,
            opt_str(r.2) == side_colors_with(self@, side@, color@).2,
            opt_str(r.3) == side_colors_with(self@, side@, color@).3,
    {
        (
            if str_is(side, "top") { Some(color.clone()) } else { copy_opt_string(&self.border_top_color) },
            if str_is(side, "right") { Some(color.clone()) } else { copy_opt_string(&self.border_right_color) },
            if str_is(side, "bottom") { Some(color.clone()) } else { copy_opt_string(&self.border_bottom_color) },
            if str_is(side, "left") { Some(color.clone()) } else { copy_opt_string(&self.border_left_color) },
        )
    }

    /// Sets the color override of the edge named `side`.
    pub fn set_border_side_color(&mut self, side: &str, color: String)
        ensures
            final(self)@ == set_side_color_model(old(self)@, side@, color@),
    {
        reveal(set_side_color_model);
        let f = self.side_colors_values(side, &color);
        self.border_top_color = f.0;
        self.border_right_color = f.1;
        self.border_bottom_color = f.2;
        self.border_left_color = f.3;
    }

    /// Applies `border-top`, `border-right`, `border-bottom` or `border-left`.
    pub fn apply_border_side(&mut self, name: &str, value: &str)
        ensures
            final(self)@ == border_side_model(old(self)@, name@, value@),
    {
        reveal(border_side_model);
        let v = chars_of(name);
        let n = v.len();
        let lowered = lowered_range(&v, 0, n);
        let lv = chars_of(lowered.as_str());
        proof {
            assert(v@.subrange(0, n as int) =~= name@);
            assert(lv@.subrange(0, n as int) =~= lv@);
            reveal_strlit("border-");
        }
        if !range_starts_with(&lv, 0, n, "border-") {
            return;
        }
        let side = lowered.as_str().substring_char(7, n);
        proof {
            assert(lv@.subrange(7, n as int) =~= side@);
        }
        let color = border_color(value);
        let current = self.border_side_width(side);
        let width = declared_width(value, color.is_some(), current);
        self.set_border_side_width(side, width);
        match color {
            Some(c) => {
                self.set_border_side_color(side, c);
            },
            None => {},
        }
    }

    /// Applies `border-<edge>-color`.
    pub fn apply_border_side_color(&mut self, name: &str, value: &str)
        ensures
            final(self)@ == border_side_color_model(old(self)@, name@, value@),
    {
        reveal(border_side_color_model);
        let color = match border_color(value) {
            Some(c) => c,
            None => return,
        };
        let v = chars_of(name);
        let n = v.len();
        let lowered = lowered_range(&v, 0, n);
        let lv = chars_of(lowered.as_str());
        proof {
            assert(v@.subrange(0, n as int) =~= name@);
            assert(lv@.subrange(0, n as int) =~= lv@);
            reveal_strlit("border-");
            reveal_strlit("-color");
        }
        if n >= 7 && range_starts_with(&lv, 0, n, "border-") && range_ends_with(&lv, 7, n, "-color") {
            proof {
                let s = lv@;
                assert(s.subrange(7, n as int).subrange(0, n - 7 - 6) =~= s.subrange(7, n - 6));
            }
            let side = lowered.as_str().substring_char(7, n - 6);
            self.set_border_side_color(side, color);
        } else {
            proof {
                let s = lv@;
                if n >= 7 && starts_with(s, "border-"@) {
                    assert(s.subrange(7, n as int) =~= lv@.subrange(7, n as int));
                }
            }
        }
    }
}

} // verus!
