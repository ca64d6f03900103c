//! The `flex` shorthand and `flex-basis`.
use crate::number::{css_scalar, num, scalar_spec, CssNumber, MICROS_PER_UNIT};
use crate::style::types::{CssLength, CssStyle, StyleModel};
use crate::style::value::length_spec;
use crate::text::{chars_of, lower, str_lower_is, trim, trim_bounds, trimmed_lower_is};
use crate::tokens::{split_top_level_whitespace, top_level_whitespace_tokens, views};
use vstd::prelude::*;
use vstd::string::*;

verus! {

/// A flex basis length: a percentage or a length, resolved against the
/// style's font size and viewport.
pub open spec fn flex_length_spec(m: StyleModel, value: Seq<char>) -> Option<CssLength> {
    length_spec(value, m.font_size.val(), m.viewport_width.val(), m.viewport_height.val())
}

/// The basis that the flex shorthand starts from (`0%`).
pub open spec fn zero_percent() -> CssLength {
    CssLength::Percent(num(0))
}

/// Whether `t` is `auto` or `content` (exactly, in any ASCII case).
pub open spec fn content_basis_keyword(t: Seq<char>) -> bool {
    lower(t) == "auto"@ || lower(t) == "content"@
}

/// The shrink factor and basis after the tokens of the flex shorthand that
/// follow the grow factor: a number while the basis is still `0%` is the
/// shrink factor; `auto` or `content` clears the basis; anything else must
/// be a basis length (`None` otherwise).
pub open spec fn flex_rest(m: StyleModel, tokens: Seq<Seq<char>>, shrink: int, basis: Option<CssLength>) -> Option<(int, Option<CssLength>)>
    decreases tokens.len(),
{
    if tokens.len() == 0 {
        Some((shrink, basis))
    } else {
        let t = tokens[0];
        let rest = tokens.drop_first();
        if scalar_spec(t) is Some && basis == Some(zero_percent()) {
            flex_rest(m, rest, scalar_spec(t)->0, basis)
        } else if content_basis_keyword(t) {
            flex_rest(m, rest, shrink, None)
        } else {
            match flex_length_spec(m, t) {
                Some(l) => flex_rest(m, rest, shrink, Some(l)),
                None => None,
            }
        }
    }
}

/// `parse_flex_components`: the grow factor, then `flex_rest` from a shrink
/// factor of one and a basis of `0%`.
pub open spec fn flex_components_spec(m: StyleModel, value: Seq<char>) -> Option<(int, int, Option<CssLength>)> {
    let tokens = top_level_whitespace_tokens(value);
    if tokens.len() == 0 {
        None
    } else {
        match scalar_spec(tokens[0]) {
            Some(g) => match flex_rest(m, tokens.drop_first(), MICROS_PER_UNIT as int, Some(zero_percent())) {
                Some((s, b)) => Some((g, s, b)),
                None => None,
            },
            None => None,
        }
    }
}

/// The grow factor, shrink factor and basis after the `flex` shorthand:
/// `none`, `auto` and `initial` are keywords; anything else is parsed by
/// `flex_components_spec`; an invalid value changes nothing.
pub open spec fn flex_fields(m: StyleModel, value: Seq<char>) -> (CssNumber, CssNumber, Option<CssLength>) {
    let t = trim(value);
    let l = lower(t);
    let components = if l == "none"@ {
        Some((0, 0, None))
    } else if l == "auto"@ {
        Some((MICROS_PER_UNIT as int, MICROS_PER_UNIT as int, None))
    } else if l == "initial"@ {
        Some((0, MICROS_PER_UNIT as int, None))
    } else {
        flex_components_spec(m, t)
    };
    match components {
        Some((g, s, b)) => (num(g), num(s), b),
        None => (m.flex_grow, m.flex_shrink, m.flex_basis),
    }
}

/// `flex`.
#[verifier::opaque]
pub open spec fn flex_model(m: StyleModel, value: Seq<char>) -> StyleModel {
    let f = flex_fields(m, value);
    StyleModel { flex_grow: f.0, flex_shrink: f.1, flex_basis: f.2, ..m }
}

/// `flex-basis`: `auto` or `content` clears it, a length sets it; anything
/// else changes nothing.
#[verifier::opaque]
pub open spec fn flex_basis_model(m: StyleModel, value: Seq<char>) -> StyleModel {
    let l = lower(trim(value));
    let flex_basis = if l == "auto"@ || l == "content"@ {
        None
    } else {
        match flex_length_spec(m, value) {
            Some(b) => Some(b),
            None => m.flex_basis,
        }
    };
    StyleModel { flex_basis, ..m }
}

proof fn lemma_skip_step<T>(s: Seq<T>, i: int)
    requires
        0 <= i < s.len(),
    ensures
        s.skip(i).drop_first() == s.skip(i + 1),
        s.skip(i)[0] == s[i],
        s.skip(i).len() > 0,
{
    assert(s.skip(i).drop_first() =~= s.skip(i + 1));
}

fn is_zero_percent(b: Option<CssLength>) -> (r: bool)
    ensures
        r == (b == Some(zero_percent())),
{
    match b {
        Some(CssLength::Percent(p)) => p.micros == 0,
        _ => false,
    }
}

impl CssStyle {
    /// A flex basis length (`parse_flex_length`).
    pub fn parse_flex_length(&self, value: &str) -> (r: Option<CssLength>)
        ensures
            r == flex_length_spec(self@, value@),
    {
        CssLength::parse(value, self.font_size, self.viewport_width, self.viewport_height)
    }

    /// The grow factor, shrink factor and basis of the flex shorthand.
    pub fn parse_flex_components(&self, value: &str) -> (r: Option<(CssNumber, CssNumber, Option<CssLength>)>)
        ensures
            match r {
                Some((g, s, b)) => flex_components_spec(self@, value@) == Some((g.val(), s.val(), b)),
                None => flex_components_spec(self@, value@) is None,
            },
    {
        let tokens = split_top_level_whitespace(value);
        let ghost t = views(tokens@);
        let ghost m = self@;
        if tokens.len() == 0 {
            return None;
        }
        let grow = match css_scalar(tokens[0]) {
            Some(g) => g,
            None => return None,
        };
        let mut shrink = CssNumber { micros: MICROS_PER_UNIT };
        let mut basis = Some(CssLength::Percent(CssNumber { micros: 0 }));
        let mut i: usize = 1;
        proof {
            assert(t.skip(1) =~= t.drop_first());
        }
        while i < tokens.len()
            invariant
                t == views(tokens@),
                t == top_level_whitespace_tokens(value@),
                m == self@,
                1 <= i <= tokens@.len(),
                flex_rest(m, t.drop_first(), MICROS_PER_UNIT as int, Some(zero_percent()))
                    == flex_rest(m, t.skip(i as int), shrink.val(), basis),
            decreases tokens@.len() - i,
        {
            proof {
                lemma_skip_step(t, i as int);
            }
            let token = tokens[i];
            match css_scalar(token) {
                Some(number) => {
                    if is_zero_percent(basis) {
                        shrink = number;
                        i = i + 1;
                        continue;
                    }
                },
                None => {},
            }
            if str_lower_is(token, "auto") || str_lower_is(token, "content") {
                basis = None;
            } else {
                match self.parse_flex_length(token) {
                    Some(l) => {
                        basis = Some(l);
                    },
                    None => {
                        return None;
                    },
                }
            }
            i = i + 1;
        }
        proof {
            assert(t.skip(t.len() as int) =~= Seq::<Seq<char>>::empty());
        }
        Some((grow, shrink, basis))
    }

    fn flex_values(&self, value: &str) -> (r: (CssNumber, CssNumber, Option<CssLength>))
        ensures
            r == flex_fields(self@, value@),
    {
        let v = chars_of(value);
        let (a, b) = trim_bounds(&v, 0, v.len());
        proof {
            assert(v@.subrange(0, v@.len() as int) =~= value@);
        }
        let trimmed = value.substring_char(a, b);
        let components = if str_lower_is(trimmed, "none") {
            Some((CssNumber { micros: 0 }, CssNumber { micros: 0 }, None))
        } else if str_lower_is(trimmed, "auto") {
            Some((CssNumber { micros: MICROS_PER_UNIT }, CssNumber { micros: MICROS_PER_UNIT }, None))
        } else if str_lower_is(trimmed, "initial") {
            Some((CssNumber { micros: 0 }, CssNumber { micros: MICROS_PER_UNIT }, None))
        } else {
            self.parse_flex_components(trimmed)
        };
        match components {
            Some((g, s, basis)) => (g, s, basis),
            None => (self.flex_grow, self.flex_shrink, self.flex_basis),
        }
    }

    /// Applies the `flex` shorthand.
    pub fn apply_flex(&mut self, value: &str)
        ensures
            final(self)@ == flex_model(old(self)@, value@),
    {
        reveal(flex_model);
        let f = self.flex_values(value);
        self.flex_grow = f.0;
        self.flex_shrink = f.1;
        self.flex_basis = f.2;
    }

    /// Applies `flex-basis`.
    pub fn apply_flex_basis(&mut self, value: &str)
        ensures
            final(self)@ == flex_basis_model(old(self)@, value@),
    {
        reveal(flex_basis_model);
        let basis = if trimmed_lower_is(value, "auto") || trimmed_lower_is(value, "content") {
            None
        } else {
            match self.parse_flex_length(value) {
                Some(b) => Some(b),
                None => self.flex_basis,
            }
        };
        self.flex_basis = basis;
    }
}

} // verus!
