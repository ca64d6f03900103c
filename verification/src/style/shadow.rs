//! `box-shadow`: the first outer shadow of the value.
use crate::number::{num, opt_val, CssNumber};
use crate::style::box_declaration::box_length_spec;
use crate::style::types::{copy_opt_shadow, opt_shadow, CssBoxShadow, CssStyle, ShadowModel, StyleModel};
use crate::text::{eq_ci, lower, str_lower_is, trim, trimmed_lower_is};
use crate::tokens::{css_value_components, split_once_spec, split_top_level_once, value_components, views};
use vstd::prelude::*;
use vstd::string::*;

verus! {

/// The first shadow of a list: the text before the first top-level comma.
pub open spec fn first_shadow_text(value: Seq<char>) -> Seq<char> {
    match split_once_spec(value, ',') {
        Some((first, _)) => first,
        None => value,
    }
}

/// The lengths and the other components of a shadow, in order.
pub open spec fn shadow_parts(m: StyleModel, comps: Seq<Seq<char>>) -> (Seq<int>, Seq<Seq<char>>)
    decreases comps.len(),
{
    if comps.len() == 0 {
        (Seq::empty(), Seq::empty())
    } else {
        let (lengths, others) = shadow_parts(m, comps.drop_last());
        match box_length_spec(m, comps.last(), true) {
            Some(x) => (lengths.push(x), others),
            None => (lengths, others.push(comps.last())),
        }
    }
}

/// Whether one of the components is `inset`.
pub open spec fn has_inset(comps: Seq<Seq<char>>) -> bool {
    exists|i: int| 0 <= i < comps.len() && eq_ci(#[trigger] comps[i], "inset"@)
}

/// The first outer shadow of a value: two to four lengths (offsets, a
/// non-negative blur radius and a spread radius, the last two zero by
/// default) and at most one other component, its color (the text color by
/// default); `None` for an inset shadow or anything else.
pub open spec fn shadow_spec(m: StyleModel, value: Seq<char>) -> Option<ShadowModel> {
    let comps = value_components(first_shadow_text(value));
    let (lengths, others) = shadow_parts(m, comps);
    if has_inset(comps) || others.len() > 1 || lengths.len() < 2 || lengths.len() > 4 {
        None
    } else {
        let blur = if lengths.len() > 2 { lengths[2] } else { 0 };
        let spread = if lengths.len() > 3 { lengths[3] } else { 0 };
        if blur < 0 {
            None
        } else {
            Some(ShadowModel {
                offset_x: num(lengths[0]),
                offset_y: num(lengths[1]),
                blur_radius: num(blur),
                spread_radius: num(spread),
                color: if others.len() == 1 { others[0] } else { m.color },
            })
        }
    }
}

/// `box-shadow`: `none` removes the shadow, an outer shadow replaces it;
/// anything else changes nothing.
#[verifier::opaque]
pub open spec fn box_shadow_model(m: StyleModel, value: Seq<char>) -> StyleModel {
    let box_shadow = if eq_ci(trim(value), "none"@) {
        None
    } else {
        match shadow_spec(m, value) {
            Some(s) => Some(s),
            None => m.box_shadow,
        }
    };
    StyleModel { box_shadow, ..m }
}

proof fn lemma_parts_step(m: StyleModel, c: Seq<Seq<char>>, i: int)
    requires
        0 <= i < c.len(),
    ensures
        shadow_parts(m, c.take(i + 1)) == ({
            let (lengths, others) = shadow_parts(m, c.take(i));
            match box_length_spec(m, c[i], true) {
                Some(x) => (lengths.push(x), others),
                None => (lengths, others.push(c[i])),
            }
        }),
{
    assert(c.take(i + 1).drop_last() =~= c.take(i));
    assert(c.take(i + 1).last() == c[i]);
}

impl CssStyle {
    /// The first outer shadow of `value` (see `shadow_spec`).
    pub fn parse_box_shadow(&self, value: &str) -> (r: Option<CssBoxShadow>)
        ensures
            opt_shadow(r) == shadow_spec(self@, value@),
    {
        let first = match split_top_level_once(value, ',') {
            Some((left, _)) => left,
            None => value,
        };
        let comps = css_value_components(first);
        let ghost c = views(comps@);
        let ghost m = self@;
        let mut lengths: Vec<CssNumber> = Vec::new();
        let mut others: Vec<&str> = Vec::new();
        let mut inset = false;
        let mut i: usize = 0;
        while i < comps.len()
            invariant
                c == views(comps@),
                c == value_components(first_shadow_text(value@)),
                m == self@,
                i <= comps@.len(),
                shadow_parts(m, c.take(i as int)) == (lengths@.map_values(|n: CssNumber| n.val()), views(others@)),
                inset == (exists|k: int| 0 <= k < i && eq_ci(#[trigger] c[k], "inset"@)),
            decreases comps@.len() - i,
        {
            proof {
                lemma_parts_step(m, c, i as int);
            }
            let comp = comps[i];
            if crate::text::str_eq_ignore_ascii_case(comp, "inset") {
                inset = true;
            }
            let ghost before_l = lengths@.map_values(|n: CssNumber| n.val());
            let ghost before_o = views(others@);
            match self.box_length_value(comp) {
                Some(x) => {
                    lengths.push(x);
                    proof {
                        assert(lengths@.map_values(|n: CssNumber| n.val()) =~= before_l.push(x.val()));
                    }
                },
                None => {
                    others.push(comp);
                    proof {
                        assert(views(others@) =~= before_o.push(comp@));
                    }
                },
            }
            proof {
                if !inset {
                    assert forall|k: int| 0 <= k < i + 1 implies !eq_ci(#[trigger] c[k], "inset"@) by {
                        if k == i {
                            assert(c[k] == comp@);
                        }
                    }
                }
            }
            i = i + 1;
        }
        proof {
            assert(c.take(c.len() as int) =~= c);
        }
        let n = lengths.len();
        if inset || others.len() > 1 || n < 2 || n > 4 {
            return None;
        }
        let blur = if n > 2 { lengths[2] } else { CssNumber { micros: 0 } };
        let spread = if n > 3 { lengths[3] } else { CssNumber { micros: 0 } };
        if blur.micros < 0 {
            return None;
        }
        let color = if others.len() == 1 { String::from_str(others[0]) } else { self.color.clone() };
        Some(CssBoxShadow { offset_x: lengths[0], offset_y: lengths[1], blur_radius: blur, spread_radius: spread, color })
    }

    fn box_length_value(&self, value: &str) -> (r: Option<CssNumber>)
        ensures
            opt_val(r) == box_length_spec(self@, value@, true),
    {
        self.box_length(value, true)
    }

    fn box_shadow_value(&self, value: &str) -> (r: Option<CssBoxShadow>)
        ensures
            opt_shadow(r) == (if eq_ci(trim(value@), "none"@) {
                None
            } else {
                match shadow_spec(self@, value@) {
                    Some(s) => Some(s),
                    None => self@.box_shadow,
                }
            }),
    {
        proof {
            reveal_strlit("none");
            assert(lower("none"@) =~= "none"@);
        }
        if trimmed_lower_is(value, "none") {
            return None;
        }
        match self.parse_box_shadow(value) {
            Some(s) => Some(s),
            None => copy_opt_shadow(&self.box_shadow),
        }
    }

    /// Applies `box-shadow`.
    pub fn apply_box_shadow(&mut self, value: &str)
        ensures
            final(self)@ == box_shadow_model(old(self)@, value@),
    {
        reveal(box_shadow_model);
        let shadow = self.box_shadow_value(value);
        self.box_shadow = shadow;
    }
}

} // verus!
