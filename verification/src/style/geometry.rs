//! The box model of a style: how declared widths and heights, padding and
//! borders add up to the outer size of a box.
use crate::length::min_int;
use crate::number::{min_number, saturate, saturated, saturating_mul_div, scaled, CssNumber, MICROS_PER_UNIT};
use crate::style::types::{CssBoxSizing, CssLength, CssStyle, StyleModel};
use vstd::prelude::*;

verus! {

/// A declared length in pixels against the space `available`: a percentage
/// is its fraction of that space.
pub open spec fn resolve_spec(l: CssLength, available: int) -> int {
    match l {
        CssLength::Px(v) => v.val(),
        CssLength::Percent(p) => saturated(scaled(available, p.val(), MICROS_PER_UNIT as int)),
    }
}

/// Left and right padding plus both vertical border widths.
pub open spec fn horizontal_non_content_spec(m: StyleModel) -> int {
    m.padding_left.val() + m.padding_right.val() + 2 * m.border_width.val()
}

/// Top and bottom padding plus both horizontal border widths.
pub open spec fn vertical_non_content_spec(m: StyleModel) -> int {
    m.padding_top.val() + m.padding_bottom.val() + 2 * m.border_width.val()
}

/// The outer (border-box) width of a box whose CSS width is `css_width`.
pub open spec fn outer_width_spec(m: StyleModel, css_width: int) -> int {
    match m.box_sizing {
        CssBoxSizing::ContentBox => saturated(css_width + horizontal_non_content_spec(m)),
        CssBoxSizing::BorderBox => css_width,
    }
}

/// The outer (border-box) height of a box whose CSS height is `css_height`.
pub open spec fn outer_height_spec(m: StyleModel, css_height: int) -> int {
    match m.box_sizing {
        CssBoxSizing::ContentBox => saturated(css_height + vertical_non_content_spec(m)),
        CssBoxSizing::BorderBox => css_height,
    }
}

/// The content width inside an outer width, never negative.
pub open spec fn content_width_spec(m: StyleModel, outer: int) -> int {
    let inner = outer - horizontal_non_content_spec(m);
    saturated(if inner >= 0 { inner } else { 0 })
}

/// The content height inside an outer height, never negative.
pub open spec fn content_height_spec(m: StyleModel, outer: int) -> int {
    let inner = outer - vertical_non_content_spec(m);
    saturated(if inner >= 0 { inner } else { 0 })
}

/// The declared width as an outer width, held under the declared maximum.
pub open spec fn explicit_width_spec(m: StyleModel, available: int) -> Option<int> {
    match m.width {
        None => None,
        Some(w) => {
            let resolved = outer_width_spec(m, resolve_spec(w, available));
            match m.max_width {
                None => Some(resolved),
                Some(mx) => Some(min_int(resolved, outer_width_spec(m, resolve_spec(mx, available)))),
            }
        },
    }
}

/// The outer width of the box in `available` space: the explicit width, or
/// all of the space, held under the declared maximum.
pub open spec fn box_width_spec(m: StyleModel, available: int) -> int {
    let width = match explicit_width_spec(m, available) {
        Some(w) => w,
        None => available,
    };
    match m.max_width {
        None => width,
        Some(mx) => min_int(width, outer_width_spec(m, resolve_spec(mx, available))),
    }
}

/// The CSS width whose outer width is `outer`.
pub open spec fn assigned_width_spec(m: StyleModel, outer: int) -> int {
    match m.box_sizing {
        CssBoxSizing::ContentBox => content_width_spec(m, outer),
        CssBoxSizing::BorderBox => outer,
    }
}

/// The style once the flow has given the box the outer width `outer`: that
/// width is declared, and the minimum and maximum widths no longer apply.
pub open spec fn assigned_outer_width_model(m: StyleModel, outer: int) -> StyleModel {
    StyleModel {
        width: Some(CssLength::Px(CssNumber { micros: assigned_width_spec(m, outer) as i64 })),
        min_width: None,
        max_width: None,
        ..m
    }
}

impl CssLength {
    /// The length in pixels against the space `available`.
    pub fn resolve(&self, available: CssNumber) -> (r: CssNumber)
        ensures
            r.val() == resolve_spec(*self, available.val()),
    {
        match self {
            CssLength::Px(v) => *v,
            CssLength::Percent(p) => saturating_mul_div(available, *p, MICROS_PER_UNIT as u64),
        }
    }
}

impl CssStyle {
    fn horizontal_non_content(&self) -> (r: i128)
        ensures
            r == horizontal_non_content_spec(self@),
    {
        self.padding_left.micros as i128 + self.padding_right.micros as i128 + 2 * (self.border_width.micros as i128)
    }

    fn vertical_non_content(&self) -> (r: i128)
        ensures
            r == vertical_non_content_spec(self@),
    {
        self.padding_top.micros as i128 + self.padding_bottom.micros as i128 + 2 * (self.border_width.micros as i128)
    }

    /// The outer width of a box whose CSS width is `css_width`.
    pub fn outer_width(&self, css_width: CssNumber) -> (r: CssNumber)
        ensures
            r.val() == outer_width_spec(self@, css_width.val()),
    {
        match self.box_sizing {
            CssBoxSizing::ContentBox => saturate(css_width.micros as i128 + self.horizontal_non_content()),
            CssBoxSizing::BorderBox => css_width,
        }
    }

    /// The outer height of a box whose CSS height is `css_height`.
    pub fn outer_height(&self, css_height: CssNumber) -> (r: CssNumber)
        ensures
            r.val() == outer_height_spec(self@, css_height.val()),
    {
        match self.box_sizing {
            CssBoxSizing::ContentBox => saturate(css_height.micros as i128 + self.vertical_non_content()),
            CssBoxSizing::BorderBox => css_height,
        }
    }

    /// The outer height that the box's minimum height gives.
    pub fn minimum_outer_height(&self) -> (r: CssNumber)
        ensures
            r.val() == outer_height_spec(self@, self@.min_height.val()),
    {
        self.outer_height(self.min_height)
    }

    /// The content width inside the outer width `outer_width`.
    pub fn content_width(&self, outer_width: CssNumber) -> (r: CssNumber)
        ensures
            r.val() == content_width_spec(self@, outer_width.val()),
    {
        let inner: i128 = outer_width.micros as i128 - self.horizontal_non_content();
        if inner >= 0 {
            saturate(inner)
        } else {
            saturate(0)
        }
    }

    /// The content height inside the outer height `outer_height`.
    pub fn content_height(&self, outer_height: CssNumber) -> (r: CssNumber)
        ensures
            r.val() == content_height_spec(self@, outer_height.val()),
    {
        let inner: i128 = outer_height.micros as i128 - self.vertical_non_content();
        if inner >= 0 {
            saturate(inner)
        } else {
            saturate(0)
        }
    }

    /// The declared width as an outer width in `available` space, held under
    /// the declared maximum; `None` without a declared width.
    pub fn explicit_width(&self, available: CssNumber) -> (r: Option<CssNumber>)
        ensures
            match r {
                Some(x) => explicit_width_spec(self@, available.val()) == Some(x.val()),
                None => explicit_width_spec(self@, available.val()) is None,
            },
    {
        match self.width {
            None => None,
            Some(width) => {
                let resolved = self.outer_width(width.resolve(available));
                match self.max_width {
                    None => Some(resolved),
                    Some(maximum) => Some(min_number(resolved, self.outer_width(maximum.resolve(available)))),
                }
            },
        }
    }

    /// The outer width of the box in `available` space.
    pub fn box_width(&self, available: CssNumber) -> (r: CssNumber)
        ensures
            r.val() == box_width_spec(self@, available.val()),
    {
        let width = match self.explicit_width(available) {
            Some(w) => w,
            None => available,
        };
        match self.max_width {
            None => width,
            Some(maximum) => min_number(width, self.outer_width(maximum.resolve(available))),
        }
    }

    /// Declares the outer width that the flow assigned to the box, and drops
    /// the minimum and maximum widths.
    pub fn assign_outer_width(&mut self, outer: CssNumber)
        ensures
            final(self)@ == assigned_outer_width_model(old(self)@, outer.val()),
    {
        let css_width = match self.box_sizing {
            CssBoxSizing::ContentBox => self.content_width(outer),
            CssBoxSizing::BorderBox => outer,
        };
        self.width = Some(CssLength::Px(css_width));
        self.min_width = None;
        self.max_width = None;
    }
}

} // verus!
