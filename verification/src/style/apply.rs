//! Applying one declaration to a style: the dispatch on the property name.
use crate::number::{css_scalar, num_or, scalar_spec, CssNumber};
use crate::style::border::{border_color_model, border_model, border_side_color_model, border_side_model};
use crate::style::box_declaration::{box_name, box_property_model};
use crate::style::declaration::{
    background_model, color_model, display_model, line_height_model, list_style_model, opacity_model,
    position_model, z_index_model,
};
use crate::style::flex::{flex_basis_model, flex_model};
use crate::style::grid::{grid_tracks, grid_tracks_spec};
use crate::style::keywords::{
    align_content_of, align_items_of, parse_align_items, parse_flex_direction, parse_flex_wrap,
    parse_justify_content, taffy_align_content, taffy_align_items, taffy_flex_direction, taffy_flex_wrap,
};
use crate::style::shadow::box_shadow_model;
use crate::style::types::{copy_tracks, CssStyle, StyleModel};
use crate::style::typography::{or_else, typography_model, typography_name};
use crate::style::value::{css_px, px_spec};
use crate::text::{chars_of, lower, lowered_range, str_is};
use vstd::prelude::*;

verus! {

/// `gap`: a non-negative pixel length; anything else changes nothing.
#[verifier::opaque]
pub open spec fn gap_model(m: StyleModel, value: Seq<char>) -> StyleModel {
    StyleModel { gap: num_or(px_spec(value), m.gap), ..m }
}

/// `flex-direction`, as the layout engine parses it.
#[verifier::opaque]
pub open spec fn flex_direction_model(m: StyleModel, value: Seq<char>) -> StyleModel {
    StyleModel { flex_direction: or_else(taffy_flex_direction(value), m.flex_direction), ..m }
}

/// `flex-wrap`, as the layout engine parses it.
#[verifier::opaque]
pub open spec fn flex_wrap_model(m: StyleModel, value: Seq<char>) -> StyleModel {
    StyleModel { flex_wrap: or_else(taffy_flex_wrap(value), m.flex_wrap), ..m }
}

/// `flex-grow`: a finite number.
#[verifier::opaque]
pub open spec fn flex_grow_model(m: StyleModel, value: Seq<char>) -> StyleModel {
    StyleModel { flex_grow: num_or(scalar_spec(value), m.flex_grow), ..m }
}

/// `flex-shrink`: a finite number.
#[verifier::opaque]
pub open spec fn flex_shrink_model(m: StyleModel, value: Seq<char>) -> StyleModel {
    StyleModel { flex_shrink: num_or(scalar_spec(value), m.flex_shrink), ..m }
}

/// `align-items`, as the layout engine parses it.
#[verifier::opaque]
pub open spec fn align_items_model(m: StyleModel, value: Seq<char>) -> StyleModel {
    let align_items = match align_items_of(taffy_align_items(value)) {
        Some(a) => Some(a),
        None => m.align_items,
    };
    StyleModel { align_items, ..m }
}

/// `justify-content`, as the layout engine parses it.
#[verifier::opaque]
pub open spec fn justify_content_model(m: StyleModel, value: Seq<char>) -> StyleModel {
    let justify_content = match align_content_of(taffy_align_content(value)) {
        Some(a) => Some(a),
        None => m.justify_content,
    };
    StyleModel { justify_content, ..m }
}

/// `grid-template-columns`, with `em` relative to the font size; an invalid
/// value keeps the current template.
#[verifier::opaque]
pub open spec fn grid_columns_model(m: StyleModel, value: Seq<char>) -> StyleModel {
    let tracks = match grid_tracks_spec(value, m.font_size.val()) {
        Some(t) => t,
        None => m.grid_template_columns,
    };
    StyleModel { grid_template_columns: tracks, ..m }
}

/// `apply_layout_or_font`: box-model and text declarations first, then the
/// line height and the flex and grid layout properties; any other name
/// changes nothing.
#[verifier::opaque]
pub open spec fn layout_or_font_model(m: StyleModel, name: Seq<char>, value: Seq<char>) -> StyleModel {
    let n = lower(name);
    if box_name(n) {
        box_property_model(m, n, value)
    } else if typography_name(n) {
        typography_model(m, n, value)
    } else if n == "line-height"@ {
        line_height_model(m, value)
    } else if n == "gap"@ {
        gap_model(m, value)
    } else if n == "flex-direction"@ {
        flex_direction_model(m, value)
    } else if n == "flex-wrap"@ {
        flex_wrap_model(m, value)
    } else if n == "flex-grow"@ {
        flex_grow_model(m, value)
    } else if n == "flex-shrink"@ {
        flex_shrink_model(m, value)
    } else if n == "flex-basis"@ {
        flex_basis_model(m, value)
    } else if n == "flex"@ {
        flex_model(m, value)
    } else if n == "align-items"@ {
        align_items_model(m, value)
    } else if n == "justify-content"@ {
        justify_content_model(m, value)
    } else if n == "grid-template-columns"@ {
        grid_columns_model(m, value)
    } else {
        m
    }
}

/// The per-edge border shorthands.
pub open spec fn border_side_name(n: Seq<char>) -> bool {
    n == "border-top"@ || n == "border-right"@ || n == "border-bottom"@ || n == "border-left"@
}

/// The per-edge border colors.
pub open spec fn border_side_color_name(n: Seq<char>) -> bool {
    n == "border-top-color"@ || n == "border-right-color"@ || n == "border-bottom-color"@
        || n == "border-left-color"@
}

/// The property names (in lower case) that `apply` acts on.
pub open spec fn known_property(n: Seq<char>) -> bool {
    n == "display"@ || n == "color"@ || n == "background"@ || n == "background-color"@
        || n == "box-shadow"@ || n == "opacity"@ || n == "border"@ || n == "border-color"@
        || border_side_name(n) || border_side_color_name(n) || n == "position"@ || n == "z-index"@
        || n == "list-style"@ || n == "list-style-type"@ || box_name(n) || typography_name(n)
        || n == "line-height"@ || n == "gap"@ || n == "flex-direction"@ || n == "flex-wrap"@
        || n == "flex-grow"@ || n == "flex-shrink"@ || n == "flex-basis"@ || n == "flex"@
        || n == "align-items"@ || n == "justify-content"@ || n == "grid-template-columns"@
}

/// `apply`: one declaration, its name matched in any ASCII case.
#[verifier::opaque]
pub open spec fn apply_model(m: StyleModel, name: Seq<char>, value: Seq<char>) -> StyleModel {
    let n = lower(name);
    if n == "display"@ {
        display_model(m, value)
    } else if n == "color"@ {
        color_model(m, value)
    } else if n == "background"@ || n == "background-color"@ {
        background_model(m, value)
    } else if n == "box-shadow"@ {
        box_shadow_model(m, value)
    } else if n == "opacity"@ {
        opacity_model(m, value)
    } else if n == "border"@ {
        border_model(m, value)
    } else if n == "border-color"@ {
        border_color_model(m, value)
    } else if border_side_name(n) {
        border_side_model(m, name, value)
    } else if border_side_color_name(n) {
        border_side_color_model(m, name, value)
    } else if n == "position"@ {
        position_model(m, value)
    } else if n == "z-index"@ {
        z_index_model(m, value)
    } else if n == "list-style"@ || n == "list-style-type"@ {
        list_style_model(m, value)
    } else {
        layout_or_font_model(m, name, value)
    }
}

impl CssStyle {
    fn set_gap(&mut self, value: &str)
        ensures
            final(self)@ == gap_model(old(self)@, value@),
    {
        reveal(gap_model);
        let gap = match css_px(value) {
            Some(g) => g,
            None => self.gap,
        };
        self.gap = gap;
    }

    fn set_flex_direction(&mut self, value: &str)
        ensures
            final(self)@ == flex_direction_model(old(self)@, value@),
    {
        reveal(flex_direction_model);
        let direction = match parse_flex_direction(value) {
            Some(d) => d,
            None => self.flex_direction,
        };
        self.flex_direction = direction;
    }

    fn set_flex_wrap(&mut self, value: &str)
        ensures
            final(self)@ == flex_wrap_model(old(self)@, value@),
    {
        reveal(flex_wrap_model);
        let wrap = match parse_flex_wrap(value) {
            Some(w) => w,
            None => self.flex_wrap,
        };
        self.flex_wrap = wrap;
    }

    fn set_flex_grow(&mut self, value: &str)
        ensures
            final(self)@ == flex_grow_model(old(self)@, value@),
    {
        reveal(flex_grow_model);
        let grow = match css_scalar(value) {
            Some(g) => g,
            None => self.flex_grow,
        };
        self.flex_grow = grow;
    }

    fn set_flex_shrink(&mut self, value: &str)
        ensures
            final(self)@ == flex_shrink_model(old(self)@, value@),
    {
        reveal(flex_shrink_model);
        let shrink = match css_scalar(value) {
            Some(s) => s,
            None => self.flex_shrink,
        };
        self.flex_shrink = shrink;
    }

    fn set_align_items(&mut self, value: &str)
        ensures
            final(self)@ == align_items_model(old(self)@, value@),
    {
        reveal(align_items_model);
        let align = match parse_align_items(value) {
            Some(a) => Some(a),
            None => self.align_items,
        };
        self.align_items = align;
    }

    fn set_justify_content(&mut self, value: &str)
        ensures
            final(self)@ == justify_content_model(old(self)@, value@),
    {
        reveal(justify_content_model);
        let justify = match parse_justify_content(value) {
            Some(a) => Some(a),
            None => self.justify_content,
        };
        self.justify_content = justify;
    }

    fn set_grid_columns(&mut self, value: &str)
        ensures
            final(self)@ == grid_columns_model(old(self)@, value@),
    {
        reveal(grid_columns_model);
        let tracks = match grid_tracks(value, self.font_size) {
            Some(t) => t,
            None => copy_tracks(&self.grid_template_columns),
        };
        self.grid_template_columns = tracks;
    }

    /// Applies a box-model, text, line-height, flex or grid declaration.
    pub fn apply_layout_or_font(&mut self, name: &str, value: &str)
        ensures
            final(self)@ == layout_or_font_model(old(self)@, name@, value@),
    {
        reveal(layout_or_font_model);
        let v = chars_of(name);
        let lowered = lowered_range(&v, 0, v.len());
        proof {
            assert(v@.subrange(0, v@.len() as int) =~= name@);
        }
        let n = lowered.as_str();
        if self.apply_box_property(name, value) {
            return;
        }
        if self.apply_typography_property(n, value) {
            return;
        }
        if str_is(n, "line-height") {
            self.apply_line_height(value);
        } else if str_is(n, "gap") {
            self.set_gap(value);
        } else if str_is(n, "flex-direction") {
            self.set_flex_direction(value);
        } else if str_is(n, "flex-wrap") {
            self.set_flex_wrap(value);
        } else if str_is(n, "flex-grow") {
            self.set_flex_grow(value);
        } else if str_is(n, "flex-shrink") {
            self.set_flex_shrink(value);
        } else if str_is(n, "flex-basis") {
            self.apply_flex_basis(value);
        } else if str_is(n, "flex") {
            self.apply_flex(value);
        } else if str_is(n, "align-items") {
            self.set_align_items(value);
        } else if str_is(n, "justify-content") {
            self.set_justify_content(value);
        } else if str_is(n, "grid-template-columns") {
            self.set_grid_columns(value);
        }
    }

    /// Applies one declaration.
    pub fn apply(&mut self, name: &str, value: &str)
        ensures
            final(self)@ == apply_model(old(self)@, name@, value@),
    {
        reveal(apply_model);
        let v = chars_of(name);
        let lowered = lowered_range(&v, 0, v.len());
        proof {
            assert(v@.subrange(0, v@.len() as int) =~= name@);
        }
        let n = lowered.as_str();
        if str_is(n, "display") {
            self.apply_display(value);
        } else if str_is(n, "color") {
            self.apply_color(value);
        } else if str_is(n, "background") || str_is(n, "background-color") {
            self.apply_background(value);
        } else if str_is(n, "box-shadow") {
            self.apply_box_shadow(value);
        } else if str_is(n, "opacity") {
            self.apply_opacity(value);
        } else if str_is(n, "border") {
            self.apply_border(value);
        } else if str_is(n, "border-color") {
            self.apply_border_color(value);
        } else if str_is(n, "border-top") || str_is(n, "border-right") || str_is(n, "border-bottom")
            || str_is(n, "border-left") {
            self.apply_border_side(name, value);
        } else if str_is(n, "border-top-color") || str_is(n, "border-right-color")
            || str_is(n, "border-bottom-color") || str_is(n, "border-left-color") {
            self.apply_border_side_color(name, value);
        } else if str_is(n, "position") {
            self.apply_position(value);
        } else if str_is(n, "z-index") {
            self.apply_z_index(value);
        } else if str_is(n, "list-style") || str_is(n, "list-style-type") {
            self.apply_list_style(value);
        } else {
            self.apply_layout_or_font(name, value);
        }
    }
}

} // verus!
