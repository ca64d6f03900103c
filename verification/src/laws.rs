//! Properties of the library that span several of its functions, or hold of
//! every input: how declarations, inheritance and the box model combine.
use crate::document::{cells_of, rows_in, rows_of, collapse_line, has_input, has_input_node, node_text_spec, raw_texts, seeded, seeded_node, NodeView};
use crate::text::is_ws;
use crate::text::{trim, trim_end, trim_start};
use crate::tokens::{once_scan, split_once_spec, char_scan, comma_scan, join_with, plain_ws_scan, split_char_spec, top_level_commas, whitespace_tokens};
use crate::grid_measure::{
    active_prefix, assign_shares, first_constrained, fraction_total, share, share_space, swap_removed, unit_width,
};
use crate::length::{args_px, fold_max, fold_min, math_call, max_int, min_int, named_function_px, times, MathFunction};
use crate::focus::{
    apply_all, apply_spec, blur_plan, commit_plan, events_of, focus_plan, focus_wf, key_down_plan, key_up_plan, lemma_apply_all_push,
    FocusChange, FocusModel, FocusStep, InputEvent,
};
use crate::measurement_cache::{FlowMeasurementCache, FlowMeasurementKey};
use crate::paint_order::{insert_paint, paints_before, sort_paints, PaintView};
use crate::pointer::{box_contains, topmost, BoxGeometry};
use crate::position::{positioned_width_spec, positioned_x_spec, ContainingBlock};
use crate::navigation::{activation_spec, clamp_scroll, fragment_scroll_spec, Activation, HitTarget};
use crate::number::{in_range, num, CssNumber, MAX_MICROS, MICROS_PER_UNIT};
use crate::style::apply::{apply_model, grid_columns_model, known_property, layout_or_font_model};
use crate::style::box_declaration::{
    border_side_width_model, side_width_name, width_name_side,
    box_length_spec, margin_model, margin_property_model, margin_value_spec, margin_values_all, padding_model,
    padding_property_model, with_margins,
};
use crate::style::declaration::{line_height_model, opacity_model};
use crate::style::element::{element_defaults_model, element_style_model, resolved_line_height_model};
use crate::style::geometry::{
    assigned_outer_width_model, box_width_spec, content_width_spec, explicit_width_spec,
    horizontal_non_content_spec, outer_width_spec,
};
use crate::style::grid::grid_tracks_spec;
use crate::style::types::{CssBoxSizing, CssFloat, StyleModel};
use crate::style::typography::font_size_model;
use crate::style::value::{box_sides_spec, expand_sides, line_height_spec};
use crate::text::{lower, strip_prefix};
use crate::number::{num_or, scalar_spec};
use crate::style::border::{border_side_model, declared_border_width, set_side_color_model, set_side_width_model, side_width_of};
use crate::document::border_color_spec;
use crate::style::flex::{flex_components_spec, flex_length_spec};
use crate::style::keywords::{align_content_of, align_items_of, taffy_align_content, taffy_align_items, taffy_flex_direction, taffy_flex_wrap};
use crate::style::value::px_spec;
use crate::tokens::top_level_whitespace_tokens;
use crate::styled_wrap::{styled_line_width_spec, styled_lines_spec, taken_lines};
use crate::grid_measure::MIN_LAYOUT_WIDTH_MICROS;
use crate::position::{positioned_y_spec};
use crate::navigation::{navigation_outcome_spec, OutcomeView};
use crate::controls::{is_summary_spec, visible_children};
use crate::media::{png_header_spec, png_signature};
use crate::number::saturated;
use vstd::prelude::*;

verus! {

/// A declaration whose property name the style does not know, in any ASCII
/// case, leaves the style as it was.
pub proof fn unknown_property_keeps_style(m: StyleModel, name: Seq<char>, value: Seq<char>)
    requires
        !known_property(lower(name)),
    ensures
        apply_model(m, name, value) == m,
{
    reveal(apply_model);
    reveal(layout_or_font_model);
}

/// A `padding` shorthand that does not parse leaves every padding edge as it
/// was.
pub proof fn invalid_padding_keeps_style(m: StyleModel, value: Seq<char>)
    requires
        box_sides_spec(value, m.font_size.val(), m.viewport_width.val(), m.viewport_height.val(), false) is None,
    ensures
        padding_property_model(m, "padding"@, value) == m,
{
    reveal(padding_property_model);
    reveal(padding_model);
}

/// A `margin` shorthand that does not parse (a value that is not a margin,
/// or more than four of them) leaves every margin as it was.
pub proof fn invalid_margin_keeps_style(m: StyleModel, value: Seq<char>)
    requires
        match margin_values_all(m, top_level_whitespace_tokens(value)) {
            Some(values) => expand_sides(values) is None,
            None => true,
        },
    ensures
        margin_property_model(m, "margin"@, value) == m,
{
    reveal(margin_property_model);
    reveal(margin_model);
    reveal(with_margins);
}

/// A `line-height` that does not parse keeps both the line height and the
/// factor that children inherit.
pub proof fn invalid_line_height_keeps_style(m: StyleModel, value: Seq<char>)
    requires
        line_height_spec(value, m.font_size.val(), m.viewport_width.val(), m.viewport_height.val()) is None,
    ensures
        line_height_model(m, value) == m,
{
    reveal(line_height_model);
}

/// A `grid-template-columns` that does not parse keeps the current template.
pub proof fn invalid_grid_template_keeps_style(m: StyleModel, value: Seq<char>)
    requires
        grid_tracks_spec(value, m.font_size.val()) is None,
    ensures
        grid_columns_model(m, value) == m,
{
    reveal(grid_columns_model);
}

/// After the `padding` shorthand, a `padding-<edge>` longhand with a valid
/// length replaces that edge alone; an invalid one changes nothing.
pub proof fn padding_longhand_overrides_one_edge(m: StyleModel, shorthand: Seq<char>, value: Seq<char>)
    ensures
        ({
            let s = padding_property_model(m, "padding"@, shorthand);
            let l = padding_property_model(s, "padding-left"@, value);
            &&& l.padding_top == s.padding_top
            &&& l.padding_right == s.padding_right
            &&& l.padding_bottom == s.padding_bottom
            &&& l.padding_left == match box_length_spec(s, value, false) {
                Some(x) => num(x),
                None => s.padding_left,
            }
            &&& l == StyleModel { padding_left: l.padding_left, ..s }
        }),
{
    reveal(padding_property_model);
    reveal(padding_model);
    reveal_strlit("padding");
    reveal_strlit("padding-left");
    reveal_strlit("padding-top");
    reveal_strlit("padding-right");
    reveal_strlit("padding-bottom");
    assert("padding-left"@.len() != "padding"@.len());
    assert("padding-left"@[8] != "padding-top"@[8]);
    assert("padding-left"@[8] != "padding-right"@[8]);
    assert("padding-left"@[8] != "padding-bottom"@[8]);
}

/// Opacity stays within `[0, 1]`: a declaration is clamped into that range,
/// and one that does not parse keeps the current value.
pub proof fn opacity_stays_within_unit_range(m: StyleModel, value: Seq<char>)
    requires
        0 <= m.opacity.val() <= MICROS_PER_UNIT,
    ensures
        0 <= opacity_model(m, value).opacity.val() <= MICROS_PER_UNIT,
{
    reveal(opacity_model);
}

/// An element without attributes has exactly the style that it inherits.
pub proof fn element_without_attributes_inherits(parent: StyleModel)
    ensures
        element_style_model(Seq::empty(), parent) == element_defaults_model(parent),
{
    reveal(element_style_model);
}

/// Inheriting twice is inheriting once: a child of a child that declares
/// nothing starts from the same style as that child.
pub proof fn inheritance_is_idempotent(m: StyleModel)
    ensures
        element_defaults_model(element_defaults_model(m)) == element_defaults_model(m),
{
}

/// A unitless line height is inherited as a factor of the font size, so a
/// child that changes its font size gets a line height in proportion to it;
/// any other line height is inherited as it is.
pub proof fn inherited_line_height_follows_child_font_size(parent: StyleModel, line_height: Seq<char>, font_size: Seq<char>)
    ensures
        ({
            let declared = line_height_model(parent, line_height);
            let child = font_size_model(element_defaults_model(declared), font_size);
            let resolved = resolved_line_height_model(child);
            &&& child.line_height_factor == declared.line_height_factor
            &&& match declared.line_height_factor {
                Some(f) => match times(child.font_size.val(), f.val()) {
                    Some(x) => resolved.line_height == num(x),
                    None => resolved.line_height == declared.line_height,
                },
                None => resolved.line_height == declared.line_height,
            }
        }),
{
    reveal(font_size_model);
}

/// Once the flow assigns an outer width, that is the width of the box
/// whatever space is available, and the declared width gives it back.
pub proof fn assigned_outer_width_is_box_width(m: StyleModel, outer: int, available: int)
    requires
        in_range(outer),
        m.box_sizing == CssBoxSizing::ContentBox ==> 0 <= outer - horizontal_non_content_spec(m) <= MAX_MICROS,
    ensures
        explicit_width_spec(assigned_outer_width_model(m, outer), available) == Some(outer),
        box_width_spec(assigned_outer_width_model(m, outer), available) == outer,
{
}

/// With `box-sizing: content-box`, the content width inside the outer width
/// of a CSS width is that CSS width again.
pub proof fn content_width_undoes_outer_width(m: StyleModel, css_width: int)
    requires
        m.box_sizing == CssBoxSizing::ContentBox,
        0 <= css_width <= MAX_MICROS,
        in_range(css_width + horizontal_non_content_spec(m)),
    ensures
        content_width_spec(m, outer_width_spec(m, css_width)) == css_width,
{
}

/// A release activates something only where it hits the very target that
/// the press went down on.
pub proof fn activation_needs_press_and_release_on_one_target(hit: Option<HitTarget>, pressed: Option<u64>)
    ensures
        !(activation_spec(hit, pressed).activation is Nothing) ==> (hit is Some && pressed == Some(
            hit->0.node_id,
        )),
{
}

/// Seeding never changes a value that is already there: what a user typed
/// survives a later seeding.
pub proof fn seeding_keeps_existing_values(m: Map<u64, Seq<char>>, ns: Seq<NodeView>)
    ensures
        forall|k: u64| m.contains_key(k) ==> #[trigger] seeded(m, ns).contains_key(k) && seeded(m, ns)[k] == m[k],
    decreases ns, 0int,
{
    if ns.len() > 0 {
        let before = seeded(m, ns.drop_last());
        seeding_keeps_existing_values(m, ns.drop_last());
        seeding_node_keeps_existing_values(before, ns.last());
        assert(seeded(m, ns) == seeded_node(before, ns.last()));
        assert forall|k: u64| m.contains_key(k) implies #[trigger] seeded(m, ns).contains_key(k) && seeded(m, ns)[k]
            == m[k] by {
            assert(before.contains_key(k) && before[k] == m[k]);
            assert(seeded_node(before, ns.last()).contains_key(k) && seeded_node(before, ns.last())[k] == before[k]);
        }
    }
}

/// Seeding one node never changes a value that is already there.
pub proof fn seeding_node_keeps_existing_values(m: Map<u64, Seq<char>>, n: NodeView)
    ensures
        forall|k: u64| m.contains_key(k) ==> #[trigger] seeded_node(m, n).contains_key(k) && seeded_node(m, n)[k] == m[k],
    decreases n, 1int,
{
    match n {
        NodeView::Element { node_id, tag, attributes, children } => {
            let m1 = if crate::document::is_input_tag_spec(tag) && !m.contains_key(node_id) {
                m.insert(node_id, crate::document::initial_value_spec(attributes))
            } else {
                m
            };
            seeding_keeps_existing_values(m1, children);
            assert(seeded_node(m, n) == seeded(m1, children));
            assert forall|k: u64| m.contains_key(k) implies #[trigger] seeded_node(m, n).contains_key(k)
                && seeded_node(m, n)[k] == m[k] by {
                if crate::document::is_input_tag_spec(tag) && !m.contains_key(node_id) {
                    assert(k != node_id);
                }
                assert(m1.contains_key(k));
                assert(m1[k] == m[k]);
                assert(seeded(m1, children).contains_key(k));
                assert(seeded(m1, children)[k] == m1[k]);
            }
        },
        NodeView::Text(_) => {},
    }
}

/// After seeding, every input control of the nodes has a value.
pub proof fn seeding_covers_every_input(m: Map<u64, Seq<char>>, ns: Seq<NodeView>, id: u64)
    requires
        has_input(ns, id),
    ensures
        seeded(m, ns).contains_key(id),
    decreases ns, 0int,
{
    let before = seeded(m, ns.drop_last());
    assert(seeded(m, ns) == seeded_node(before, ns.last()));
    if has_input(ns.drop_last(), id) {
        seeding_covers_every_input(m, ns.drop_last(), id);
        seeding_node_keeps_existing_values(before, ns.last());
        assert(before.contains_key(id));
        assert(seeded_node(before, ns.last()).contains_key(id));
    } else {
        seeding_node_covers_every_input(before, ns.last(), id);
    }
}

/// After seeding a node, every input control in it has a value.
pub proof fn seeding_node_covers_every_input(m: Map<u64, Seq<char>>, n: NodeView, id: u64)
    requires
        has_input_node(n, id),
    ensures
        seeded_node(m, n).contains_key(id),
    decreases n, 1int,
{
    match n {
        NodeView::Element { node_id, tag, attributes, children } => {
            let m1 = if crate::document::is_input_tag_spec(tag) && !m.contains_key(node_id) {
                m.insert(node_id, crate::document::initial_value_spec(attributes))
            } else {
                m
            };
            assert(seeded_node(m, n) == seeded(m1, children));
            if crate::document::is_input_tag_spec(tag) && node_id == id {
                seeding_keeps_existing_values(m1, children);
                assert(m1.contains_key(id));
            } else {
                seeding_covers_every_input(m1, children, id);
            }
        },
        NodeView::Text(_) => {},
    }
}

/// Seeding values that every input control of the nodes already has changes
/// nothing.
pub proof fn seeding_seeded_values_changes_nothing(m: Map<u64, Seq<char>>, ns: Seq<NodeView>)
    requires
        forall|id: u64| has_input(ns, id) ==> m.contains_key(id),
    ensures
        seeded(m, ns) == m,
    decreases ns, 0int,
{
    if ns.len() > 0 {
        assert forall|id: u64| has_input(ns.drop_last(), id) implies m.contains_key(id) by {
            assert(has_input(ns, id));
        }
        seeding_seeded_values_changes_nothing(m, ns.drop_last());
        assert forall|id: u64| has_input_node(ns.last(), id) implies m.contains_key(id) by {
            assert(has_input(ns, id));
        }
        seeding_node_seeded_values_changes_nothing(m, ns.last());
    }
}

/// Seeding a node whose input controls all have values changes nothing.
pub proof fn seeding_node_seeded_values_changes_nothing(m: Map<u64, Seq<char>>, n: NodeView)
    requires
        forall|id: u64| has_input_node(n, id) ==> m.contains_key(id),
    ensures
        seeded_node(m, n) == m,
    decreases n, 1int,
{
    match n {
        NodeView::Element { node_id, tag, attributes, children } => {
            if crate::document::is_input_tag_spec(tag) {
                assert(has_input_node(n, node_id));
            }
            assert forall|id: u64| has_input(children, id) implies m.contains_key(id) by {
                assert(has_input_node(n, id));
            }
            seeding_seeded_values_changes_nothing(m, children);
        },
        NodeView::Text(_) => {},
    }
}

/// Seeding twice is seeding once.
pub proof fn seeding_is_idempotent(m: Map<u64, Seq<char>>, ns: Seq<NodeView>)
    ensures
        seeded(seeded(m, ns), ns) == seeded(m, ns),
{
    assert forall|id: u64| has_input(ns, id) implies seeded(m, ns).contains_key(id) by {
        seeding_covers_every_input(m, ns, id);
    }
    seeding_seeded_values_changes_nothing(seeded(m, ns), ns);
}

/// A right inset pins the right edge of a positioned box that far before
/// the right edge of its containing block, with or without a left inset
/// (where the two insets leave room for the box).
pub proof fn right_inset_pins_right_edge(c: ContainingBlock, m: StyleModel)
    requires
        m.inset_right is Some,
        m.inset_left is Some ==> ({
            let left = m.inset_left->0.val();
            let right = m.inset_right->0.val();
            &&& 0 <= c.width.val() - left - right <= MAX_MICROS
            &&& in_range(c.x.val() + left)
        }),
        m.inset_left is None ==> in_range(
            c.x.val() + c.width.val() - m.inset_right->0.val() - positioned_width_spec(c, m),
        ),
    ensures
        positioned_x_spec(c, m) + positioned_width_spec(c, m) == c.x.val() + c.width.val() - m.inset_right->0.val(),
{
}

/// Whether some active track sits at position `i`.
pub open spec fn is_active_position(active: Seq<(usize, CssNumber)>, i: int) -> bool {
    exists|k: int| 0 <= k < active.len() && (#[trigger] active[k]).0 == i
}

proof fn lemma_active_prefix_positions(fractions: Seq<Option<CssNumber>>, n: int, i: int)
    requires
        0 <= n <= fractions.len() <= usize::MAX,
        is_active_position(active_prefix(fractions, n), i),
    ensures
        0 <= i < n,
        fractions[i] is Some,
    decreases n,
{
    let a = active_prefix(fractions, n);
    let k = choose|k: int| 0 <= k < a.len() && (#[trigger] a[k]).0 == i;
    let before = active_prefix(fractions, n - 1);
    if k < before.len() {
        match fractions[n - 1] {
            Some(f) => assert(a[k] == before[k]),
            None => assert(a[k] == before[k]),
        }
        lemma_active_prefix_positions(fractions, n - 1, i);
    } else {
        match fractions[n - 1] {
            Some(f) => {
                assert(a[k] == ((n - 1) as usize, f));
            },
            None => {
                assert(a == before);
            },
        }
    }
}

proof fn lemma_assign_shares_elsewhere(active: Seq<(usize, CssNumber)>, widths: Seq<CssNumber>, unit: int, i: int)
    requires
        !is_active_position(active, i),
        forall|k: int| 0 <= k < active.len() ==> (#[trigger] active[k]).0 < widths.len(),
    ensures
        assign_shares(active, widths, unit).len() == widths.len(),
        0 <= i < widths.len() ==> assign_shares(active, widths, unit)[i] == widths[i],
    decreases active.len(),
{
    if active.len() > 0 {
        let d = active.drop_last();
        assert(!is_active_position(d, i)) by {
            if is_active_position(d, i) {
                let k = choose|k: int| 0 <= k < d.len() && (#[trigger] d[k]).0 == i;
                assert(active[k] == d[k]);
            }
        }
        assert forall|k: int| 0 <= k < d.len() implies (#[trigger] d[k]).0 < widths.len() by {
            assert(d[k] == active[k]);
        }
        lemma_assign_shares_elsewhere(d, widths, unit, i);
        assert(active[active.len() - 1].0 != i);
    }
}

proof fn lemma_share_space_elsewhere(active: Seq<(usize, CssNumber)>, widths: Seq<CssNumber>, remaining: int, i: int)
    requires
        !is_active_position(active, i),
        forall|k: int| 0 <= k < active.len() ==> (#[trigger] active[k]).0 < widths.len(),
    ensures
        0 <= i < widths.len() ==> share_space(active, widths, remaining)[i] == widths[i],
    decreases active.len(),
{
    if active.len() > 0 {
        let total = fraction_total(active);
        if total > 0 {
            let unit = unit_width(remaining, total);
            match first_constrained(active, widths, unit, 0) {
                None => lemma_assign_shares_elsewhere(active, widths, unit, i),
                Some(p) => if 0 <= p < active.len() {
                    let rest = swap_removed(active, p);
                    assert(!is_active_position(rest, i)) by {
                        if is_active_position(rest, i) {
                            let k = choose|k: int| 0 <= k < rest.len() && (#[trigger] rest[k]).0 == i;
                            if k == p {
                                assert(rest[k] == active[active.len() - 1]);
                            } else {
                                assert(rest[k] == active[k]);
                            }
                        }
                    }
                    assert forall|k: int| 0 <= k < rest.len() implies (#[trigger] rest[k]).0 < widths.len() by {
                        if k == p {
                            assert(rest[k] == active[active.len() - 1]);
                        } else {
                            assert(rest[k] == active[k]);
                        }
                    }
                    lemma_share_space_elsewhere(
                        rest,
                        widths,
                        crate::number::saturated(
                            crate::grid_measure::at_least_zero(remaining - widths[active[p].0 as int].val()),
                        ),
                        i,
                    );
                },
            }
        }
    }
}

/// Sharing the free space among the fraction tracks leaves every track
/// without a fraction exactly as wide as it was.
pub proof fn fraction_sharing_keeps_other_tracks(
    fractions: Seq<Option<CssNumber>>,
    widths: Seq<CssNumber>,
    remaining: int,
    i: int,
)
    requires
        fractions.len() == widths.len() <= usize::MAX,
        0 <= i < widths.len(),
        fractions[i] is None,
    ensures
        share_space(active_prefix(fractions, fractions.len() as int), widths, remaining)[i] == widths[i],
{
    let a = active_prefix(fractions, fractions.len() as int);
    if is_active_position(a, i) {
        lemma_active_prefix_positions(fractions, fractions.len() as int, i);
    }
    assert forall|k: int| 0 <= k < a.len() implies (#[trigger] a[k]).0 < widths.len() by {
        assert(is_active_position(a, a[k].0 as int));
        lemma_active_prefix_positions(fractions, fractions.len() as int, a[k].0 as int);
    }
    lemma_share_space_elsewhere(a, widths, remaining, i);
}

proof fn lemma_assign_shares_grow(active: Seq<(usize, CssNumber)>, widths: Seq<CssNumber>, unit: int, i: int)
    requires
        forall|k: int|
            0 <= k < active.len() ==> (#[trigger] active[k]).0 < widths.len() && widths[active[k].0 as int].val()
                <= share(unit, active[k].1),
        0 <= i < widths.len(),
    ensures
        assign_shares(active, widths, unit).len() == widths.len(),
        assign_shares(active, widths, unit)[i].val() >= widths[i].val(),
    decreases active.len(),
{
    if active.len() > 0 {
        let d = active.drop_last();
        assert forall|k: int| 0 <= k < d.len() implies (#[trigger] d[k]).0 < widths.len() && widths[d[k].0 as int].val()
            <= share(unit, d[k].1) by {
            assert(d[k] == active[k]);
        }
        lemma_assign_shares_grow(d, widths, unit, i);
        let last = active[active.len() - 1];
        if last.0 == i {
            assert(widths[i].val() <= share(unit, last.1));
        }
    }
}

proof fn lemma_first_constrained_none(active: Seq<(usize, CssNumber)>, widths: Seq<CssNumber>, unit: int, k: int)
    requires
        0 <= k,
        first_constrained(active, widths, unit, k) is None,
    ensures
        forall|j: int| k <= j < active.len() ==> widths[(#[trigger] active[j]).0 as int].val() <= share(unit, active[j].1),
    decreases active.len() - k,
{
    if k < active.len() {
        lemma_first_constrained_none(active, widths, unit, k + 1);
    }
}

proof fn lemma_share_space_grows(active: Seq<(usize, CssNumber)>, widths: Seq<CssNumber>, remaining: int, i: int)
    requires
        forall|k: int| 0 <= k < active.len() ==> (#[trigger] active[k]).0 < widths.len(),
        0 <= i < widths.len(),
    ensures
        share_space(active, widths, remaining).len() == widths.len(),
        share_space(active, widths, remaining)[i].val() >= widths[i].val(),
    decreases active.len(),
{
    if active.len() > 0 {
        let total = fraction_total(active);
        if total > 0 {
            let unit = unit_width(remaining, total);
            match first_constrained(active, widths, unit, 0) {
                None => {
                    lemma_first_constrained_none(active, widths, unit, 0);
                    lemma_assign_shares_grow(active, widths, unit, i);
                },
                Some(p) => if 0 <= p < active.len() {
                    let rest = swap_removed(active, p);
                    assert forall|k: int| 0 <= k < rest.len() implies (#[trigger] rest[k]).0 < widths.len() by {
                        if k == p {
                            assert(rest[k] == active[active.len() - 1]);
                        } else {
                            assert(rest[k] == active[k]);
                        }
                    }
                    lemma_share_space_grows(
                        rest,
                        widths,
                        crate::number::saturated(
                            crate::grid_measure::at_least_zero(remaining - widths[active[p].0 as int].val()),
                        ),
                        i,
                    );
                },
            }
        }
    }
}

/// Sharing the free space among the fraction tracks never makes a track
/// narrower: a track already wider than its share keeps its width.
pub proof fn fraction_sharing_never_narrows(
    fractions: Seq<Option<CssNumber>>,
    widths: Seq<CssNumber>,
    remaining: int,
    i: int,
)
    requires
        fractions.len() == widths.len() <= usize::MAX,
        0 <= i < widths.len(),
    ensures
        share_space(active_prefix(fractions, fractions.len() as int), widths, remaining).len() == widths.len(),
        share_space(active_prefix(fractions, fractions.len() as int), widths, remaining)[i].val() >= widths[i].val(),
{
    let a = active_prefix(fractions, fractions.len() as int);
    assert forall|k: int| 0 <= k < a.len() implies (#[trigger] a[k]).0 < widths.len() by {
        assert(is_active_position(a, a[k].0 as int));
        lemma_active_prefix_positions(fractions, fractions.len() as int, a[k].0 as int);
    }
    lemma_share_space_grows(a, widths, remaining, i);
}

/// The box found under a point is the last one in paint order that contains
/// it (the one painted on top); where none contains it, none is found.
pub proof fn topmost_is_last_box_under_point<T: BoxGeometry>(boxes: Seq<T>, x: int, y: int)
    ensures
        match topmost(boxes, x, y) {
            Some(t) => exists|i: int|
                0 <= i < boxes.len() && boxes[i] == t && box_contains(t.bounds(), x, y) && forall|j: int|
                    i < j < boxes.len() ==> !box_contains(#[trigger] boxes[j].bounds(), x, y),
            None => forall|i: int| 0 <= i < boxes.len() ==> !box_contains(#[trigger] boxes[i].bounds(), x, y),
        },
    decreases boxes.len(),
{
    if boxes.len() > 0 {
        let d = boxes.drop_last();
        topmost_is_last_box_under_point(d, x, y);
        let n = boxes.len() - 1;
        if box_contains(boxes.last().bounds(), x, y) {
            assert(boxes[n] == boxes.last());
        } else {
            match topmost(d, x, y) {
                Some(t) => {
                    let i = choose|i: int|
                        0 <= i < d.len() && d[i] == t && box_contains(t.bounds(), x, y) && forall|j: int|
                            i < j < d.len() ==> !box_contains(#[trigger] d[j].bounds(), x, y);
                    assert(boxes[i] == t);
                    assert forall|j: int| i < j < boxes.len() implies !box_contains(#[trigger] boxes[j].bounds(), x, y) by {
                        if j < n {
                            assert(boxes[j] == d[j]);
                        }
                    }
                },
                None => {
                    assert forall|i: int| 0 <= i < boxes.len() implies !box_contains(#[trigger] boxes[i].bounds(), x, y) by {
                        if i < n {
                            assert(boxes[i] == d[i]);
                        }
                    }
                },
            }
        }
    }
}

/// Whether the ranges are in paint order: none paints before one listed
/// ahead of it.
pub open spec fn paint_ordered(s: Seq<PaintView>) -> bool {
    forall|i: int, j: int| 0 <= i < j < s.len() ==> !paints_before(#[trigger] s[j], #[trigger] s[i])
}

/// The position where `p` goes into `s`.
pub open spec fn insert_position(p: PaintView, s: Seq<PaintView>) -> int
    decreases s.len(),
{
    if s.len() == 0 || paints_before(p, s[0]) {
        0
    } else {
        1 + insert_position(p, s.drop_first())
    }
}

proof fn lemma_insert_paint_position(p: PaintView, s: Seq<PaintView>)
    ensures
        0 <= insert_position(p, s) <= s.len(),
        insert_paint(p, s) == s.insert(insert_position(p, s), p),
        forall|j: int| 0 <= j < insert_position(p, s) ==> !paints_before(p, #[trigger] s[j]),
        insert_position(p, s) < s.len() ==> paints_before(p, s[insert_position(p, s)]),
    decreases s.len(),
{
    if s.len() == 0 {
        assert(s.insert(0, p) =~= seq![p]);
    } else if paints_before(p, s[0]) {
        assert(s.insert(0, p) =~= seq![p] + s);
    } else {
        let t = s.drop_first();
        lemma_insert_paint_position(p, t);
        let k = insert_position(p, t);
        assert(seq![s[0]] + t.insert(k, p) =~= s.insert(k + 1, p));
        assert forall|j: int| 0 <= j < k + 1 implies !paints_before(p, #[trigger] s[j]) by {
            if j > 0 {
                assert(s[j] == t[j - 1]);
            }
        }
        if k + 1 < s.len() {
            assert(s[k + 1] == t[k]);
        }
    }
}

/// Setting the ranges in paint order keeps every range, each once, and
/// leaves none painting before one listed ahead of it.
pub proof fn sorted_paints_are_ordered_and_complete(s: Seq<PaintView>)
    ensures
        paint_ordered(sort_paints(s)),
        sort_paints(s).to_multiset() == s.to_multiset(),
    decreases s.len(),
{
    broadcast use vstd::seq_lib::group_to_multiset_ensures;

    if s.len() > 0 {
        let d = s.drop_last();
        let p = s.last();
        sorted_paints_are_ordered_and_complete(d);
        let sorted = sort_paints(d);
        lemma_insert_paint_position(p, sorted);
        let k = insert_position(p, sorted);
        let r = sorted.insert(k, p);
        assert(sort_paints(s) == r);
        assert forall|i: int, j: int| 0 <= i < j < r.len() implies !paints_before(#[trigger] r[j], #[trigger] r[i]) by {
            if j < k {
                assert(r[i] == sorted[i] && r[j] == sorted[j]);
            } else if j == k {
                assert(r[i] == sorted[i]);
            } else if i < k {
                assert(r[i] == sorted[i] && r[j] == sorted[j - 1]);
            } else if i == k {
                assert(r[j] == sorted[j - 1]);
                if j - 1 > k {
                    assert(!paints_before(sorted[j - 1], sorted[k]));
                }
            } else {
                assert(r[i] == sorted[i - 1] && r[j] == sorted[j - 1]);
            }
        }
        assert(s =~= d.push(p));
    }
}

/// After the `margin` shorthand, a `margin-<edge>` longhand with a valid
/// value replaces that edge alone, with whether it is automatic; an invalid
/// one changes nothing.
pub proof fn margin_longhand_overrides_one_edge(m: StyleModel, shorthand: Seq<char>, value: Seq<char>)
    ensures
        ({
            let s = margin_property_model(m, "margin"@, shorthand);
            let l = margin_property_model(s, "margin-right"@, value);
            match margin_value_spec(s, value) {
                Some((x, automatic)) => l == StyleModel { margin_right: num(x), margin_right_auto: automatic, ..s },
                None => l == s,
            }
        }),
{
    reveal(margin_property_model);
    reveal(margin_model);
    reveal(with_margins);
    reveal_strlit("margin");
    reveal_strlit("margin-right");
    reveal_strlit("margin-top");
    reveal_strlit("margin-bottom");
    reveal_strlit("margin-left");
    assert("margin-right"@.len() != "margin"@.len());
    assert("margin-right"@[7] != "margin-top"@[7]);
    assert("margin-right"@[7] != "margin-bottom"@[7]);
    assert("margin-right"@[7] != "margin-left"@[7]);
}

/// Whether `s` holds the character `c` nowhere.
pub open spec fn free_of(s: Seq<char>, c: char) -> bool {
    forall|j: int| 0 <= j < s.len() ==> s[j] != c
}

proof fn lemma_scan_shift(a: Seq<char>, b: Seq<char>, c: char, i: int, start: int)
    requires
        0 <= start <= i <= b.len(),
    ensures
        char_scan(a + b, c, a.len() + i, a.len() + start) == char_scan(b, c, i, start),
    decreases b.len() - i,
{
    let s = a + b;
    if i < b.len() {
        assert(s[a.len() + i] == b[i]);
        if b[i] == c {
            lemma_scan_shift(a, b, c, i + 1, i + 1);
            assert(s.subrange(a.len() + start, a.len() + i) =~= b.subrange(start, i));
        } else {
            lemma_scan_shift(a, b, c, i + 1, start);
        }
    } else {
        assert(s.subrange(a.len() + start, s.len() as int) =~= b.subrange(start, b.len() as int));
    }
}

proof fn lemma_scan_to_end(s: Seq<char>, c: char, i: int, start: int)
    requires
        0 <= start <= i <= s.len(),
        forall|j: int| i <= j < s.len() ==> s[j] != c,
    ensures
        char_scan(s, c, i, start) == seq![s.subrange(start, s.len() as int)],
    decreases s.len() - i,
{
    if i < s.len() {
        lemma_scan_to_end(s, c, i + 1, start);
    }
}

proof fn lemma_scan_to_separator(s: Seq<char>, c: char, i: int, start: int, k: int)
    requires
        0 <= start <= i <= k < s.len(),
        s[k] == c,
        forall|j: int| i <= j < k ==> s[j] != c,
    ensures
        char_scan(s, c, i, start) == seq![s.subrange(start, k)] + char_scan(s, c, k + 1, k + 1),
    decreases k - i,
{
    if i < k {
        lemma_scan_to_separator(s, c, i + 1, start, k);
    }
}

proof fn lemma_join_front(parts: Seq<Seq<char>>, sep: Seq<char>)
    requires
        parts.len() >= 2,
    ensures
        join_with(parts, sep) == parts[0] + sep + join_with(parts.drop_first(), sep),
    decreases parts.len(),
{
    if parts.len() > 2 {
        lemma_join_front(parts.drop_last(), sep);
        assert(parts.drop_last().drop_first() =~= parts.drop_first().drop_last());
        assert(parts.drop_first().last() == parts.last());
        assert(parts.drop_last()[0] == parts[0]);
        assert(join_with(parts.drop_first(), sep) == join_with(parts.drop_first().drop_last(), sep) + sep
            + parts.drop_first().last());
        assert(parts[0] + sep + join_with(parts.drop_first().drop_last(), sep) + sep + parts.last() =~= parts[0] + sep
            + (join_with(parts.drop_first().drop_last(), sep) + sep + parts.last()));
    } else {
        assert(parts.drop_first() =~= seq![parts[1]]);
        assert(parts.drop_last() =~= seq![parts[0]]);
        assert(join_with(parts.drop_first(), sep) == parts[1]);
        assert(join_with(parts.drop_last(), sep) == parts[0]);
    }
}

proof fn lemma_join_free(parts: Seq<Seq<char>>, sep: Seq<char>, c: char)
    requires
        free_of(sep, c),
        forall|k: int| 0 <= k < parts.len() ==> free_of(#[trigger] parts[k], c),
    ensures
        free_of(join_with(parts, sep), c),
    decreases parts.len(),
{
    if parts.len() >= 2 {
        let d = parts.drop_last();
        assert forall|k: int| 0 <= k < d.len() implies free_of(#[trigger] d[k], c) by {
            assert(d[k] == parts[k]);
        }
        lemma_join_free(d, sep, c);
        let j = join_with(d, sep);
        let last = parts.last();
        assert(free_of(last, c));
        assert forall|x: int| 0 <= x < (j + sep + last).len() implies (j + sep + last)[x] != c by {
            if x < j.len() {
                assert((j + sep + last)[x] == j[x]);
            } else if x < j.len() + sep.len() {
                assert((j + sep + last)[x] == sep[x - j.len()]);
            } else {
                assert((j + sep + last)[x] == last[x - j.len() - sep.len()]);
            }
        }
    } else if parts.len() == 1 {
        assert(free_of(parts[0], c));
    }
}

proof fn lemma_split_join(parts: Seq<Seq<char>>, c: char)
    requires
        parts.len() >= 1,
        forall|k: int| 0 <= k < parts.len() ==> free_of(#[trigger] parts[k], c),
    ensures
        split_char_spec(join_with(parts, seq![c]), c) == parts,
    decreases parts.len(),
{
    if parts.len() == 1 {
        lemma_scan_to_end(parts[0], c, 0, 0);
        assert(parts[0].subrange(0, parts[0].len() as int) =~= parts[0]);
        assert(parts =~= seq![parts[0]]);
    } else {
        let rest = parts.drop_first();
        assert forall|k: int| 0 <= k < rest.len() implies free_of(#[trigger] rest[k], c) by {
            assert(rest[k] == parts[k + 1]);
        }
        lemma_split_join(rest, c);
        lemma_join_front(parts, seq![c]);
        let p0 = parts[0];
        let j = join_with(rest, seq![c]);
        let s = p0 + seq![c] + j;
        assert(free_of(p0, c));
        assert(s[p0.len() as int] == c);
        assert forall|x: int| 0 <= x < p0.len() implies s[x] != c by {
            assert(s[x] == p0[x]);
        }
        lemma_scan_to_separator(s, c, 0, 0, p0.len() as int);
        assert(s.subrange(0, p0.len() as int) =~= p0);
        assert(s =~= (p0 + seq![c]) + j);
        lemma_scan_shift(p0 + seq![c], j, c, 0, 0);
        assert(parts =~= seq![p0] + rest);
    }
}

/// Whether `t` holds no whitespace.
pub open spec fn ws_free(t: Seq<char>) -> bool {
    forall|j: int| 0 <= j < t.len() ==> !is_ws(#[trigger] t[j])
}

/// Whether no token holds whitespace.
pub open spec fn tokens_ws_free(tokens: Seq<Seq<char>>) -> bool {
    forall|k: int| 0 <= k < tokens.len() ==> ws_free(#[trigger] tokens[k])
}

proof fn lemma_ws_scan_tokens_free(s: Seq<char>, i: int, start: Option<int>)
    requires
        0 <= i <= s.len(),
        start matches Some(a) ==> 0 <= a <= i && forall|j: int| a <= j < i ==> !is_ws(#[trigger] s[j]),
    ensures
        tokens_ws_free(plain_ws_scan(s, i, start)),
    decreases s.len() - i,
{
    if i < s.len() {
        if is_ws(s[i]) {
            lemma_ws_scan_tokens_free(s, i + 1, None);
            match start {
                Some(a) => {
                    let t = s.subrange(a, i);
                    let rest = plain_ws_scan(s, i + 1, None);
                    assert(ws_free(t)) by {
                        assert forall|j: int| 0 <= j < t.len() implies !is_ws(#[trigger] t[j]) by {
                            assert(t[j] == s[a + j]);
                        }
                    }
                    let all = seq![t] + rest;
                    assert forall|k: int| 0 <= k < all.len() implies ws_free(#[trigger] all[k]) by {
                        if k == 0 {
                            assert(all[k] == t);
                        } else {
                            assert(all[k] == rest[k - 1]);
                        }
                    }
                    assert(plain_ws_scan(s, i, start) == all);
                },
                None => {},
            }
        } else {
            let st = match start {
                Some(a) => Some(a),
                None => Some(i),
            };
            lemma_ws_scan_tokens_free(s, i + 1, st);
        }
    } else {
        match start {
            Some(a) => {
                let t = s.subrange(a, s.len() as int);
                assert(ws_free(t)) by {
                    assert forall|j: int| 0 <= j < t.len() implies !is_ws(#[trigger] t[j]) by {
                        assert(t[j] == s[a + j]);
                    }
                }
                assert(plain_ws_scan(s, i, start) == seq![t]);
                assert(seq![t][0] == t);
            },
            None => {},
        }
    }
}

proof fn lemma_collapsed_line_has_no_break(line: Seq<char>)
    ensures
        free_of(collapse_line(line), '\n'),
{
    let tokens = whitespace_tokens(line);
    lemma_ws_scan_tokens_free(line, 0, None);
    assert forall|k: int| 0 <= k < tokens.len() implies free_of(#[trigger] tokens[k], '\n') by {
        assert(ws_free(tokens[k]));
        assert forall|j: int| 0 <= j < tokens[k].len() implies tokens[k][j] != '\n' by {
            assert(!is_ws(tokens[k][j]));
        }
    }
    reveal_strlit(" ");
    assert(free_of(" "@, '\n'));
    lemma_join_free(tokens, " "@, '\n');
}

proof fn lemma_scan_nonempty(s: Seq<char>, c: char, i: int, start: int)
    ensures
        char_scan(s, c, i, start).len() >= 1,
    decreases s.len() - i,
{
    if 0 <= i < s.len() {
        if s[i] == c {
            lemma_scan_nonempty(s, c, i + 1, i + 1);
        } else {
            lemma_scan_nonempty(s, c, i + 1, start);
        }
    }
}

/// Explicit line breaks survive whitespace collapse: the text of a list of
/// nodes, split at its line feeds, is exactly the lines of the raw text
/// (where every `<br>` is a line feed), each with its whitespace collapsed.
pub proof fn explicit_breaks_survive_whitespace_collapse(ns: Seq<NodeView>)
    ensures
        split_char_spec(node_text_spec(ns), '\n') == split_char_spec(raw_texts(ns), '\n').map_values(
            |l: Seq<char>| collapse_line(l),
        ),
{
    let lines = split_char_spec(raw_texts(ns), '\n');
    let collapsed = lines.map_values(|l: Seq<char>| collapse_line(l));
    lemma_scan_nonempty(raw_texts(ns), '\n', 0, 0);
    assert forall|k: int| 0 <= k < collapsed.len() implies free_of(#[trigger] collapsed[k], '\n') by {
        lemma_collapsed_line_has_no_break(lines[k]);
    }
    lemma_split_join(collapsed, '\n');
}

/// Floats, appearance, rotation, margins and padding are not inherited:
/// whatever its parent has, an element starts without them, and with the
/// parent's text properties.
pub proof fn box_properties_are_not_inherited(parent: StyleModel)
    ensures
        ({
            let child = element_defaults_model(parent);
            &&& child.float == CssFloat::NoFloat
            &&& !child.appearance_none
            &&& child.rotation_degrees.val() == 0
            &&& child.margin_top.val() == 0 && child.margin_right.val() == 0
            &&& child.margin_bottom.val() == 0 && child.margin_left.val() == 0
            &&& !child.margin_left_auto && !child.margin_right_auto
            &&& child.padding_top.val() == 0 && child.padding_right.val() == 0
            &&& child.padding_bottom.val() == 0 && child.padding_left.val() == 0
            &&& child.color == parent.color && child.font_size == parent.font_size
            &&& child.font_family == parent.font_family && child.line_height == parent.line_height
        }),
{
}

proof fn lemma_trim_start_edge(s: Seq<char>)
    ensures
        trim_start(s).len() > 0 ==> !is_ws(trim_start(s)[0]),
    decreases s.len(),
{
    if s.len() > 0 && is_ws(s[0]) {
        lemma_trim_start_edge(s.drop_first());
    }
}

proof fn lemma_trim_end_edges(s: Seq<char>)
    ensures
        trim_end(s).len() > 0 ==> !is_ws(trim_end(s).last()) && trim_end(s)[0] == s[0],
        trim_end(s).len() <= s.len(),
    decreases s.len(),
{
    if s.len() > 0 && is_ws(s.last()) {
        lemma_trim_end_edges(s.drop_last());
    }
}

/// A trimmed text that is not empty starts and ends with a character that is
/// not whitespace.
proof fn lemma_trim_edges(s: Seq<char>)
    ensures
        trim(s).len() > 0 ==> !is_ws(trim(s)[0]) && !is_ws(trim(s).last()),
{
    lemma_trim_start_edge(s);
    lemma_trim_end_edges(trim_start(s));
}

/// Whether a piece is non-empty and neither starts nor ends with
/// whitespace.
pub open spec fn trimmed_piece(p: Seq<char>) -> bool {
    p.len() > 0 && !is_ws(p[0]) && !is_ws(p.last())
}

proof fn lemma_comma_scan_pieces(s: Seq<char>, i: int, depth: nat, start: int)
    ensures
        comma_scan(s, i, depth, start) matches Some(parts) ==> forall|k: int|
            0 <= k < parts.len() ==> trimmed_piece(#[trigger] parts[k]),
    decreases s.len() - i,
{
    if i < 0 || i >= s.len() {
        lemma_trim_edges(s.subrange(start, s.len() as int));
    } else if s[i] == '(' {
        lemma_comma_scan_pieces(s, i + 1, depth + 1, start);
    } else if s[i] == ')' {
        if depth > 0 {
            lemma_comma_scan_pieces(s, i + 1, (depth - 1) as nat, start);
        }
    } else if s[i] == ',' && depth == 0 {
        let part = trim(s.subrange(start, i));
        lemma_trim_edges(s.subrange(start, i));
        lemma_comma_scan_pieces(s, i + 1, depth, i + 1);
        if part.len() > 0 {
            match comma_scan(s, i + 1, depth, i + 1) {
                Some(rest) => {
                    let all = seq![part] + rest;
                    assert forall|k: int| 0 <= k < all.len() implies trimmed_piece(#[trigger] all[k]) by {
                        if k == 0 {
                            assert(all[k] == part);
                        } else {
                            assert(all[k] == rest[k - 1]);
                        }
                    }
                },
                None => {},
            }
        }
    } else {
        lemma_comma_scan_pieces(s, i + 1, depth, start);
    }
}

/// The top-level arguments of a function are never empty and never start
/// or end with whitespace.
pub proof fn top_level_arguments_are_trimmed_and_non_empty(s: Seq<char>)
    ensures
        top_level_commas(s) matches Some(parts) ==> parts.len() > 0 && forall|k: int|
            0 <= k < parts.len() ==> trimmed_piece(#[trigger] parts[k]),
{
    lemma_comma_scan_pieces(s, 0, 0, 0);
    lemma_comma_scan_nonempty(s, 0, 0, 0);
}

proof fn lemma_comma_scan_nonempty(s: Seq<char>, i: int, depth: nat, start: int)
    ensures
        comma_scan(s, i, depth, start) matches Some(parts) ==> parts.len() > 0,
    decreases s.len() - i,
{
    if 0 <= i < s.len() {
        if s[i] == '(' {
            lemma_comma_scan_nonempty(s, i + 1, depth + 1, start);
        } else if s[i] == ')' {
            if depth > 0 {
                lemma_comma_scan_nonempty(s, i + 1, (depth - 1) as nat, start);
            }
        } else if s[i] == ',' && depth == 0 {
        } else {
            lemma_comma_scan_nonempty(s, i + 1, depth, start);
        }
    }
}

/// A height cached under a key is what the next lookup of that key finds,
/// and every other key keeps what it had.
pub proof fn cached_height_is_read_back(
    before: FlowMeasurementCache,
    after: FlowMeasurementCache,
    key: FlowMeasurementKey,
    height: CssNumber,
    other: FlowMeasurementKey,
)
    requires
        after.heights() == before.heights().insert(key, height),
    ensures
        after.heights().contains_key(key),
        after.heights()[key] == height,
        other != key ==> (after.heights().contains_key(other) == before.heights().contains_key(other)),
        other != key && before.heights().contains_key(other) ==> after.heights()[other] == before.heights()[other],
{
}

/// Every change keeps a focused input holding a value.
pub proof fn changes_keep_the_focused_value(m: FocusModel, c: FocusChange)
    requires
        focus_wf(m),
    ensures
        focus_wf(apply_spec(m, c)),
{
}

/// Focusing an input leaves it focused with a value (an empty one if it had
/// none), keeps every other input's value, and sends `focus` last; focusing
/// the focused input does nothing.
pub proof fn focusing_an_input_focuses_it(m: FocusModel, id: u64, other: u64)
    requires
        focus_wf(m),
    ensures
        apply_all(m, focus_plan(m, id)).focused == Some(id),
        apply_all(m, focus_plan(m, id)).values.contains_key(id),
        other != id && m.values.contains_key(other) ==> apply_all(m, focus_plan(m, id)).values.contains_key(other)
            && apply_all(m, focus_plan(m, id)).values[other] == m.values[other],
        m.focused != Some(id) ==> events_of(focus_plan(m, id)).last() == InputEvent::Focus(id),
        m.focused == Some(id) ==> focus_plan(m, id).len() == 0,
{
    if m.focused != Some(id) {
        let b = blur_plan(m);
        let s = FocusStep { change: FocusChange::FocusOn(id), event: InputEvent::Focus(id) };
        lemma_apply_all_push(m, b, s);
        blurring_commits_and_unfocuses(m);
        assert(events_of(b.push(s)).last() == s.event);
    } else {
        assert(focus_plan(m, id) =~= Seq::<FocusStep>::empty());
        assert(apply_all(m, Seq::<FocusStep>::empty()) == m);
    }
}

/// Blurring leaves no input focused and the blurred input committed, with
/// every value kept; the events are `change` (when the input was edited)
/// then `blur`.
pub proof fn blurring_commits_and_unfocuses(m: FocusModel)
    ensures
        apply_all(m, blur_plan(m)).focused is None,
        apply_all(m, blur_plan(m)).values == m.values,
        m.focused is Some ==> !apply_all(m, blur_plan(m)).dirty.contains(m.focused->0),
        match m.focused {
            Some(id) => events_of(blur_plan(m)) == if m.dirty.contains(id) {
                seq![InputEvent::Change(id), InputEvent::Blur(id)]
            } else {
                seq![InputEvent::Blur(id)]
            },
            None => blur_plan(m).len() == 0,
        },
{
    match m.focused {
        Some(id) => {
            let c = commit_plan(m);
            let s = FocusStep { change: FocusChange::Unfocus, event: InputEvent::Blur(id) };
            lemma_apply_all_push(m, c, s);
            if m.dirty.contains(id) {
                let cs = FocusStep { change: FocusChange::Commit(id), event: InputEvent::Change(id) };
                assert(c == seq![cs]);
                assert(c.drop_first() =~= Seq::<FocusStep>::empty());
                assert(apply_all(m, c) == apply_spec(m, cs.change)) by {
                    reveal_with_fuel(apply_all, 2);
                }
                assert(events_of(c.push(s)) =~= seq![InputEvent::Change(id), InputEvent::Blur(id)]);
            } else {
                assert(c =~= Seq::<FocusStep>::empty());
                assert(events_of(c.push(s)) =~= seq![InputEvent::Blur(id)]);
            }
        },
        None => {},
    }
}

/// Enter in a focused input sends `keydown` to it and then commits it.
pub proof fn enter_commits_the_focused_input(m: FocusModel, body: Option<u64>)
    requires
        m.focused is Some,
    ensures
        events_of(key_down_plan(m, true, body))[0] == InputEvent::KeyDown(m.focused->0),
        !apply_all(m, key_down_plan(m, true, body)).dirty.contains(m.focused->0),
        apply_all(m, key_down_plan(m, true, body)).focused == m.focused,
        apply_all(m, key_down_plan(m, true, body)).values == m.values,
{
    let id = m.focused->0;
    let k = FocusStep { change: FocusChange::Keep, event: InputEvent::KeyDown(id) };
    let c = commit_plan(m);
    assert(key_down_plan(m, true, body) == seq![k] + c);
    assert((seq![k] + c).drop_first() =~= c);
    if m.dirty.contains(id) {
        let cs = FocusStep { change: FocusChange::Commit(id), event: InputEvent::Change(id) };
        assert(c.drop_first() =~= Seq::<FocusStep>::empty());
        assert(apply_all(m, c) == apply_spec(m, cs.change)) by {
            reveal_with_fuel(apply_all, 2);
        }
    } else {
        assert(c =~= Seq::<FocusStep>::empty());
    }
}

/// Without a focused input, key events go to the body and commit nothing.
pub proof fn keys_without_focus_go_to_the_body(m: FocusModel, is_enter: bool, body: Option<u64>)
    requires
        m.focused is None,
    ensures
        key_down_plan(m, is_enter, body) == match body {
            Some(b) => seq![FocusStep { change: FocusChange::Keep, event: InputEvent::KeyDown(b) }],
            None => Seq::<FocusStep>::empty(),
        },
        key_up_plan(m, body) == match body {
            Some(b) => seq![FocusStep { change: FocusChange::Keep, event: InputEvent::KeyUp(b) }],
            None => Seq::<FocusStep>::empty(),
        },
{
}

/// A fragment navigation to an anchor the page has scrolls to it, and a
/// later resize scrolls back to where that anchor then is, within the new
/// scroll range; without the anchor, a resize keeps the scroll position.
pub proof fn resizing_keeps_the_navigated_anchor_in_view(
    anchor: Seq<char>,
    position: int,
    scroll_y: int,
    max_scroll: int,
    new_position: int,
    new_max_scroll: int,
)
    requires
        0 <= max_scroll,
        0 <= new_max_scroll,
    ensures
        fragment_scroll_spec(Some(anchor), Some(position), scroll_y, max_scroll) == (
            clamp_scroll(position, max_scroll),
            Some(anchor),
        ),
        fragment_scroll_spec(Some(anchor), None, scroll_y, max_scroll).1 is None,
        0 <= new_position <= new_max_scroll ==> clamp_scroll(new_position, new_max_scroll) == new_position,
{
}

/// The margin values of a token list, one per token.
proof fn lemma_margin_values_len(m: StyleModel, tokens: Seq<Seq<char>>)
    ensures
        margin_values_all(m, tokens) matches Some(vs) ==> vs.len() == tokens.len()
            && forall|i: int| 0 <= i < tokens.len() ==> margin_value_spec(m, tokens[i]) == Some(#[trigger] vs[i]),
    decreases tokens.len(),
{
    if tokens.len() > 0 {
        lemma_margin_values_len(m, tokens.drop_last());
        if let Some(vs) = margin_values_all(m, tokens) {
            assert forall|i: int| 0 <= i < tokens.len() implies margin_value_spec(m, tokens[i]) == Some(#[trigger] vs[i]) by {
                if i < tokens.len() - 1 {
                    assert(tokens.drop_last()[i] == tokens[i]);
                }
            }
        }
    }
}

/// The margin lengths and automatic flags of a style, top, right, bottom,
/// left.
pub open spec fn margins_of(m: StyleModel) -> Seq<(CssNumber, bool)> {
    seq![
        (m.margin_top, m.margin_top_auto),
        (m.margin_right, m.margin_right_auto),
        (m.margin_bottom, m.margin_bottom_auto),
        (m.margin_left, m.margin_left_auto),
    ]
}

/// A margin value as the style holds it.
pub open spec fn as_margin(v: (int, bool)) -> (CssNumber, bool) {
    (num(v.0), v.1)
}

/// The `margin` shorthand: one to four whitespace-separated values, each
/// `auto` (zero, automatic) or a length, set the four edges as
/// `[a] → a a a a`, `[a b] → a b a b`, `[a b c] → a b c b`,
/// `[a b c d] → a b c d`; any other value changes nothing.
#[verifier::rlimit(80)]
#[verifier::spinoff_prover]
pub proof fn margin_shorthand_expands_one_to_four_values(m: StyleModel, value: Seq<char>)
    ensures
        ({
            let t = top_level_whitespace_tokens(value);
            let after = margin_model(m, value);
            match margin_values_all(m, t) {
                Some(vs) => {
                    &&& vs.len() == t.len()
                    &&& forall|i: int| 0 <= i < t.len() ==> margin_value_spec(m, t[i]) == Some(#[trigger] vs[i])
                    &&& vs.len() == 1 ==> margins_of(after) == seq![as_margin(vs[0]), as_margin(vs[0]), as_margin(vs[0]), as_margin(vs[0])]
                    &&& vs.len() == 2 ==> margins_of(after) == seq![as_margin(vs[0]), as_margin(vs[1]), as_margin(vs[0]), as_margin(vs[1])]
                    &&& vs.len() == 3 ==> margins_of(after) == seq![as_margin(vs[0]), as_margin(vs[1]), as_margin(vs[2]), as_margin(vs[1])]
                    &&& vs.len() == 4 ==> margins_of(after) == seq![as_margin(vs[0]), as_margin(vs[1]), as_margin(vs[2]), as_margin(vs[3])]
                    &&& (vs.len() == 0 || vs.len() > 4) ==> after == m
                },
                None => after == m,
            }
        }),
{
    reveal(margin_model);
    reveal(with_margins);
    let t = top_level_whitespace_tokens(value);
    lemma_margin_values_len(m, t);
    let f = crate::style::box_declaration::margin_fields(m, value);
    let after = margin_model(m, value);
    assert(margins_of(after) == seq![(f.0, f.4), (f.1, f.5), (f.2, f.6), (f.3, f.7)]);
    if let Some(vs) = margin_values_all(m, t) {
        if vs.len() == 0 || vs.len() > 4 {
            assert(margin_model(m, value) =~= m);
        }
    } else {
        assert(margin_model(m, value) =~= m);
    }
}

proof fn lemma_fold_min(v: Seq<int>)
    requires
        v.len() >= 1,
    ensures
        forall|i: int| 0 <= i < v.len() ==> fold_min(v) <= #[trigger] v[i],
        exists|i: int| 0 <= i < v.len() && fold_min(v) == #[trigger] v[i],
    decreases v.len(),
{
    if v.len() > 1 {
        lemma_fold_min(v.drop_last());
        let j = choose|i: int| 0 <= i < v.drop_last().len() && fold_min(v.drop_last()) == #[trigger] v.drop_last()[i];
        assert forall|i: int| 0 <= i < v.len() implies fold_min(v) <= #[trigger] v[i] by {
            if i < v.len() - 1 {
                assert(v.drop_last()[i] == v[i]);
            }
        }
        if fold_min(v) == v.last() {
            assert(fold_min(v) == v[v.len() - 1]);
        } else {
            assert(fold_min(v) == v[j]);
        }
    } else {
        assert(fold_min(v) == v[0]);
    }
}

proof fn lemma_fold_max(v: Seq<int>)
    requires
        v.len() >= 1,
    ensures
        forall|i: int| 0 <= i < v.len() ==> fold_max(v) >= #[trigger] v[i],
        exists|i: int| 0 <= i < v.len() && fold_max(v) == #[trigger] v[i],
    decreases v.len(),
{
    if v.len() > 1 {
        lemma_fold_max(v.drop_last());
        let j = choose|i: int| 0 <= i < v.drop_last().len() && fold_max(v.drop_last()) == #[trigger] v.drop_last()[i];
        assert forall|i: int| 0 <= i < v.len() implies fold_max(v) >= #[trigger] v[i] by {
            if i < v.len() - 1 {
                assert(v.drop_last()[i] == v[i]);
            }
        }
        if fold_max(v) == v.last() {
            assert(fold_max(v) == v[v.len() - 1]);
        } else {
            assert(fold_max(v) == v[j]);
        }
    } else {
        assert(fold_max(v) == v[0]);
    }
}

proof fn lemma_args_px_len(args: Seq<Seq<char>>, bound: nat, em: int, vw: int, vh: int)
    ensures
        args_px(args, bound, em, vw, vh) matches Some(vs) ==> vs.len() == args.len(),
    decreases args.len(),
{
    if args.len() > 0 {
        lemma_args_px_len(args.drop_last(), bound, em, vw, vh);
    }
}

/// `min()`, `max()` and `clamp()` (the first of them that the value calls):
/// a value calling none of them is no math function; an argument that does
/// not resolve makes the value invalid; `min` gives the least argument and
/// `max` the greatest (one of the arguments either way); `clamp(lo, p, hi)`
/// gives `p` raised to `lo` and lowered to `hi` (or to `lo` where `hi` is
/// below it); `clamp` with other than three arguments is invalid.
pub proof fn math_functions_pick_min_max_and_clamp(s: Seq<char>, em: int, vw: int, vh: int)
    ensures
        match math_call(s) {
            None => named_function_px(s, em, vw, vh) is None,
            Some((f, args)) => match args_px(args, s.len(), em, vw, vh) {
                None => named_function_px(s, em, vw, vh) == Some(None::<int>),
                Some(vs) => {
                    &&& vs.len() == args.len()
                    &&& (f == MathFunction::Min && vs.len() >= 1) ==> (named_function_px(s, em, vw, vh) matches Some(
                        Some(x),
                    ) && (forall|i: int| 0 <= i < vs.len() ==> x <= #[trigger] vs[i]) && (exists|i: int|
                        0 <= i < vs.len() && x == #[trigger] vs[i]))
                    &&& (f == MathFunction::Max && vs.len() >= 1) ==> (named_function_px(s, em, vw, vh) matches Some(
                        Some(x),
                    ) && (forall|i: int| 0 <= i < vs.len() ==> x >= #[trigger] vs[i]) && (exists|i: int|
                        0 <= i < vs.len() && x == #[trigger] vs[i]))
                    &&& (f == MathFunction::Clamp && vs.len() == 3) ==> named_function_px(s, em, vw, vh) == Some(
                        Some(min_int(max_int(vs[1], vs[0]), max_int(vs[2], vs[0]))),
                    )
                    &&& (f == MathFunction::Clamp && vs.len() != 3) ==> named_function_px(s, em, vw, vh) == Some(
                        None::<int>,
                    )
                    &&& vs.len() == 0 ==> named_function_px(s, em, vw, vh) == Some(None::<int>)
                },
            },
        },
{
    if let Some((f, args)) = math_call(s) {
        lemma_args_px_len(args, s.len(), em, vw, vh);
        if let Some(vs) = args_px(args, s.len(), em, vw, vh) {
            if vs.len() >= 1 {
                lemma_fold_min(vs);
                lemma_fold_max(vs);
            }
        }
    }
}

/// Seeding adds a value only for an input control found among the nodes.
pub proof fn seeding_adds_only_inputs(m: Map<u64, Seq<char>>, ns: Seq<NodeView>, k: u64)
    ensures
        seeded(m, ns).contains_key(k) ==> m.contains_key(k) || has_input(ns, k),
    decreases ns, 0int,
{
    if ns.len() > 0 {
        let before = seeded(m, ns.drop_last());
        seeding_adds_only_inputs(m, ns.drop_last(), k);
        seeding_node_adds_only_inputs(before, ns.last(), k);
    }
}

/// Seeding a node adds a value only for an input control in it.
pub proof fn seeding_node_adds_only_inputs(m: Map<u64, Seq<char>>, n: NodeView, k: u64)
    ensures
        seeded_node(m, n).contains_key(k) ==> m.contains_key(k) || has_input_node(n, k),
    decreases n, 1int,
{
    match n {
        NodeView::Element { node_id, tag, attributes, children } => {
            let m1 = if crate::document::is_input_tag_spec(tag) && !m.contains_key(node_id) {
                m.insert(node_id, crate::document::initial_value_spec(attributes))
            } else {
                m
            };
            seeding_adds_only_inputs(m1, children, k);
        },
        NodeView::Text(_) => {},
    }
}

/// The initial value of the first input control with the id `id` among the
/// nodes, in document order.
pub open spec fn first_input_value(ns: Seq<NodeView>, id: u64) -> Seq<char>
    decreases ns, 0int,
{
    if ns.len() == 0 {
        Seq::empty()
    } else if has_input(ns.drop_last(), id) {
        first_input_value(ns.drop_last(), id)
    } else {
        first_input_value_node(ns.last(), id)
    }
}

/// The initial value of the first input control with the id `id` in the
/// node, the node itself first.
pub open spec fn first_input_value_node(n: NodeView, id: u64) -> Seq<char>
    decreases n, 1int,
{
    match n {
        NodeView::Element { node_id, tag, attributes, children } => if crate::document::is_input_tag_spec(tag)
            && node_id == id {
            crate::document::initial_value_spec(attributes)
        } else {
            first_input_value(children, id)
        },
        NodeView::Text(_) => Seq::empty(),
    }
}

/// An input without a value yet is seeded with the initial value of the
/// first input control with its id, in document order.
pub proof fn seeding_takes_the_first_initial_value(m: Map<u64, Seq<char>>, ns: Seq<NodeView>, id: u64)
    requires
        !m.contains_key(id),
        has_input(ns, id),
    ensures
        seeded(m, ns).contains_key(id),
        seeded(m, ns)[id] == first_input_value(ns, id),
    decreases ns, 0int,
{
    let before = seeded(m, ns.drop_last());
    assert(seeded(m, ns) == seeded_node(before, ns.last()));
    if has_input(ns.drop_last(), id) {
        seeding_takes_the_first_initial_value(m, ns.drop_last(), id);
        seeding_node_keeps_existing_values(before, ns.last());
        assert(first_input_value(ns, id) == first_input_value(ns.drop_last(), id));
        assert(before.contains_key(id));
    } else {
        seeding_adds_only_inputs(m, ns.drop_last(), id);
        assert(!before.contains_key(id));
        assert(has_input_node(ns.last(), id));
        assert(first_input_value(ns, id) == first_input_value_node(ns.last(), id));
        seeding_node_takes_the_first_initial_value(before, ns.last(), id);
    }
}

/// A node's input without a value yet is seeded with the initial value of
/// the first input control with its id in the node.
pub proof fn seeding_node_takes_the_first_initial_value(m: Map<u64, Seq<char>>, n: NodeView, id: u64)
    requires
        !m.contains_key(id),
        has_input_node(n, id),
    ensures
        seeded_node(m, n).contains_key(id),
        seeded_node(m, n)[id] == first_input_value_node(n, id),
    decreases n, 1int,
{
    match n {
        NodeView::Element { node_id, tag, attributes, children } => {
            let m1 = if crate::document::is_input_tag_spec(tag) && !m.contains_key(node_id) {
                m.insert(node_id, crate::document::initial_value_spec(attributes))
            } else {
                m
            };
            assert(seeded_node(m, n) == seeded(m1, children));
            if crate::document::is_input_tag_spec(tag) && node_id == id {
                seeding_keeps_existing_values(m1, children);
                assert(m1.contains_key(id));
            } else {
                assert(!m1.contains_key(id));
                seeding_takes_the_first_initial_value(m1, children, id);
            }
        },
        NodeView::Text(_) => {},
    }
}

/// The rows of consecutive nodes are those of the first nodes, then those
/// of the rest: rows are found in document order.
pub proof fn table_rows_follow_document_order(a: Seq<NodeView>, b: Seq<NodeView>)
    ensures
        rows_of(a + b) == rows_of(a) + rows_of(b),
    decreases b.len(),
{
    if b.len() == 0 {
        assert(a + b =~= a);
        assert(rows_of(a) + rows_of(b) =~= rows_of(a));
    } else {
        table_rows_follow_document_order(a, b.drop_last());
        assert((a + b).drop_last() =~= a + b.drop_last());
        assert((a + b).last() == b.last());
        assert(rows_of(a + b) =~= rows_of(a) + rows_of(b));
    }
}

/// The rows of one node: a `tr` with at least one `th` or `td` child is one
/// row of those children, in order; a `tr` without is none; any other
/// element holds the rows of its children, in order; text holds none.
pub proof fn table_rows_of_one_node(n: NodeView)
    ensures
        rows_of(seq![n]) == rows_in(n),
        match n {
            NodeView::Element { tag, children, .. } => if tag == "tr"@ {
                rows_in(n) == if cells_of(children).len() > 0 {
                    seq![cells_of(children)]
                } else {
                    Seq::empty()
                }
            } else {
                rows_in(n) == rows_of(children)
            },
            NodeView::Text(_) => rows_in(n).len() == 0,
        },
{
    let one = seq![n];
    assert(one.drop_last() =~= Seq::<NodeView>::empty());
    assert(one.last() == n);
    assert(rows_of(Seq::<NodeView>::empty()).len() == 0);
    assert(rows_of(one) == rows_of(one.drop_last()) + rows_in(one.last()));
    assert(rows_of(one) =~= rows_in(n));
}

/// The cells of a row's children are those of the first children, then
/// those of the rest.
pub proof fn row_cells_follow_document_order(a: Seq<NodeView>, b: Seq<NodeView>)
    ensures
        cells_of(a + b) == cells_of(a) + cells_of(b),
    decreases b.len(),
{
    if b.len() == 0 {
        assert(a + b =~= a);
        assert(cells_of(a) + cells_of(b) =~= cells_of(a));
    } else {
        row_cells_follow_document_order(a, b.drop_last());
        assert((a + b).drop_last() =~= a + b.drop_last());
        assert((a + b).last() == b.last());
        assert(cells_of(a + b) =~= cells_of(a) + cells_of(b));
    }
}

/// How deep in parentheses `s` is before its character `i`: the opening
/// parentheses before it less the closing ones.
pub open spec fn paren_depth(s: Seq<char>, i: int) -> int
    decreases i,
{
    if i <= 0 {
        0
    } else {
        paren_depth(s, i - 1) + if s[i - 1] == '(' {
            1int
        } else if s[i - 1] == ')' {
            -1int
        } else {
            0int
        }
    }
}

/// No closing parenthesis among the first `i` characters closes more than
/// was opened.
pub open spec fn never_unbalanced(s: Seq<char>, i: int) -> bool {
    forall|j: int| 1 <= j <= i ==> #[trigger] paren_depth(s, j) >= 0
}

/// Character `i` of `s` is `sep` outside any parentheses (a parenthesis is
/// never a separator).
pub open spec fn top_level_separator(s: Seq<char>, i: int, sep: char) -> bool {
    0 <= i < s.len() && s[i] == sep && sep != '(' && sep != ')' && paren_depth(s, i) == 0
}

proof fn lemma_once_scan(s: Seq<char>, i: int, depth: nat, sep: char)
    requires
        0 <= i <= s.len(),
        depth == paren_depth(s, i),
        never_unbalanced(s, i),
        forall|j: int| 0 <= j < i ==> !top_level_separator(s, j, sep),
    ensures
        match once_scan(s, i, depth, sep) {
            Some(k) => i <= k < s.len() && top_level_separator(s, k, sep) && never_unbalanced(s, k) && forall|j: int|
                0 <= j < k ==> !top_level_separator(s, j, sep),
            None => forall|k: int| #![trigger top_level_separator(s, k, sep)] i <= k ==> !(top_level_separator(s, k, sep)
                && never_unbalanced(s, k)),
        },
    decreases s.len() - i,
{
    if i < s.len() {
        let c = s[i];
        assert(paren_depth(s, i + 1) == paren_depth(s, i) + if c == '(' {
            1int
        } else if c == ')' {
            -1int
        } else {
            0int
        });
        if c == ')' && depth == 0 {
            assert forall|k: int| #![trigger top_level_separator(s, k, sep)] i <= k implies !(top_level_separator(s, k, sep)
                && never_unbalanced(s, k)) by {
                if k > i && never_unbalanced(s, k) {
                    assert(paren_depth(s, i + 1) >= 0);
                }
            }
        } else if c != '(' && c != ')' && c == sep && depth == 0 {
        } else {
            let d: nat = if c == '(' {
                depth + 1
            } else if c == ')' {
                (depth - 1) as nat
            } else {
                depth
            };
            assert(never_unbalanced(s, i + 1));
            lemma_once_scan(s, i + 1, d, sep);
            match once_scan(s, i, depth, sep) {
                Some(k) => {},
                None => {
                    assert forall|k: int| #![trigger top_level_separator(s, k, sep)] i <= k implies !(
                    top_level_separator(s, k, sep) && never_unbalanced(s, k)) by {
                        if k == i {
                            assert(!top_level_separator(s, i, sep));
                        }
                    }
                },
            }
        }
    }
}

/// Splitting once at a separator: the result puts the text back together
/// around the separator, and splits at the first separator outside
/// parentheses, before any closing parenthesis closes more than was opened;
/// there is no split exactly when no such separator occurs.
pub proof fn split_once_splits_at_the_first_top_level_separator(s: Seq<char>, sep: char)
    ensures
        match split_once_spec(s, sep) {
            Some((a, b)) => {
                &&& a + seq![sep] + b == s
                &&& top_level_separator(s, a.len() as int, sep)
                &&& never_unbalanced(s, a.len() as int)
                &&& forall|j: int| 0 <= j < a.len() ==> !top_level_separator(s, j, sep)
            },
            None => forall|k: int| !(#[trigger] top_level_separator(s, k, sep) && never_unbalanced(s, k)),
        },
{
    lemma_once_scan(s, 0, 0, sep);
    match once_scan(s, 0, 0, sep) {
        Some(k) => {
            let a = s.subrange(0, k);
            let b = s.subrange(k + 1, s.len() as int);
            assert(a + seq![sep] + b =~= s);
        },
        None => {
            assert forall|k: int| !(#[trigger] top_level_separator(s, k, sep) && never_unbalanced(s, k)) by {
                if k < 0 {
                }
            }
        },
    }
}

/// A piece between top-level commas: its parentheses balance, and it holds
/// no comma outside them.
pub open spec fn balanced_comma_free(r: Seq<char>) -> bool {
    &&& never_unbalanced(r, r.len() as int)
    &&& paren_depth(r, r.len() as int) == 0
    &&& forall|k: int| !#[trigger] top_level_separator(r, k, ',')
}

proof fn lemma_paren_depth_prefix(a: Seq<char>, b: Seq<char>, k: int)
    requires
        0 <= k <= a.len(),
        k <= b.len(),
        forall|j: int| 0 <= j < k ==> a[j] == b[j],
    ensures
        paren_depth(a, k) == paren_depth(b, k),
    decreases k,
{
    if k > 0 {
        lemma_paren_depth_prefix(a, b, k - 1);
    }
}

proof fn lemma_comma_scan_balanced_pieces(s: Seq<char>, i: int, depth: nat, start: int)
    requires
        0 <= start <= i <= s.len(),
        depth == paren_depth(s.subrange(start, i), i - start),
        never_unbalanced(s.subrange(start, i), i - start),
        forall|k: int| !#[trigger] top_level_separator(s.subrange(start, i), k, ','),
    ensures
        comma_scan(s, i, depth, start) matches Some(out) ==> exists|raw: Seq<Seq<char>>|
            {
                &&& raw.len() == out.len() >= 1
                &&& join_with(raw, seq![',']) == s.subrange(start, s.len() as int)
                &&& forall|j: int| 0 <= j < raw.len() ==> balanced_comma_free(#[trigger] raw[j]) && trim(raw[j]).len() > 0
                &&& out == raw.map_values(|p: Seq<char>| trim(p))
            },
    decreases s.len() - i,
{
    let r = s.subrange(start, i);
    if i >= s.len() {
        if let Some(out) = comma_scan(s, i, depth, start) {
            assert(depth == 0);
            assert(out == seq![trim(r)]);
            let raw = seq![r];
            assert(raw.map_values(|p: Seq<char>| trim(p)) =~= out);
            assert(balanced_comma_free(raw[0]));
            assert(join_with(raw, seq![',']) == r);
        }
    } else {
        let c = s[i];
        let r2 = s.subrange(start, i + 1);
        assert forall|j: int| 0 <= j < i - start implies r[j] == r2[j] by {}
        assert forall|k: int| 0 <= k <= i - start implies paren_depth(r2, k) == paren_depth(r, k) by {
            lemma_paren_depth_prefix(r2, r, k);
        }
        assert(r2[i - start] == c);
        if c == ',' && depth == 0 {
            if let Some(out) = comma_scan(s, i, depth, start) {
                let empty = s.subrange(i + 1, i + 1);
                assert(empty =~= Seq::<char>::empty());
                assert forall|k: int| !#[trigger] top_level_separator(empty, k, ',') by {}
                lemma_comma_scan_balanced_pieces(s, i + 1, 0, i + 1);
                let rest = comma_scan(s, i + 1, 0, i + 1)->0;
                let raw_rest = choose|raw: Seq<Seq<char>>|
                    {
                        &&& raw.len() == rest.len() >= 1
                        &&& join_with(raw, seq![',']) == s.subrange(i + 1, s.len() as int)
                        &&& forall|j: int| 0 <= j < raw.len() ==> balanced_comma_free(#[trigger] raw[j]) && trim(raw[j]).len() > 0
                        &&& rest == raw.map_values(|p: Seq<char>| trim(p))
                    };
                let raw = seq![r] + raw_rest;
                lemma_join_front(raw, seq![',']);
                assert(raw.drop_first() =~= raw_rest);
                assert(raw[0] == r);
                assert(r + seq![','] + s.subrange(i + 1, s.len() as int) =~= s.subrange(start, s.len() as int));
                assert(balanced_comma_free(r));
                assert forall|j: int| 0 <= j < raw.len() implies balanced_comma_free(#[trigger] raw[j]) && trim(raw[j]).len() > 0 by {
                    if j > 0 {
                        assert(raw[j] == raw_rest[j - 1]);
                    }
                }
                assert(raw.map_values(|p: Seq<char>| trim(p)) =~= out);
            }
        } else if c == ')' && depth == 0 {
        } else {
            let d: nat = if c == '(' {
                depth + 1
            } else if c == ')' {
                (depth - 1) as nat
            } else {
                depth
            };
            assert(paren_depth(r2, i + 1 - start) == d);
            assert(never_unbalanced(r2, i + 1 - start));
            assert forall|k: int| !#[trigger] top_level_separator(r2, k, ',') by {
                if 0 <= k < i - start {
                    assert(!top_level_separator(r, k, ','));
                }
            }
            lemma_comma_scan_balanced_pieces(s, i + 1, d, start);
            assert(comma_scan(s, i, depth, start) == comma_scan(s, i + 1, d, start));
        }
    }
}

/// Splitting at top-level commas: a result is the text cut at its commas
/// outside parentheses into pieces whose parentheses balance, each piece
/// trimmed and none empty; the pieces, joined again with commas, give back
/// the text.
pub proof fn top_level_commas_cut_at_balanced_pieces(s: Seq<char>)
    ensures
        top_level_commas(s) matches Some(out) ==> exists|raw: Seq<Seq<char>>|
            {
                &&& raw.len() == out.len() >= 1
                &&& join_with(raw, seq![',']) == s
                &&& forall|j: int| 0 <= j < raw.len() ==> balanced_comma_free(#[trigger] raw[j]) && trim(raw[j]).len() > 0
                &&& out == raw.map_values(|p: Seq<char>| trim(p))
            },
{
    let e = s.subrange(0, 0);
    assert(e =~= Seq::<char>::empty());
    assert forall|k: int| !#[trigger] top_level_separator(e, k, ',') by {}
    lemma_comma_scan_balanced_pieces(s, 0, 0, 0);
    assert(s.subrange(0, s.len() as int) =~= s);
}

/// Scanning through a balanced, comma-free piece ends at its end with no
/// parenthesis open.
proof fn lemma_scan_through_piece(s: Seq<char>, start: int, p: Seq<char>, j: int)
    requires
        0 <= start,
        start + p.len() <= s.len(),
        s.subrange(start, start + p.len()) == p,
        balanced_comma_free(p),
        0 <= j <= p.len(),
    ensures
        comma_scan(s, start + j, paren_depth(p, j) as nat, start) == comma_scan(s, start + p.len(), 0, start),
    decreases p.len() - j,
{
    if j < p.len() {
        let c = p[j];
        assert(s[start + j] == s.subrange(start, start + p.len())[j]);
        assert(paren_depth(p, j + 1) >= 0);
        if j >= 1 {
            assert(paren_depth(p, j) >= 0);
        }
        assert(!top_level_separator(p, j, ','));
        lemma_scan_through_piece(s, start, p, j + 1);
    }
}

proof fn lemma_scan_joined(s: Seq<char>, start: int, raw: Seq<Seq<char>>)
    requires
        0 <= start <= s.len(),
        raw.len() >= 1,
        s.subrange(start, s.len() as int) == join_with(raw, seq![',']),
        forall|j: int| 0 <= j < raw.len() ==> balanced_comma_free(#[trigger] raw[j]) && trim(raw[j]).len() > 0,
    ensures
        comma_scan(s, start, 0, start) == Some(raw.map_values(|p: Seq<char>| trim(p))),
    decreases raw.len(),
{
    let p = raw[0];
    assert(balanced_comma_free(p) && trim(p).len() > 0);
    if raw.len() == 1 {
        assert(join_with(raw, seq![',']) == p);
        assert(s.subrange(start, start + p.len()) =~= p);
        lemma_scan_through_piece(s, start, p, 0);
        let e = start + p.len();
        assert(s.subrange(start, e) =~= p);
        assert(raw.map_values(|q: Seq<char>| trim(q)) =~= seq![trim(p)]);
    } else {
        lemma_join_front(raw, seq![',']);
        let rest = raw.drop_first();
        let e = start + p.len();
        assert(s.subrange(start, s.len() as int) == p + seq![','] + join_with(rest, seq![',']));
        assert(s.subrange(start, e) =~= p);
        assert(s[e] == ',') by {
            assert(s[e] == s.subrange(start, s.len() as int)[p.len() as int]);
        }
        assert(s.subrange(e + 1, s.len() as int) =~= join_with(rest, seq![','])) by {
            assert forall|k: int| 0 <= k < s.len() - (e + 1) implies s.subrange(e + 1, s.len() as int)[k]
                == join_with(rest, seq![','])[k] by {
                assert(s.subrange(e + 1, s.len() as int)[k] == s.subrange(start, s.len() as int)[p.len() + 1 + k]);
            }
        }
        assert forall|j: int| 0 <= j < rest.len() implies balanced_comma_free(#[trigger] rest[j]) && trim(rest[j]).len()
            > 0 by {
            assert(rest[j] == raw[j + 1]);
        }
        lemma_scan_through_piece(s, start, p, 0);
        lemma_scan_joined(s, e + 1, rest);
        assert(raw.map_values(|q: Seq<char>| trim(q)) =~= seq![trim(p)] + rest.map_values(|q: Seq<char>| trim(q)));
    }
}

/// Text made of balanced, comma-free pieces joined with commas, none empty
/// once trimmed, splits at top-level commas into exactly those pieces,
/// trimmed.
pub proof fn balanced_pieces_split_at_top_level_commas(raw: Seq<Seq<char>>)
    requires
        raw.len() >= 1,
        forall|j: int| 0 <= j < raw.len() ==> balanced_comma_free(#[trigger] raw[j]) && trim(raw[j]).len() > 0,
    ensures
        top_level_commas(join_with(raw, seq![','])) == Some(raw.map_values(|p: Seq<char>| trim(p))),
{
    let s = join_with(raw, seq![',']);
    assert(s.subrange(0, s.len() as int) =~= s);
    lemma_scan_joined(s, 0, raw);
}

/// `padding` sets the four edges as the shorthand does; `padding-<edge>`
/// (the name as written) sets that edge to a non-negative length, or leaves
/// it where the value does not parse; any other name changes nothing.
#[verifier::rlimit(50)]
pub proof fn padding_property_sets_the_named_edges(m: StyleModel, name: Seq<char>, value: Seq<char>)
    ensures
        name == "padding"@ ==> padding_property_model(m, name, value) == padding_model(m, value),
        name == "padding-top"@ ==> padding_property_model(m, name, value) == (StyleModel {
            padding_top: num_or(box_length_spec(m, value, false), m.padding_top),
            ..m
        }),
        name == "padding-right"@ ==> padding_property_model(m, name, value) == (StyleModel {
            padding_right: num_or(box_length_spec(m, value, false), m.padding_right),
            ..m
        }),
        name == "padding-bottom"@ ==> padding_property_model(m, name, value) == (StyleModel {
            padding_bottom: num_or(box_length_spec(m, value, false), m.padding_bottom),
            ..m
        }),
        name == "padding-left"@ ==> padding_property_model(m, name, value) == (StyleModel {
            padding_left: num_or(box_length_spec(m, value, false), m.padding_left),
            ..m
        }),
        !(name == "padding"@ || name == "padding-top"@ || name == "padding-right"@ || name == "padding-bottom"@
            || name == "padding-left"@) ==> padding_property_model(m, name, value) == m,
{
    reveal(padding_property_model);
    reveal_strlit("padding");
    reveal_strlit("padding-top");
    reveal_strlit("padding-right");
    reveal_strlit("padding-bottom");
    reveal_strlit("padding-left");
    assert("padding"@.len() == 7);
    assert("padding-top"@.len() == 11);
    assert("padding-left"@.len() == 12);
    assert("padding-right"@.len() == 13);
    assert("padding-bottom"@.len() == 14);
    if name != "padding"@ {
        let f = crate::style::box_declaration::padding_edge_fields(m, name, value);
        let x = box_length_spec(m, value, false);
        assert(padding_property_model(m, name, value) == (StyleModel {
            padding_top: f.0,
            padding_right: f.1,
            padding_bottom: f.2,
            padding_left: f.3,
            ..m
        }));
        if name == "padding-top"@ {
            assert(name != "padding-right"@ && name != "padding-bottom"@ && name != "padding-left"@);
            assert(f == (num_or(x, m.padding_top), m.padding_right, m.padding_bottom, m.padding_left));
            assert(padding_property_model(m, name, value) == (StyleModel { padding_top: num_or(x, m.padding_top), ..m }));
        } else if name == "padding-right"@ {
            assert(name != "padding-bottom"@ && name != "padding-left"@);
            assert(f == (m.padding_top, num_or(x, m.padding_right), m.padding_bottom, m.padding_left));
            assert(padding_property_model(m, name, value) == (StyleModel { padding_right: num_or(x, m.padding_right), ..m }));
        } else if name == "padding-bottom"@ {
            assert(name != "padding-left"@);
            assert(f == (m.padding_top, m.padding_right, num_or(x, m.padding_bottom), m.padding_left));
            assert(padding_property_model(m, name, value) == (StyleModel { padding_bottom: num_or(x, m.padding_bottom), ..m }));
        } else if name == "padding-left"@ {
            assert(f == (m.padding_top, m.padding_right, m.padding_bottom, num_or(x, m.padding_left)));
            assert(padding_property_model(m, name, value) == (StyleModel { padding_left: num_or(x, m.padding_left), ..m }));
        } else {
            assert(f == (m.padding_top, m.padding_right, m.padding_bottom, m.padding_left));
        }
    }
}

proof fn lemma_border_prefix(n: Seq<char>, side: Seq<char>)
    requires
        n == "border-"@ + side,
    ensures
        strip_prefix(n, "border-"@) == Some(side),
{
    reveal_strlit("border-");
    assert(n.subrange(0, 7) =~= "border-"@);
    assert(n.subrange(7, n.len() as int) =~= side);
}

proof fn lemma_width_name(name: Seq<char>, side: Seq<char>)
    requires
        name == "border-"@ + side + "-width"@,
    ensures
        width_name_side(name) == Some(side),
{
    reveal_strlit("border-");
    reveal_strlit("-width");
    assert(name.subrange(0, 7) =~= "border-"@);
    let rest = name.subrange(7, name.len() as int);
    assert(rest =~= side + "-width"@);
    assert(rest.subrange(rest.len() - 6, rest.len() as int) =~= "-width"@);
    assert(rest.subrange(0, rest.len() - 6) =~= side);
}

/// `border-<edge>-width` with a non-negative pixel length sets that edge's
/// width and nothing else; a value that does not parse, or any other name,
/// changes nothing.
pub proof fn border_side_width_sets_one_edge(m: StyleModel, name: Seq<char>, value: Seq<char>)
    ensures
        name == "border-top-width"@ ==> border_side_width_model(m, name, value) == match px_spec(value) {
            Some(w) => StyleModel { border_top_width: Some(num(w)), ..m },
            None => m,
        },
        name == "border-right-width"@ ==> border_side_width_model(m, name, value) == match px_spec(value) {
            Some(w) => StyleModel { border_right_width: Some(num(w)), ..m },
            None => m,
        },
        name == "border-bottom-width"@ ==> border_side_width_model(m, name, value) == match px_spec(value) {
            Some(w) => StyleModel { border_bottom_width: Some(num(w)), ..m },
            None => m,
        },
        name == "border-left-width"@ ==> border_side_width_model(m, name, value) == match px_spec(value) {
            Some(w) => StyleModel { border_left_width: Some(num(w)), ..m },
            None => m,
        },
        !side_width_name(name) ==> border_side_width_model(m, name, value) == m,
{
    reveal(border_side_width_model);
    reveal(set_side_width_model);
    reveal_strlit("border-");
    reveal_strlit("-width");
    reveal_strlit("border-top-width");
    reveal_strlit("top");
    reveal_strlit("border-right-width");
    reveal_strlit("right");
    reveal_strlit("border-bottom-width");
    reveal_strlit("bottom");
    reveal_strlit("border-left-width");
    reveal_strlit("left");
    match (px_spec(value), width_name_side(name)) {
        (Some(w), Some(side)) => {
            let rest = name.subrange(7, name.len() as int);
            assert(side == rest.subrange(0, rest.len() - 6));
            if side == "top"@ || side == "right"@ || side == "bottom"@ || side == "left"@ {
                assert(name =~= "border-"@ + side + "-width"@);
                assert("border-top-width"@ =~= "border-"@ + "top"@ + "-width"@);
                assert("border-right-width"@ =~= "border-"@ + "right"@ + "-width"@);
                assert("border-bottom-width"@ =~= "border-"@ + "bottom"@ + "-width"@);
                assert("border-left-width"@ =~= "border-"@ + "left"@ + "-width"@);
                assert(side_width_name(name));
            } else {
                assert(set_side_width_model(m, side, num(w)) == m);
            }
        },
        _ => {},
    }
    if name == "border-top-width"@ {
        assert("border-top-width"@ =~= "border-"@ + "top"@ + "-width"@);
        lemma_width_name(name, "top"@);
    }
    if name == "border-right-width"@ {
        assert("border-right-width"@ =~= "border-"@ + "right"@ + "-width"@);
        lemma_width_name(name, "right"@);
    }
    if name == "border-bottom-width"@ {
        assert("border-bottom-width"@ =~= "border-"@ + "bottom"@ + "-width"@);
        lemma_width_name(name, "bottom"@);
    }
    if name == "border-left-width"@ {
        assert("border-left-width"@ =~= "border-"@ + "left"@ + "-width"@);
        lemma_width_name(name, "left"@);
    }
}

/// `border-<edge>` (any case): that edge's width becomes `0` for `none`,
/// else the first pixel length, else one pixel where the value names a
/// color, else the edge's current width; the edge takes the value's color
/// where it has one; nothing else changes. A name without the `border-`
/// prefix, or with another edge name after it, changes nothing.
#[verifier::rlimit(100)]
#[verifier::spinoff_prover]
pub proof fn border_side_sets_one_edge(m: StyleModel, name: Seq<char>, value: Seq<char>)
    ensures
        strip_prefix(lower(name), "border-"@) is None ==> border_side_model(m, name, value) == m,
        lower(name) == "border-top"@ ==> border_side_model(m, name, value) == (StyleModel {
            border_top_width: Some(
                declared_border_width(
                    value,
                    border_color_spec(value) is Some,
                    match m.border_top_width {
                        Some(w) => w,
                        None => m.border_width,
                    },
                ),
            ),
            border_top_color: match border_color_spec(value) {
                Some(c) => Some(c),
                None => m.border_top_color,
            },
            ..m
        }),
        lower(name) == "border-right"@ ==> border_side_model(m, name, value) == (StyleModel {
            border_right_width: Some(
                declared_border_width(
                    value,
                    border_color_spec(value) is Some,
                    match m.border_right_width {
                        Some(w) => w,
                        None => m.border_width,
                    },
                ),
            ),
            border_right_color: match border_color_spec(value) {
                Some(c) => Some(c),
                None => m.border_right_color,
            },
            ..m
        }),
        lower(name) == "border-bottom"@ ==> border_side_model(m, name, value) == (StyleModel {
            border_bottom_width: Some(
                declared_border_width(
                    value,
                    border_color_spec(value) is Some,
                    match m.border_bottom_width {
                        Some(w) => w,
                        None => m.border_width,
                    },
                ),
            ),
            border_bottom_color: match border_color_spec(value) {
                Some(c) => Some(c),
                None => m.border_bottom_color,
            },
            ..m
        }),
        lower(name) == "border-left"@ ==> border_side_model(m, name, value) == (StyleModel {
            border_left_width: Some(
                declared_border_width(
                    value,
                    border_color_spec(value) is Some,
                    match m.border_left_width {
                        Some(w) => w,
                        None => m.border_width,
                    },
                ),
            ),
            border_left_color: match border_color_spec(value) {
                Some(c) => Some(c),
                None => m.border_left_color,
            },
            ..m
        }),
        (strip_prefix(lower(name), "border-"@) matches Some(side) && !(side == "top"@ || side == "right"@ || side
            == "bottom"@ || side == "left"@)) ==> border_side_model(m, name, value) == m,
{
    reveal(border_side_model);
    reveal(set_side_width_model);
    reveal(set_side_color_model);
    reveal_strlit("border-");
    reveal_strlit("border-top");
    reveal_strlit("top");
    reveal_strlit("border-right");
    reveal_strlit("right");
    reveal_strlit("border-bottom");
    reveal_strlit("bottom");
    reveal_strlit("border-left");
    reveal_strlit("left");
    let n = lower(name);
    match strip_prefix(n, "border-"@) {
        None => {},
        Some(side) => {
            let color = border_color_spec(value);
            let width = declared_border_width(value, color is Some, side_width_of(m, side));
            let m1 = set_side_width_model(m, side, width);
            if !(side == "top"@ || side == "right"@ || side == "bottom"@ || side == "left"@) {
                assert(m1 == m);
                if let Some(c) = color {
                    assert(set_side_color_model(m1, side, c) == m1);
                }
            }
        },
    }
    if n == "border-top"@ {
        assert("border-top"@ =~= "border-"@ + "top"@);
        lemma_border_prefix(n, "top"@);
    }
    if n == "border-right"@ {
        assert("border-right"@ =~= "border-"@ + "right"@);
        lemma_border_prefix(n, "right"@);
    }
    if n == "border-bottom"@ {
        assert("border-bottom"@ =~= "border-"@ + "bottom"@);
        lemma_border_prefix(n, "bottom"@);
    }
    if n == "border-left"@ {
        assert("border-left"@ =~= "border-"@ + "left"@);
        lemma_border_prefix(n, "left"@);
    }
}

/// The lengths of the layout names, and where those of equal length differ.
proof fn lemma_layout_name_lengths()
    ensures
        "gap"@.len() == 3,
        "flex-direction"@.len() == 14,
        "flex-wrap"@.len() == 9,
        "flex-grow"@.len() == 9,
        "flex-shrink"@.len() == 11,
        "flex-basis"@.len() == 10,
        "flex"@.len() == 4,
        "align-items"@.len() == 11,
        "justify-content"@.len() == 15,
        "grid-template-columns"@.len() == 21,
        "line-height"@.len() == 11,
        "flex-wrap"@[5] != "flex-grow"@[5],
        "flex-shrink"@[0] != "align-items"@[0],
        "flex-shrink"@[0] != "line-height"@[0],
        "align-items"@[0] != "line-height"@[0],
{
    reveal_strlit("gap");
    reveal_strlit("flex-direction");
    reveal_strlit("flex-wrap");
    reveal_strlit("flex-grow");
    reveal_strlit("flex-shrink");
    reveal_strlit("flex-basis");
    reveal_strlit("flex");
    reveal_strlit("align-items");
    reveal_strlit("justify-content");
    reveal_strlit("grid-template-columns");
    reveal_strlit("line-height");
}

/// The layout names are neither box-model nor typography names.
proof fn lemma_layout_names_are_their_own(n: Seq<char>)
    requires
        n == "gap"@ || n == "flex-direction"@ || n == "flex-wrap"@ || n == "flex-grow"@ || n == "flex-shrink"@ || n
            == "flex-basis"@ || n == "flex"@ || n == "align-items"@ || n == "justify-content"@ || n
            == "grid-template-columns"@ || n == "line-height"@,
    ensures
        !crate::style::box_declaration::box_name(n),
        !crate::style::typography::typography_name(n),
{
    reveal_strlit("-webkit-appearance");
    reveal_strlit("-webkit-transform");
    reveal_strlit("align-items");
    reveal_strlit("appearance");
    reveal_strlit("border-bottom-width");
    reveal_strlit("border-left-width");
    reveal_strlit("border-radius");
    reveal_strlit("border-right-width");
    reveal_strlit("border-top-width");
    reveal_strlit("border-width");
    reveal_strlit("bottom");
    reveal_strlit("box-sizing");
    reveal_strlit("flex");
    reveal_strlit("flex-basis");
    reveal_strlit("flex-direction");
    reveal_strlit("flex-grow");
    reveal_strlit("flex-shrink");
    reveal_strlit("flex-wrap");
    reveal_strlit("float");
    reveal_strlit("font-family");
    reveal_strlit("font-feature-settings");
    reveal_strlit("font-size");
    reveal_strlit("font-style");
    reveal_strlit("font-weight");
    reveal_strlit("gap");
    reveal_strlit("grid-template-columns");
    reveal_strlit("height");
    reveal_strlit("inset");
    reveal_strlit("justify-content");
    reveal_strlit("left");
    reveal_strlit("letter-spacing");
    reveal_strlit("line-height");
    reveal_strlit("margin");
    reveal_strlit("margin-bottom");
    reveal_strlit("margin-left");
    reveal_strlit("margin-right");
    reveal_strlit("margin-top");
    reveal_strlit("max-height");
    reveal_strlit("max-width");
    reveal_strlit("min-height");
    reveal_strlit("min-width");
    reveal_strlit("overflow");
    reveal_strlit("overflow-x");
    reveal_strlit("overflow-y");
    reveal_strlit("padding");
    reveal_strlit("padding-bottom");
    reveal_strlit("padding-left");
    reveal_strlit("padding-right");
    reveal_strlit("padding-top");
    reveal_strlit("right");
    reveal_strlit("text-align");
    reveal_strlit("text-decoration");
    reveal_strlit("text-decoration-line");
    reveal_strlit("text-transform");
    reveal_strlit("top");
    reveal_strlit("transform");
    reveal_strlit("white-space");
    reveal_strlit("width");
    assert("-webkit-appearance"@.len() == 18);
    assert("-webkit-transform"@.len() == 17);
    assert("align-items"@.len() == 11);
    assert("appearance"@.len() == 10);
    assert("border-bottom-width"@.len() == 19);
    assert("border-left-width"@.len() == 17);
    assert("border-radius"@.len() == 13);
    assert("border-right-width"@.len() == 18);
    assert("border-top-width"@.len() == 16);
    assert("border-width"@.len() == 12);
    assert("bottom"@.len() == 6);
    assert("box-sizing"@.len() == 10);
    assert("flex"@.len() == 4);
    assert("flex-basis"@.len() == 10);
    assert("flex-direction"@.len() == 14);
    assert("flex-grow"@.len() == 9);
    assert("flex-shrink"@.len() == 11);
    assert("flex-wrap"@.len() == 9);
    assert("float"@.len() == 5);
    assert("font-family"@.len() == 11);
    assert("font-feature-settings"@.len() == 21);
    assert("font-size"@.len() == 9);
    assert("font-style"@.len() == 10);
    assert("font-weight"@.len() == 11);
    assert("gap"@.len() == 3);
    assert("grid-template-columns"@.len() == 21);
    assert("height"@.len() == 6);
    assert("inset"@.len() == 5);
    assert("justify-content"@.len() == 15);
    assert("left"@.len() == 4);
    assert("letter-spacing"@.len() == 14);
    assert("line-height"@.len() == 11);
    assert("margin"@.len() == 6);
    assert("margin-bottom"@.len() == 13);
    assert("margin-left"@.len() == 11);
    assert("margin-right"@.len() == 12);
    assert("margin-top"@.len() == 10);
    assert("max-height"@.len() == 10);
    assert("max-width"@.len() == 9);
    assert("min-height"@.len() == 10);
    assert("min-width"@.len() == 9);
    assert("overflow"@.len() == 8);
    assert("overflow-x"@.len() == 10);
    assert("overflow-y"@.len() == 10);
    assert("padding"@.len() == 7);
    assert("padding-bottom"@.len() == 14);
    assert("padding-left"@.len() == 12);
    assert("padding-right"@.len() == 13);
    assert("padding-top"@.len() == 11);
    assert("right"@.len() == 5);
    assert("text-align"@.len() == 10);
    assert("text-decoration"@.len() == 15);
    assert("text-decoration-line"@.len() == 20);
    assert("text-transform"@.len() == 14);
    assert("top"@.len() == 3);
    assert("transform"@.len() == 9);
    assert("white-space"@.len() == 11);
    assert("width"@.len() == 5);
    assert("gap"@[0] != "top"@[0]);
    assert("flex-direction"@[0] != "letter-spacing"@[0]);
    assert("flex-direction"@[0] != "padding-bottom"@[0]);
    assert("flex-direction"@[0] != "text-transform"@[0]);
    assert("flex-wrap"@[1] != "font-size"@[1]);
    assert("flex-wrap"@[0] != "max-width"@[0]);
    assert("flex-wrap"@[0] != "min-width"@[0]);
    assert("flex-wrap"@[0] != "transform"@[0]);
    assert("flex-grow"@[1] != "font-size"@[1]);
    assert("flex-grow"@[0] != "max-width"@[0]);
    assert("flex-grow"@[0] != "min-width"@[0]);
    assert("flex-grow"@[0] != "transform"@[0]);
    assert("flex-shrink"@[1] != "font-family"@[1]);
    assert("flex-shrink"@[1] != "font-weight"@[1]);
    assert("flex-shrink"@[0] != "margin-left"@[0]);
    assert("flex-shrink"@[0] != "padding-top"@[0]);
    assert("flex-shrink"@[0] != "white-space"@[0]);
    assert("flex-basis"@[0] != "appearance"@[0]);
    assert("flex-basis"@[0] != "box-sizing"@[0]);
    assert("flex-basis"@[1] != "font-style"@[1]);
    assert("flex-basis"@[0] != "margin-top"@[0]);
    assert("flex-basis"@[0] != "max-height"@[0]);
    assert("flex-basis"@[0] != "min-height"@[0]);
    assert("flex-basis"@[0] != "overflow-x"@[0]);
    assert("flex-basis"@[0] != "overflow-y"@[0]);
    assert("flex-basis"@[0] != "text-align"@[0]);
    assert("flex"@[0] != "left"@[0]);
    assert("align-items"@[0] != "font-family"@[0]);
    assert("align-items"@[0] != "font-weight"@[0]);
    assert("align-items"@[0] != "margin-left"@[0]);
    assert("align-items"@[0] != "padding-top"@[0]);
    assert("align-items"@[0] != "white-space"@[0]);
    assert("justify-content"@[0] != "text-decoration"@[0]);
    assert("grid-template-columns"@[0] != "font-feature-settings"@[0]);
    assert("line-height"@[0] != "font-family"@[0]);
    assert("line-height"@[0] != "font-weight"@[0]);
    assert("line-height"@[0] != "margin-left"@[0]);
    assert("line-height"@[0] != "padding-top"@[0]);
    assert("line-height"@[0] != "white-space"@[0]);
}

/// A layout or line-height declaration whose value does not parse leaves
/// the style as it was, for each of `gap`, `flex-direction`, `flex-wrap`,
/// `flex-grow`, `flex-shrink`, `flex-basis`, `flex`, `align-items`,
/// `justify-content`, `grid-template-columns` and `line-height` (the name in
/// any case); a name that no declaration handles changes nothing either.
#[verifier::rlimit(100)]
#[verifier::spinoff_prover]
pub proof fn unparsable_layout_values_keep_the_style(m: StyleModel, name: Seq<char>, value: Seq<char>)
    ensures
        (lower(name) == "gap"@ && px_spec(value) is None) ==> layout_or_font_model(m, name, value) == m,
        (lower(name) == "flex-direction"@ && taffy_flex_direction(value) is None) ==> layout_or_font_model(m, name, value) == m,
        (lower(name) == "flex-wrap"@ && taffy_flex_wrap(value) is None) ==> layout_or_font_model(m, name, value) == m,
        (lower(name) == "flex-grow"@ && scalar_spec(value) is None) ==> layout_or_font_model(m, name, value) == m,
        (lower(name) == "flex-shrink"@ && scalar_spec(value) is None) ==> layout_or_font_model(m, name, value) == m,
        (lower(name) == "flex-basis"@ && !(lower(trim(value)) == "auto"@ || lower(trim(value)) == "content"@)
            && flex_length_spec(m, value) is None) ==> layout_or_font_model(m, name, value) == m,
        (lower(name) == "flex"@ && !(lower(trim(value)) == "none"@ || lower(trim(value)) == "auto"@ || lower(trim(value))
            == "initial"@) && flex_components_spec(m, trim(value)) is None) ==> layout_or_font_model(m, name, value) == m,
        (lower(name) == "align-items"@ && align_items_of(taffy_align_items(value)) is None) ==> layout_or_font_model(m, name, value) == m,
        (lower(name) == "justify-content"@ && align_content_of(taffy_align_content(value)) is None) ==> layout_or_font_model(m, name, value) == m,
        (lower(name) == "grid-template-columns"@ && grid_tracks_spec(value, m.font_size.val()) is None) ==> layout_or_font_model(m, name, value) == m,
        (lower(name) == "line-height"@ && line_height_spec(
            value,
            m.font_size.val(),
            m.viewport_width.val(),
            m.viewport_height.val(),
        ) is None) ==> layout_or_font_model(m, name, value) == m,
        !known_property(lower(name)) ==> layout_or_font_model(m, name, value) == m,
{
    reveal(layout_or_font_model);
    lemma_layout_name_lengths();
    let n = lower(name);
    if n == "gap"@ {
        lemma_layout_names_are_their_own(n);
        reveal(crate::style::apply::gap_model);
    } else if n == "flex-direction"@ {
        lemma_layout_names_are_their_own(n);
        reveal(crate::style::apply::flex_direction_model);
    } else if n == "flex-wrap"@ {
        lemma_layout_names_are_their_own(n);
        reveal(crate::style::apply::flex_wrap_model);
    } else if n == "flex-grow"@ {
        lemma_layout_names_are_their_own(n);
        reveal(crate::style::apply::flex_grow_model);
    } else if n == "flex-shrink"@ {
        lemma_layout_names_are_their_own(n);
        reveal(crate::style::apply::flex_shrink_model);
    } else if n == "flex-basis"@ {
        lemma_layout_names_are_their_own(n);
        reveal(crate::style::flex::flex_basis_model);
    } else if n == "flex"@ {
        lemma_layout_names_are_their_own(n);
        reveal(crate::style::flex::flex_model);
    } else if n == "align-items"@ {
        lemma_layout_names_are_their_own(n);
        reveal(crate::style::apply::align_items_model);
    } else if n == "justify-content"@ {
        lemma_layout_names_are_their_own(n);
        reveal(crate::style::apply::justify_content_model);
    } else if n == "grid-template-columns"@ {
        lemma_layout_names_are_their_own(n);
        reveal(grid_columns_model);
    } else if n == "line-height"@ {
        lemma_layout_names_are_their_own(n);
        reveal(line_height_model);
    }
}

/// Only the first line of a wrapped text is taken at the initial width:
/// every later line is taken at the continuing width, and no line at less
/// than the narrowest layout width.
pub proof fn only_the_first_line_uses_the_initial_width(index: int, initial: int, continuing: int)
    requires
        index >= 0,
    ensures
        index == 0 ==> styled_line_width_spec(index, initial, continuing) == if initial >= MIN_LAYOUT_WIDTH_MICROS {
            initial
        } else {
            MIN_LAYOUT_WIDTH_MICROS as int
        },
        index >= 1 ==> styled_line_width_spec(index, initial, continuing) == if continuing
            >= MIN_LAYOUT_WIDTH_MICROS {
            continuing
        } else {
            MIN_LAYOUT_WIDTH_MICROS as int
        },
        index >= 1 ==> styled_line_width_spec(index, initial, continuing) == styled_line_width_spec(
            index + 1,
            initial,
            continuing,
        ),
        styled_line_width_spec(index, initial, continuing) >= MIN_LAYOUT_WIDTH_MICROS,
{
}

/// The bytes the first `k` taken lines consumed.
pub open spec fn consumed_by(t: Seq<(Seq<char>, usize)>, k: int) -> int
    decreases k,
{
    if k <= 0 {
        0
    } else {
        consumed_by(t, k - 1) + t[k - 1].1
    }
}

proof fn lemma_consumed_by_shift(t: Seq<(Seq<char>, usize)>, k: int)
    requires
        1 <= k <= t.len(),
    ensures
        consumed_by(t, k) == t[0].1 + consumed_by(t.drop_first(), k - 1),
    decreases k,
{
    let d = t.drop_first();
    assert(consumed_by(t, k) == consumed_by(t, k - 1) + t[k - 1].1);
    if k == 1 {
        assert(consumed_by(t, 0) == 0);
        assert(consumed_by(d, 0) == 0);
    } else {
        lemma_consumed_by_shift(t, k - 1);
        assert(d[k - 2] == t[k - 1]);
        assert(consumed_by(d, k - 1) == consumed_by(d, k - 2) + d[k - 2].1);
    }
}

/// The wrapped lines are the taken lines in order, as many as it takes to
/// consume the text: every line but the last leaves text unconsumed, and
/// the taking stops only once the text is consumed or the lines run out.
pub proof fn taken_lines_consume_the_text_in_order(t: Seq<(Seq<char>, usize)>, remaining: int)
    ensures
        taken_lines(t, remaining).len() <= t.len(),
        forall|i: int| 0 <= i < taken_lines(t, remaining).len() ==> #[trigger] taken_lines(t, remaining)[i] == t[i].0,
        forall|k: int| 0 <= k < taken_lines(t, remaining).len() ==> #[trigger] consumed_by(t, k) < remaining,
        taken_lines(t, remaining).len() < t.len() ==> consumed_by(t, taken_lines(t, remaining).len() as int)
            >= remaining,
    decreases t.len(),
{
    if t.len() == 0 || remaining <= 0 {
    } else {
        let rest = t.drop_first();
        taken_lines_consume_the_text_in_order(rest, remaining - t[0].1);
        let r = taken_lines(t, remaining);
        let rr = taken_lines(rest, remaining - t[0].1);
        assert(r == seq![t[0].0] + rr);
        assert forall|i: int| 0 <= i < r.len() implies #[trigger] r[i] == t[i].0 by {
            if i > 0 {
                assert(r[i] == rr[i - 1]);
                assert(rest[i - 1] == t[i]);
            }
        }
        assert forall|k: int| 0 <= k < r.len() implies #[trigger] consumed_by(t, k) < remaining by {
            if k >= 1 {
                lemma_consumed_by_shift(t, k);
                assert(consumed_by(rest, k - 1) < remaining - t[0].1);
            }
        }
        if r.len() < t.len() {
            lemma_consumed_by_shift(t, r.len() as int);
        }
    }
}

/// Styled text: no text is one empty line; without wrapping, a text is
/// split at each line feed with trailing whitespace dropped; with
/// wrapping, the taken lines come first, and a text that ends with a line
/// feed ends with one empty line more.
pub proof fn styled_lines_follow_the_line_feeds(text: Seq<char>, byte_len: int, no_wrap: bool, t: Seq<(Seq<char>, usize)>)
    ensures
        text.len() == 0 ==> styled_lines_spec(text, byte_len, no_wrap, t) == seq![Seq::<char>::empty()],
        text.len() > 0 && no_wrap ==> styled_lines_spec(text, byte_len, no_wrap, t).len() == split_char_spec(
            text,
            '\n',
        ).len() && forall|i: int|
            0 <= i < split_char_spec(text, '\n').len() ==> #[trigger] styled_lines_spec(text, byte_len, no_wrap, t)[i]
                == trim_end(split_char_spec(text, '\n')[i]),
        text.len() > 0 && !no_wrap && text.last() == '\n' ==> ({
            let lines = styled_lines_spec(text, byte_len, no_wrap, t);
            &&& lines.len() == taken_lines(t, byte_len).len() + 1
            &&& lines.last() == Seq::<char>::empty()
            &&& forall|i: int| 0 <= i < lines.len() - 1 ==> #[trigger] lines[i] == taken_lines(t, byte_len)[i]
        }),
        text.len() > 0 && !no_wrap && text.last() != '\n' ==> styled_lines_spec(text, byte_len, no_wrap, t)
            == taken_lines(t, byte_len),
{
    if text.len() > 0 && !no_wrap {
        if text.last() == '\n' {
            assert(text.subrange(text.len() - 1, text.len() as int) =~= seq!['\n']);
        } else {
            if crate::text::ends_with(text, seq!['\n']) {
                assert(text.subrange(text.len() - 1, text.len() as int)[0] == text.last());
            }
        }
    }
}

/// A positioned box with a left inset starts that far into its containing
/// block, whatever its right inset; with only a right inset it ends that far
/// before the block's right edge; with neither it starts at the block's
/// start. With both insets it is as wide as they leave (never negative);
/// otherwise never wider than the block.
pub proof fn positioned_boxes_follow_their_insets(c: ContainingBlock, m: StyleModel)
    ensures
        m.inset_left matches Some(l) ==> positioned_x_spec(c, m) == saturated(c.x.val() + l.val()),
        (m.inset_left is None && m.inset_right is None) ==> positioned_x_spec(c, m) == c.x.val(),
        (m.inset_left is None && m.inset_right is Some && in_range(
            c.x.val() + c.width.val() - m.inset_right->0.val() - positioned_width_spec(c, m),
        )) ==> positioned_x_spec(c, m) + positioned_width_spec(c, m) == c.x.val() + c.width.val()
            - m.inset_right->0.val(),
        (m.inset_left is Some && m.inset_right is Some && c.width.val() - m.inset_left->0.val() - m.inset_right->0.val()
            <= MAX_MICROS) ==> positioned_width_spec(c, m) == if c.width.val() - m.inset_left->0.val()
            - m.inset_right->0.val() >= 0 {
            c.width.val() - m.inset_left->0.val() - m.inset_right->0.val()
        } else {
            0
        },
        !(m.inset_left is Some && m.inset_right is Some) ==> positioned_width_spec(c, m) <= c.width.val(),
        m.inset_top matches Some(top) ==> positioned_y_spec(c, m) == saturated(c.y.val() + top.val()),
        (m.inset_top is None && m.inset_bottom is None) ==> positioned_y_spec(c, m) == c.y.val(),
        (m.inset_top is Some && m.inset_bottom is Some && c.height.val() - m.inset_top->0.val() - m.inset_bottom->0.val()
            <= MAX_MICROS) ==> crate::position::positioned_height_spec(c, m) == Some(
            if c.height.val() - m.inset_top->0.val() - m.inset_bottom->0.val() >= 0 {
                c.height.val() - m.inset_top->0.val() - m.inset_bottom->0.val()
            } else {
                0
            },
        ),
        (m.inset_top is None && m.inset_bottom is Some && crate::position::positioned_height_spec(c, m) is Some
            && in_range(
            c.y.val() + c.height.val() - m.inset_bottom->0.val() - crate::position::positioned_height_spec(c, m)->0,
        )) ==> positioned_y_spec(c, m) + crate::position::positioned_height_spec(c, m)->0 == c.y.val()
            + c.height.val() - m.inset_bottom->0.val(),
        (m.inset_top is None && m.inset_bottom is Some && crate::position::positioned_height_spec(c, m) is None)
            ==> positioned_y_spec(c, m) == c.y.val(),
{
}

/// The header of a PNG data URL is read from the text after the
/// `data:image/png;base64,` prefix (nothing without it): at most its first
/// 32 bytes, as many whole groups of four as there are.
pub proof fn png_data_headers_are_whole_groups_at_the_start(source: Seq<char>)
    ensures
        !crate::text::starts_with(source, "data:image/png;base64,"@) ==> crate::media::png_data_header(source) is None,
        crate::text::starts_with(source, "data:image/png;base64,"@) ==> ({
            let b = vstd::utf8::encode_utf8(source.subrange(22, source.len() as int));
            let h = crate::media::png_data_header(source)->0;
            &&& crate::media::png_data_header(source) is Some
            &&& h.len() % 4 == 0
            &&& h.len() <= 32
            &&& h.len() <= b.len()
            &&& h =~= b.subrange(0, h.len() as int)
            &&& b.len() >= 32 ==> h.len() == 32
            &&& b.len() < 32 ==> h.len() + 4 > b.len()
        }),
{
    reveal_strlit("data:image/png;base64,");
    assert("data:image/png;base64,"@.len() == 22);
}

/// A click that asks for no navigation stays; a link resolved to the same
/// document with another fragment scrolls within it, and only one to
/// another document leaves; a link that does not resolve fails with its
/// error, reported as an invalid link target where the URL was invalid.
pub proof fn same_document_links_scroll_and_others_leave(
    resolved: Option<Result<Seq<char>, Seq<char>>>,
    same_document: bool,
)
    ensures
        resolved is None ==> navigation_outcome_spec(resolved, same_document) == OutcomeView::Stay,
        match resolved {
            Some(Ok(url)) => navigation_outcome_spec(resolved, same_document) == if same_document {
                OutcomeView::Fragment(url)
            } else {
                OutcomeView::Leave(url)
            },
            _ => true,
        },
        resolved matches Some(Err(e)) ==> (navigation_outcome_spec(resolved, same_document) matches OutcomeView::Failed(
            msg,
        ) && crate::text::ends_with(msg, e) && (crate::text::starts_with(e, "resource URL is invalid"@) ==> msg
            == "link target is invalid: "@ + e) && (!crate::text::starts_with(e, "resource URL is invalid"@) ==> msg
            == e)),
{
    if let Some(Err(e)) = resolved {
        if crate::text::starts_with(e, "resource URL is invalid"@) {
            let msg = "link target is invalid: "@ + e;
            assert(msg.subrange(msg.len() - e.len(), msg.len() as int) =~= e);
        } else {
            assert(e.subrange(0, e.len() as int) =~= e);
        }
    }
}

/// An open `details` element draws all its children, in order; a closed
/// one draws exactly its `summary` children, in order.
pub proof fn open_details_show_everything_closed_ones_only_summaries(ns: Seq<NodeView>)
    ensures
        visible_children(ns, true) == ns,
        visible_children(ns, false) == ns.filter(|n: NodeView| is_summary_spec(n)),
    decreases ns.len(),
{
    reveal(Seq::filter);
    if ns.len() > 0 {
        open_details_show_everything_closed_ones_only_summaries(ns.drop_last());
        assert(ns.drop_last().push(ns.last()) =~= ns);
    } else {
        assert(ns =~= Seq::<NodeView>::empty());
    }
}

/// A PNG header gives the big-endian width in bytes 16 to 20 first and the
/// big-endian height in bytes 20 to 24 second, once its eight signature
/// bytes match and both are positive; a shorter or foreign header, or an
/// empty image, gives nothing.
pub proof fn png_headers_give_width_then_height(h: Seq<u8>)
    ensures
        h.len() < 24 ==> png_header_spec(h) is None,
        (h.len() >= 24 && !(h[0] == 0x89 && h[1] == 0x50 && h[2] == 0x4e && h[3] == 0x47 && h[4] == 0x0d && h[5]
            == 0x0a && h[6] == 0x1a && h[7] == 0x0a)) ==> png_header_spec(h) is None,
        png_header_spec(h) matches Some((w, ht)) ==> {
            &&& w as int == h[16] * 16777216 + h[17] * 65536 + h[18] * 256 + h[19]
            &&& ht as int == h[20] * 16777216 + h[21] * 65536 + h[22] * 256 + h[23]
            &&& w > 0 && ht > 0
        },
        (h.len() >= 24 && h[0] == 0x89 && h[1] == 0x50 && h[2] == 0x4e && h[3] == 0x47 && h[4] == 0x0d && h[5] == 0x0a
            && h[6] == 0x1a && h[7] == 0x0a && h[16] * 16777216 + h[17] * 65536 + h[18] * 256 + h[19] > 0 && h[20]
            * 16777216 + h[21] * 65536 + h[22] * 256 + h[23] > 0) ==> png_header_spec(h) is Some,
{
    if h.len() >= 24 {
        let sig = h.subrange(0, 8);
        if sig == png_signature() {
            assert(sig[0] == h[0] && sig[1] == h[1] && sig[2] == h[2] && sig[3] == h[3]);
            assert(sig[4] == h[4] && sig[5] == h[5] && sig[6] == h[6] && sig[7] == h[7]);
        }
        if h[0] == 0x89 && h[1] == 0x50 && h[2] == 0x4e && h[3] == 0x47 && h[4] == 0x0d && h[5] == 0x0a && h[6] == 0x1a
            && h[7] == 0x0a {
            assert(sig =~= png_signature());
        }
        let w = h[16] * 16777216 + h[17] * 65536 + h[18] * 256 + h[19];
        let ht = h[20] * 16777216 + h[21] * 65536 + h[22] * 256 + h[23];
        assert(0 <= w <= 0xffff_ffff);
        assert(0 <= ht <= 0xffff_ffff);
    }
}

} // verus!
