use katana_render_runtime::number::CssNumber;
use katana_render_runtime::style::types::{
    CssAlignContent, CssAlignContentKeyword, CssAlignItems, CssAlignItemsKeyword, CssAlignmentSafety,
    CssBoxSizing, CssDisplay, CssFlexDirection, CssFlexWrap, CssGridTrack, CssLength, CssOverflow, CssStyle,
    CssTextAlign,
};

const DEFAULT_FONT_SIZE: f32 = 16.0;
const LINE_HEIGHT_FACTOR: f32 = 1.5;

fn value(n: CssNumber) -> f32 {
    (n.micros as f64 / 1_000_000.0) as f32
}

fn number(x: f32) -> CssNumber {
    CssNumber { micros: (x as f64 * 1_000_000.0).round() as i64 }
}

fn styled(declarations: &str) -> CssStyle {
    CssStyle::from_attributes(
        &[("style".to_string(), declarations.to_string())],
        &CssStyle::browser_default(),
    )
}

fn parsed_flow_style() -> CssStyle {
    styled("display:grid;gap:12px;grid-template-columns:repeat(3,1fr);flex-direction:column;flex-wrap:wrap;flex-grow:2;flex-shrink:0;align-items:center;justify-content:space-between")
}

fn parsed_flex_style(value: &str) -> CssStyle {
    styled(&format!("flex:{value}"))
}

#[test]
fn box_shorthands_expand_and_longhands_override_individual_edges() {
    let style = styled(
        "padding: 1px 2px 3px 4px; margin: -5px 6px 7px; padding-left: 9px; margin-right: 8px",
    );

    assert_eq!(
        [
            value(style.padding_top),
            value(style.padding_right),
            value(style.padding_bottom),
            value(style.padding_left),
        ],
        [1.0, 2.0, 3.0, 9.0]
    );
    assert_eq!(
        [
            value(style.margin_top),
            value(style.margin_right),
            value(style.margin_bottom),
            value(style.margin_left),
        ],
        [-5.0, 8.0, 7.0, 6.0]
    );
}

#[test]
fn invalid_box_shorthand_does_not_erase_existing_edges() {
    let style = styled("margin-top: 3px; margin-bottom: 4px; margin: var(--missing)");

    assert_eq!(value(style.margin_top), 3.0);
    assert_eq!(value(style.margin_bottom), 4.0);
}

#[test]
fn flow_properties_parse_into_typed_layout_values() {
    let style = parsed_flow_style();

    assert_eq!(style.display, CssDisplay::Grid);
    assert_eq!(value(style.gap), 12.0);
    assert_eq!(style.grid_template_columns, vec![CssGridTrack::Fraction(number(1.0)); 3]);
    assert_eq!(style.flex_direction, CssFlexDirection::Column);
    assert_eq!(style.flex_wrap, CssFlexWrap::Wrap);
}

#[test]
fn flow_alignment_and_flex_factors_parse_into_typed_values() {
    let style = parsed_flow_style();

    assert_eq!(value(style.flex_grow), 2.0);
    assert_eq!(value(style.flex_shrink), 0.0);
    assert_eq!(style.flex_basis, None);
    assert_eq!(
        style.align_items,
        Some(CssAlignItems { keyword: CssAlignItemsKeyword::Center, safety: CssAlignmentSafety::Default })
    );
    assert_eq!(
        style.justify_content,
        Some(CssAlignContent {
            keyword: CssAlignContentKeyword::SpaceBetween,
            safety: CssAlignmentSafety::Default,
        })
    );
}

#[test]
fn flex_shorthand_sets_browser_compatible_grow_shrink_and_basis() {
    let one = parsed_flex_style("1");
    assert_eq!(value(one.flex_grow), 1.0);
    assert_eq!(value(one.flex_shrink), 1.0);
    assert_eq!(one.flex_basis, Some(CssLength::Percent(number(0.0))));

    let explicit = parsed_flex_style("2 0 25%");
    assert_eq!(value(explicit.flex_grow), 2.0);
    assert_eq!(value(explicit.flex_shrink), 0.0);
    assert_eq!(explicit.flex_basis, Some(CssLength::Percent(number(0.25))));
}

#[test]
fn flex_shorthand_keywords_and_explicit_basis_use_browser_defaults() {
    let auto = parsed_flex_style("auto");
    assert_eq!((value(auto.flex_grow), value(auto.flex_shrink), auto.flex_basis), (1.0, 1.0, None));
    let none = parsed_flex_style("none");
    assert_eq!((value(none.flex_grow), value(none.flex_shrink), none.flex_basis), (0.0, 0.0, None));
    let initial = parsed_flex_style("initial");
    assert_eq!(
        (value(initial.flex_grow), value(initial.flex_shrink), initial.flex_basis),
        (0.0, 1.0, None)
    );

    let basis = styled("flex-basis:40px");
    assert_eq!(basis.flex_basis, Some(CssLength::Px(number(40.0))));
}

#[test]
fn relative_font_and_box_lengths_resolve_without_unitless_line_height_bug() {
    let style = styled("font-size: 1.5rem; line-height: 1.25; padding: 0.5em; margin-top: -1rem");

    assert_eq!(value(style.font_size), 24.0);
    assert_eq!(value(style.line_height), 30.0);
    assert_eq!(value(style.padding_top), 12.0);
    assert_eq!(value(style.margin_top), -16.0);
}

#[test]
fn unitless_line_height_resolves_after_font_size_and_scales_when_inherited() {
    let parent = styled("line-height: 1.5; font-size: 20px");
    assert_eq!(value(parent.line_height), 30.0);

    let child_attributes = vec![("style".to_string(), "font-size: 24px".to_string())];
    let child = CssStyle::from_attributes(&child_attributes, &parent);
    assert_eq!(value(child.line_height), 36.0);

    let fixed_parent = styled("line-height: 30px; font-size: 20px");
    let fixed_child = CssStyle::from_attributes(&child_attributes, &fixed_parent);
    assert_eq!(value(fixed_child.line_height), 30.0);
}

#[test]
fn invalid_line_height_does_not_erase_the_inherited_value() {
    let attributes = vec![("style".to_string(), "line-height: invalid".to_string())];
    let inherited = CssStyle::browser_default();
    let style = CssStyle::from_attributes(&attributes, &inherited);

    assert_eq!(style.line_height, inherited.line_height);
    assert_eq!(style.line_height_factor, inherited.line_height_factor);
}

#[test]
fn hidden_attribute_maps_to_display_none() {
    let attributes = vec![("hidden".to_string(), String::new())];
    let style = CssStyle::from_attributes(&attributes, &CssStyle::browser_default());

    assert_eq!(style.display, CssDisplay::Hidden);
}

#[test]
fn padding_longhands_and_invalid_extensions_preserve_each_edge() {
    let style = styled(
        "padding: 1px; padding-top: 2px; padding-right: 3px; padding-bottom: 4px; padding-inline: 9px; margin-inline: 9px; padding: 1px 2px 3px 4px 5px",
    );

    assert_eq!(
        [
            value(style.padding_top),
            value(style.padding_right),
            value(style.padding_bottom),
            value(style.padding_left),
        ],
        [2.0, 3.0, 4.0, 1.0]
    );
}

#[test]
fn alternate_relative_and_grid_values_resolve_without_fallbacks() {
    let style = styled("padding: 2px 3px; font-size: 125%; line-height: 150%; grid-template-columns: 1fr 2fr 1fr");
    assert_eq!(value(style.padding_top), 2.0);
    assert_eq!(value(style.padding_right), 3.0);
    assert_eq!(value(style.font_size), 20.0);
    assert_eq!(value(style.line_height), 30.0);
    assert_eq!(
        style.grid_template_columns,
        vec![
            CssGridTrack::Fraction(number(1.0)),
            CssGridTrack::Fraction(number(2.0)),
            CssGridTrack::Fraction(number(1.0)),
        ]
    );

    let normal = styled("line-height: normal");
    assert_eq!(value(normal.line_height), DEFAULT_FONT_SIZE * LINE_HEIGHT_FACTOR);

    let em = styled("line-height: 2em");
    assert_eq!(value(em.line_height), DEFAULT_FONT_SIZE * 2.0);
}

#[test]
fn grid_tracks_preserve_declared_sizes() {
    let style = styled("display:grid; grid-template-columns: 100px max-content 2fr 25%");
    assert_eq!(
        style.grid_template_columns,
        vec![
            CssGridTrack::Length(number(100.0)),
            CssGridTrack::MaxContent,
            CssGridTrack::Fraction(number(2.0)),
            CssGridTrack::Percent(number(0.25)),
        ]
    );
}

#[test]
fn grid_repeat_expands_each_declared_track() {
    let repeat = styled("grid-template-columns: repeat(2, 80px 1fr)");
    assert_eq!(
        repeat.grid_template_columns,
        vec![
            CssGridTrack::Length(number(80.0)),
            CssGridTrack::Fraction(number(1.0)),
            CssGridTrack::Length(number(80.0)),
            CssGridTrack::Fraction(number(1.0)),
        ]
    );
}

#[test]
fn invalid_grid_tracks_preserve_the_inherited_template() {
    let attributes = vec![("style".to_string(), "grid-template-columns: minmax(broken)".to_string())];
    let inherited = CssStyle::browser_default();
    let style = CssStyle::from_attributes(&attributes, &inherited);

    assert_eq!(style.grid_template_columns, inherited.grid_template_columns);
}

#[test]
fn typed_typography_properties_preserve_browser_values() {
    let style = styled("font-family: Inter, sans-serif; font-style: italic; text-align: center; letter-spacing: 2px");

    assert_eq!(style.font_family, "Inter, sans-serif");
    assert!(style.italic);
    assert_eq!(style.text_align, CssTextAlign::Center);
    assert_eq!(value(style.letter_spacing), 2.0);
}

#[test]
fn percentage_width_and_max_width_resolve_against_available_space() {
    let style = styled("width: 75%; max-width: 200px");

    assert_eq!(style.explicit_width(number(400.0)).map(value), Some(200.0));
    assert_eq!(style.explicit_width(number(200.0)).map(value), Some(150.0));

    let max_only = styled("max-width: 120px");
    assert_eq!(value(max_only.box_width(number(400.0))), 120.0);
}

#[test]
fn assigned_flow_width_replaces_pre_layout_width_constraints() {
    let mut assigned_outer =
        styled("box-sizing: content-box; min-width: 60px; max-width: 80px; padding: 10px");
    assigned_outer.assign_outer_width(number(120.0));
    assert_eq!(value(assigned_outer.box_width(number(200.0))), 120.0);
    assert_eq!(assigned_outer.width, Some(CssLength::Px(number(100.0))));
    assert_eq!(assigned_outer.min_width, None);
    assert_eq!(assigned_outer.max_width, None);
}

#[test]
fn monospace_families_use_their_advance_width_for_layout_measurement() {
    let proportional = CssStyle::browser_default();
    let monospace = CssStyle::from_attributes(
        &[("style".to_string(), "font-family: IBM Plex Mono, monospace".to_string())],
        &proportional,
    );

    assert_eq!(value(proportional.text_character_width_factor()), 0.55);
    assert_eq!(value(monospace.text_character_width_factor()), 0.6);
}

#[test]
fn typed_content_box_properties_preserve_browser_box_model() {
    let content_box = styled(
        "width: 100px; padding: 10px; border: 2px solid #123456; border-radius: 6px; overflow: hidden",
    );

    assert_eq!(content_box.box_sizing, CssBoxSizing::ContentBox);
    assert_eq!(content_box.explicit_width(number(300.0)).map(value), Some(124.0));
    assert_eq!(value(content_box.content_width(number(124.0))), 100.0);
    assert_eq!(value(content_box.border_width), 2.0);
    assert_eq!(content_box.border_radius, CssLength::Px(number(6.0)));
    assert_eq!(content_box.overflow, CssOverflow::Clip);
}

#[test]
fn typed_border_box_dimensions_preserve_browser_box_model() {
    let border_box = styled("box-sizing: border-box; width: 100px; padding: 10px; border-width: 2px");
    assert_eq!(border_box.box_sizing, CssBoxSizing::BorderBox);
    assert_eq!(border_box.explicit_width(number(300.0)).map(value), Some(100.0));
    assert_eq!(value(border_box.content_width(number(100.0))), 76.0);
}

#[test]
fn border_box_outer_width_is_the_assigned_width() {
    let mut border_box = styled("box-sizing: border-box; padding: 10px; min-width: 5px");
    assert_eq!(value(border_box.outer_width(number(50.0))), 50.0);
    assert_eq!(value(border_box.outer_height(number(30.0))), 30.0);
    border_box.assign_outer_width(number(90.0));
    assert_eq!(border_box.width, Some(CssLength::Px(number(90.0))));
    assert_eq!(border_box.min_width, None);
}

#[test]
fn content_box_heights_add_vertical_padding_and_borders() {
    let style = styled("padding: 3px 0 5px; border-width: 1px; min-height: 10px");
    assert_eq!(value(style.outer_height(number(20.0))), 30.0);
    assert_eq!(value(style.minimum_outer_height()), 20.0);
    assert_eq!(value(style.content_width(number(1.0))), 0.0);
    assert_eq!(value(CssLength::Percent(number(0.25)).resolve(number(80.0))), 20.0);
}
