use katana_render_runtime::document::{node_text, seed_input_values, HtmlDocumentNode};
use katana_render_runtime::navigation::{activation_plan, Activation, HitTarget, HitTargetKind};
use katana_render_runtime::number::{css_scalar, CssNumber};
use katana_render_runtime::style::types::{CssLength, CssStyle};
use std::collections::HashMap;

fn value(n: CssNumber) -> f32 {
    (n.micros as f64 / 1_000_000.0) as f32
}

fn number(x: f32) -> CssNumber {
    CssNumber { micros: (x as f64 * 1_000_000.0).round() as i64 }
}

fn styled(declarations: &str) -> CssStyle {
    CssStyle::from_attributes(
        &[("style".to_string(), declarations.to_string())],
        &CssStyle::browser_default(),
    )
}

fn snapshot(style: &CssStyle) -> String {
    format!("{style:?}")
}

#[test]
fn unknown_property_leaves_the_style_unchanged() {
    let mut style = styled("padding: 3px; color: red");
    let before = snapshot(&style);
    style.apply("Not-A-Property", "12px");
    style.apply("paddings", "4px");
    assert_eq!(snapshot(&style), before);
}

#[test]
fn invalid_padding_and_margin_shorthands_keep_every_edge() {
    let mut style = styled("padding: 1px 2px; margin: 5px");
    let before = snapshot(&style);
    style.apply_padding_property("padding", "1px 2px 3px 4px 5px");
    style.apply_padding_property("padding", "wide");
    style.apply_margin_property("margin", "1px nonsense");
    style.apply_margin_property("margin", "1px 2px 3px 4px 5px");
    assert_eq!(snapshot(&style), before);
}

#[test]
fn invalid_line_height_and_grid_template_keep_the_style() {
    let mut style = styled("line-height: 1.25; grid-template-columns: 1fr 2fr");
    let before = snapshot(&style);
    style.apply_line_height("tall");
    style.apply("grid-template-columns", "minmax(broken)");
    assert_eq!(snapshot(&style), before);
}

#[test]
fn padding_longhand_after_shorthand_replaces_one_edge() {
    let mut style = CssStyle::browser_default();
    style.apply_padding_property("padding", "1px 2px 3px 4px");
    style.apply_padding_property("padding-left", "9px");
    let edges = |s: &CssStyle| {
        [value(s.padding_top), value(s.padding_right), value(s.padding_bottom), value(s.padding_left)]
    };
    assert_eq!(edges(&style), [1.0, 2.0, 3.0, 9.0]);
    style.apply_padding_property("padding-left", "bogus");
    assert_eq!(edges(&style), [1.0, 2.0, 3.0, 9.0]);
}

#[test]
fn opacity_is_clamped_into_the_unit_range() {
    let mut style = CssStyle::browser_default();
    style.apply_opacity("2.5");
    assert_eq!(value(style.opacity), 1.0);
    style.apply_opacity("-1");
    assert_eq!(value(style.opacity), 0.0);
    style.apply_opacity("0.25");
    assert_eq!(value(style.opacity), 0.25);
    style.apply_opacity("half");
    assert_eq!(value(style.opacity), 0.25);
}

#[test]
fn huge_finite_opacities_clamp_and_infinite_ones_are_ignored() {
    let mut style = CssStyle::browser_default();
    style.opacity = CssNumber { micros: 500_000 };
    style.apply_opacity("1e13");
    assert_eq!(value(style.opacity), 1.0);
    style.apply_opacity("0.5");
    style.apply_opacity("-3.4e38");
    assert_eq!(value(style.opacity), 0.0);
    style.apply_opacity("0.5");
    style.apply_opacity("1e39");
    assert_eq!(value(style.opacity), 0.5);
    style.apply_opacity("inf");
    assert_eq!(value(style.opacity), 0.5);
    style.apply_opacity("NaN");
    assert_eq!(value(style.opacity), 0.5);
    style.apply_opacity("50%");
    assert_eq!(value(style.opacity), 0.5);
}

#[test]
fn literals_saturate_up_to_the_single_precision_limit() {
    use_scalar(" 1e13 ", Some(1_000_000_000_000_000_000));
    use_scalar("-2e20", Some(-1_000_000_000_000_000_000));
    use_scalar("340282356779733661637539395458142568447", Some(1_000_000_000_000_000_000));
    use_scalar("340282356779733661637539395458142568448", None);
    use_scalar("3.5e38", None);
    use_scalar("0.0000001e46", None);
    use_scalar("0.0000001e45", Some(1_000_000_000_000_000_000));
    use_scalar("1.5", Some(1_500_000));
}

fn use_scalar(text: &str, micros: Option<i64>) {
    assert_eq!(css_scalar(text).map(|n| n.micros), micros, "{text}");
}

#[test]
fn element_without_attributes_inherits_and_inheriting_twice_is_once() {
    let parent = styled("color: #123456; font-size: 20px; padding: 4px; float: left");
    let child = CssStyle::from_attributes(&[], &parent);
    assert_eq!(snapshot(&child), snapshot(&parent.element_defaults()));
    assert_eq!(snapshot(&child.element_defaults()), snapshot(&child));
    assert_eq!(child.color, "#123456");
    assert_eq!(value(child.padding_top), 0.0);
}

#[test]
fn inherited_line_height_follows_the_child_font_size() {
    let mut unitless = styled("font-size: 10px; line-height: 2").element_defaults();
    unitless.apply("font-size", "15px");
    unitless.resolve_inherited_line_height();
    assert_eq!(value(unitless.line_height), 30.0);

    let mut fixed = styled("font-size: 10px; line-height: 18px").element_defaults();
    fixed.apply("font-size", "15px");
    fixed.resolve_inherited_line_height();
    assert_eq!(value(fixed.line_height), 18.0);
}

#[test]
fn assigned_outer_width_becomes_the_box_width() {
    let mut style = styled("padding: 0 7px; border-width: 3px; max-width: 10px; width: 50%");
    style.assign_outer_width(number(90.0));
    assert_eq!(style.width, Some(CssLength::Px(number(70.0))));
    assert_eq!(value(style.box_width(number(10.0))), 90.0);
    assert_eq!(style.explicit_width(number(1000.0)).map(value), Some(90.0));
}

#[test]
fn content_width_undoes_outer_width_in_the_content_box() {
    let style = styled("padding: 0 7px; border-width: 3px");
    let outer = style.outer_width(number(50.0));
    assert_eq!(value(outer), 70.0);
    assert_eq!(value(style.content_width(outer)), 50.0);
}

fn hit_target(node_id: u64, kind: HitTargetKind) -> HitTarget {
    HitTarget { node_id, kind, x: number(0.0), y: number(0.0), width: number(10.0), height: number(10.0) }
}

#[test]
fn release_activates_only_the_pressed_target() {
    let target = hit_target(3, HitTargetKind::Click);
    assert_eq!(activation_plan(Some(target), Some(4)).activation, Activation::Nothing);
    assert_eq!(activation_plan(Some(target), None).activation, Activation::Nothing);
    assert_eq!(activation_plan(Some(target), Some(3)).activation, Activation::Click { node_id: 3 });
    let input = hit_target(8, HitTargetKind::Input);
    let plan = activation_plan(Some(input), Some(8));
    assert_eq!(plan.activation, Activation::FocusInput { node_id: 8 });
    assert!(!plan.blur_focused);
    assert!(activation_plan(None, None).blur_focused);
}

fn input(node_id: u64, initial: &str) -> HtmlDocumentNode {
    HtmlDocumentNode::Element {
        node_id,
        tag: "input".to_string(),
        attributes: vec![("value".to_string(), initial.to_string())],
        children: Vec::new(),
    }
}

#[test]
fn seeding_keeps_typed_values_and_is_idempotent() {
    let nodes = vec![HtmlDocumentNode::Element {
        node_id: 1,
        tag: "form".to_string(),
        attributes: Vec::new(),
        children: vec![input(2, "first"), input(3, "second"), HtmlDocumentNode::Text("label".to_string())],
    }];
    let mut values = HashMap::new();
    values.insert(3, "typed".to_string());
    seed_input_values(&nodes, &mut values);
    assert_eq!(values.len(), 2);
    assert_eq!(values[&2], "first");
    assert_eq!(values[&3], "typed");
    let once = values.clone();
    seed_input_values(&nodes, &mut values);
    assert_eq!(values, once);
}

#[test]
fn margin_longhand_after_shorthand_replaces_one_edge() {
    let mut style = CssStyle::browser_default();
    style.apply_margin_property("margin", "1px 2px 3px 4px");
    style.apply_margin_property("margin-right", "auto");
    assert_eq!(
        [value(style.margin_top), value(style.margin_right), value(style.margin_bottom), value(style.margin_left)],
        [1.0, 0.0, 3.0, 4.0]
    );
    assert!(style.margin_right_auto);
    assert!(!style.margin_left_auto);
    let before = snapshot(&style);
    style.apply_margin_property("margin-right", "sideways");
    assert_eq!(snapshot(&style), before);
}

#[test]
fn explicit_breaks_survive_whitespace_collapse() {
    let br = HtmlDocumentNode::Element { node_id: 0, tag: "br".to_string(), attributes: Vec::new(), children: Vec::new() };
    let nodes = [
        HtmlDocumentNode::Text(" a  b ".to_string()),
        br.clone(),
        HtmlDocumentNode::Text("  c\t".to_string()),
        br,
        HtmlDocumentNode::Text("\n d ".to_string()),
    ];
    let text = node_text(&nodes);
    assert_eq!(text, "a b\nc\n\nd");
    assert_eq!(text.split('\n').collect::<Vec<_>>(), ["a b", "c", "", "d"]);
}
