use katana_render_runtime::navigation::{resized_scroll, Activation, HitTarget, HitTargetKind};
use katana_render_runtime::number::CssNumber;
use katana_render_runtime::pointer::{
    activation_at, contains, element_at, hit_target_at, max_scroll_for, scroll_position, ElementBox,
};

fn value(n: CssNumber) -> f32 {
    (n.micros as f64 / 1_000_000.0) as f32
}

fn number(x: f32) -> CssNumber {
    CssNumber { micros: (x as f64 * 1_000_000.0).round() as i64 }
}

fn target(node_id: u64, x: f32, y: f32, width: f32, height: f32) -> HitTarget {
    HitTarget {
        node_id,
        kind: HitTargetKind::Click,
        x: number(x),
        y: number(y),
        width: number(width),
        height: number(height),
    }
}

#[test]
fn the_last_painted_target_under_the_point_wins() {
    let targets = [target(1, 0.0, 0.0, 100.0, 100.0), target(2, 10.0, 10.0, 20.0, 20.0)];
    let one = number(1.0);
    let zero = number(0.0);
    assert_eq!(hit_target_at(&targets, number(15.0), number(15.0), one, zero).map(|t| t.node_id), Some(2));
    assert_eq!(hit_target_at(&targets, number(50.0), number(50.0), one, zero).map(|t| t.node_id), Some(1));
    assert_eq!(hit_target_at(&targets, number(150.0), number(50.0), one, zero), None);
    assert!(contains(&targets[1], number(30.0), number(30.0)));
    assert!(!contains(&targets[1], number(30.5), number(30.0)));
}

#[test]
fn device_points_are_scaled_and_scrolled_into_page_coordinates() {
    let targets = [target(7, 0.0, 200.0, 50.0, 20.0)];
    assert_eq!(
        hit_target_at(&targets, number(60.0), number(20.0), number(2.0), number(195.0)).map(|t| t.node_id),
        Some(7)
    );
    assert_eq!(hit_target_at(&targets, number(60.0), number(20.0), number(1.0), number(195.0)), None);
    let elements = [ElementBox { node_id: 4, x: number(0.0), y: number(0.0), width: number(5.0), height: number(5.0) }];
    assert_eq!(element_at(&elements, number(8.0), number(8.0), number(2.0), number(0.0)).map(|e| e.node_id), Some(4));
}

#[test]
fn release_over_the_pressed_target_clicks_it() {
    let targets = [target(3, 0.0, 0.0, 10.0, 10.0)];
    let plan = activation_at(&targets, number(5.0), number(5.0), number(1.0), number(0.0), Some(3));
    assert_eq!(plan.activation, Activation::Click { node_id: 3 });
    assert!(plan.blur_focused);
    let miss = activation_at(&targets, number(50.0), number(5.0), number(1.0), number(0.0), Some(3));
    assert_eq!(miss.activation, Activation::Nothing);
    assert!(!miss.blur_focused);
}

#[test]
fn scrolling_is_held_between_the_top_and_the_furthest_position() {
    let max = max_scroll_for(number(500.0), number(200.0));
    assert_eq!(value(max), 300.0);
    assert_eq!(value(max_scroll_for(number(100.0), number(200.0))), 0.0);
    assert_eq!(value(scroll_position(number(10.0), number(40.0), number(2.0), max)), 30.0);
    assert_eq!(value(scroll_position(number(10.0), number(-40.0), number(2.0), max)), 0.0);
    assert_eq!(value(scroll_position(number(290.0), number(100.0), number(1.0), max)), 300.0);
}

#[test]
fn a_resize_returns_to_the_kept_anchor_within_the_new_range() {
    assert_eq!(value(resized_scroll(Some(number(120.0)), number(40.0), number(500.0))), 120.0);
    assert_eq!(value(resized_scroll(Some(number(120.0)), number(40.0), number(80.0))), 80.0);
    assert_eq!(value(resized_scroll(None, number(40.0), number(500.0))), 40.0);
    assert_eq!(value(resized_scroll(None, number(40.0), number(10.0))), 10.0);
    assert_eq!(value(resized_scroll(Some(number(-5.0)), number(40.0), number(10.0))), 0.0);
}

#[test]
fn a_zero_scale_hits_nothing_and_scrolls_to_an_end() {
    let targets = vec![target(1, 0.0, 0.0, 100.0, 100.0)];
    assert_eq!(hit_target_at(&targets, number(10.0), number(10.0), number(0.0), number(0.0)), None);
    assert_eq!(value(scroll_position(number(5.0), number(3.0), number(0.0), number(50.0))), 50.0);
    assert_eq!(value(scroll_position(number(5.0), number(-3.0), number(0.0), number(50.0))), 0.0);
}

#[test]
fn a_negative_scale_mirrors_the_point() {
    let targets = vec![target(1, -20.0, -20.0, 10.0, 10.0)];
    assert_eq!(
        hit_target_at(&targets, number(30.0), number(30.0), number(-2.0), number(0.0)).map(|t| t.node_id),
        Some(1)
    );
}
