use katana_render_runtime::grid_measure::{
    active_fractions, distribute_auto_space, distribute_fraction_space, distribute_grid_space, fixed_width,
    grid_breadth_width, grid_fraction, grid_track_widths, initial_grid_widths,
};
use katana_render_runtime::number::CssNumber;
use katana_render_runtime::style::types::{CssGridTrack, CssGridTrackBreadth, CssStyle};

fn value(n: CssNumber) -> f32 {
    (n.micros as f64 / 1_000_000.0) as f32
}

fn number(x: f32) -> CssNumber {
    CssNumber { micros: (x as f64 * 1_000_000.0).round() as i64 }
}

fn numbers(xs: &[f32]) -> Vec<CssNumber> {
    xs.iter().map(|x| number(*x)).collect()
}

fn values(ns: &[CssNumber]) -> Vec<f32> {
    ns.iter().map(|n| value(*n)).collect()
}

#[test]
fn fraction_distribution_handles_zero_and_constrained_tracks() {
    let mut zero = numbers(&[0.0]);
    distribute_fraction_space(&[Some(number(0.0))], &mut zero, number(100.0));
    assert_eq!(values(&zero), [0.0]);

    let mut constrained = numbers(&[80.0, 0.0]);
    distribute_fraction_space(&[Some(number(1.0)), Some(number(1.0))], &mut constrained, number(100.0));
    assert_eq!(values(&constrained), [80.0, 20.0]);
}

#[test]
fn grid_breadth_resolves_percent_intrinsic_and_fraction_values() {
    assert_eq!(
        value(grid_breadth_width(CssGridTrackBreadth::Percent(number(0.25)), number(40.0), number(200.0))),
        50.0
    );
    assert_eq!(value(grid_breadth_width(CssGridTrackBreadth::MaxContent, number(40.0), number(200.0))), 40.0);
    assert_eq!(value(grid_breadth_width(CssGridTrackBreadth::Fraction(number(1.0)), number(40.0), number(200.0))), 0.0);
}

#[test]
fn fractions_share_the_space_left_by_fixed_tracks_in_proportion() {
    let fractions = [None, Some(number(1.0)), Some(number(3.0))];
    let mut widths = numbers(&[40.0, 0.0, 0.0]);
    assert_eq!(value(fixed_width(&fractions, &widths)), 40.0);
    assert_eq!(active_fractions(&fractions), vec![(1, number(1.0)), (2, number(3.0))]);
    distribute_fraction_space(&fractions, &mut widths, number(200.0));
    assert_eq!(values(&widths), [40.0, 40.0, 120.0]);
}

#[test]
fn track_kinds_start_from_their_declared_or_intrinsic_widths() {
    let tracks = [
        CssGridTrack::Length(number(30.0)),
        CssGridTrack::Percent(number(0.5)),
        CssGridTrack::Auto,
        CssGridTrack::Fraction(number(2.0)),
        CssGridTrack::MinMax { min: CssGridTrackBreadth::Length(number(12.0)), max: CssGridTrackBreadth::Fraction(number(1.0)) },
    ];
    let intrinsic = numbers(&[1.0, 2.0, 25.0, 4.0, 5.0]);
    assert_eq!(values(&initial_grid_widths(&tracks, &intrinsic, number(100.0))), [30.0, 50.0, 25.0, 0.0, 12.0]);
    assert_eq!(grid_fraction(&tracks[3]), Some(number(2.0)));
    assert_eq!(grid_fraction(&tracks[4]), Some(number(1.0)));
    assert_eq!(grid_fraction(&tracks[2]), None);
}

#[test]
fn without_fractions_auto_tracks_split_the_free_space() {
    let tracks = [CssGridTrack::Auto, CssGridTrack::Length(number(20.0)), CssGridTrack::Auto];
    let mut widths = numbers(&[10.0, 20.0, 30.0]);
    distribute_grid_space(&tracks, &mut widths, number(100.0));
    assert_eq!(values(&widths), [30.0, 20.0, 50.0]);

    let mut grown = numbers(&[1.0, 2.0]);
    distribute_auto_space(&[CssGridTrack::Auto], &mut grown, number(5.0));
    assert_eq!(values(&grown), [6.0, 2.0]);
}

#[test]
fn grid_track_widths_subtract_gaps_before_sharing() {
    let parent = CssStyle::from_attributes(
        &[("style".to_string(), "display: grid; gap: 10px; grid-template-columns: 100px 1fr".to_string())],
        &CssStyle::browser_default(),
    );
    let widths = grid_track_widths(&numbers(&[1.0, 1.0]), number(310.0), &parent);
    assert_eq!(values(&widths), [100.0, 200.0]);

    let no_template = CssStyle::from_attributes(
        &[("style".to_string(), "grid-template-columns: none".to_string())],
        &CssStyle::browser_default(),
    );
    let single = grid_track_widths(&numbers(&[1.0]), number(80.0), &no_template);
    assert_eq!(values(&single).len(), 1);
}

#[test]
fn sharing_never_narrows_a_track_and_keeps_fixed_tracks() {
    let fractions = [Some(number(1.0)), None, Some(number(1.0))];
    let mut widths = numbers(&[150.0, 30.0, 10.0]);
    distribute_fraction_space(&fractions, &mut widths, number(200.0));
    assert_eq!(values(&widths), [150.0, 30.0, 20.0]);
}
