use katana_render_runtime::number::CssNumber;
use katana_render_runtime::style::grid::{grid_tracks, MAX_GRID_TRACKS};
use katana_render_runtime::style::types::{CssGridTrack, CssGridTrackBreadth};
use katana_render_runtime::tokens::{split_top_level_once, split_top_level_whitespace};

fn number(x: f32) -> CssNumber {
    CssNumber { micros: (x as f64 * 1_000_000.0).round() as i64 }
}

#[test]
fn grid_parser_rejects_empty_invalid_and_oversized_repeat_values() {
    assert!(grid_tracks("", number(16.0)).is_none());
    assert!(grid_tracks("repeat(0, 1fr)", number(16.0)).is_none());
    let oversized = format!("repeat({}, 1fr)", MAX_GRID_TRACKS + 1);
    assert!(grid_tracks(&oversized, number(16.0)).is_none());
    assert!(split_top_level_once(")", ',').is_none());
    assert!(split_top_level_once("no separator", ',').is_none());
}

#[test]
fn grid_tokenizer_keeps_nested_function_whitespace_together() {
    assert_eq!(split_top_level_once("fn(a,b), tail", ','), Some(("fn(a,b)", " tail")));
    assert_eq!(split_top_level_whitespace(" repeat(2, 1fr) auto "), ["repeat(2, 1fr)", "auto"]);
}

#[test]
fn grid_parser_preserves_minmax_track_constraints() {
    assert_eq!(
        grid_tracks("minmax(240px, 1fr) minmax(min-content, 40%)", number(16.0)),
        Some(vec![
            CssGridTrack::MinMax {
                min: CssGridTrackBreadth::Length(number(240.0)),
                max: CssGridTrackBreadth::Fraction(number(1.0)),
            },
            CssGridTrack::MinMax {
                min: CssGridTrackBreadth::MinContent,
                max: CssGridTrackBreadth::Percent(number(0.4)),
            },
        ])
    );
    assert!(grid_tracks("minmax(1fr, 100px)", number(16.0)).is_none());
    assert!(grid_tracks("minmax(10px)", number(16.0)).is_none());
    assert!(grid_tracks("minmax(10px, minmax(20px, 1fr))", number(16.0)).is_none());
    assert_eq!(
        grid_tracks("minmax(auto, max-content)", number(16.0)),
        Some(vec![CssGridTrack::MinMax { min: CssGridTrackBreadth::Auto, max: CssGridTrackBreadth::MaxContent }])
    );
}
