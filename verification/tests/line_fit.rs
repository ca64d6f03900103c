use katana_render_runtime::line_fit::{fitted_character_end, last_fitting_end};
use katana_render_runtime::number::CssNumber;

fn px(units: i32) -> CssNumber {
    CssNumber::from_units(units)
}

#[test]
fn the_last_candidate_that_fits_ends_the_line() {
    let ends = [3, 7, 12, 20];
    let widths = [px(10), px(20), px(30), px(40)];
    assert_eq!(last_fitting_end(&ends, &widths, px(25)), Some(7));
    assert_eq!(last_fitting_end(&ends, &widths, px(30)), Some(12));
    assert_eq!(last_fitting_end(&ends, &widths, px(100)), Some(20));
}

#[test]
fn no_candidate_fits_when_the_first_is_too_wide() {
    assert_eq!(last_fitting_end(&[4, 9], &[px(50), px(90)], px(40)), None);
    assert_eq!(last_fitting_end(&[], &[], px(40)), None);
}

#[test]
fn a_width_equal_to_the_limit_fits() {
    assert_eq!(last_fitting_end(&[5], &[px(40)], px(40)), Some(5));
}

#[test]
fn bisection_stops_at_a_boundary_of_uneven_widths() {
    // The middle candidate (index 2) does not fit, so the search stays left of it.
    let ends = [1, 2, 3, 4, 5];
    let widths = [px(10), px(10), px(90), px(10), px(10)];
    assert_eq!(last_fitting_end(&ends, &widths, px(20)), Some(2));
}

#[test]
fn a_character_that_does_not_fit_still_fills_the_line() {
    assert_eq!(fitted_character_end(&[3, 6], &[px(30), px(60)], px(10)), 3);
    assert_eq!(fitted_character_end(&[3, 6], &[px(30), px(60)], px(40)), 3);
    assert_eq!(fitted_character_end(&[3, 6], &[px(30), px(60)], px(60)), 6);
    assert_eq!(fitted_character_end(&[], &[], px(60)), 0);
}
