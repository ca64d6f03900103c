//! The widths of grid columns: each track starts from its declared or
//! intrinsic width, then the space left over goes to the fraction tracks in
//! proportion to their fractions (a track already wider than its share
//! keeps its width and leaves the sharing), or else to the `auto` tracks.
use crate::number::{saturate, saturated, saturating_mul_div, scaled, CssNumber, MAX_MICROS, MICROS_PER_UNIT};
use crate::style::types::{CssGridTrack, CssGridTrackBreadth, CssStyle, StyleModel};
use vstd::prelude::*;

verus! {

/// The narrowest width a layout box is given, in millionths of a pixel.
pub const MIN_LAYOUT_WIDTH_MICROS: i64 = 1_000_000;

/// The number `m` millionths, held to the range.
pub open spec fn sat_num(m: int) -> CssNumber {
    CssNumber { micros: saturated(m) as i64 }
}

/// `x` where it is positive, else zero.
pub open spec fn at_least_zero(x: int) -> int {
    if x >= 0 {
        x
    } else {
        0
    }
}

/// The fraction of a track that grows into the free space: `fr`, or the
/// `fr` maximum of a `minmax()`.
pub open spec fn grid_fraction_spec(t: CssGridTrack) -> Option<CssNumber> {
    match t {
        CssGridTrack::Fraction(v) => Some(v),
        CssGridTrack::MinMax { min, max } => match max {
            CssGridTrackBreadth::Fraction(v) => Some(v),
            _ => None,
        },
        _ => None,
    }
}

/// `available × fraction` (a percentage is held as a fraction).
pub open spec fn portion(available: int, fraction: int) -> int {
    saturated(scaled(available, fraction, MICROS_PER_UNIT as int))
}

/// The width of one `minmax()` breadth.
pub open spec fn breadth_width_spec(b: CssGridTrackBreadth, intrinsic: int, available: int) -> int {
    match b {
        CssGridTrackBreadth::Length(v) => v.val(),
        CssGridTrackBreadth::Percent(v) => portion(available, v.val()),
        CssGridTrackBreadth::Auto | CssGridTrackBreadth::MinContent | CssGridTrackBreadth::MaxContent => intrinsic,
        CssGridTrackBreadth::Fraction(_) => 0,
    }
}

/// Whether the starting width of a track reads its intrinsic width.
pub open spec fn reads_intrinsic(t: CssGridTrack) -> bool {
    match t {
        CssGridTrack::Auto | CssGridTrack::MinContent | CssGridTrack::MaxContent | CssGridTrack::MinMax { .. } => true,
        _ => false,
    }
}

/// The starting width of the track `t` at position `i`.
pub open spec fn initial_width_spec(t: CssGridTrack, intrinsic: Seq<CssNumber>, i: int, available: int) -> int {
    match t {
        CssGridTrack::Length(v) => v.val(),
        CssGridTrack::Percent(v) => portion(available, v.val()),
        CssGridTrack::Auto | CssGridTrack::MinContent | CssGridTrack::MaxContent => intrinsic[i].val(),
        CssGridTrack::Fraction(_) => 0,
        CssGridTrack::MinMax { min, max } => breadth_width_spec(min, intrinsic[i].val(), available),
    }
}

/// The fraction of a grid track, if it has one.
pub fn grid_fraction(track: &CssGridTrack) -> (r: Option<CssNumber>)
    ensures
        r == grid_fraction_spec(*track),
{
    match track {
        CssGridTrack::Fraction(value) => Some(*value),
        CssGridTrack::MinMax { min: _, max: CssGridTrackBreadth::Fraction(value) } => Some(*value),
        _ => None,
    }
}

/// The width of one `minmax()` breadth, given the track's intrinsic width
/// and the available space.
pub fn grid_breadth_width(breadth: CssGridTrackBreadth, intrinsic: CssNumber, available: CssNumber) -> (r: CssNumber)
    ensures
        r.val() == breadth_width_spec(breadth, intrinsic.val(), available.val()),
{
    match breadth {
        CssGridTrackBreadth::Length(value) => value,
        CssGridTrackBreadth::Percent(value) => saturating_mul_div(available, value, MICROS_PER_UNIT as u64),
        CssGridTrackBreadth::Auto | CssGridTrackBreadth::MinContent | CssGridTrackBreadth::MaxContent => intrinsic,
        CssGridTrackBreadth::Fraction(_) => CssNumber { micros: 0 },
    }
}

/// The starting width of every track: a length, a portion of the available
/// space, the intrinsic width, zero for a fraction, or the minimum of a
/// `minmax()`.
pub fn initial_grid_widths(tracks: &[CssGridTrack], intrinsic: &[CssNumber], available: CssNumber) -> (r: Vec<
    CssNumber,
>)
    requires
        forall|i: int| 0 <= i < tracks@.len() && reads_intrinsic(#[trigger] tracks@[i]) ==> i < intrinsic@.len(),
    ensures
        r@.len() == tracks@.len(),
        forall|i: int|
            0 <= i < tracks@.len() ==> (#[trigger] r@[i]).val() == initial_width_spec(
                tracks@[i],
                intrinsic@,
                i,
                available.val(),
            ),
{
    let mut widths: Vec<CssNumber> = Vec::new();
    let mut i: usize = 0;
    while i < tracks.len()
        invariant
            i <= tracks@.len(),
            widths@.len() == i,
            forall|j: int| 0 <= j < tracks@.len() && reads_intrinsic(#[trigger] tracks@[j]) ==> j < intrinsic@.len(),
            forall|j: int|
                0 <= j < i ==> (#[trigger] widths@[j]).val() == initial_width_spec(
                    tracks@[j],
                    intrinsic@,
                    j,
                    available.val(),
                ),
        decreases tracks@.len() - i,
    {
        let width = match &tracks[i] {
            CssGridTrack::Length(value) => *value,
            CssGridTrack::Percent(value) => saturating_mul_div(available, *value, MICROS_PER_UNIT as u64),
            CssGridTrack::Auto | CssGridTrack::MinContent | CssGridTrack::MaxContent => intrinsic[i],
            CssGridTrack::Fraction(_) => CssNumber { micros: 0 },
            CssGridTrack::MinMax { min, max: _ } => grid_breadth_width(*min, intrinsic[i], available),
        };
        widths.push(width);
        i = i + 1;
    }
    widths
}

/// The fraction tracks among the first `n`, with their positions, in order.
pub open spec fn active_prefix(fractions: Seq<Option<CssNumber>>, n: int) -> Seq<(usize, CssNumber)>
    decreases n,
{
    if n <= 0 {
        Seq::empty()
    } else {
        let before = active_prefix(fractions, n - 1);
        match fractions[n - 1] {
            Some(f) => before.push(((n - 1) as usize, f)),
            None => before,
        }
    }
}

/// The positions and fractions of the fraction tracks, in order.
pub fn active_fractions(fractions: &[Option<CssNumber>]) -> (r: Vec<(usize, CssNumber)>)
    ensures
        r@ == active_prefix(fractions@, fractions@.len() as int),
{
    let mut active: Vec<(usize, CssNumber)> = Vec::new();
    let mut i: usize = 0;
    while i < fractions.len()
        invariant
            i <= fractions@.len(),
            active@ == active_prefix(fractions@, i as int),
        decreases fractions@.len() - i,
    {
        match fractions[i] {
            Some(f) => active.push((i, f)),
            None => {},
        }
        i = i + 1;
    }
    active
}

/// The total width of the tracks among the first `n` without a fraction.
pub open spec fn fixed_prefix(fractions: Seq<Option<CssNumber>>, widths: Seq<CssNumber>, n: int) -> int
    decreases n,
{
    if n <= 0 {
        0
    } else {
        let before = fixed_prefix(fractions, widths, n - 1);
        if fractions[n - 1] is None {
            saturated(before + widths[n - 1].val())
        } else {
            before
        }
    }
}

/// The total width of the tracks without a fraction.
pub fn fixed_width(fractions: &[Option<CssNumber>], widths: &[CssNumber]) -> (r: CssNumber)
    requires
        widths@.len() <= fractions@.len(),
    ensures
        r.val() == fixed_prefix(fractions@, widths@, widths@.len() as int),
{
    let mut total = CssNumber { micros: 0 };
    let mut i: usize = 0;
    while i < widths.len()
        invariant
            i <= widths@.len(),
            widths@.len() <= fractions@.len(),
            total.val() == fixed_prefix(fractions@, widths@, i as int),
        decreases widths@.len() - i,
    {
        if fractions[i].is_none() {
            total = saturate(total.micros as i128 + widths[i].micros as i128);
        }
        i = i + 1;
    }
    total
}

/// The sum of the fractions of the active tracks.
pub open spec fn fraction_total(active: Seq<(usize, CssNumber)>) -> int
    decreases active.len(),
{
    if active.len() == 0 {
        0
    } else {
        saturated(fraction_total(active.drop_last()) + active.last().1.val())
    }
}

/// The share of a track with `fraction` when one fraction is `unit` wide.
pub open spec fn share(unit: int, fraction: CssNumber) -> int {
    portion(unit, fraction.val())
}

/// The first active track, from position `k` on, that is already wider than
/// its share.
pub open spec fn first_constrained(active: Seq<(usize, CssNumber)>, widths: Seq<CssNumber>, unit: int, k: int) -> Option<
    int,
>
    decreases active.len() - k,
{
    if k < 0 || k >= active.len() {
        None
    } else if widths[active[k].0 as int].val() > share(unit, active[k].1) {
        Some(k)
    } else {
        first_constrained(active, widths, unit, k + 1)
    }
}

/// The widths with every active track set to its share.
pub open spec fn assign_shares(active: Seq<(usize, CssNumber)>, widths: Seq<CssNumber>, unit: int) -> Seq<CssNumber>
    decreases active.len(),
{
    if active.len() == 0 {
        widths
    } else {
        assign_shares(active.drop_last(), widths, unit).update(
            active.last().0 as int,
            sat_num(share(unit, active.last().1)),
        )
    }
}

/// The sequence without position `p`, whose place the last element takes.
pub open spec fn swap_removed<T>(s: Seq<T>, p: int) -> Seq<T> {
    s.update(p, s.last()).drop_last()
}

/// The width of one fraction unit: the remaining space over the total of
/// the fractions.
pub open spec fn unit_width(remaining: int, total: int) -> int {
    saturated(scaled(remaining, MICROS_PER_UNIT as int, total))
}

/// Sharing `remaining` space among the active tracks: each gets its share
/// of the space, unless one is already wider than its share; then the first
/// such track keeps its width, leaves the sharing, and its width no longer
/// counts as remaining space. Sharing stops, changing nothing more, once
/// the fractions add up to nothing.
pub open spec fn share_space(active: Seq<(usize, CssNumber)>, widths: Seq<CssNumber>, remaining: int) -> Seq<
    CssNumber,
>
    decreases active.len(),
{
    if active.len() == 0 {
        widths
    } else {
        let total = fraction_total(active);
        if total <= 0 {
            widths
        } else {
            let unit = unit_width(remaining, total);
            match first_constrained(active, widths, unit, 0) {
                None => assign_shares(active, widths, unit),
                Some(p) => if 0 <= p < active.len() {
                    share_space(
                        swap_removed(active, p),
                        widths,
                        saturated(at_least_zero(remaining - widths[active[p].0 as int].val())),
                    )
                } else {
                    widths
                },
            }
        }
    }
}

/// Whether every active position is a position of `widths`.
pub open spec fn positions_within(active: Seq<(usize, CssNumber)>, n: int) -> bool {
    forall|k: int| 0 <= k < active.len() ==> (#[trigger] active[k]).0 < n
}

proof fn lemma_active_within(fractions: Seq<Option<CssNumber>>, n: int)
    requires
        0 <= n <= fractions.len(),
    ensures
        positions_within(active_prefix(fractions, n), n),
    decreases n,
{
    if n > 0 {
        lemma_active_within(fractions, n - 1);
    }
}

proof fn lemma_fraction_total_step(active: Seq<(usize, CssNumber)>, k: int)
    requires
        0 <= k < active.len(),
    ensures
        fraction_total(active.take(k + 1)) == saturated(fraction_total(active.take(k)) + active[k].1.val()),
{
    assert(active.take(k + 1).drop_last() =~= active.take(k));
}

/// The sum of the fractions of the active tracks.
fn total_of(active: &Vec<(usize, CssNumber)>) -> (r: CssNumber)
    ensures
        r.val() == fraction_total(active@),
{
    let mut total = CssNumber { micros: 0 };
    let mut k: usize = 0;
    while k < active.len()
        invariant
            k <= active@.len(),
            total.val() == fraction_total(active@.take(k as int)),
        decreases active@.len() - k,
    {
        proof {
            lemma_fraction_total_step(active@, k as int);
        }
        total = saturate(total.micros as i128 + active[k].1.micros as i128);
        k = k + 1;
    }
    proof {
        assert(active@.take(active@.len() as int) =~= active@);
    }
    total
}

/// The first active track already wider than its share.
fn find_constrained(active: &Vec<(usize, CssNumber)>, widths: &[CssNumber], unit: CssNumber) -> (r: Option<usize>)
    requires
        positions_within(active@, widths@.len() as int),
    ensures
        match r {
            Some(p) => first_constrained(active@, widths@, unit.val(), 0) == Some(p as int) && p < active@.len(),
            None => first_constrained(active@, widths@, unit.val(), 0) is None,
        },
{
    let mut k: usize = 0;
    while k < active.len()
        invariant
            k <= active@.len(),
            positions_within(active@, widths@.len() as int),
            first_constrained(active@, widths@, unit.val(), 0) == first_constrained(
                active@,
                widths@,
                unit.val(),
                k as int,
            ),
        decreases active@.len() - k,
    {
        let (index, fraction) = active[k];
        proof {
            assert(active@[k as int].0 < widths@.len());
        }
        let portion = saturating_mul_div(unit, fraction, MICROS_PER_UNIT as u64);
        if widths[index].micros > portion.micros {
            return Some(k);
        }
        k = k + 1;
    }
    None
}

/// Sets every active track to its share.
fn set_shares(active: &Vec<(usize, CssNumber)>, widths: &mut [CssNumber], unit: CssNumber)
    requires
        positions_within(active@, old(widths)@.len() as int),
    ensures
        final(widths)@ == assign_shares(active@, old(widths)@, unit.val()),
{
    let ghost start = widths@;
    let mut k: usize = 0;
    while k < active.len()
        invariant
            k <= active@.len(),
            positions_within(active@, start.len() as int),
            widths@ == assign_shares(active@.take(k as int), start, unit.val()),
            widths@.len() == start.len(),
        decreases active@.len() - k,
    {
        let (index, fraction) = active[k];
        proof {
            assert(active@.take(k + 1).drop_last() =~= active@.take(k as int));
            assert(active@[k as int].0 < start.len());
        }
        let portion = saturating_mul_div(unit, fraction, MICROS_PER_UNIT as u64);
        widths[index] = portion;
        proof {
            assert(portion == sat_num(share(unit.val(), fraction)));
        }
        k = k + 1;
    }
    proof {
        assert(active@.take(active@.len() as int) =~= active@);
    }
}

/// Shares the space left over by the tracks without a fraction among the
/// fraction tracks (see `share_space`).
pub fn distribute_fraction_space(fractions: &[Option<CssNumber>], widths: &mut [CssNumber], available: CssNumber)
    requires
        fractions@.len() == old(widths)@.len(),
    ensures
        final(widths)@ == share_space(
            active_prefix(fractions@, fractions@.len() as int),
            old(widths)@,
            saturated(at_least_zero(available.val() - fixed_prefix(fractions@, old(widths)@, old(widths)@.len() as int))),
        ),
{
    let mut active = active_fractions(fractions);
    let fixed = fixed_width(fractions, widths);
    let rest: i128 = available.micros as i128 - fixed.micros as i128;
    let mut remaining = saturate(if rest >= 0 { rest } else { 0 });
    let ghost start = widths@;
    proof {
        lemma_active_within(fractions@, fractions@.len() as int);
        assert(start == old(widths)@);
        assert(remaining.val() == saturated(at_least_zero(available.val() - fixed_prefix(fractions@, start, start.len() as int))));
    }
    while active.len() > 0
        invariant
            widths@ == start,
            start == old(widths)@,
            positions_within(active@, start.len() as int),
            share_space(active@, start, remaining.val()) == share_space(
                active_prefix(fractions@, fractions@.len() as int),
                start,
                saturated(at_least_zero(available.val() - fixed_prefix(fractions@, start, start.len() as int))),
            ),
        decreases active@.len(),
    {
        let total = total_of(&active);
        if total.micros <= 0 {
            proof {
                assert(share_space(active@, start, remaining.val()) == start);
            }
            return;
        }
        let unit = saturating_mul_div(remaining, CssNumber { micros: MICROS_PER_UNIT }, total.micros as u64);
        match find_constrained(&active, widths, unit) {
            None => {
                set_shares(&active, widths, unit);
                return;
            },
            Some(position) => {
                let ghost before = active@;
                let (index, _) = active.swap_remove(position);
                proof {
                    assert(before[position as int].0 < start.len());
                    assert(active@ == swap_removed(before, position as int));
                    assert forall|k: int| 0 <= k < active@.len() implies (#[trigger] active@[k]).0 < start.len() by {
                        if k == position {
                            assert(active@[k] == before.last());
                        } else {
                            assert(active@[k] == before[k]);
                        }
                    }
                }
                let left: i128 = remaining.micros as i128 - widths[index].micros as i128;
                remaining = saturate(if left >= 0 { left } else { 0 });
            },
        }
    }
}

/// The number of `auto` tracks among the first `n`.
pub open spec fn auto_count(tracks: Seq<CssGridTrack>, n: int) -> int
    decreases n,
{
    if n <= 0 {
        0
    } else {
        auto_count(tracks, n - 1) + (if tracks[n - 1] is Auto { 1int } else { 0 })
    }
}

/// The widths with `extra` added to each `auto` track (as far as there are
/// both tracks and widths).
pub open spec fn auto_grown(tracks: Seq<CssGridTrack>, widths: Seq<CssNumber>, extra: int) -> Seq<CssNumber> {
    Seq::new(
        widths.len(),
        |i: int|
            if i < tracks.len() && tracks[i] is Auto {
                sat_num(widths[i].val() + extra)
            } else {
                widths[i]
            },
    )
}

/// Adds `extra` to the width of each `auto` track.
pub fn distribute_auto_space(tracks: &[CssGridTrack], widths: &mut [CssNumber], extra: CssNumber)
    ensures
        final(widths)@ == auto_grown(tracks@, old(widths)@, extra.val()),
{
    let ghost start = widths@;
    let mut i: usize = 0;
    while i < tracks.len() && i < widths.len()
        invariant
            i <= widths@.len(),
            widths@.len() == start.len(),
            forall|j: int|
                0 <= j < widths@.len() ==> #[trigger] widths@[j] == if j < i {
                    auto_grown(tracks@, start, extra.val())[j]
                } else {
                    start[j]
                },
        decreases widths@.len() - i,
    {
        if matches!(tracks[i], CssGridTrack::Auto) {
            let grown = saturate(widths[i].micros as i128 + extra.micros as i128);
            widths[i] = grown;
        }
        i = i + 1;
    }
    proof {
        assert(widths@ =~= auto_grown(tracks@, start, extra.val()));
    }
}

/// The total of all widths.
pub open spec fn width_sum(widths: Seq<CssNumber>, n: int) -> int
    decreases n,
{
    if n <= 0 {
        0
    } else {
        saturated(width_sum(widths, n - 1) + widths[n - 1].val())
    }
}

/// Whether one of the tracks has a fraction.
pub open spec fn has_fraction(tracks: Seq<CssGridTrack>) -> bool {
    exists|i: int| 0 <= i < tracks.len() && (#[trigger] grid_fraction_spec(tracks[i])) is Some
}

/// The fractions of the tracks.
pub open spec fn fractions_of(tracks: Seq<CssGridTrack>) -> Seq<Option<CssNumber>> {
    Seq::new(tracks.len(), |i: int| grid_fraction_spec(tracks[i]))
}

/// Growing the tracks into the available space: with a fraction track, the
/// free space is shared among the fraction tracks; otherwise it is split
/// evenly among the `auto` tracks.
pub open spec fn grid_space_spec(tracks: Seq<CssGridTrack>, widths: Seq<CssNumber>, available: int) -> Seq<CssNumber> {
    let fractions = fractions_of(tracks);
    if has_fraction(tracks) {
        share_space(
            active_prefix(fractions, fractions.len() as int),
            widths,
            saturated(at_least_zero(available - fixed_prefix(fractions, widths, widths.len() as int))),
        )
    } else {
        let remaining = saturated(at_least_zero(available - width_sum(widths, widths.len() as int)));
        let count = auto_count(tracks, tracks.len() as int);
        if count > 0 {
            auto_grown(tracks, widths, remaining / count)
        } else {
            widths
        }
    }
}

/// Grows the tracks into the available space (see `grid_space_spec`).
pub fn distribute_grid_space(tracks: &[CssGridTrack], widths: &mut [CssNumber], available: CssNumber)
    requires
        tracks@.len() == old(widths)@.len(),
    ensures
        final(widths)@ == grid_space_spec(tracks@, old(widths)@, available.val()),
{
    let mut fractions: Vec<Option<CssNumber>> = Vec::new();
    let mut any = false;
    let mut i: usize = 0;
    while i < tracks.len()
        invariant
            i <= tracks@.len(),
            fractions@ == fractions_of(tracks@).take(i as int),
            any == exists|j: int| 0 <= j < i && (#[trigger] grid_fraction_spec(tracks@[j])) is Some,
        decreases tracks@.len() - i,
    {
        let f = grid_fraction(&tracks[i]);
        if f.is_some() {
            any = true;
        }
        fractions.push(f);
        proof {
            assert(fractions@ =~= fractions_of(tracks@).take(i + 1));
            if f is Some {
                assert(grid_fraction_spec(tracks@[i as int]) is Some);
            }
        }
        i = i + 1;
    }
    proof {
        assert(fractions@ =~= fractions_of(tracks@));
    }
    if any {
        distribute_fraction_space(fractions.as_slice(), widths, available);
        return;
    }
    let mut allocated = CssNumber { micros: 0 };
    let mut count: usize = 0;
    let mut k: usize = 0;
    while k < widths.len()
        invariant
            k <= widths@.len(),
            widths@.len() == tracks@.len(),
            allocated.val() == width_sum(widths@, k as int),
            count == auto_count(tracks@, k as int),
            count <= k,
        decreases widths@.len() - k,
    {
        allocated = saturate(allocated.micros as i128 + widths[k].micros as i128);
        if matches!(tracks[k], CssGridTrack::Auto) {
            count = count + 1;
        }
        k = k + 1;
    }
    if count > 0 {
        let rest: i128 = available.micros as i128 - allocated.micros as i128;
        let remaining = saturate(if rest >= 0 { rest } else { 0 });
        let share: u128 = remaining.micros as u128 / count as u128;
        proof {
            assert(share <= remaining.micros) by (nonlinear_arith)
                requires
                    share == remaining.micros as u128 / count as u128,
                    count >= 1,
                    remaining.micros >= 0,
            ;
        }
        let extra = CssNumber { micros: share as i64 };
        distribute_auto_space(tracks, widths, extra);
    }
}

/// The starting widths of the tracks.
pub open spec fn initial_widths(tracks: Seq<CssGridTrack>, intrinsic: Seq<CssNumber>, available: int) -> Seq<CssNumber> {
    Seq::new(
        tracks.len(),
        |i: int| CssNumber { micros: initial_width_spec(tracks[i], intrinsic, i, available) as i64 },
    )
}

/// The space of a grid's columns: the width less the gaps between the
/// columns (one column without a template), at least the narrowest layout
/// width.
pub open spec fn grid_available_spec(m: StyleModel, width: int) -> int {
    let count: int = if m.grid_template_columns.len() > 0 { m.grid_template_columns.len() as int } else { 1 };
    let rest = saturated(width - saturated(m.gap.val() * (count - 1)));
    if rest >= MIN_LAYOUT_WIDTH_MICROS {
        rest
    } else {
        MIN_LAYOUT_WIDTH_MICROS as int
    }
}

/// The widths of the columns of a grid of `width` pixels whose style is
/// `m`, given the intrinsic width of each column: one column of all the
/// space without a template.
pub open spec fn grid_track_widths_spec(m: StyleModel, intrinsic: Seq<CssNumber>, width: int) -> Seq<CssNumber> {
    let available = grid_available_spec(m, width);
    let tracks = m.grid_template_columns;
    if tracks.len() == 0 {
        seq![CssNumber { micros: available as i64 }]
    } else {
        grid_space_spec(tracks, initial_widths(tracks, intrinsic, available), available)
    }
}

/// The widths of the columns of a grid of `width` pixels with the style
/// `parent`, given the intrinsic width of each column (see
/// `grid_track_widths_spec`).
pub fn grid_track_widths(intrinsic: &[CssNumber], width: CssNumber, parent: &CssStyle) -> (r: Vec<CssNumber>)
    requires
        forall|i: int|
            0 <= i < parent@.grid_template_columns.len() && reads_intrinsic(
                #[trigger] parent@.grid_template_columns[i],
            ) ==> i < intrinsic@.len(),
    ensures
        r@ == grid_track_widths_spec(parent@, intrinsic@, width.val()),
{
    let tracks = parent.grid_template_columns.as_slice();
    let count: usize = if tracks.len() > 0 { tracks.len() } else { 1 };
    let g = parent.gap.micros as i128;
    let n = (count - 1) as i128;
    proof {
        assert(-0x8000_0000_0000_0000 * 0xFFFF_FFFF_FFFF_FFFF <= g * n <= 0x8000_0000_0000_0000
            * 0xFFFF_FFFF_FFFF_FFFF) by (nonlinear_arith)
            requires
                -0x8000_0000_0000_0000 <= g <= 0x8000_0000_0000_0000,
                0 <= n <= 0xFFFF_FFFF_FFFF_FFFF,
        ;
    }
    let gaps = saturate(g * n);
    let rest = saturate(width.micros as i128 - gaps.micros as i128);
    let available = if rest.micros >= MIN_LAYOUT_WIDTH_MICROS {
        rest
    } else {
        CssNumber { micros: MIN_LAYOUT_WIDTH_MICROS }
    };
    proof {
        assert(available.val() == grid_available_spec(parent@, width.val()));
    }
    let mut widths = initial_grid_widths(tracks, intrinsic, available);
    if widths.len() == 0 {
        return vec![available];
    }
    proof {
        assert(widths@ =~= initial_widths(tracks@, intrinsic@, available.val()));
    }
    distribute_grid_space(tracks, widths.as_mut_slice(), available);
    widths
}

} // verus!
