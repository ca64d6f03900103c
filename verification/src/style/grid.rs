//! `grid-template-columns`: track lists, `minmax()` and `repeat()`.
use crate::length::{css_relative_px, relative_px};
use crate::number::{
    div_trunc, literal_micros, opt_val, parse_literal, parse_usize, scalar_spec, usize_spec,
    CssNumber,
};
use crate::style::types::{CssGridTrack, CssGridTrackBreadth};
use crate::text::{
    chars_of, ends_with, lower, lower_range_is, range_ends_with, range_starts_with, starts_with,
    strip_suffix, trim, trim_bounds,
};
use crate::tokens::{
    split_once_spec, split_top_level_once, split_top_level_whitespace, top_level_whitespace_tokens,
    views,
};
use vstd::prelude::*;
use vstd::string::*;

verus! {

/// The most tracks a template may declare.
pub const MAX_GRID_TRACKS: usize = 64;

/// The text inside `prefix ... )`, if `t` has that shape
/// (`strip_prefix(prefix).and_then(strip_suffix(')'))`).
pub open spec fn call_body(t: Seq<char>, prefix: Seq<char>) -> Option<Seq<char>> {
    if starts_with(t, prefix) && t.len() >= prefix.len() + 1 && t.last() == ')' {
        Some(t.subrange(prefix.len() as int, t.len() - 1))
    } else {
        None
    }
}

/// A breadth read back from a track; `minmax()` is no breadth.
pub open spec fn breadth_of(t: CssGridTrack) -> Option<CssGridTrackBreadth> {
    match t {
        CssGridTrack::Length(v) => Some(CssGridTrackBreadth::Length(v)),
        CssGridTrack::Percent(v) => Some(CssGridTrackBreadth::Percent(v)),
        CssGridTrack::Fraction(v) => Some(CssGridTrackBreadth::Fraction(v)),
        CssGridTrack::Auto => Some(CssGridTrackBreadth::Auto),
        CssGridTrack::MinContent => Some(CssGridTrackBreadth::MinContent),
        CssGridTrack::MaxContent => Some(CssGridTrackBreadth::MaxContent),
        CssGridTrack::MinMax { .. } => None,
    }
}

/// One grid track: `minmax(min, max)` (whose minimum is no fraction),
/// `auto`, `min-content`, `max-content`, `<n>fr`, `<n>%`, or a length.
pub open spec fn grid_track_spec(s: Seq<char>, em: int) -> Option<CssGridTrack>
    decreases s.len(), 0nat,
{
    let t = trim(s);
    if call_body(t, "minmax("@) is Some {
        let args = call_body(t, "minmax("@)->0;
        match split_once_spec(args, ',') {
            Some((a, b)) => if a.len() < s.len() && b.len() < s.len() {
                match (breadth_spec(a, em), breadth_spec(b, em)) {
                    (Some(min), Some(max)) => if min is Fraction {
                        None
                    } else {
                        Some(CssGridTrack::MinMax { min, max })
                    },
                    _ => None,
                }
            } else {
                None
            },
            None => None,
        }
    } else if lower(t) == "auto"@ {
        Some(CssGridTrack::Auto)
    } else if lower(t) == "min-content"@ {
        Some(CssGridTrack::MinContent)
    } else if lower(t) == "max-content"@ {
        Some(CssGridTrack::MaxContent)
    } else if ends_with(t, "fr"@) {
        match scalar_spec(strip_suffix(t, "fr"@)->0) {
            Some(x) => Some(CssGridTrack::Fraction(CssNumber { micros: x as i64 })),
            None => None,
        }
    } else if ends_with(t, "%"@) {
        match scalar_spec(strip_suffix(t, "%"@)->0) {
            Some(x) => Some(CssGridTrack::Percent(CssNumber { micros: div_trunc(x, 100) as i64 })),
            None => None,
        }
    } else {
        match relative_px(t, em, false) {
            Some(x) => Some(CssGridTrack::Length(CssNumber { micros: x as i64 })),
            None => None,
        }
    }
}

/// One breadth of `minmax()`.
pub open spec fn breadth_spec(s: Seq<char>, em: int) -> Option<CssGridTrackBreadth>
    decreases s.len(), 1nat,
{
    match grid_track_spec(s, em) {
        Some(t) => breadth_of(t),
        None => None,
    }
}

proof fn lemma_split_once_shorter(s: Seq<char>, sep: char)
    ensures
        split_once_spec(s, sep) matches Some((a, b)) ==> a.len() < s.len() && b.len() < s.len(),
{
    lemma_once_scan_range(s, 0, 0, sep);
}

proof fn lemma_once_scan_range(s: Seq<char>, i: int, depth: nat, sep: char)
    requires
        0 <= i,
    ensures
        crate::tokens::once_scan(s, i, depth, sep) matches Some(k) ==> i <= k < s.len(),
    decreases s.len() - i,
{
    if i < s.len() {
        if s[i] == '(' {
            lemma_once_scan_range(s, i + 1, depth + 1, sep);
        } else if s[i] == ')' {
            if depth > 0 {
                lemma_once_scan_range(s, i + 1, (depth - 1) as nat, sep);
            }
        } else if !(s[i] == sep && depth == 0) {
            lemma_once_scan_range(s, i + 1, depth, sep);
        }
    }
}

proof fn lemma_trim_len(s: Seq<char>)
    ensures
        trim(s).len() <= s.len(),
{
    crate::length::lemma_trim_len(s);
}

/// The body of `prefix...)` in `v[a..b]`, as a range.
fn call_body_range(v: &Vec<char>, a: usize, b: usize, prefix: &str) -> (r: Option<(usize, usize)>)
    requires
        a <= b <= v@.len(),
    ensures
        match r {
            Some((c, d)) => a <= c <= d <= b && call_body(v@.subrange(a as int, b as int), prefix@) == Some(
                v@.subrange(c as int, d as int),
            ),
            None => call_body(v@.subrange(a as int, b as int), prefix@) is None,
        },
{
    let n = prefix.unicode_len();
    if !range_starts_with(v, a, b, prefix) || b - a <= n || v[b - 1] != ')' {
        proof {
            let t = v@.subrange(a as int, b as int);
            if t.len() > 0 {
                assert(t.last() == v@[b - 1]);
            }
        }
        return None;
    }
    proof {
        let t = v@.subrange(a as int, b as int);
        assert(t.last() == v@[b - 1]);
        assert(t.subrange(n as int, t.len() - 1) =~= v@.subrange(a + n, b - 1));
    }
    Some((a + n, b - 1))
}

/// The breadth read back from a parsed track.
fn breadth_from(t: CssGridTrack) -> (r: Option<CssGridTrackBreadth>)
    ensures
        r == breadth_of(t),
{
    match t {
        CssGridTrack::Length(v) => Some(CssGridTrackBreadth::Length(v)),
        CssGridTrack::Percent(v) => Some(CssGridTrackBreadth::Percent(v)),
        CssGridTrack::Fraction(v) => Some(CssGridTrackBreadth::Fraction(v)),
        CssGridTrack::Auto => Some(CssGridTrackBreadth::Auto),
        CssGridTrack::MinContent => Some(CssGridTrackBreadth::MinContent),
        CssGridTrack::MaxContent => Some(CssGridTrackBreadth::MaxContent),
        CssGridTrack::MinMax { .. } => None,
    }
}

/// Parses one grid track (`parse_grid_track`).
pub fn parse_grid_track(value: &str, em_base: CssNumber) -> (r: Option<CssGridTrack>)
    ensures
        r == grid_track_spec(value@, em_base.val()),
    decreases value@.len(), 0nat,
{
    let v = chars_of(value);
    let (a, b) = trim_bounds(&v, 0, v.len());
    proof {
        assert(v@.subrange(0, v@.len() as int) =~= value@);
    }
    let ghost t = v@.subrange(a as int, b as int);
    match call_body_range(&v, a, b, "minmax(") {
        Some((c, d)) => {
            let args = value.substring_char(c, d);
            proof {
                lemma_split_once_shorter(args@, ',');
                lemma_trim_len(value@);
            }
            return match split_top_level_once(args, ',') {
                Some((left, right)) => {
                    proof {
                        assert(left@.len() < value@.len());
                        assert(right@.len() < value@.len());
                    }
                    let min = parse_grid_track_breadth(left, em_base);
                    let max = parse_grid_track_breadth(right, em_base);
                    match (min, max) {
                        (Some(min), Some(max)) => match min {
                            CssGridTrackBreadth::Fraction(_) => None,
                            _ => Some(CssGridTrack::MinMax { min, max }),
                        },
                        _ => None,
                    }
                },
                None => None,
            };
        },
        None => {},
    }
    if lower_range_is(&v, a, b, "auto") {
        return Some(CssGridTrack::Auto);
    }
    if lower_range_is(&v, a, b, "min-content") {
        return Some(CssGridTrack::MinContent);
    }
    if lower_range_is(&v, a, b, "max-content") {
        return Some(CssGridTrack::MaxContent);
    }
    if range_ends_with(&v, a, b, "fr") {
        proof {
            reveal_strlit("fr");
            assert(t.subrange(0, t.len() - 2) =~= v@.subrange(a as int, b - 2));
        }
        let (c, d) = trim_bounds(&v, a, b - 2);
        return match parse_literal(&v, c, d) {
            Some(x) => Some(CssGridTrack::Fraction(x)),
            None => None,
        };
    }
    if range_ends_with(&v, a, b, "%") {
        proof {
            reveal_strlit("%");
            assert(t.subrange(0, t.len() - 1) =~= v@.subrange(a as int, b - 1));
        }
        let (c, d) = trim_bounds(&v, a, b - 1);
        return match parse_literal(&v, c, d) {
            Some(x) => {
                let q: i64 = if x.micros >= 0 {
                    x.micros / 100
                } else {
                    -((-x.micros) / 100)
                };
                Some(CssGridTrack::Percent(CssNumber { micros: q }))
            },
            None => None,
        };
    }
    let trimmed = value.substring_char(a, b);
    match css_relative_px(trimmed, em_base, false) {
        Some(x) => Some(CssGridTrack::Length(x)),
        None => None,
    }
}

/// Parses one breadth of `minmax()` (`parse_grid_track_breadth`).
pub fn parse_grid_track_breadth(value: &str, em_base: CssNumber) -> (r: Option<CssGridTrackBreadth>)
    ensures
        r == breadth_spec(value@, em_base.val()),
    decreases value@.len(), 1nat,
{
    match parse_grid_track(value, em_base) {
        Some(t) => breadth_from(t),
        None => None,
    }
}


/// Parses every token as a track; `None` if one fails.
pub open spec fn tracks_of(tokens: Seq<Seq<char>>, em: int) -> Option<Seq<CssGridTrack>>
    decreases tokens.len(),
{
    if tokens.len() == 0 {
        Some(Seq::empty())
    } else {
        match (tracks_of(tokens.drop_last(), em), grid_track_spec(tokens.last(), em)) {
            (Some(r), Some(x)) => Some(r.push(x)),
            _ => None,
        }
    }
}

/// A whitespace-separated list of one to `MAX_GRID_TRACKS` tracks.
pub open spec fn track_list_spec(s: Seq<char>, em: int) -> Option<Seq<CssGridTrack>> {
    let tokens = top_level_whitespace_tokens(s);
    if tokens.len() == 0 || tokens.len() > MAX_GRID_TRACKS {
        None
    } else {
        tracks_of(tokens, em)
    }
}

/// `v` repeated `n` times.
pub open spec fn repeat_seq<T>(v: Seq<T>, n: nat) -> Seq<T>
    decreases n,
{
    if n == 0 {
        Seq::empty()
    } else {
        repeat_seq(v, (n - 1) as nat) + v
    }
}

/// `grid-template-columns`: `repeat(count, tracks)` with a positive count
/// and at most `MAX_GRID_TRACKS` tracks in all, or a track list.
pub open spec fn grid_tracks_spec(s: Seq<char>, em: int) -> Option<Seq<CssGridTrack>> {
    let t = trim(s);
    if call_body(t, "repeat("@) is Some {
        match split_once_spec(call_body(t, "repeat("@)->0, ',') {
            Some((count, tracks)) => match (usize_spec(trim(count)), track_list_spec(tracks, em)) {
                (Some(n), Some(list)) => if n == 0 || n * list.len() > MAX_GRID_TRACKS {
                    None
                } else {
                    Some(repeat_seq(list, n as nat))
                },
                _ => None,
            },
            None => None,
        }
    } else {
        track_list_spec(t, em)
    }
}

/// The view of an optional track list.
pub open spec fn tracks_view(r: Option<Vec<CssGridTrack>>) -> Option<Seq<CssGridTrack>> {
    match r {
        Some(v) => Some(v@),
        None => None,
    }
}

proof fn lemma_tracks_of_prefix_none(t: Seq<Seq<char>>, n: int, em: int)
    requires
        0 <= n <= t.len(),
        tracks_of(t.take(n), em) is None,
    ensures
        tracks_of(t, em) is None,
    decreases t.len() - n,
{
    if n < t.len() {
        assert(t.take(n + 1).drop_last() =~= t.take(n));
        lemma_tracks_of_prefix_none(t, n + 1, em);
    } else {
        assert(t.take(n) =~= t);
    }
}

/// Parses a whitespace-separated track list (`parse_grid_track_list`).
pub fn parse_grid_track_list(value: &str, em_base: CssNumber) -> (r: Option<Vec<CssGridTrack>>)
    ensures
        tracks_view(r) == track_list_spec(value@, em_base.val()),
{
    let tokens = split_top_level_whitespace(value);
    if tokens.len() == 0 || tokens.len() > MAX_GRID_TRACKS {
        return None;
    }
    let ghost tv = views(tokens@);
    let ghost em = em_base.val();
    let mut out: Vec<CssGridTrack> = Vec::new();
    let mut i: usize = 0;
    while i < tokens.len()
        invariant
            tv == views(tokens@),
            tv == top_level_whitespace_tokens(value@),
            em == em_base.val(),
            i <= tokens@.len(),
            tracks_of(tv.take(i as int), em) == Some(out@),
        decreases tokens@.len() - i,
    {
        let tok = tokens[i];
        let parsed = parse_grid_track(tok, em_base);
        proof {
            assert(tv.take(i + 1).drop_last() =~= tv.take(i as int));
            assert(tv.take(i + 1).last() == tok@);
        }
        match parsed {
            Some(x) => {
                out.push(x);
            },
            None => {
                proof {
                    lemma_tracks_of_prefix_none(tv, i + 1, em);
                }
                return None;
            },
        }
        i = i + 1;
    }
    proof {
        assert(tv.take(tokens@.len() as int) =~= tv);
    }
    Some(out)
}

/// Parses `grid-template-columns` (`grid_tracks`).
pub fn grid_tracks(value: &str, em_base: CssNumber) -> (r: Option<Vec<CssGridTrack>>)
    ensures
        tracks_view(r) == grid_tracks_spec(value@, em_base.val()),
{
    let v = chars_of(value);
    let (a, b) = trim_bounds(&v, 0, v.len());
    proof {
        assert(v@.subrange(0, v@.len() as int) =~= value@);
    }
    let trimmed = value.substring_char(a, b);
    match call_body_range(&v, a, b, "repeat(") {
        Some((c, d)) => {
            let arguments = value.substring_char(c, d);
            let (count, tracks) = match split_top_level_once(arguments, ',') {
                Some(pair) => pair,
                None => {
                    return None;
                },
            };
            let cv = chars_of(count);
            let (ca, cb) = trim_bounds(&cv, 0, cv.len());
            proof {
                assert(cv@.subrange(0, cv@.len() as int) =~= count@);
            }
            let n = match parse_usize(&cv, ca, cb) {
                Some(n) => n,
                None => {
                    return None;
                },
            };
            let repeated = match parse_grid_track_list(tracks, em_base) {
                Some(list) => list,
                None => {
                    return None;
                },
            };
            let total = n.checked_mul(repeated.len());
            match total {
                None => {
                    return None;
                },
                Some(total) => {
                    if n == 0 || total > MAX_GRID_TRACKS {
                        return None;
                    }
                },
            }
            let mut out: Vec<CssGridTrack> = Vec::new();
            let mut k: usize = 0;
            while k < n
                invariant
                    k <= n,
                    out@ == repeat_seq(repeated@, k as nat),
                decreases n - k,
            {
                let mut j: usize = 0;
                let ghost base = out@;
                while j < repeated.len()
                    invariant
                        j <= repeated@.len(),
                        out@ == base + repeated@.take(j as int),
                    decreases repeated@.len() - j,
                {
                    out.push(repeated[j]);
                    proof {
                        assert(out@ =~= base + repeated@.take(j + 1));
                    }
                    j = j + 1;
                }
                proof {
                    assert(repeated@.take(repeated@.len() as int) =~= repeated@);
                }
                k = k + 1;
            }
            Some(out)
        },
        None => parse_grid_track_list(trimmed, em_base),
    }
}
} // verus!
