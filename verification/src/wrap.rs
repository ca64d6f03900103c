//! Wrapping plain text into lines of a fixed number of terminal columns, at
//! the line break opportunities of Unicode's line breaking algorithm.
use crate::document::{append_breakable_segment, push_wrapped_line, strings_view};
use crate::number::CssNumber;
use crate::style::text_style::TEXT_CHARACTER_WIDTH_FACTOR_MICROS;
use crate::text::{trim_end, trim_start};
use crate::tokens::{split_char, split_char_spec, views};
use crate::unicode::display_columns;
use vstd::prelude::*;
use vstd::string::*;
use vstd::utf8::*;

verus! {

broadcast use {encode_utf8_valid_utf8, encode_utf8_decode_utf8};

/// The byte offsets at which `unicode_linebreak::linebreaks` finds the line
/// break opportunities of a text, in order.
pub uninterp spec fn linebreak_offsets(text: Seq<char>) -> Seq<usize>;

/// Calls `unicode_linebreak::linebreaks` and keeps the byte offset of each
/// break opportunity, in the order given; the result is the named
/// `linebreak_offsets` of the text.
#[verifier::external_body]
fn break_offsets(text: &str) -> (r: Vec<usize>)
    ensures
        r@ == linebreak_offsets(text@),
{
    unicode_linebreak::linebreaks(text).map(|(offset, _)| offset).collect()
}

/// The characters of `text` between two byte offsets of its UTF-8 encoding.
pub open spec fn byte_range_chars(text: Seq<char>, start: int, end: int) -> Seq<char> {
    decode_utf8(encode_utf8(text).subrange(start, end))
}

/// Whether a segment may run from byte offset `start` to byte offset `end`:
/// both fall on character boundaries, in order.
pub open spec fn segment_fits(text: Seq<char>, start: int, end: int) -> bool {
    start <= end && is_char_boundary(encode_utf8(text), start) && is_char_boundary(encode_utf8(text), end)
}

/// Where the next segment starts after the break offsets `offsets`: the last
/// offset that ended a segment, or the start of the text.
pub open spec fn segments_end(text: Seq<char>, offsets: Seq<usize>) -> int
    decreases offsets.len(),
{
    if offsets.len() == 0 {
        0
    } else {
        let start = segments_end(text, offsets.drop_last());
        if segment_fits(text, start, offsets.last() as int) {
            offsets.last() as int
        } else {
            start
        }
    }
}

/// The segments of `text` between consecutive break offsets; an offset that
/// does not follow the previous one on a character boundary is passed over.
pub open spec fn break_segments(text: Seq<char>, offsets: Seq<usize>) -> Seq<Seq<char>>
    decreases offsets.len(),
{
    if offsets.len() == 0 {
        Seq::empty()
    } else {
        let start = segments_end(text, offsets.drop_last());
        let before = break_segments(text, offsets.drop_last());
        if segment_fits(text, start, offsets.last() as int) {
            before.push(byte_range_chars(text, start, offsets.last() as int))
        } else {
            before
        }
    }
}

/// One step of filling lines: a segment that would take a non-empty line
/// past `capacity` columns finishes the line (without trailing whitespace)
/// and starts the next one (without its leading whitespace); otherwise it is
/// appended to the line.
pub open spec fn fill_step(segment: Seq<char>, capacity: int, state: (Seq<char>, Seq<Seq<char>>)) -> (
    Seq<char>,
    Seq<Seq<char>>,
) {
    let (line, lines) = state;
    if line.len() > 0 && display_columns(line) + display_columns(segment) > capacity {
        (trim_start(segment), lines.push(trim_end(line)))
    } else {
        (line + segment, lines)
    }
}

/// The line in progress and the finished lines after filling with `segments`
/// from an empty line after `lines`.
pub open spec fn fill_segments(segments: Seq<Seq<char>>, capacity: int, lines: Seq<Seq<char>>) -> (
    Seq<char>,
    Seq<Seq<char>>,
)
    decreases segments.len(),
{
    if segments.len() == 0 {
        (Seq::empty(), lines)
    } else {
        fill_step(segments.last(), capacity, fill_segments(segments.drop_last(), capacity, lines))
    }
}

/// The lines after wrapping one line without line feeds at the break
/// offsets `offsets` into lines of at most `capacity` columns where the
/// segments allow it: an empty text gives one empty line.
pub open spec fn segment_lines(text: Seq<char>, offsets: Seq<usize>, capacity: int, lines: Seq<Seq<char>>) -> Seq<
    Seq<char>,
> {
    if text.len() == 0 {
        lines.push(Seq::empty())
    } else {
        let (line, finished) = fill_segments(break_segments(text, offsets), capacity, lines);
        finished.push(trim_end(line))
    }
}

/// The lines after wrapping one line without line feeds at its line break
/// opportunities (see `segment_lines`).
pub open spec fn forced_line_lines(text: Seq<char>, capacity: int, lines: Seq<Seq<char>>) -> Seq<Seq<char>> {
    segment_lines(text, linebreak_offsets(text), capacity, lines)
}

/// A character boundary at or after a boundary `start` is a boundary of the
/// bytes from `start` on.
proof fn lemma_boundary_after(bytes: Seq<u8>, start: int, end: int)
    requires
        valid_utf8(bytes),
        start <= end,
        is_char_boundary(bytes, start),
        is_char_boundary(bytes, end),
    ensures
        is_char_boundary(bytes.subrange(start, bytes.len() as int), end - start),
{
    broadcast use valid_utf8_split, is_char_boundary_start_end_of_seq;

    let rest = bytes.subrange(start, bytes.len() as int);
    assert(valid_utf8(rest));
    if end == bytes.len() {
        assert(rest.len() == end - start);
    } else {
        assert(end < bytes.len());
        is_char_boundary_iff_not_is_continuation_byte(bytes, end);
        is_char_boundary_iff_not_is_continuation_byte(rest, end - start);
        assert(rest[end - start] == bytes[end]);
    }
}

/// Wraps one line without line feeds at the given break offsets into lines
/// of at most `capacity` columns where its segments allow it, appending
/// them to `lines` (see `segment_lines`).
pub fn wrap_segments(text: &str, offsets: &[usize], capacity: usize, lines: &mut Vec<String>)
    ensures
        strings_view(final(lines)@) == segment_lines(text@, offsets@, capacity as int, strings_view(old(lines)@)),
{
    if text.is_empty() {
        let ghost before = lines@;
        lines.push(String::new());
        proof {
            assert(strings_view(lines@) =~= strings_view(before).push(Seq::empty()));
        }
        return;
    }
    let ghost start_lines = strings_view(lines@);
    let ghost bytes = encode_utf8(text@);
    let mut line = String::new();
    let mut start: usize = 0;
    let mut i: usize = 0;
    while i < offsets.len()
        invariant
            bytes == encode_utf8(text@),
            text.spec_bytes() == bytes,
            i <= offsets@.len(),
            start as int == segments_end(text@, offsets@.take(i as int)),
            (line@, strings_view(lines@)) == fill_segments(
                break_segments(text@, offsets@.take(i as int)),
                capacity as int,
                start_lines,
            ),
        decreases offsets@.len() - i,
    {
        let end = offsets[i];
        proof {
            assert(offsets@.take(i + 1).drop_last() =~= offsets@.take(i as int));
            assert(offsets@.take(i + 1).last() == end);
        }
        if start <= end && text.is_char_boundary(start) && text.is_char_boundary(end) {
            let (_, rest) = text.split_at(start);
            proof {
                lemma_boundary_after(bytes, start as int, end as int);
            }
            let (segment, _) = rest.split_at(end - start);
            proof {
                assert(segment.spec_bytes() =~= bytes.subrange(start as int, end as int));
                assert(segment@ == byte_range_chars(text@, start as int, end as int));
                let segs = break_segments(text@, offsets@.take(i + 1));
                assert(segs.drop_last() == break_segments(text@, offsets@.take(i as int)));
                assert(segs.last() == segment@);
            }
            append_breakable_segment(segment, capacity, &mut line, lines);
            start = end;
        }
        i = i + 1;
    }
    proof {
        assert(offsets@.take(offsets@.len() as int) =~= offsets@);
    }
    push_wrapped_line(line, lines);
}

/// Wraps one line without line feeds at its line break opportunities into
/// lines of at most `capacity` columns, appending them to `lines`.
pub fn wrap_forced_line(text: &str, capacity: usize, lines: &mut Vec<String>)
    ensures
        strings_view(final(lines)@) == forced_line_lines(text@, capacity as int, strings_view(old(lines)@)),
{
    if text.is_empty() {
        let ghost before = lines@;
        lines.push(String::new());
        proof {
            assert(strings_view(lines@) =~= strings_view(before).push(Seq::empty()));
        }
        return;
    }
    let offsets = break_offsets(text);
    wrap_segments(text, offsets.as_slice(), capacity, lines);
}

/// The number of columns of `column` millionths of a pixel that fit in
/// `width` millionths: the nearest whole number where the width lies within
/// one millionth of a pixel's worth of it, else the whole columns that fit;
/// at least one, and at most `usize::MAX`.
pub open spec fn capacity_spec(width: int, column: int) -> int {
    if column == 0 {
        if width > 0 {
            usize::MAX as int
        } else {
            1
        }
    } else {
        let a = if column > 0 { width } else { -width };
        let b = if column > 0 { column } else { -column };
        let nearest = if a >= 0 { (2 * a + b) / (2 * b) } else { -((-2 * a + b) / (2 * b)) };
        let d = width - nearest * column;
        let stable = if column > 0 && -1_000_000 <= d <= 1_000_000 { nearest } else { a / b };
        if stable < 1 {
            1
        } else if stable > usize::MAX {
            usize::MAX as int
        } else {
            stable
        }
    }
}

/// The rounding of `a / b` to the nearest whole number, halves away from
/// zero, and its floor, for `b > 0`.
fn quotients(a: i128, b: i128) -> (r: (i128, i128))
    requires
        b > 0,
        -0x1_0000_0000_0000_0000_0000 <= a <= 0x1_0000_0000_0000_0000_0000,
        b <= 0x1_0000_0000_0000_0000_0000,
    ensures
        r.0 == (if a >= 0 { (2 * a + b) / (2 * b) } else { -((-2 * a + b) / (2 * b)) }),
        r.1 == a / b,
{
    if a >= 0 {
        ((2 * a + b) / (2 * b), a / b)
    } else {
        let m = -a;
        let q = m / b;
        proof {
            assert(0 <= q * b <= m) by (nonlinear_arith)
                requires
                    q == m / b,
                    b > 0,
                    m >= 0,
            ;
        }
        let floor = if q * b == m { -q } else { -q - 1 };
        proof {
            let fl = a / b;
            assert(m == q * b + m % b) by (nonlinear_arith)
                requires
                    q == m / b,
                    b > 0,
            ;
            assert(0 <= m % b < b);
            if q * b == m {
                assert(a == (-q) * b) by (nonlinear_arith)
                    requires
                        m == -a,
                        q * b == m,
                ;
                assert(fl == -q) by (nonlinear_arith)
                    requires
                        a == (-q) * b,
                        b > 0,
                        fl == a / b,
                ;
            } else {
                assert(a == (-q - 1) * b + (b - m % b)) by (nonlinear_arith)
                    requires
                        m == q * b + m % b,
                        m == -a,
                ;
                assert(0 < b - m % b < b) by {
                    assert(m % b != 0);
                }
                assert(fl == -q - 1) by (nonlinear_arith)
                    requires
                        a == (-q - 1) * b + (b - m % b),
                        0 < b - m % b < b,
                        fl == a / b,
                ;
            }
        }
        (-((2 * m + b) / (2 * b)), floor)
    }
}

/// The number of columns of `font_size × width_factor` pixels that fit in
/// `width` pixels (see `capacity_spec`).
pub fn text_capacity(width: CssNumber, font_size: CssNumber, width_factor: CssNumber) -> (r: usize)
    ensures
        r as int == capacity_spec(
            width.val(),
            crate::number::saturated(crate::number::scaled(font_size.val(), width_factor.val(), 1_000_000)),
        ),
{
    let column = crate::number::saturating_mul_div(font_size, width_factor, 1_000_000);
    let w = width.micros as i128;
    let c = column.micros as i128;
    if c == 0 {
        return if w > 0 { usize::MAX } else { 1 };
    }
    let a: i128 = if c > 0 { w } else { -w };
    let b: i128 = if c > 0 { c } else { -c };
    let (nearest, floor) = quotients(a, b);
    proof {
        assert(-0x1_0000_0000_0000_0000 <= nearest <= 0x1_0000_0000_0000_0000) by (nonlinear_arith)
            requires
                b >= 1,
                -0x8000_0000_0000_0000 <= a <= 0x8000_0000_0000_0000,
                nearest == (if a >= 0 { (2 * a + b) / (2 * b) } else { -((-2 * a + b) / (2 * b)) }),
        ;
        assert(-0x1_0000_0000_0000_0000 * 0x1000_0000_0000_0000 <= nearest * c <= 0x1_0000_0000_0000_0000
            * 0x1000_0000_0000_0000) by (nonlinear_arith)
            requires
                -0x1_0000_0000_0000_0000 <= nearest <= 0x1_0000_0000_0000_0000,
                -0x1000_0000_0000_0000 <= c <= 0x1000_0000_0000_0000,
        ;
    }
    let d: i128 = w - nearest * c;
    let stable: i128 = if c > 0 && -1_000_000 <= d && d <= 1_000_000 {
        nearest
    } else {
        floor
    };
    if stable < 1 {
        1
    } else if stable > usize::MAX as i128 {
        usize::MAX
    } else {
        stable as usize
    }
}

/// The lines after wrapping each forced line (split at `\n`) in turn.
pub open spec fn wrapped_lines(forced: Seq<Seq<char>>, capacity: int) -> Seq<Seq<char>>
    decreases forced.len(),
{
    if forced.len() == 0 {
        Seq::empty()
    } else {
        forced_line_lines(forced.last(), capacity, wrapped_lines(forced.drop_last(), capacity))
    }
}

/// Wraps a text into lines of `width` pixels for characters of
/// `font_size × width_factor` pixels: each line feed ends a line, and each
/// line is wrapped at its break opportunities.
pub fn wrap_text_with_factor(text: &str, width: CssNumber, font_size: CssNumber, width_factor: CssNumber) -> (r: Vec<
    String,
>)
    ensures
        strings_view(r@) == wrapped_lines(
            split_char_spec(text@, '\n'),
            capacity_spec(
                width.val(),
                crate::number::saturated(crate::number::scaled(font_size.val(), width_factor.val(), 1_000_000)),
            ),
        ),
{
    let capacity = text_capacity(width, font_size, width_factor);
    let forced = split_char(text, '\n');
    let mut lines: Vec<String> = Vec::new();
    let mut i: usize = 0;
    while i < forced.len()
        invariant
            i <= forced@.len(),
            strings_view(lines@) == wrapped_lines(views(forced@).take(i as int), capacity as int),
        decreases forced@.len() - i,
    {
        proof {
            assert(views(forced@).take(i + 1).drop_last() =~= views(forced@).take(i as int));
            assert(views(forced@).take(i + 1).last() == forced@[i as int]@);
        }
        wrap_forced_line(forced[i], capacity, &mut lines);
        i = i + 1;
    }
    proof {
        assert(views(forced@).take(forced@.len() as int) =~= views(forced@));
    }
    lines
}

/// Wraps a text for the average advance width of a proportional font.
pub fn wrap_text(text: &str, width: CssNumber, font_size: CssNumber) -> (r: Vec<String>)
    ensures
        strings_view(r@) == wrapped_lines(
            split_char_spec(text@, '\n'),
            capacity_spec(
                width.val(),
                crate::number::saturated(
                    crate::number::scaled(font_size.val(), TEXT_CHARACTER_WIDTH_FACTOR_MICROS as int, 1_000_000),
                ),
            ),
        ),
{
    wrap_text_with_factor(text, width, font_size, CssNumber { micros: TEXT_CHARACTER_WIDTH_FACTOR_MICROS })
}

} // verus!
