//! Wrapping styled text, where the first line may be narrower than the
//! rest: the width each line is taken at, and the lines once taken.
//!
//! Taking one line from the front of the remaining text needs the font's
//! measurements; the runner takes the lines (each at `styled_line_width`)
//! and hands them here with the number of bytes each consumed.
use crate::document::strings_view;
use crate::grid_measure::MIN_LAYOUT_WIDTH_MICROS;
use crate::length::max_int;
use crate::number::{max_number, CssNumber};
use crate::style::types::{CssStyle, CssWhiteSpace};
use crate::text::{chars_of, ends_with, trim_end, trim_end_str};
use crate::tokens::{split_char, split_char_spec, views};
use vstd::prelude::*;
use vstd::string::*;

verus! {

/// The width the line `index` (from 0) of a text is taken at: the first at
/// `initial`, the others at `continuing`, none narrower than the narrowest
/// layout width.
pub open spec fn styled_line_width_spec(index: int, initial: int, continuing: int) -> int {
    max_int(if index == 0 { initial } else { continuing }, MIN_LAYOUT_WIDTH_MICROS as int)
}

/// The width the line `index` of a text is taken at.
pub fn styled_line_width(index: usize, initial: CssNumber, continuing: CssNumber) -> (r: CssNumber)
    ensures
        r.val() == styled_line_width_spec(index as int, initial.val(), continuing.val()),
{
    max_number(if index == 0 { initial } else { continuing }, CssNumber { micros: MIN_LAYOUT_WIDTH_MICROS })
}

/// The value of the taken lines: each line's characters and the bytes it
/// consumed.
pub open spec fn takes_view(t: Seq<(String, usize)>) -> Seq<(Seq<char>, usize)> {
    t.map_values(|p: (String, usize)| (p.0@, p.1))
}

/// The lines taken while text remains: each taken line is kept, and
/// consumes its bytes of the `remaining` ones.
pub open spec fn taken_lines(t: Seq<(Seq<char>, usize)>, remaining: int) -> Seq<Seq<char>>
    decreases t.len(),
{
    if t.len() == 0 || remaining <= 0 {
        Seq::empty()
    } else {
        seq![t[0].0] + taken_lines(t.drop_first(), remaining - t[0].1)
    }
}

/// The lines of a styled text: one empty line for no text; without
/// wrapping, its lines with their trailing whitespace dropped; else the
/// taken lines, while text remains, and one empty line more after a final
/// line feed.
pub open spec fn styled_lines_spec(text: Seq<char>, byte_len: int, no_wrap: bool, t: Seq<(Seq<char>, usize)>) -> Seq<
    Seq<char>,
> {
    if text.len() == 0 {
        seq![Seq::empty()]
    } else if no_wrap {
        split_char_spec(text, '\n').map_values(|l: Seq<char>| trim_end(l))
    } else {
        let lines = taken_lines(t, byte_len);
        if ends_with(text, seq!['\n']) {
            lines.push(Seq::empty())
        } else {
            lines
        }
    }
}

/// The lines of `text` in `style`: `taken[k]` is the line taken from the
/// front of the remaining text at `styled_line_width(k, ..)`, with the
/// number of bytes it consumed (see `styled_lines_spec`).
pub fn wrap_text_with_initial_width(text: &str, style: &CssStyle, taken: &[(String, usize)]) -> (r: Vec<String>)
    ensures
        strings_view(r@) == styled_lines_spec(
            text@,
            text.len() as int,
            style.white_space == CssWhiteSpace::NoWrap,
            takes_view(taken@),
        ),
{
    let mut lines: Vec<String> = Vec::new();
    if text.is_empty() {
        lines.push(String::new());
        proof {
            assert(strings_view(lines@) =~= seq![Seq::<char>::empty()]);
        }
        return lines;
    }
    if style.white_space == CssWhiteSpace::NoWrap {
        let forced = split_char(text, '\n');
        let ghost f = views(forced@);
        let mut i: usize = 0;
        while i < forced.len()
            invariant
                i <= forced@.len(),
                f == views(forced@),
                f.len() == forced@.len(),
                strings_view(lines@) == f.take(i as int).map_values(|l: Seq<char>| trim_end(l)),
            decreases forced@.len() - i,
        {
            let ghost before = lines@;
            lines.push(String::from_str(trim_end_str(forced[i])));
            proof {
                assert(f[i as int] == forced@[i as int]@);
                assert(strings_view(lines@) =~= strings_view(before).push(trim_end(f[i as int])));
                assert(f.take(i + 1).map_values(|l: Seq<char>| trim_end(l)) =~= f.take(i as int).map_values(
                    |l: Seq<char>| trim_end(l),
                ).push(trim_end(f[i as int])));
            }
            i = i + 1;
        }
        proof {
            assert(f.take(f.len() as int) =~= f);
        }
        return lines;
    }
    let ghost tv = takes_view(taken@);
    let total = text.len();
    let mut done: usize = 0;
    let mut i: usize = 0;
    proof {
        assert(tv.len() == taken@.len());
        assert(tv.skip(0) =~= tv);
        assert(strings_view(lines@) =~= Seq::<Seq<char>>::empty());
        assert(strings_view(lines@) + taken_lines(tv.skip(0), total - done) =~= taken_lines(tv, total as int));
    }
    while i < taken.len() && done < total
        invariant
            i <= taken@.len(),
            done <= total,
            total == text.len(),
            tv == takes_view(taken@),
            tv.len() == taken@.len(),
            strings_view(lines@) + taken_lines(tv.skip(i as int), total - done) == taken_lines(tv, total as int),
        decreases taken@.len() - i,
    {
        let ghost before = lines@;
        let ghost rest = tv.skip(i as int);
        let consumed = taken[i].1;
        lines.push(taken[i].0.clone());
        proof {
            assert(rest[0] == tv[i as int]);
            assert(tv[i as int] == (taken@[i as int].0@, taken@[i as int].1));
            assert(rest.drop_first() =~= tv.skip(i + 1));
            assert(strings_view(lines@) =~= strings_view(before).push(rest[0].0));
            assert(taken_lines(rest, total - done) == seq![rest[0].0] + taken_lines(tv.skip(i + 1), total - done
                - consumed));
            assert(strings_view(before) + (seq![rest[0].0] + taken_lines(tv.skip(i + 1), total - done - consumed))
                =~= strings_view(lines@) + taken_lines(tv.skip(i + 1), total - done - consumed));
        }
        if consumed >= total - done {
            proof {
                assert(taken_lines(tv.skip(i + 1), total - done - consumed) =~= Seq::<Seq<char>>::empty());
                assert(taken_lines(tv.skip(i + 1), 0) =~= Seq::<Seq<char>>::empty());
            }
            done = total;
        } else {
            done = done + consumed;
        }
        i = i + 1;
    }
    proof {
        if i >= taken@.len() {
            assert(tv.skip(i as int).len() == 0);
        }
        assert(taken_lines(tv.skip(i as int), total - done) =~= Seq::<Seq<char>>::empty());
        assert(strings_view(lines@) =~= taken_lines(tv, total as int));
    }
    let v = chars_of(text);
    if v.len() > 0 && v[v.len() - 1] == '\n' {
        let ghost before = lines@;
        lines.push(String::new());
        proof {
            assert(text@.subrange(text@.len() - 1, text@.len() as int) =~= seq!['\n']);
            assert(strings_view(lines@) =~= strings_view(before).push(Seq::empty()));
        }
    } else {
        proof {
            if ends_with(text@, seq!['\n']) {
                assert(text@.subrange(text@.len() - 1, text@.len() as int)[0] == text@[text@.len() - 1]);
            }
        }
    }
    lines
}

} // verus!
