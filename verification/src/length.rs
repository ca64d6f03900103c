//! CSS lengths: absolute, font-relative and viewport-relative units, and the
//! `min()`, `max()` and `clamp()` functions, resolved to pixels.
use crate::number::{
    checked, css_scalar, literal_micros, max_number, min_number, opt_val, parse_literal,
    percent_of, scalar_spec, scaled, CssNumber, MICROS_PER_UNIT, multiply,
};
use crate::text::{chars_of, ends_with, range_ends_with, strip_suffix, trim, trim_bounds};
use crate::tokens::{css_function_arguments, function_arguments, views, comma_scan, top_level_commas};
use vstd::prelude::*;
use vstd::string::*;

verus! {

/// The initial font size, in millionths of a pixel (16px); `rem` resolves
/// against it.
pub const DEFAULT_FONT_SIZE_MICROS: i64 = 16_000_000;

/// The ratio of the `normal` line height to the font size (1.5).
pub const LINE_HEIGHT_FACTOR_MICROS: i64 = 1_500_000;

/// The smaller of two values.
pub open spec fn min_int(a: int, b: int) -> int {
    if a <= b {
        a
    } else {
        b
    }
}

/// The larger of two values.
pub open spec fn max_int(a: int, b: int) -> int {
    if a >= b {
        a
    } else {
        b
    }
}

/// `a × b` in millionths.
pub open spec fn times(a: int, b: int) -> Option<int> {
    checked(scaled(a, b, MICROS_PER_UNIT as int))
}

/// Keeps `x` where `signed` or `x >= 0` (the sign filter of the length parsers).
pub open spec fn sign_filter(x: Option<int>, signed: bool) -> Option<int> {
    match x {
        Some(v) => if signed || v >= 0 {
            Some(v)
        } else {
            None
        },
        None => None,
    }
}

/// `times` on an optional operand.
pub open spec fn times_opt(x: Option<int>, b: int) -> Option<int> {
    match x {
        Some(v) => times(v, b),
        None => None,
    }
}

/// `css_relative_px`: a number with an optional `px`, `em` or `rem` unit.
pub open spec fn relative_px(s: Seq<char>, em: int, signed: bool) -> Option<int> {
    let t = trim(s);
    let parsed = if ends_with(t, "rem"@) {
        times_opt(scalar_spec(strip_suffix(t, "rem"@)->0), DEFAULT_FONT_SIZE_MICROS as int)
    } else if ends_with(t, "em"@) {
        times_opt(scalar_spec(strip_suffix(t, "em"@)->0), em)
    } else if ends_with(t, "px"@) {
        scalar_spec(strip_suffix(t, "px"@)->0)
    } else {
        scalar_spec(t)
    };
    sign_filter(parsed, signed)
}

/// `basis × value / 100` on an optional value.
pub open spec fn percent_opt(x: Option<int>, basis: int) -> Option<int> {
    match x {
        Some(v) => checked(scaled(basis, v, 100 * MICROS_PER_UNIT)),
        None => None,
    }
}

/// `css_viewport_px`: a number with a `vmin`, `vmax`, `vw` or `vh` unit,
/// as a percentage of the viewport; `None` without one of these units.
pub open spec fn viewport_px(s: Seq<char>, vw: int, vh: int) -> Option<int> {
    let t = trim(s);
    if ends_with(t, "vmin"@) {
        percent_opt(scalar_spec(strip_suffix(t, "vmin"@)->0), min_int(vw, vh))
    } else if ends_with(t, "vmax"@) {
        percent_opt(scalar_spec(strip_suffix(t, "vmax"@)->0), max_int(vw, vh))
    } else if ends_with(t, "vw"@) {
        percent_opt(scalar_spec(strip_suffix(t, "vw"@)->0), vw)
    } else if ends_with(t, "vh"@) {
        percent_opt(scalar_spec(strip_suffix(t, "vh"@)->0), vh)
    } else {
        None
    }
}

/// The smallest of a non-empty list, folded from the left.
pub open spec fn fold_min(v: Seq<int>) -> int
    decreases v.len(),
{
    if v.len() <= 1 {
        v[0]
    } else {
        min_int(fold_min(v.drop_last()), v.last())
    }
}

/// The largest of a non-empty list, folded from the left.
pub open spec fn fold_max(v: Seq<int>) -> int
    decreases v.len(),
{
    if v.len() <= 1 {
        v[0]
    } else {
        max_int(fold_max(v.drop_last()), v.last())
    }
}

/// Which CSS math function a value calls.
pub enum MathFunction {
    Min,
    Max,
    Clamp,
}

/// The result of `min()`, `max()` or `clamp()` on resolved arguments:
/// `clamp(a, b, c)` is `b.max(a).min(c.max(a))`; a wrong number of arguments
/// gives `None`.
pub open spec fn combine(f: MathFunction, v: Seq<int>) -> Option<int> {
    match f {
        MathFunction::Min => if v.len() >= 1 {
            Some(fold_min(v))
        } else {
            None
        },
        MathFunction::Max => if v.len() >= 1 {
            Some(fold_max(v))
        } else {
            None
        },
        MathFunction::Clamp => if v.len() == 3 {
            Some(min_int(max_int(v[1], v[0]), max_int(v[2], v[0])))
        } else {
            None
        },
    }
}

/// Resolves each argument with `math_px`; `None` if one fails. Arguments at
/// least `bound` long are refused (no argument of a call is that long).
pub open spec fn args_px(args: Seq<Seq<char>>, bound: nat, em: int, vw: int, vh: int) -> Option<Seq<int>>
    decreases bound, 0nat, args.len(),
{
    if args.len() == 0 {
        Some(Seq::empty())
    } else if args.last().len() < bound {
        match (args_px(args.drop_last(), bound, em, vw, vh), math_px(args.last(), em, vw, vh)) {
            (Some(r), Some(x)) => Some(r.push(x)),
            _ => None,
        }
    } else {
        None
    }
}

/// The function that `s` calls among `min`, `max` and `clamp`, with its
/// arguments, if any (tried in that order).
pub open spec fn math_call(s: Seq<char>) -> Option<(MathFunction, Seq<Seq<char>>)> {
    if function_arguments(s, "min"@) is Some {
        Some((MathFunction::Min, function_arguments(s, "min"@)->0))
    } else if function_arguments(s, "max"@) is Some {
        Some((MathFunction::Max, function_arguments(s, "max"@)->0))
    } else if function_arguments(s, "clamp"@) is Some {
        Some((MathFunction::Clamp, function_arguments(s, "clamp"@)->0))
    } else {
        None
    }
}

/// `css_math_px`: a math function of lengths, a viewport length, or a
/// relative length, in pixels.
pub open spec fn math_px(s: Seq<char>, em: int, vw: int, vh: int) -> Option<int>
    decreases s.len(), 1nat, 0nat,
{
    match math_call(s) {
        Some((f, args)) => match args_px(args, s.len(), em, vw, vh) {
            Some(values) => combine(f, values),
            None => None,
        },
        None => match viewport_px(s, vw, vh) {
            Some(x) => Some(x),
            None => relative_px(trim(s), em, true),
        },
    }
}

/// `css_resolved_px`: `math_px` of the trimmed value, filtered by sign.
pub open spec fn resolved_px(s: Seq<char>, em: int, vw: int, vh: int, signed: bool) -> Option<int> {
    sign_filter(math_px(trim(s), em, vw, vh), signed)
}

/// Resolves `v[lo..hi]` as a scalar, multiplied by `factor`.
fn scalar_times(v: &Vec<char>, lo: usize, hi: usize, factor: CssNumber) -> (r: Option<CssNumber>)
    requires
        lo <= hi <= v@.len(),
    ensures
        opt_val(r) == times_opt(scalar_spec(v@.subrange(lo as int, hi as int)), factor.val()),
{
    let (a, b) = trim_bounds(v, lo, hi);
    match parse_literal(v, a, b) {
        Some(n) => multiply(n, factor),
        None => None,
    }
}

/// The scalar in `v[lo..hi]`.
pub(crate) fn scalar_range(v: &Vec<char>, lo: usize, hi: usize) -> (r: Option<CssNumber>)
    requires
        lo <= hi <= v@.len(),
    ensures
        opt_val(r) == scalar_spec(v@.subrange(lo as int, hi as int)),
{
    let (a, b) = trim_bounds(v, lo, hi);
    parse_literal(v, a, b)
}

pub(crate) proof fn lemma_strip(v: Seq<char>, a: int, b: int, k: int, lit: Seq<char>)
    requires
        0 <= a <= b <= v.len(),
        lit.len() == k,
        ends_with(v.subrange(a, b), lit),
    ensures
        strip_suffix(v.subrange(a, b), lit)->0 == v.subrange(a, b - k),
{
    assert(v.subrange(a, b).subrange(0, b - a - k) =~= v.subrange(a, b - k));
}

/// Resolves a px, em or rem length to pixels (`css_relative_px`).
pub fn css_relative_px(value: &str, em_base: CssNumber, signed: bool) -> (r: Option<CssNumber>)
    ensures
        opt_val(r) == relative_px(value@, em_base.val(), signed),
{
    let v = chars_of(value);
    proof {
        assert(v@.subrange(0, v@.len() as int) =~= value@);
    }
    relative_px_range(&v, 0, v.len(), em_base, signed)
}

fn relative_px_range(v: &Vec<char>, lo: usize, hi: usize, em_base: CssNumber, signed: bool) -> (r: Option<CssNumber>)
    requires
        lo <= hi <= v@.len(),
    ensures
        opt_val(r) == relative_px(v@.subrange(lo as int, hi as int), em_base.val(), signed),
{
    let (a, b) = trim_bounds(v, lo, hi);
    let ghost t = v@.subrange(a as int, b as int);
    let parsed = if range_ends_with(v, a, b, "rem") {
        proof {
            reveal_strlit("rem");
            lemma_strip(v@, a as int, b as int, 3, "rem"@);
        }
        scalar_times(v, a, b - 3, CssNumber { micros: DEFAULT_FONT_SIZE_MICROS })
    } else if range_ends_with(v, a, b, "em") {
        proof {
            reveal_strlit("em");
            lemma_strip(v@, a as int, b as int, 2, "em"@);
        }
        scalar_times(v, a, b - 2, em_base)
    } else if range_ends_with(v, a, b, "px") {
        proof {
            reveal_strlit("px");
            lemma_strip(v@, a as int, b as int, 2, "px"@);
        }
        scalar_range(v, a, b - 2)
    } else {
        scalar_range(v, a, b)
    };
    match parsed {
        Some(n) => if signed || n.micros >= 0 {
            Some(n)
        } else {
            None
        },
        None => None,
    }
}

/// `basis × v[lo..hi] / 100`.
fn scalar_percent(v: &Vec<char>, lo: usize, hi: usize, basis: CssNumber) -> (r: Option<CssNumber>)
    requires
        lo <= hi <= v@.len(),
    ensures
        opt_val(r) == percent_opt(scalar_spec(v@.subrange(lo as int, hi as int)), basis.val()),
{
    match scalar_range(v, lo, hi) {
        Some(n) => percent_of(basis, n),
        None => None,
    }
}

/// Resolves a viewport length (`vmin`, `vmax`, `vw`, `vh`) to pixels.
pub fn css_viewport_px(value: &str, viewport_width: CssNumber, viewport_height: CssNumber) -> (r: Option<CssNumber>)
    ensures
        opt_val(r) == viewport_px(value@, viewport_width.val(), viewport_height.val()),
{
    let v = chars_of(value);
    proof {
        assert(v@.subrange(0, v@.len() as int) =~= value@);
    }
    viewport_px_range(&v, 0, v.len(), viewport_width, viewport_height)
}

fn viewport_px_range(v: &Vec<char>, lo: usize, hi: usize, vw: CssNumber, vh: CssNumber) -> (r: Option<CssNumber>)
    requires
        lo <= hi <= v@.len(),
    ensures
        opt_val(r) == viewport_px(v@.subrange(lo as int, hi as int), vw.val(), vh.val()),
{
    let (a, b) = trim_bounds(v, lo, hi);
    if range_ends_with(v, a, b, "vmin") {
        proof {
            reveal_strlit("vmin");
            lemma_strip(v@, a as int, b as int, 4, "vmin"@);
        }
        scalar_percent(v, a, b - 4, min_number(vw, vh))
    } else if range_ends_with(v, a, b, "vmax") {
        proof {
            reveal_strlit("vmax");
            lemma_strip(v@, a as int, b as int, 4, "vmax"@);
        }
        scalar_percent(v, a, b - 4, max_number(vw, vh))
    } else if range_ends_with(v, a, b, "vw") {
        proof {
            reveal_strlit("vw");
            lemma_strip(v@, a as int, b as int, 2, "vw"@);
        }
        scalar_percent(v, a, b - 2, vw)
    } else if range_ends_with(v, a, b, "vh") {
        proof {
            reveal_strlit("vh");
            lemma_strip(v@, a as int, b as int, 2, "vh"@);
        }
        scalar_percent(v, a, b - 2, vh)
    } else {
        None
    }
}


proof fn lemma_trim_start_len(s: Seq<char>)
    ensures
        crate::text::trim_start(s).len() <= s.len(),
    decreases s.len(),
{
    if s.len() > 0 && crate::text::is_ws(s[0]) {
        lemma_trim_start_len(s.drop_first());
    }
}

proof fn lemma_trim_end_len(s: Seq<char>)
    ensures
        crate::text::trim_end(s).len() <= s.len(),
    decreases s.len(),
{
    if s.len() > 0 && crate::text::is_ws(s.last()) {
        lemma_trim_end_len(s.drop_last());
    }
}

/// Trimming never lengthens.
pub proof fn lemma_trim_len(s: Seq<char>)
    ensures
        trim(s).len() <= s.len(),
{
    lemma_trim_start_len(s);
    lemma_trim_end_len(crate::text::trim_start(s));
}

/// Every argument found by `comma_scan` is at most as long as the scanned text.
proof fn lemma_comma_scan_len(s: Seq<char>, i: int, depth: nat, start: int)
    requires
        0 <= start <= s.len(),
        start <= i || i >= s.len(),
    ensures
        comma_scan(s, i, depth, start) matches Some(r) ==> forall|k: int| 0 <= k < r.len() ==> #[trigger] r[k].len() <= s.len(),
    decreases s.len() - i,
{
    if i < 0 || i >= s.len() {
        lemma_trim_len(s.subrange(start, s.len() as int));
    } else if s[i] == '(' {
        lemma_comma_scan_len(s, i + 1, depth + 1, start);
    } else if s[i] == ')' {
        if depth != 0 {
            lemma_comma_scan_len(s, i + 1, (depth - 1) as nat, start);
        }
    } else if s[i] == ',' && depth == 0 {
        lemma_trim_len(s.subrange(start, i));
        lemma_comma_scan_len(s, i + 1, depth, i + 1);
        let part = trim(s.subrange(start, i));
        match comma_scan(s, i + 1, depth, i + 1) {
            Some(rest) => {
                assert forall|k: int| 0 <= k < (seq![part] + rest).len() implies #[trigger] (seq![part] + rest)[k].len() <= s.len() by {
                    if k > 0 {
                        assert((seq![part] + rest)[k] == rest[k - 1]);
                    }
                }
            },
            None => {},
        }
    } else {
        lemma_comma_scan_len(s, i + 1, depth, start);
    }
}

/// The arguments of a call are shorter than the call.
proof fn lemma_arguments_shorter(s: Seq<char>, name: Seq<char>)
    ensures
        function_arguments(s, name) matches Some(r) ==> forall|k: int| 0 <= k < r.len() ==> #[trigger] r[k].len() < s.len(),
{
    match crate::tokens::find_char(s, '(') {
        Some(open) => {
            crate::tokens::lemma_find_from(s, '(', 0);
            if function_arguments(s, name) is Some {
                assert(0 <= open < s.len() && s[open] == '(');
                assert(s.last() == ')');
                assert(open < s.len() - 1);
                let inner = s.subrange(open + 1, s.len() - 1);
                lemma_comma_scan_len(inner, 0, 0, 0);
            }
        },
        None => {},
    }
}

/// One step of `math_px`.
pub proof fn lemma_math_px_unfold(s: Seq<char>, em: int, vw: int, vh: int)
    ensures
        math_px(s, em, vw, vh) == match math_call(s) {
            Some((f, args)) => match args_px(args, s.len(), em, vw, vh) {
                Some(values) => combine(f, values),
                None => None,
            },
            None => match viewport_px(s, vw, vh) {
                Some(x) => Some(x),
                None => relative_px(trim(s), em, true),
            },
        },
{
}

/// A `min()`, `max()` or `clamp()` call resolved to pixels: `None` where
/// the value calls none of them, `Some(None)` where an argument or the
/// number of arguments is wrong.
pub open spec fn named_function_px(s: Seq<char>, em: int, vw: int, vh: int) -> Option<Option<int>> {
    match math_call(s) {
        Some((f, args)) => Some(
            match args_px(args, s.len(), em, vw, vh) {
                Some(values) => combine(f, values),
                None => None,
            },
        ),
        None => None,
    }
}

/// Resolves a `min()`, `max()` or `clamp()` call to pixels (see
/// `named_function_px`).
pub fn css_named_function_px(
    value: &str,
    em_base: CssNumber,
    viewport_width: CssNumber,
    viewport_height: CssNumber,
) -> (r: Option<Option<CssNumber>>)
    ensures
        match r {
            Some(x) => named_function_px(value@, em_base.val(), viewport_width.val(), viewport_height.val())
                == Some(opt_val(x)),
            None => named_function_px(value@, em_base.val(), viewport_width.val(), viewport_height.val()) is None,
        },
    decreases value@.len(), 0nat,
{
    let ghost s = value@;
    let ghost em = em_base.val();
    let ghost vw = viewport_width.val();
    let ghost vh = viewport_height.val();
    proof {
        lemma_arguments_shorter(s, "min"@);
        lemma_arguments_shorter(s, "max"@);
        lemma_arguments_shorter(s, "clamp"@);
    }
    let mut call: Option<(MathFunction, Vec<&str>)> = None;
    match css_function_arguments(value, "min") {
        Some(args) => {
            call = Some((MathFunction::Min, args));
        },
        None => match css_function_arguments(value, "max") {
            Some(args) => {
                call = Some((MathFunction::Max, args));
            },
            None => match css_function_arguments(value, "clamp") {
                Some(args) => {
                    call = Some((MathFunction::Clamp, args));
                },
                None => {},
            },
        },
    }
    match call {
        Some((f, args)) => {
            let ghost argv = views(args@);
            assert(math_call(s) == Some((f, argv)));
            let ghost target = match args_px(argv, s.len(), em, vw, vh) {
                Some(values) => combine(f, values),
                None => None,
            };
            let mut values: Vec<CssNumber> = Vec::new();
            let mut i: usize = 0;
            while i < args.len()
                invariant
                    argv == views(args@),
                    s == value@,
                    em == em_base.val(),
                    vw == viewport_width.val(),
                    vh == viewport_height.val(),
                    target == match args_px(argv, s.len(), em, vw, vh) {
                        Some(values) => combine(f, values),
                        None => None,
                    },
                    named_function_px(s, em, vw, vh) == Some(target),
                    i <= args@.len(),
                    forall|k: int| 0 <= k < argv.len() ==> #[trigger] argv[k].len() < s.len(),
                    args_px(argv.take(i as int), s.len(), em, vw, vh) == Some(values@.map_values(|n: CssNumber| n.val())),
                decreases args@.len() - i,
            {
                let arg = args[i];
                proof {
                    assert(argv[i as int] == arg@);
                    assert(arg@.len() < s.len());
                }
                let resolved = css_math_px(arg, em_base, viewport_width, viewport_height);
                let ghost prefix = argv.take(i + 1);
                proof {
                    assert(prefix.drop_last() =~= argv.take(i as int));
                    assert(prefix.last() == arg@);
                }
                match resolved {
                    Some(x) => {
                        let ghost before = values@.map_values(|n: CssNumber| n.val());
                        values.push(x);
                        proof {
                            assert(values@.map_values(|n: CssNumber| n.val()) =~= before.push(x.val()));
                        }
                    },
                    None => {
                        proof {
                            assert(math_px(arg@, em, vw, vh) is None);
                            assert(prefix.len() > 0);
                            assert(prefix.last().len() < s.len());
                            assert(args_px(prefix.drop_last(), s.len(), em, vw, vh) is Some);
                            lemma_args_px_last(prefix, s.len(), em, vw, vh);
                            assert(args_px(prefix, s.len(), em, vw, vh) is None);
                            lemma_args_px_prefix_none(argv, i as int + 1, s.len(), em, vw, vh);
                        }
                        return Some(None);
                    },
                }
                i = i + 1;
            }
            proof {
                assert(argv.take(args@.len() as int) =~= argv);
            }
            Some(combine_values(f, &values))
        },
        None => None,
    }
}

/// Resolves a length that may use `min()`, `max()` or `clamp()`, viewport
/// units, or font-relative units, to pixels (`css_math_px`).
pub fn css_math_px(value: &str, em_base: CssNumber, viewport_width: CssNumber, viewport_height: CssNumber) -> (r: Option<CssNumber>)
    ensures
        opt_val(r) == math_px(value@, em_base.val(), viewport_width.val(), viewport_height.val()),
    decreases value@.len(), 1nat,
{
    let ghost s = value@;
    let ghost em = em_base.val();
    let ghost vw = viewport_width.val();
    let ghost vh = viewport_height.val();
    proof {
        lemma_math_px_unfold(s, em, vw, vh);
    }
    match css_named_function_px(value, em_base, viewport_width, viewport_height) {
        Some(x) => x,
        None => {
            match css_viewport_px(value, viewport_width, viewport_height) {
                Some(x) => Some(x),
                None => {
                    let v = chars_of(value);
                    let (a, b) = trim_bounds(&v, 0, v.len());
                    proof {
                        assert(v@.subrange(0, v@.len() as int) =~= value@);
                    }
                    relative_px_range(&v, a, b, em_base, true)
                },
            }
        },
    }
}

proof fn lemma_args_px_last(args: Seq<Seq<char>>, bound: nat, em: int, vw: int, vh: int)
    requires
        args.len() > 0,
        args.last().len() < bound,
    ensures
        args_px(args, bound, em, vw, vh) == match (args_px(args.drop_last(), bound, em, vw, vh), math_px(args.last(), em, vw, vh)) {
            (Some(r), Some(x)) => Some(r.push(x)),
            _ => None,
        },
{
    reveal_with_fuel(args_px, 1);
}

/// A failing argument makes the whole list fail.
proof fn lemma_args_px_prefix_none(args: Seq<Seq<char>>, n: int, bound: nat, em: int, vw: int, vh: int)
    requires
        0 <= n <= args.len(),
        args_px(args.take(n), bound, em, vw, vh) is None,
    ensures
        args_px(args, bound, em, vw, vh) is None,
    decreases args.len() - n,
{
    if n < args.len() {
        assert(args.take(n + 1).drop_last() =~= args.take(n));
        lemma_args_px_prefix_none(args, n + 1, bound, em, vw, vh);
    } else {
        assert(args.take(n) =~= args);
    }
}

/// Applies `combine` to resolved argument values.
fn combine_values(f: MathFunction, values: &Vec<CssNumber>) -> (r: Option<CssNumber>)
    ensures
        opt_val(r) == combine(f, values@.map_values(|n: CssNumber| n.val())),
{
    let ghost vs = values@.map_values(|n: CssNumber| n.val());
    match f {
        MathFunction::Clamp => {
            if values.len() != 3 {
                return None;
            }
            let minimum = values[0];
            let preferred = values[1];
            let maximum = values[2];
            Some(min_number(max_number(preferred, minimum), max_number(maximum, minimum)))
        },
        _ => {
            if values.len() == 0 {
                return None;
            }
            let is_min = match f {
                MathFunction::Min => true,
                _ => false,
            };
            let mut acc = values[0];
            let mut i: usize = 1;
            while i < values.len()
                invariant
                    1 <= i <= values@.len(),
                    vs == values@.map_values(|n: CssNumber| n.val()),
                    is_min ==> acc.val() == fold_min(vs.take(i as int)),
                    !is_min ==> acc.val() == fold_max(vs.take(i as int)),
                decreases values@.len() - i,
            {
                proof {
                    assert(vs.take(i + 1).drop_last() =~= vs.take(i as int));
                    assert(vs.take(i + 1).last() == values@[i as int].val());
                }
                if is_min {
                    acc = min_number(acc, values[i]);
                } else {
                    acc = max_number(acc, values[i]);
                }
                i = i + 1;
            }
            proof {
                assert(vs.take(values@.len() as int) =~= vs);
            }
            Some(acc)
        },
    }
}

/// Resolves a trimmed length to pixels, refusing negative values unless
/// `signed` (`css_resolved_px`).
pub fn css_resolved_px(value: &str, em_base: CssNumber, viewport_width: CssNumber, viewport_height: CssNumber, signed: bool) -> (r: Option<CssNumber>)
    ensures
        opt_val(r) == resolved_px(value@, em_base.val(), viewport_width.val(), viewport_height.val(), signed),
{
    let v = chars_of(value);
    let (a, b) = trim_bounds(&v, 0, v.len());
    proof {
        assert(v@.subrange(0, v@.len() as int) =~= value@);
    }
    let trimmed = value.substring_char(a, b);
    match css_math_px(trimmed, em_base, viewport_width, viewport_height) {
        Some(n) => if signed || n.micros >= 0 {
            Some(n)
        } else {
            None
        },
        None => None,
    }
}
} // verus!
