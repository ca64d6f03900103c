//! The text attributes written into the SVG for a style, list markers, and
//! the decimal numbers they hold.
use crate::number::{saturate, saturated, saturating_mul_div, scaled, CssNumber, MICROS_PER_UNIT};
use crate::style::text_style::TEXT_CHARACTER_WIDTH_FACTOR_MICROS;
use crate::style::types::CssTextAlign;
use crate::style::types::{CssStyle, StyleModel};
use crate::text::push_char;
use vstd::prelude::*;
use vstd::string::*;

verus! {

/// The character of a decimal digit.
pub open spec fn digit_char(d: int) -> char {
    seq!['0', '1', '2', '3', '4', '5', '6', '7', '8', '9'][d]
}

/// The decimal digits of `n`, without leading zeros (`0` for zero).
pub open spec fn digits_of(n: nat) -> Seq<char>
    decreases n,
{
    if n < 10 {
        seq![digit_char(n as int)]
    } else {
        digits_of(n / 10).push(digit_char((n % 10) as int))
    }
}

/// The last `k` decimal digits of `n`, with leading zeros.
pub open spec fn fixed_digits(n: nat, k: nat) -> Seq<char>
    decreases k,
{
    if k == 0 {
        Seq::empty()
    } else {
        fixed_digits(n / 10, (k - 1) as nat).push(digit_char((n % 10) as int))
    }
}

/// The number of trailing zero digits of a positive number.
pub open spec fn trailing_zeros(n: nat) -> nat
    decreases n,
{
    if n > 0 && n % 10 == 0 {
        1 + trailing_zeros(n / 10)
    } else {
        0
    }
}

/// `10^k`.
pub open spec fn pow10_nat(k: nat) -> nat
    decreases k,
{
    if k == 0 {
        1
    } else {
        10 * pow10_nat((k - 1) as nat)
    }
}

/// The fraction digits of a number of millionths `f` (0 < f < 10^6): six
/// digits with trailing zeros dropped.
pub open spec fn fraction_text(f: nat) -> Seq<char> {
    let z = trailing_zeros(f);
    fixed_digits(f / pow10_nat(z), (6 - z) as nat)
}

/// The decimal text of a number of millionths: an optional `-`, the whole
/// part, and the fraction without trailing zeros after a `.` where it is not
/// zero (`2`, `0.5`, `-1.25`).
pub open spec fn number_text(m: int) -> Seq<char> {
    let a: nat = if m < 0 { (-m) as nat } else { m as nat };
    let whole = digits_of(a / 1_000_000);
    let frac = a % 1_000_000;
    let sign = if m < 0 { seq!['-'] } else { Seq::empty() };
    if frac == 0 {
        sign + whole
    } else {
        sign + whole + seq!['.'] + fraction_text(frac)
    }
}

fn push_digit(out: &mut String, d: u64)
    requires
        d < 10,
    ensures
        final(out)@ == old(out)@.push(digit_char(d as int)),
{
    let c = if d == 0 {
        '0'
    } else if d == 1 {
        '1'
    } else if d == 2 {
        '2'
    } else if d == 3 {
        '3'
    } else if d == 4 {
        '4'
    } else if d == 5 {
        '5'
    } else if d == 6 {
        '6'
    } else if d == 7 {
        '7'
    } else if d == 8 {
        '8'
    } else {
        '9'
    };
    push_char(out, c);
}

/// Appends the decimal digits of `n`.
pub fn append_digits(n: u64, out: &mut String)
    ensures
        final(out)@ == old(out)@ + digits_of(n as nat),
    decreases n,
{
    if n < 10 {
        push_digit(out, n);
        proof {
            assert(old(out)@.push(digit_char(n as int)) =~= old(out)@ + seq![digit_char(n as int)]);
        }
    } else {
        append_digits(n / 10, out);
        let ghost mid = out@;
        push_digit(out, n % 10);
        proof {
            assert(mid.push(digit_char((n % 10) as int)) =~= old(out)@ + digits_of((n / 10) as nat).push(
                digit_char((n % 10) as int),
            ));
        }
    }
}

/// Appends the last `k` decimal digits of `n`, with leading zeros.
fn append_fixed_digits(n: u64, k: u64, out: &mut String)
    ensures
        final(out)@ == old(out)@ + fixed_digits(n as nat, k as nat),
    decreases k,
{
    if k == 0 {
        proof {
            assert(old(out)@ + Seq::<char>::empty() =~= old(out)@);
        }
    } else {
        append_fixed_digits(n / 10, k - 1, out);
        let ghost mid = out@;
        push_digit(out, n % 10);
        proof {
            assert(mid.push(digit_char((n % 10) as int)) =~= old(out)@ + fixed_digits((n / 10) as nat, (k - 1) as nat).push(
                digit_char((n % 10) as int),
            ));
        }
    }
}

/// The decimal text of a number (see `number_text`).
pub fn format_number(n: CssNumber) -> (r: String)
    ensures
        r@ == number_text(n.val()),
{
    let a: u64 = if n.micros < 0 { (-(n.micros as i128)) as u64 } else { n.micros as u64 };
    let mut out = String::new();
    if n.micros < 0 {
        push_char(&mut out, '-');
    }
    let ghost sign = out@;
    proof {
        if n.micros < 0 {
            assert(sign =~= seq!['-']);
        } else {
            assert(sign =~= Seq::<char>::empty());
        }
    }
    append_digits(a / 1_000_000, &mut out);
    let frac = a % 1_000_000;
    if frac != 0 {
        push_char(&mut out, '.');
        let mut f = frac;
        let mut z: u64 = 0;
        proof {
            assert(pow10_nat(0) == 1);
            assert(f * pow10_nat(0) == frac);
        }
        while f % 10 == 0
            invariant
                0 < f,
                z <= 6,
                f * pow10_nat(z as nat) == frac,
                trailing_zeros(frac as nat) == z + trailing_zeros(f as nat),
                frac < 1_000_000,
            decreases f,
        {
            proof {
                lemma_pow10_nat_step(z as nat);
                lemma_trailing_zero_bound(f as nat, frac as nat, z as nat);
                let p = pow10_nat(z as nat);
                let g = (f / 10) as nat;
                assert(g * (10 * p) == f * p) by (nonlinear_arith)
                    requires
                        f % 10 == 0,
                        g == f / 10,
                ;
            }
            f = f / 10;
            z = z + 1;
        }
        proof {
            lemma_div_pow10(f as nat, frac as nat, z as nat);
        }
        let ghost before = out@;
        append_fixed_digits(f, 6 - z, &mut out);
        proof {
            assert(out@ =~= sign + digits_of((a / 1_000_000) as nat) + seq!['.'] + fraction_text(frac as nat));
        }
    } else {
        proof {
            assert(out@ =~= sign + digits_of((a / 1_000_000) as nat));
        }
    }
    out
}

proof fn lemma_pow10_nat_step(k: nat)
    ensures
        pow10_nat(k + 1) == 10 * pow10_nat(k),
{
}

proof fn lemma_pow10_nat_positive(k: nat)
    ensures
        pow10_nat(k) >= 1,
    decreases k,
{
    if k > 0 {
        lemma_pow10_nat_positive((k - 1) as nat);
    }
}

proof fn lemma_trailing_zero_bound(f: nat, frac: nat, z: nat)
    requires
        0 < f,
        f % 10 == 0,
        f * pow10_nat(z) == frac,
        frac < 1_000_000,
    ensures
        z < 6,
{
    lemma_pow10_nat_positive(z);
    if z >= 6 {
        lemma_pow10_ge(z);
        assert(f * pow10_nat(z) >= 10 * 1_000_000) by (nonlinear_arith)
            requires
                f >= 10,
                pow10_nat(z) >= 1_000_000,
        ;
    }
    assert(f >= 10) by {
        assert(f % 10 == 0 && f > 0);
    }
}

proof fn lemma_pow10_ge(z: nat)
    requires
        z >= 6,
    ensures
        pow10_nat(z) >= 1_000_000,
    decreases z,
{
    if z == 6 {
        reveal_with_fuel(pow10_nat, 7);
    } else {
        lemma_pow10_ge((z - 1) as nat);
    }
}

proof fn lemma_div_pow10(f: nat, frac: nat, z: nat)
    requires
        0 < f,
        f * pow10_nat(z) == frac,
    ensures
        frac / pow10_nat(z) == f,
{
    lemma_pow10_nat_positive(z);
    let p = pow10_nat(z);
    assert(frac / p == f) by (nonlinear_arith)
        requires
            f * p == frac,
            p >= 1,
    ;
}

/// ` font-weight="700"` for bold text, else nothing.
pub fn font_weight(style: &CssStyle) -> (r: &'static str)
    ensures
        r@ == if style@.bold { " font-weight=\"700\""@ } else { ""@ },
{
    if style.bold {
        " font-weight=\"700\""
    } else {
        ""
    }
}

/// ` font-style="italic"` for italic text, else nothing.
pub fn font_style(style: &CssStyle) -> (r: &'static str)
    ensures
        r@ == if style@.italic { " font-style=\"italic\""@ } else { ""@ },
{
    if style.italic {
        " font-style=\"italic\""
    } else {
        ""
    }
}

/// ` text-decoration="underline"` for underlined text, else nothing.
pub fn text_decoration(style: &CssStyle) -> (r: &'static str)
    ensures
        r@ == if style@.underline { " text-decoration=\"underline\""@ } else { ""@ },
{
    if style.underline {
        " text-decoration=\"underline\""
    } else {
        ""
    }
}

/// ` letter-spacing="<n>"` where the spacing is not zero, else nothing.
pub fn letter_spacing(style: &CssStyle) -> (r: String)
    ensures
        r@ == if style@.letter_spacing.val() == 0 {
            Seq::empty()
        } else {
            " letter-spacing=\""@ + number_text(style@.letter_spacing.val()) + "\""@
        },
{
    if style.letter_spacing.micros == 0 {
        return String::new();
    }
    let mut out = String::from_str(" letter-spacing=\"");
    let number = format_number(style.letter_spacing);
    out.append(number.as_str());
    out.append("\"");
    out
}

/// The marker of a list item: its number and a period in an ordered list,
/// a bullet otherwise.
pub fn list_marker(ordered: bool, index: usize) -> (r: String)
    ensures
        r@ == if ordered { digits_of(index as nat) + "."@ } else { "•"@ },
{
    if ordered {
        let mut out = String::new();
        append_digits(index as u64, &mut out);
        proof {
            assert(Seq::<char>::empty() + digits_of(index as nat) =~= digits_of(index as nat));
        }
        out.append(".");
        out
    } else {
        String::from_str("•")
    }
}

/// The side of the disclosure marker of a summary, in millionths of a pixel.
pub const SUMMARY_MARKER_SIZE_MICROS: i64 = 8_000_000;

/// The SVG path of the disclosure triangle whose box starts at `(x, y)`:
/// pointing down when the details are open, right when they are closed.
pub open spec fn disclosure_marker_spec(x: int, y: int, open: bool) -> Seq<char> {
    let end_x = number_text(saturated(x + SUMMARY_MARKER_SIZE_MICROS));
    let end_y = number_text(saturated(y + SUMMARY_MARKER_SIZE_MICROS));
    let center_x = number_text(saturated(x + SUMMARY_MARKER_SIZE_MICROS / 2));
    let center_y = number_text(saturated(y + SUMMARY_MARKER_SIZE_MICROS / 2));
    let start = "M "@ + number_text(x) + " "@ + number_text(y);
    if open {
        start + " L "@ + end_x + " "@ + number_text(y) + " L "@ + center_x + " "@ + end_y + " Z"@
    } else {
        start + " L "@ + number_text(x) + " "@ + end_y + " L "@ + end_x + " "@ + center_y + " Z"@
    }
}

/// The SVG path of the disclosure marker of a summary (see
/// `disclosure_marker_spec`).
pub fn disclosure_marker_path(marker_x: CssNumber, marker_y: CssNumber, open: bool) -> (r: String)
    ensures
        r@ == disclosure_marker_spec(marker_x.val(), marker_y.val(), open),
{
    let end_x = format_number(saturate(marker_x.micros as i128 + SUMMARY_MARKER_SIZE_MICROS as i128));
    let end_y = format_number(saturate(marker_y.micros as i128 + SUMMARY_MARKER_SIZE_MICROS as i128));
    let center_x = format_number(saturate(marker_x.micros as i128 + (SUMMARY_MARKER_SIZE_MICROS / 2) as i128));
    let center_y = format_number(saturate(marker_y.micros as i128 + (SUMMARY_MARKER_SIZE_MICROS / 2) as i128));
    let x = format_number(marker_x);
    let y = format_number(marker_y);
    let mut out = String::new();
    out.append("M ");
    out.append(x.as_str());
    out.append(" ");
    out.append(y.as_str());
    if open {
        out.append(" L ");
        out.append(end_x.as_str());
        out.append(" ");
        out.append(y.as_str());
        out.append(" L ");
        out.append(center_x.as_str());
        out.append(" ");
        out.append(end_y.as_str());
    } else {
        out.append(" L ");
        out.append(x.as_str());
        out.append(" ");
        out.append(end_y.as_str());
        out.append(" L ");
        out.append(end_x.as_str());
        out.append(" ");
        out.append(center_y.as_str());
    }
    out.append(" Z");
    proof {
        assert(out@ =~= disclosure_marker_spec(marker_x.val(), marker_y.val(), open));
    }
    out
}

/// The estimated width of `n` characters in the style's font: each a
/// proportional advance of the font size, with the letter spacing between
/// each two.
pub open spec fn run_width_spec(n: int, m: StyleModel) -> int {
    let advances = saturated(n * m.font_size.val());
    let glyphs = saturated(scaled(advances, TEXT_CHARACTER_WIDTH_FACTOR_MICROS as int, MICROS_PER_UNIT as int));
    let gaps = if n >= 1 { n - 1 } else { 0 };
    saturated(glyphs + saturated(gaps * m.letter_spacing.val()))
}

/// Where a line of `n` characters starts in `width` pixels from `x`, by the
/// style's `text-align`; a line wider than the space starts at `x`.
pub open spec fn aligned_x_spec(n: int, x: int, width: int, m: StyleModel) -> int {
    let free = width - run_width_spec(n, m);
    let slack = if free >= 0 { free } else { 0 };
    match m.text_align {
        CssTextAlign::Start => x,
        CssTextAlign::Center => saturated(x + slack / 2),
        CssTextAlign::End => saturated(x + slack),
    }
}

/// Where a line of text starts (see `aligned_x_spec`).
pub fn aligned_text_x(line: &str, x: CssNumber, width: CssNumber, style: &CssStyle) -> (r: CssNumber)
    ensures
        r.val() == aligned_x_spec(line@.len() as int, x.val(), width.val(), style@),
{
    let n = line.unicode_len() as i128;
    let f = style.font_size.micros as i128;
    proof {
        assert(-0x8000_0000_0000_0000 * 0xFFFF_FFFF_FFFF_FFFF <= n * f <= 0x8000_0000_0000_0000 * 0xFFFF_FFFF_FFFF_FFFF)
            by (nonlinear_arith)
            requires
                0 <= n <= 0xFFFF_FFFF_FFFF_FFFF,
                -0x8000_0000_0000_0000 <= f <= 0x8000_0000_0000_0000,
        ;
    }
    let advances = saturate(n * f);
    let glyphs = saturating_mul_div(
        advances,
        CssNumber { micros: TEXT_CHARACTER_WIDTH_FACTOR_MICROS },
        MICROS_PER_UNIT as u64,
    );
    let gaps: i128 = if n >= 1 { n - 1 } else { 0 };
    let spacing = style.letter_spacing.micros as i128;
    proof {
        assert(-0x8000_0000_0000_0000 * 0xFFFF_FFFF_FFFF_FFFF <= gaps * spacing <= 0x8000_0000_0000_0000
            * 0xFFFF_FFFF_FFFF_FFFF) by (nonlinear_arith)
            requires
                0 <= gaps <= 0xFFFF_FFFF_FFFF_FFFF,
                -0x8000_0000_0000_0000 <= spacing <= 0x8000_0000_0000_0000,
        ;
    }
    let between = saturate(gaps * spacing);
    let text_width = saturate(glyphs.micros as i128 + between.micros as i128);
    let free: i128 = width.micros as i128 - text_width.micros as i128;
    let slack: i128 = if free >= 0 { free } else { 0 };
    match style.text_align {
        CssTextAlign::Start => x,
        CssTextAlign::Center => saturate(x.micros as i128 + ((slack as u128) / 2) as i128),
        CssTextAlign::End => saturate(x.micros as i128 + slack),
    }
}

} // verus!
