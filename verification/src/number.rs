//! CSS numbers as fixed-point decimals.
//!
//! A `CssNumber` is a count of millionths (`micros`). Parsing follows the
//! grammar of Rust's `str::parse::<f32>` for finite numbers (an optional sign,
//! digits with an optional fraction, an optional exponent); the value is
//! truncated toward zero to a whole number of millionths and held to
//! `±MAX_MICROS`; a literal too large to be a finite single-precision number
//! is refused, as that parser gives infinity for it.
use crate::text::{is_digit, trim};
use vstd::prelude::*;

verus! {

/// One CSS unit (one pixel, or the number 1) in millionths.
pub const MICROS_PER_UNIT: i64 = 1_000_000;

/// The largest magnitude, in millionths, that a `CssNumber` produced by this
/// library holds (10^12 units).
pub const MAX_MICROS: i64 = 1_000_000_000_000_000_000;

/// A decimal number with six fractional digits, stored in millionths.
#[derive(Clone, Copy, Debug, PartialEq, Eq, Structural)]
pub struct CssNumber {
    pub micros: i64,
}

/// Whether `m` lies in the range that this library's numbers keep.
pub open spec fn in_range(m: int) -> bool {
    -MAX_MICROS <= m <= MAX_MICROS
}

impl CssNumber {
    /// The number's value in millionths.
    pub open spec fn val(self) -> int {
        self.micros as int
    }

    /// The number `units` (a whole number of units).
    pub fn from_units(units: i32) -> (r: CssNumber)
        ensures
            r.val() == units * MICROS_PER_UNIT,
    {
        CssNumber { micros: (units as i64) * MICROS_PER_UNIT }
    }

    /// The number zero.
    pub fn zero() -> (r: CssNumber)
        ensures
            r.val() == 0,
    {
        CssNumber { micros: 0 }
    }
}

/// The number holding `m` millionths.
pub open spec fn num(m: int) -> CssNumber {
    CssNumber { micros: m as i64 }
}

/// The optional number holding `m` millionths.
pub open spec fn opt_num(m: Option<int>) -> Option<CssNumber> {
    match m {
        Some(x) => Some(num(x)),
        None => None,
    }
}

/// The number holding `m` millionths where there is one, else `d`.
pub open spec fn num_or(m: Option<int>, d: CssNumber) -> CssNumber {
    match m {
        Some(x) => num(x),
        None => d,
    }
}

/// `10^n`.
pub open spec fn pow10(n: nat) -> nat
    decreases n,
{
    if n == 0 {
        1
    } else {
        10 * pow10((n - 1) as nat)
    }
}

/// The numeric value of an ASCII digit.
pub open spec fn digit_value(c: char) -> int {
    (c as int) - ('0' as int)
}

/// The natural number written by the decimal digits `d`.
pub open spec fn digits_value(d: Seq<char>) -> int
    decreases d.len(),
{
    if d.len() == 0 {
        0
    } else {
        digits_value(d.drop_last()) * 10 + digit_value(d.last())
    }
}

/// Every character of `d` is an ASCII digit.
pub open spec fn all_digits(d: Seq<char>) -> bool {
    forall|i: int| 0 <= i < d.len() ==> is_digit(#[trigger] d[i])
}

/// The length of the longest prefix of `s` made of ASCII digits.
pub open spec fn digit_run(s: Seq<char>) -> nat
    decreases s.len(),
{
    if s.len() > 0 && is_digit(s[0]) {
        1 + digit_run(s.drop_first())
    } else {
        0
    }
}

/// The length of an optional leading `+` or `-`.
pub open spec fn sign_len(s: Seq<char>) -> nat {
    if s.len() > 0 && (s[0] == '+' || s[0] == '-') {
        1
    } else {
        0
    }
}

/// A decimal literal taken apart: its sign, its significant digits (integer
/// digits followed by fraction digits), the number of fraction digits, and
/// the power of ten written after `e` or `E`.
pub struct DecimalSyntax {
    pub negative: bool,
    pub digits: Seq<char>,
    pub frac_len: nat,
    pub exponent: int,
}

/// The exponent part of a literal: empty (zero), or `e`/`E`, an optional sign
/// and at least one digit, with nothing after it.
pub open spec fn exponent_syntax(r: Seq<char>) -> Option<int> {
    if r.len() == 0 {
        Some(0)
    } else if r[0] == 'e' || r[0] == 'E' {
        let t = r.skip(1);
        let sl = sign_len(t);
        let ed = t.skip(sl as int);
        if ed.len() > 0 && digit_run(ed) == ed.len() {
            if sl == 1 && t[0] == '-' {
                Some(-digits_value(ed))
            } else {
                Some(digits_value(ed))
            }
        } else {
            None
        }
    } else {
        None
    }
}

/// The syntax of a finite literal accepted by `str::parse::<f32>`:
/// `[+-]? (digits ['.' digits?] | '.' digits) ([eE] [+-]? digits)?`.
#[verifier::opaque]
pub open spec fn decimal_syntax(s: Seq<char>) -> Option<DecimalSyntax> {
    let sl = sign_len(s);
    let b = s.skip(sl as int);
    let il = digit_run(b);
    let r1 = b.skip(il as int);
    let has_dot = r1.len() > 0 && r1[0] == '.';
    let fl: nat = if has_dot {
        digit_run(r1.skip(1))
    } else {
        0
    };
    let r2 = if has_dot {
        r1.skip(1 + fl as int)
    } else {
        r1
    };
    if il + fl == 0 {
        None
    } else {
        match exponent_syntax(r2) {
            Some(e) => Some(
                DecimalSyntax {
                    negative: sl == 1 && s[0] == '-',
                    digits: b.take(il as int) + (if has_dot {
                        r1.skip(1).take(fl as int)
                    } else {
                        Seq::empty()
                    }),
                    frac_len: fl,
                    exponent: e,
                },
            ),
            None => None,
        }
    }
}

/// The value of a decimal literal in millionths, truncated toward zero:
/// `digits × 10^(exponent + 6 − frac_len)`.
pub open spec fn syntax_micros(d: DecimalSyntax) -> int {
    let m = digits_value(d.digits);
    let k = d.exponent + 6 - d.frac_len;
    let magnitude = if k >= 0 {
        m * pow10(k as nat)
    } else {
        m / (pow10((-k) as nat) as int)
    };
    if d.negative {
        -magnitude
    } else {
        magnitude
    }
}

/// The magnitude of a decimal literal in whole units, rounded down:
/// `digits × 10^(exponent − frac_len)`.
pub open spec fn syntax_units(d: DecimalSyntax) -> int {
    let m = digits_value(d.digits);
    let k = d.exponent - d.frac_len;
    if k >= 0 {
        m * pow10(k as nat)
    } else {
        m / (pow10((-k) as nat) as int)
    }
}

/// The millionths written by the literal `s` (no surrounding whitespace),
/// held to the range; `None` where `s` is not a literal, or is one too large
/// to be a finite single-precision number (see `LITERAL_OVERFLOW_UNITS`).
pub open spec fn literal_micros(s: Seq<char>) -> Option<int> {
    match decimal_syntax(s) {
        Some(d) => if syntax_units(d) < LITERAL_OVERFLOW_UNITS {
            Some(saturated(syntax_micros(d)))
        } else {
            None
        },
        None => None,
    }
}

/// The number written by the trimmed text, in millionths: a finite decimal
/// literal in the grammar above, held to the range.
pub open spec fn scalar_spec(s: Seq<char>) -> Option<int> {
    literal_micros(trim(s))
}

pub proof fn lemma_pow10_positive(n: nat)
    ensures
        pow10(n) >= 1,
    decreases n,
{
    if n > 0 {
        lemma_pow10_positive((n - 1) as nat);
    }
}

pub proof fn lemma_pow10_monotone(a: nat, b: nat)
    requires
        a <= b,
    ensures
        pow10(a) <= pow10(b),
    decreases b,
{
    if b > a {
        lemma_pow10_monotone(a, (b - 1) as nat);
        lemma_pow10_positive((b - 1) as nat);
    }
}

proof fn lemma_digits_value_nonneg(d: Seq<char>)
    requires
        all_digits(d),
    ensures
        digits_value(d) >= 0,
    decreases d.len(),
{
    if d.len() > 0 {
        assert(is_digit(d[d.len() - 1]));
        lemma_digits_value_nonneg(d.drop_last());
    }
}

/// `digits_value(d) == digits_value(d[..n]) * 10^(len − n) + digits_value(d[n..])`,
/// where the second part is below `10^(len − n)`.
proof fn lemma_digits_split(d: Seq<char>, n: int)
    requires
        all_digits(d),
        0 <= n <= d.len(),
    ensures
        digits_value(d) == digits_value(d.take(n)) * pow10((d.len() - n) as nat) + digits_value(
            d.skip(n),
        ),
        0 <= digits_value(d.skip(n)) < pow10((d.len() - n) as nat),
    decreases d.len(),
{
    if n == d.len() {
        assert(d.take(n) =~= d);
        assert(d.skip(n).len() == 0);
        assert(digits_value(d.skip(n)) == 0);
        assert(pow10(0) == 1);
        assert(digits_value(d) * 1 == digits_value(d));
    } else {
        let dl = d.drop_last();
        assert(all_digits(dl));
        lemma_digits_split(dl, n);
        assert(dl.take(n) =~= d.take(n));
        assert(d.skip(n).drop_last() =~= dl.skip(n));
        assert(d.skip(n).last() == d.last());
        assert(is_digit(d[d.len() - 1]));
        let p = pow10((dl.len() - n) as nat);
        let a = digits_value(d.take(n));
        let r = digits_value(dl.skip(n));
        let c = digit_value(d.last());
        assert(pow10((d.len() - n) as nat) == 10 * p);
        assert(digits_value(d) == digits_value(dl) * 10 + c);
        assert(digits_value(d.skip(n)) == r * 10 + c);
        assert((a * p + r) * 10 + c == a * (10 * p) + (r * 10 + c)) by (nonlinear_arith);
        assert(r * 10 + c < 10 * p) by (nonlinear_arith)
            requires
                0 <= r < p,
                0 <= c <= 9,
        ;
    }
}

/// A digit prefix bounds the whole number from below.
proof fn lemma_prefix_le(d: Seq<char>, n: int)
    requires
        all_digits(d),
        0 <= n <= d.len(),
    ensures
        digits_value(d.take(n)) <= digits_value(d),
{
    lemma_digits_split(d, n);
    lemma_pow10_positive((d.len() - n) as nat);
    lemma_digits_value_nonneg(d.take(n));
    let a = digits_value(d.take(n));
    let p = pow10((d.len() - n) as nat) as int;
    assert(a <= a * p) by (nonlinear_arith)
        requires
            a >= 0,
            p >= 1,
    ;
}

/// Dropping the last `j` digits divides by `10^j`.
proof fn lemma_drop_digits_div(d: Seq<char>, j: int)
    requires
        all_digits(d),
        0 <= j,
    ensures
        j <= d.len() ==> digits_value(d) / (pow10(j as nat) as int) == digits_value(
            d.take(d.len() - j),
        ),
        j > d.len() ==> digits_value(d) / (pow10(j as nat) as int) == 0,
{
    lemma_pow10_positive(j as nat);
    if j <= d.len() {
        lemma_digits_split(d, d.len() - j);
        vstd::arithmetic::div_mod::lemma_fundamental_div_mod_converse(
            digits_value(d),
            pow10(j as nat) as int,
            digits_value(d.take(d.len() - j)),
            digits_value(d.skip(d.len() - j)),
        );
    } else {
        lemma_digits_split(d, 0);
        assert(d.skip(0) =~= d);
        lemma_pow10_monotone(d.len(), j as nat);
        lemma_digits_value_nonneg(d);
        vstd::arithmetic::div_mod::lemma_fundamental_div_mod_converse(
            digits_value(d),
            pow10(j as nat) as int,
            0,
            digits_value(d),
        );
    }
}

/// `digit_run` measured on a scanned range.
proof fn lemma_digit_run(s: Seq<char>, n: int)
    requires
        0 <= n <= s.len(),
        all_digits(s.take(n)),
        n == s.len() || !is_digit(s[n]),
    ensures
        digit_run(s) == n,
    decreases n,
{
    if n > 0 {
        assert(is_digit(s.take(n)[0]));
        assert(s.drop_first().take(n - 1) =~= s.take(n).drop_first());
        assert forall|i: int| 0 <= i < n - 1 implies is_digit(#[trigger] s.drop_first().take(n - 1)[i]) by {
            assert(s.take(n)[i + 1] == s[i + 1]);
        }
        if n < s.len() {
            assert(s.drop_first()[n - 1] == s[n]);
        }
        lemma_digit_run(s.drop_first(), n - 1);
    }
}

/// Scans ASCII digits in `v[from..hi]`; returns the end of the run.
fn scan_digits(v: &Vec<char>, from: usize, hi: usize) -> (r: usize)
    requires
        from <= hi <= v@.len(),
    ensures
        from <= r <= hi,
        r < hi ==> !is_digit(v@[r as int]),
        digit_run(v@.subrange(from as int, hi as int)) == r - from,
        all_digits(v@.subrange(from as int, r as int)),
{
    let mut p = from;
    while p < hi && '0' <= v[p] && v[p] <= '9'
        invariant
            from <= p <= hi <= v@.len(),
            all_digits(v@.subrange(from as int, p as int)),
        decreases hi - p,
    {
        proof {
            assert forall|i: int| 0 <= i < p + 1 - from implies is_digit(#[trigger] v@.subrange(from as int, p + 1)[i]) by {
                if i < p - from {
                    assert(v@.subrange(from as int, p as int)[i] == v@[from + i]);
                }
            }
        }
        p = p + 1;
    }
    proof {
        let s = v@.subrange(from as int, hi as int);
        assert(s.take(p - from) =~= v@.subrange(from as int, p as int));
        if p < hi {
            assert(s[p - from] == v@[p as int]);
        }
        lemma_digit_run(s, p - from);
    }
    p
}

/// The integer written by `v[from..to]`, all ASCII digits, capped: `None`
/// once the value would exceed `cap`.
fn digits_upto(v: &Vec<char>, from: usize, to: usize, cap: u128) -> (r: Option<u128>)
    requires
        from <= to <= v@.len(),
        all_digits(v@.subrange(from as int, to as int)),
        cap <= 1_000_000_000_000_000_000_000_000u128,
    ensures
        r matches Some(x) ==> x == digits_value(v@.subrange(from as int, to as int)) && x <= cap,
        r is None ==> digits_value(v@.subrange(from as int, to as int)) > cap,
{
    let mut acc: u128 = 0;
    let mut p = from;
    while p < to
        invariant
            from <= p <= to <= v@.len(),
            all_digits(v@.subrange(from as int, to as int)),
            acc == digits_value(v@.subrange(from as int, p as int)),
            acc <= cap,
            cap <= 1_000_000_000_000_000_000_000_000u128,
        decreases to - p,
    {
        let ghost whole = v@.subrange(from as int, to as int);
        proof {
            assert(whole[p - from] == v@[p as int]);
            assert(is_digit(v@[p as int]));
        }
        let d = (v[p] as u32 - '0' as u32) as u128;
        let next = acc * 10 + d;
        proof {
            let pre = v@.subrange(from as int, p + 1);
            assert(pre.drop_last() =~= v@.subrange(from as int, p as int));
            assert(pre.last() == v@[p as int]);
            assert(next == digits_value(pre));
        }
        if next > cap {
            proof {
                assert(whole.take(p + 1 - from) =~= v@.subrange(from as int, p + 1));
                lemma_prefix_le(whole, p + 1 - from);
            }
            return None;
        }
        acc = next;
        p = p + 1;
    }
    Some(acc)
}

/// Parses the exponent part `v[from..hi]` (see `exponent_syntax`), with the
/// magnitude saturated at `10^21`.
fn parse_exponent(v: &Vec<char>, from: usize, hi: usize) -> (r: Option<i128>)
    requires
        from <= hi <= v@.len(),
    ensures
        match (r, exponent_syntax(v@.subrange(from as int, hi as int))) {
            (None, None) => true,
            (Some(e), Some(x)) => (-1_000_000_000_000_000_000_000 < x < 1_000_000_000_000_000_000_000 ==> e == x)
                && (x >= 1_000_000_000_000_000_000_000 ==> e == 1_000_000_000_000_000_000_000)
                && (x <= -1_000_000_000_000_000_000_000 ==> e == -1_000_000_000_000_000_000_000),
            _ => false,
        },
{
    let ghost r = v@.subrange(from as int, hi as int);
    if from == hi {
        return Some(0);
    }
    if v[from] != 'e' && v[from] != 'E' {
        return None;
    }
    let mut p = from + 1;
    let mut negative = false;
    proof {
        assert(r.skip(1) =~= v@.subrange(from + 1, hi as int));
    }
    if p < hi && (v[p] == '+' || v[p] == '-') {
        negative = v[p] == '-';
        p = p + 1;
    }
    proof {
        let t = r.skip(1);
        assert(t.skip(sign_len(t) as int) =~= v@.subrange(p as int, hi as int));
    }
    let end = scan_digits(v, p, hi);
    if end == p || end != hi {
        return None;
    }
    let cap: u128 = 1_000_000_000_000_000_000_000;
    let mag = digits_upto(v, p, hi, cap);
    let m: i128 = match mag {
        Some(x) => x as i128,
        None => 1_000_000_000_000_000_000_000,
    };
    if negative {
        Some(-m)
    } else {
        Some(m)
    }
}

/// The value, in millionths, of the literal whose significant digits are
/// `v[a..b]` followed by `v[c..d]`, shifted by `10^k`; `None` where it exceeds
/// `MAX_MICROS`.
fn shifted_digits(v: &Vec<char>, a: usize, b: usize, c: usize, d: usize, k: i128) -> (r: Option<u128>)
    requires
        a <= b <= v@.len(),
        (b - a) + (d - c) <= usize::MAX,
        c <= d <= v@.len(),
        all_digits(v@.subrange(a as int, b as int)),
        all_digits(v@.subrange(c as int, d as int)),
    ensures
        ({
            let ds = v@.subrange(a as int, b as int) + v@.subrange(c as int, d as int);
            let m = digits_value(ds);
            let mag = if k >= 0 {
                m * pow10(k as nat)
            } else {
                m / (pow10((-k) as nat) as int)
            };
            match r {
                Some(x) => x == mag && x <= MAX_MICROS,
                None => mag > MAX_MICROS,
            }
        }),
{
    let ghost ds = v@.subrange(a as int, b as int) + v@.subrange(c as int, d as int);
    let il = b - a;
    let fl = d - c;
    proof {
        assert(all_digits(ds)) by {
            assert forall|i: int| 0 <= i < ds.len() implies is_digit(#[trigger] ds[i]) by {
                if i < il {
                    assert(ds[i] == v@.subrange(a as int, b as int)[i]);
                } else {
                    assert(ds[i] == v@.subrange(c as int, d as int)[i - il]);
                }
            }
        }
    }
    let total: usize = il + fl;
    // How many leading digits survive the shift.
    let keep: usize = if k >= 0 {
        total
    } else if (total as i128) + k <= 0 {
        0
    } else {
        ((total as i128) + k) as usize
    };

    let cap: u128 = MAX_MICROS as u128;
    let mut acc: u128 = 0;
    let mut n: usize = 0;
    while n < keep
        invariant
            n <= keep <= total,
            total == ds.len(),
            il == b - a,
            ds.len() == il + (d - c),
            a <= b <= v@.len(),
            c <= d <= v@.len(),
            all_digits(ds),
            ds == v@.subrange(a as int, b as int) + v@.subrange(c as int, d as int),
            acc == digits_value(ds.take(n as int)),
            acc <= cap,
            cap == MAX_MICROS,
            k >= 0 ==> keep == total,
            k < 0 && total + k > 0 ==> keep == total + k,
            k < 0 && total + k <= 0 ==> keep == 0,
        decreases keep - n,
    {
        let ch = if n < il {
            v[a + n]
        } else {
            v[c + (n - il)]
        };
        proof {
            if n < il {
                assert(ds[n as int] == v@.subrange(a as int, b as int)[n as int]);
            } else {
                assert(ds[n as int] == v@.subrange(c as int, d as int)[n - il]);
            }
            assert(ch == ds[n as int]);
            assert(is_digit(ds[n as int]));
        }
        let dig = (ch as u32 - '0' as u32) as u128;
        let next = acc * 10 + dig;
        proof {
            let pre = ds.take(n + 1);
            assert(pre.drop_last() =~= ds.take(n as int));
            assert(pre.last() == ds[n as int]);
            assert(next == digits_value(pre));
        }
        if next > cap {
            proof {
                lemma_prefix_le(ds, n + 1);
                if k >= 0 {
                    assert(ds.take(total as int) =~= ds);
                    lemma_digits_value_nonneg(ds);
                    lemma_pow10_positive(k as nat);
                    let m = digits_value(ds);
                    let p = pow10(k as nat) as int;
                    assert(m <= m * p) by (nonlinear_arith)
                        requires
                            m >= 0,
                            p >= 1,
                    ;
                    lemma_prefix_le(ds, total as int);
                } else {
                    assert(keep == total + k);
                    lemma_drop_digits_div(ds, -k);
                    assert(ds.take(ds.len() + k) =~= ds.take(keep as int));
                    assert(ds.take(keep as int).take(n + 1) =~= ds.take(n + 1));
                    assert(all_digits(ds.take(keep as int)));
                    lemma_prefix_le(ds.take(keep as int), n + 1);
                }
            }
            return None;
        }
        acc = next;
        n = n + 1;
    }
    if k < 0 {
        proof {
            lemma_drop_digits_div(ds, -k);
            if ds.len() + k > 0 {
                assert(ds.take(ds.len() + k) =~= ds.take(keep as int));
            }
        }
        return Some(acc);
    }
    proof {
        assert(ds.take(total as int) =~= ds);
        assert(pow10(0) == 1);
        assert(digits_value(ds) * 1 == digits_value(ds));
    }
    let mut j: i128 = k;
    let ghost m = digits_value(ds);
    proof { lemma_digits_value_nonneg(ds); }
    while j > 0 && acc != 0
        invariant
            0 <= j <= k,
            acc == m * pow10((k - j) as nat),
            acc <= cap,
            cap == MAX_MICROS,
            m >= 0,
            m == digits_value(v@.subrange(a as int, b as int) + v@.subrange(c as int, d as int)),
        decreases j,
    {
        let next = acc * 10;
        proof {
            assert(pow10((k - j + 1) as nat) == 10 * pow10((k - j) as nat));
            assert(m * (10 * pow10((k - j) as nat)) == (m * pow10((k - j) as nat)) * 10) by (nonlinear_arith);
        }
        if next > cap {
            proof {
                lemma_pow10_monotone((k - j + 1) as nat, k as nat);
                let p0 = pow10((k - j) as nat) as int;
                let p1 = pow10((k - j + 1) as nat) as int;
                let p2 = pow10(k as nat) as int;
                assert(p1 == 10 * p0);
                assert(next == m * p1) by (nonlinear_arith)
                    requires
                        next == acc * 10,
                        acc == m * p0,
                        p1 == 10 * p0,
                ;
                assert(m * p1 <= m * p2) by (nonlinear_arith)
                    requires
                        m >= 0,
                        p1 <= p2,
                ;
                assert(m * p2 > MAX_MICROS);
            }
            return None;
        }
        acc = next;
        j = j - 1;
    }
    proof {
        if acc == 0 {
            lemma_pow10_positive((k - j) as nat);
            assert(m == 0) by (nonlinear_arith)
                requires
                    m * pow10((k - j) as nat) == 0,
                    pow10((k - j) as nat) >= 1,
                    m >= 0,
            ;
            assert(m * pow10(k as nat) == 0) by (nonlinear_arith)
                requires
                    m == 0,
            ;
        }
    }
    Some(acc)
}

/// Literals whose magnitude reaches this many units are too large to be
/// finite single-precision numbers: they round to infinity, and are refused.
pub const LITERAL_OVERFLOW_UNITS: u128 = 340282356779733661637539395458142568448;

/// `(LITERAL_OVERFLOW_UNITS - 1) / 10`.
pub const OVERFLOW_TENTH: u128 = 34028235677973366163753939545814256844;

/// `(LITERAL_OVERFLOW_UNITS - 1) % 10`.
pub const OVERFLOW_LAST_DIGIT: u128 = 7;

/// Whether the whole units of the literal whose significant digits are
/// `v[a..b]` followed by `v[c..d]`, shifted by `10^k`, stay below
/// `LITERAL_OVERFLOW_UNITS`.
fn units_below_overflow(v: &Vec<char>, a: usize, b: usize, c: usize, d: usize, k: i128) -> (r: bool)
    requires
        a <= b <= v@.len(),
        (b - a) + (d - c) <= usize::MAX,
        c <= d <= v@.len(),
        all_digits(v@.subrange(a as int, b as int)),
        all_digits(v@.subrange(c as int, d as int)),
    ensures
        ({
            let ds = v@.subrange(a as int, b as int) + v@.subrange(c as int, d as int);
            let m = digits_value(ds);
            let mag = if k >= 0 {
                m * pow10(k as nat)
            } else {
                m / (pow10((-k) as nat) as int)
            };
            r == (mag < LITERAL_OVERFLOW_UNITS)
        }),
{
    let ghost ds = v@.subrange(a as int, b as int) + v@.subrange(c as int, d as int);
    let il = b - a;
    let fl = d - c;
    proof {
        assert(all_digits(ds)) by {
            assert forall|i: int| 0 <= i < ds.len() implies is_digit(#[trigger] ds[i]) by {
                if i < il {
                    assert(ds[i] == v@.subrange(a as int, b as int)[i]);
                } else {
                    assert(ds[i] == v@.subrange(c as int, d as int)[i - il]);
                }
            }
        }
    }
    let total: usize = il + fl;
    // How many leading digits survive the shift.
    let keep: usize = if k >= 0 {
        total
    } else if (total as i128) + k <= 0 {
        0
    } else {
        ((total as i128) + k) as usize
    };

    let cap: u128 = LITERAL_OVERFLOW_UNITS - 1;
    let mut acc: u128 = 0;
    let mut n: usize = 0;
    while n < keep
        invariant
            n <= keep <= total,
            total == ds.len(),
            il == b - a,
            ds.len() == il + (d - c),
            a <= b <= v@.len(),
            c <= d <= v@.len(),
            all_digits(ds),
            ds == v@.subrange(a as int, b as int) + v@.subrange(c as int, d as int),
            acc == digits_value(ds.take(n as int)),
            acc <= cap,
            cap == LITERAL_OVERFLOW_UNITS - 1,
            k >= 0 ==> keep == total,
            k < 0 && total + k > 0 ==> keep == total + k,
            k < 0 && total + k <= 0 ==> keep == 0,
        decreases keep - n,
    {
        let ch = if n < il {
            v[a + n]
        } else {
            v[c + (n - il)]
        };
        proof {
            if n < il {
                assert(ds[n as int] == v@.subrange(a as int, b as int)[n as int]);
            } else {
                assert(ds[n as int] == v@.subrange(c as int, d as int)[n - il]);
            }
            assert(ch == ds[n as int]);
            assert(is_digit(ds[n as int]));
        }
        let dig = (ch as u32 - '0' as u32) as u128;
        let ghost next: int = acc * 10 + dig;
        proof {
            let pre = ds.take(n + 1);
            assert(pre.drop_last() =~= ds.take(n as int));
            assert(pre.last() == ds[n as int]);
            assert(next == digits_value(pre));
        }
        if acc > OVERFLOW_TENTH || (acc == OVERFLOW_TENTH && dig > OVERFLOW_LAST_DIGIT) {
            proof {
                assert(next > cap);
                lemma_prefix_le(ds, n + 1);
                if k >= 0 {
                    assert(ds.take(total as int) =~= ds);
                    lemma_digits_value_nonneg(ds);
                    lemma_pow10_positive(k as nat);
                    let m = digits_value(ds);
                    let p = pow10(k as nat) as int;
                    assert(m <= m * p) by (nonlinear_arith)
                        requires
                            m >= 0,
                            p >= 1,
                    ;
                    lemma_prefix_le(ds, total as int);
                } else {
                    assert(keep == total + k);
                    lemma_drop_digits_div(ds, -k);
                    assert(ds.take(ds.len() + k) =~= ds.take(keep as int));
                    assert(ds.take(keep as int).take(n + 1) =~= ds.take(n + 1));
                    assert(all_digits(ds.take(keep as int)));
                    lemma_prefix_le(ds.take(keep as int), n + 1);
                }
            }
            return false;
        }
        acc = acc * 10 + dig;
        n = n + 1;
    }
    if k < 0 {
        proof {
            lemma_drop_digits_div(ds, -k);
            if ds.len() + k > 0 {
                assert(ds.take(ds.len() + k) =~= ds.take(keep as int));
            }
        }
        return true;
    }
    proof {
        assert(ds.take(total as int) =~= ds);
        assert(pow10(0) == 1);
        assert(digits_value(ds) * 1 == digits_value(ds));
    }
    let mut j: i128 = k;
    let ghost m = digits_value(ds);
    proof { lemma_digits_value_nonneg(ds); }
    while j > 0 && acc != 0
        invariant
            0 <= j <= k,
            acc == m * pow10((k - j) as nat),
            acc <= cap,
            cap == LITERAL_OVERFLOW_UNITS - 1,
            m >= 0,
            m == digits_value(v@.subrange(a as int, b as int) + v@.subrange(c as int, d as int)),
        decreases j,
    {
        let ghost next: int = acc * 10;
        proof {
            assert(pow10((k - j + 1) as nat) == 10 * pow10((k - j) as nat));
            assert(m * (10 * pow10((k - j) as nat)) == (m * pow10((k - j) as nat)) * 10) by (nonlinear_arith);
        }
        if acc > OVERFLOW_TENTH {
            proof {
                assert(next > cap);
                lemma_pow10_monotone((k - j + 1) as nat, k as nat);
                let p0 = pow10((k - j) as nat) as int;
                let p1 = pow10((k - j + 1) as nat) as int;
                let p2 = pow10(k as nat) as int;
                assert(p1 == 10 * p0);
                assert(next == m * p1) by (nonlinear_arith)
                    requires
                        next == acc * 10,
                        acc == m * p0,
                        p1 == 10 * p0,
                ;
                assert(m * p1 <= m * p2) by (nonlinear_arith)
                    requires
                        m >= 0,
                        p1 <= p2,
                ;
                assert(m * p2 > cap);
            }
            return false;
        }
        acc = acc * 10;
        j = j - 1;
    }
    proof {
        if acc == 0 {
            lemma_pow10_positive((k - j) as nat);
            assert(m == 0) by (nonlinear_arith)
                requires
                    m * pow10((k - j) as nat) == 0,
                    pow10((k - j) as nat) >= 1,
                    m >= 0,
            ;
            assert(m * pow10(k as nat) == 0) by (nonlinear_arith)
                requires
                    m == 0,
            ;
        }
    }
    true
}

/// The literal whose pieces have the given lengths: `None` without digits
/// or with a malformed exponent.
pub open spec fn assembled_syntax(s: Seq<char>, sl: int, il: int, has_dot: bool, fl: int, tail: int) -> Option<DecimalSyntax> {
    if il + fl == 0 {
        None
    } else {
        match exponent_syntax(s.skip(tail)) {
            Some(e) => Some(
                DecimalSyntax {
                    negative: sl == 1 && s[0] == '-',
                    digits: s.subrange(sl, sl + il) + (if has_dot {
                        s.subrange(sl + il + 1, sl + il + 1 + fl)
                    } else {
                        Seq::empty()
                    }),
                    frac_len: fl as nat,
                    exponent: e,
                },
            ),
            None => None,
        }
    }
}

/// How `decimal_syntax` takes `s` apart, given the lengths of its pieces.
proof fn lemma_decimal_parts(s: Seq<char>, sl: int, il: int, has_dot: bool, fl: int, tail: int)
    requires
        sl == sign_len(s),
        0 <= il,
        0 <= fl,
        il == digit_run(s.skip(sl)),
        sl + il <= s.len(),
        has_dot == (sl + il < s.len() && s[sl + il] == '.'),
        has_dot ==> fl == digit_run(s.skip(sl + il + 1)) && sl + il + 1 + fl <= s.len(),
        !has_dot ==> fl == 0,
        tail == if has_dot { sl + il + 1 + fl } else { sl + il },
    ensures
        decimal_syntax(s) == assembled_syntax(s, sl, il, has_dot, fl, tail),
{
    reveal(decimal_syntax);
    let b = s.skip(sl);
    let r1 = b.skip(il);
    assert(r1 =~= s.skip(sl + il));
    assert(b.take(il) =~= s.subrange(sl, sl + il));
    if has_dot {
        assert(r1[0] == s[sl + il]);
        assert(r1.skip(1) =~= s.skip(sl + il + 1));
        assert(r1.skip(1 + fl) =~= s.skip(tail));
        assert(r1.skip(1).take(fl) =~= s.subrange(sl + il + 1, sl + il + 1 + fl));
    } else {
        if r1.len() > 0 {
            assert(r1[0] == s[sl + il]);
        }
        assert(r1 =~= s.skip(tail));
    }
}

/// The positions of the pieces of the literal `v[lo..hi]`: the end of its
/// sign, the end of its integer digits, and the range of its fraction digits.
struct LiteralPieces {
    negative: bool,
    digits_start: usize,
    int_end: usize,
    has_dot: bool,
    frac_start: usize,
    frac_end: usize,
}

#[verifier::rlimit(40)]
fn scan_literal(v: &Vec<char>, lo: usize, hi: usize) -> (r: LiteralPieces)
    requires
        lo <= hi <= v@.len(),
    ensures
        lo <= r.digits_start <= r.int_end <= r.frac_start <= r.frac_end <= hi,
        r.has_dot ==> r.frac_start == r.int_end + 1,
        !r.has_dot ==> r.frac_start == r.int_end && r.frac_end == r.int_end,
        all_digits(v@.subrange(r.digits_start as int, r.int_end as int)),
        all_digits(v@.subrange(r.frac_start as int, r.frac_end as int)),
        ({
            let s = v@.subrange(lo as int, hi as int);
            let sl = r.digits_start - lo;
            let il = r.int_end - r.digits_start;
            let fl = r.frac_end - r.frac_start;
            &&& decimal_syntax(s) == assembled_syntax(s, sl, il, r.has_dot, fl, r.frac_end - lo)
            &&& r.negative == (sl == 1 && s[0] == '-')
            &&& s.skip(r.frac_end - lo) == v@.subrange(r.frac_end as int, hi as int)
            &&& s.subrange(sl, sl + il) == v@.subrange(r.digits_start as int, r.int_end as int)
            &&& r.has_dot ==> s.subrange(sl + il + 1, sl + il + 1 + fl) == v@.subrange(
                r.frac_start as int,
                r.frac_end as int,
            )
        }),
{
    let ghost s = v@.subrange(lo as int, hi as int);
    let mut p = lo;
    let mut negative = false;
    if p < hi && (v[p] == '+' || v[p] == '-') {
        negative = v[p] == '-';
        p = p + 1;
    }
    proof {
        if p > lo {
            assert(s[0] == v@[lo as int]);
        }
        assert(sign_len(s) == p - lo);
        assert(s.skip(p - lo) =~= v@.subrange(p as int, hi as int));
    }
    let int_end = scan_digits(v, p, hi);
    let has_dot = int_end < hi && v[int_end] == '.';
    proof {
        if int_end < hi {
            assert(s[int_end - lo] == v@[int_end as int]);
        }
    }
    let mut frac_start = int_end;
    let mut frac_end = int_end;
    if has_dot {
        frac_start = int_end + 1;
        frac_end = scan_digits(v, frac_start, hi);
        proof {
            assert(s.skip(int_end + 1 - lo) =~= v@.subrange(frac_start as int, hi as int));
        }
    } else {
        proof {
            assert(v@.subrange(frac_start as int, frac_end as int) =~= Seq::<char>::empty());
        }
    }
    proof {
        lemma_decimal_parts(s, p - lo, int_end - p, has_dot, frac_end - frac_start, frac_end - lo);
        assert(s.skip(frac_end - lo) =~= v@.subrange(frac_end as int, hi as int));
        assert(s.subrange(p - lo, int_end - lo) =~= v@.subrange(p as int, int_end as int));
        if has_dot {
            assert(s.subrange(int_end + 1 - lo, frac_end - lo) =~= v@.subrange(
                frac_start as int,
                frac_end as int,
            ));
        }
    }
    LiteralPieces { negative, digits_start: p, int_end, has_dot, frac_start, frac_end }
}

/// The millionths written by the literal `v[lo..hi]` (see `literal_micros`).
#[verifier::rlimit(60)]
#[verifier::spinoff_prover]
pub fn parse_literal(v: &Vec<char>, lo: usize, hi: usize) -> (r: Option<CssNumber>)
    requires
        lo <= hi <= v@.len(),
    ensures
        match r {
            Some(n) => literal_micros(v@.subrange(lo as int, hi as int)) == Some(n.val()),
            None => literal_micros(v@.subrange(lo as int, hi as int)) is None,
        },
{
    let pieces = scan_literal(v, lo, hi);
    let p = pieces.digits_start;
    let int_end = pieces.int_end;
    let frac_start = pieces.frac_start;
    let frac_end = pieces.frac_end;
    if int_end == p && frac_end == frac_start {
        return None;
    }
    let e = match parse_exponent(v, frac_end, hi) {
        Some(e) => e,
        None => {
            return None;
        },
    };
    let ghost s = v@.subrange(lo as int, hi as int);
    let ghost exact_e = exponent_syntax(v@.subrange(frac_end as int, hi as int))->0;
    let ghost ds = v@.subrange(p as int, int_end as int) + v@.subrange(frac_start as int, frac_end as int);
    proof {
        let syn = assembled_syntax(s, p - lo, int_end - p, pieces.has_dot, frac_end - frac_start, frac_end - lo)->0;
        if !pieces.has_dot {
            assert(v@.subrange(frac_start as int, frac_end as int) =~= Seq::<char>::empty());
        }
        assert(syn.digits == ds);
        assert(syn.exponent == exact_e);
    }
    let fl = (frac_end - frac_start) as i128;
    proof {
        lemma_pow10_60();
        all_digits_concat(v@.subrange(p as int, int_end as int), v@.subrange(frac_start as int, frac_end as int));
        lemma_saturated_shift(ds, exact_e - fl, (e - fl) as int, (LITERAL_OVERFLOW_UNITS - 1) as int);
    }
    if !units_below_overflow(v, p, int_end, frac_start, frac_end, e - fl) {
        return None;
    }
    let k: i128 = e + 6 - fl;
    let mag = shifted_digits(v, p, int_end, frac_start, frac_end, k);
    proof {
        lemma_saturated_shift(ds, exact_e + 6 - fl, k as int, MAX_MICROS as int);
    }
    let m: i64 = match mag {
        Some(x) => x as i64,
        None => MAX_MICROS,
    };
    if pieces.negative {
        Some(CssNumber { micros: -m })
    } else {
        Some(CssNumber { micros: m })
    }
}

proof fn all_digits_concat(a: Seq<char>, b: Seq<char>)
    requires
        all_digits(a),
        all_digits(b),
    ensures
        all_digits(a + b),
{
    assert forall|i: int| 0 <= i < (a + b).len() implies is_digit(#[trigger] (a + b)[i]) by {
        if i < a.len() {
            assert((a + b)[i] == a[i]);
        } else {
            assert((a + b)[i] == b[i - a.len()]);
        }
    }
}

/// The shift that `parse_literal` computes from a saturated exponent gives the
/// same magnitude as the exact shift, whenever the magnitude is in range.
proof fn lemma_saturated_shift(ds: Seq<char>, exact: int, sat: int, bound: int)
    requires
        0 <= bound < pow10(60),
        all_digits(ds),
        (exact == sat) || (exact >= sat && sat >= 60) || (exact <= sat && -sat > ds.len()),
    ensures
        ({
            let m = digits_value(ds);
            let a = if exact >= 0 {
                m * pow10(exact as nat)
            } else {
                m / (pow10((-exact) as nat) as int)
            };
            let b = if sat >= 0 {
                m * pow10(sat as nat)
            } else {
                m / (pow10((-sat) as nat) as int)
            };
            (a > bound <==> b > bound) && (a <= bound ==> a == b)
        }),
{
    let m = digits_value(ds);
    lemma_digits_value_nonneg(ds);
    if exact == sat {
    } else if exact >= sat {
        // Both shifts are enormous and positive: zero stays zero, anything else overflows.
        lemma_pow10_monotone(60, sat as nat);
        lemma_pow10_monotone(sat as nat, exact as nat);
        lemma_pow10_60();
        if m == 0 {
            assert(m * pow10(exact as nat) == 0);
            assert(m * pow10(sat as nat) == 0);
        } else {
            let p1 = pow10(sat as nat) as int;
            let p2 = pow10(exact as nat) as int;
            assert(m * p1 >= p1) by (nonlinear_arith)
                requires
                    m >= 1,
                    p1 >= 0,
            ;
            assert(m * p2 >= p2) by (nonlinear_arith)
                requires
                    m >= 1,
                    p2 >= 0,
            ;
        }
    } else {
        // Both shifts are enormous and negative: every digit is dropped.
        lemma_drop_digits_div(ds, -exact);
        lemma_drop_digits_div(ds, -sat);
    }
}

proof fn lemma_pow10_60()
    ensures
        pow10(60) > LITERAL_OVERFLOW_UNITS,
{
    lemma_pow10_monotone(39, 60);
    reveal_with_fuel(pow10, 40);
    assert(pow10(39) == 1_000_000_000_000_000_000_000_000_000_000_000_000_000);
}


/// The number written by `value` once trimmed (see `scalar_spec`).
pub fn css_scalar(value: &str) -> (r: Option<CssNumber>)
    ensures
        match r {
            Some(n) => scalar_spec(value@) == Some(n.val()),
            None => scalar_spec(value@) is None,
        },
{
    let v = crate::text::chars_of(value);
    let (a, b) = crate::text::trim_bounds(&v, 0, v.len());
    proof {
        assert(v@.subrange(0, v@.len() as int) =~= value@);
    }
    parse_literal(&v, a, b)
}

/// Division that rounds toward zero, as Rust's integer `/` does.
pub open spec fn div_trunc(x: int, d: int) -> int {
    if x >= 0 {
        x / d
    } else {
        -((-x) / d)
    }
}

/// `a × b / d` in millionths, rounded toward zero.
pub open spec fn scaled(a: int, b: int, d: int) -> int {
    div_trunc(a * b, d)
}

/// `Some(m)` where `m` is in range.
pub open spec fn checked(m: int) -> Option<int> {
    if in_range(m) {
        Some(m)
    } else {
        None
    }
}

/// The view of an optional number.
pub open spec fn opt_val(n: Option<CssNumber>) -> Option<int> {
    match n {
        Some(x) => Some(x.val()),
        None => None,
    }
}

/// The magnitude and sign of `a × b / d` rounded toward zero, computed
/// without overflow.
fn mul_div_parts(a: CssNumber, b: CssNumber, d: u64) -> (r: (u128, bool))
    requires
        d > 0,
    ensures
        (if r.1 { -(r.0 as int) } else { r.0 as int }) == scaled(a.val(), b.val(), d as int),
{
    let aa: u128 = if a.micros < 0 {
        (-(a.micros as i128)) as u128
    } else {
        a.micros as u128
    };
    let bb: u128 = if b.micros < 0 {
        (-(b.micros as i128)) as u128
    } else {
        b.micros as u128
    };
    proof {
        assert(aa <= 0x8000_0000_0000_0000u128);
        assert(bb <= 0x8000_0000_0000_0000u128);
        assert(aa * bb <= 0x4000_0000_0000_0000_0000_0000_0000_0000u128) by (nonlinear_arith)
            requires
                aa <= 0x8000_0000_0000_0000u128,
                bb <= 0x8000_0000_0000_0000u128,
        ;
    }
    let prod: u128 = aa * bb;
    let q: u128 = prod / (d as u128);
    let negative = (a.micros < 0) != (b.micros < 0);
    proof {
        let x = a.val() * b.val();
        assert(prod == aa * bb);
        if a.val() >= 0 && b.val() >= 0 {
            assert(x == aa * bb);
        } else if a.val() < 0 && b.val() < 0 {
            assert(x == aa * bb) by (nonlinear_arith)
                requires
                    aa == -a.val(),
                    bb == -b.val(),
                    x == a.val() * b.val(),
            ;
        } else if a.val() < 0 {
            assert(x == -(aa * bb)) by (nonlinear_arith)
                requires
                    aa == -a.val(),
                    bb == b.val(),
                    x == a.val() * b.val(),
            ;
        } else {
            assert(x == -(aa * bb)) by (nonlinear_arith)
                requires
                    aa == a.val(),
                    bb == -b.val(),
                    x == a.val() * b.val(),
            ;
        }
        if x == 0 {
            assert(q == 0);
        }
        assert(q <= prod);
    }
    (q, negative)
}

/// `a × b / d`, rounded toward zero; `None` out of range.
pub fn mul_div(a: CssNumber, b: CssNumber, d: u64) -> (r: Option<CssNumber>)
    requires
        d > 0,
    ensures
        opt_val(r) == checked(scaled(a.val(), b.val(), d as int)),
{
    let (q, negative) = mul_div_parts(a, b, d);
    if q > MAX_MICROS as u128 {
        return None;
    }
    let m = q as i64;
    if negative {
        Some(CssNumber { micros: -m })
    } else {
        Some(CssNumber { micros: m })
    }
}

/// `x` held to the range that this library's numbers keep.
pub open spec fn saturated(x: int) -> int {
    if x > MAX_MICROS {
        MAX_MICROS as int
    } else if x < -MAX_MICROS {
        -MAX_MICROS
    } else {
        x
    }
}

/// `a × b / d`, rounded toward zero and held to the range.
pub fn saturating_mul_div(a: CssNumber, b: CssNumber, d: u64) -> (r: CssNumber)
    requires
        d > 0,
    ensures
        r.val() == saturated(scaled(a.val(), b.val(), d as int)),
{
    let (q, negative) = mul_div_parts(a, b, d);
    let m: i64 = if q > MAX_MICROS as u128 {
        MAX_MICROS
    } else {
        q as i64
    };
    if negative {
        CssNumber { micros: -m }
    } else {
        CssNumber { micros: m }
    }
}

/// The number nearest to `x` in the range.
pub fn saturate(x: i128) -> (r: CssNumber)
    ensures
        r.val() == saturated(x as int),
{
    if x > MAX_MICROS as i128 {
        CssNumber { micros: MAX_MICROS }
    } else if x < -(MAX_MICROS as i128) {
        CssNumber { micros: -MAX_MICROS }
    } else {
        CssNumber { micros: x as i64 }
    }
}

/// `a × b` for two numbers.
pub fn multiply(a: CssNumber, b: CssNumber) -> (r: Option<CssNumber>)
    ensures
        opt_val(r) == checked(scaled(a.val(), b.val(), MICROS_PER_UNIT as int)),
{
    mul_div(a, b, MICROS_PER_UNIT as u64)
}

/// `a × b / 100` for a basis `a` and a percentage `b`.
pub fn percent_of(a: CssNumber, b: CssNumber) -> (r: Option<CssNumber>)
    ensures
        opt_val(r) == checked(scaled(a.val(), b.val(), 100 * MICROS_PER_UNIT)),
{
    mul_div(a, b, 100 * MICROS_PER_UNIT as u64)
}

/// The smaller of two numbers.
pub fn min_number(a: CssNumber, b: CssNumber) -> (r: CssNumber)
    ensures
        r.val() == if a.val() <= b.val() { a.val() } else { b.val() },
{
    if a.micros <= b.micros {
        a
    } else {
        b
    }
}

/// The larger of two numbers.
pub fn max_number(a: CssNumber, b: CssNumber) -> (r: CssNumber)
    ensures
        r.val() == if a.val() >= b.val() { a.val() } else { b.val() },
{
    if a.micros >= b.micros {
        a
    } else {
        b
    }
}

/// The integer written by an optional sign and at least one digit, where
/// `signed` admits a leading `-` (Rust's `FromStr` for integers).
pub open spec fn int_literal(s: Seq<char>, signed: bool) -> Option<int> {
    let sl: int = if s.len() > 0 && (s[0] == '+' || (signed && s[0] == '-')) {
        1
    } else {
        0
    };
    let d = s.skip(sl);
    if d.len() > 0 && all_digits(d) {
        if sl == 1 && s[0] == '-' {
            Some(-digits_value(d))
        } else {
            Some(digits_value(d))
        }
    } else {
        None
    }
}

/// `s.parse::<i32>()`, with `None` for an error.
pub open spec fn i32_spec(s: Seq<char>) -> Option<int> {
    match int_literal(s, true) {
        Some(x) => if i32::MIN <= x <= i32::MAX {
            Some(x)
        } else {
            None
        },
        None => None,
    }
}

/// `s.parse::<usize>()`, with `None` for an error.
pub open spec fn usize_spec(s: Seq<char>) -> Option<int> {
    match int_literal(s, false) {
        Some(x) => if x <= usize::MAX {
            Some(x)
        } else {
            None
        },
        None => None,
    }
}

/// Parses an integer literal in `v[lo..hi]` bounded in magnitude by `cap`.
fn parse_int_range(v: &Vec<char>, lo: usize, hi: usize, signed: bool, cap: u128) -> (r: Option<(bool, u128)>)
    requires
        lo <= hi <= v@.len(),
        cap <= 1_000_000_000_000_000_000_000_000u128,
    ensures
        !signed ==> (r matches Some((neg, _)) ==> !neg),
        match int_literal(v@.subrange(lo as int, hi as int), signed) {
            None => r is None,
            Some(x) => match r {
                Some((neg, m)) => m <= cap && x == (if neg { -(m as int) } else { m as int }),
                None => x > cap || x < -(cap as int),
            },
        },
{
    let ghost s = v@.subrange(lo as int, hi as int);
    let mut p = lo;
    let mut negative = false;
    if p < hi && (v[p] == '+' || (signed && v[p] == '-')) {
        negative = v[p] == '-';
        p = p + 1;
    }
    proof {
        if p > lo {
            assert(s[0] == v@[lo as int]);
        }
        assert(s.skip(p - lo) =~= v@.subrange(p as int, hi as int));
    }
    let end = scan_digits(v, p, hi);
    if end == p || end != hi {
        proof {
            let d = v@.subrange(p as int, hi as int);
            if end < hi && d.len() > 0 {
                assert(d[end - p] == v@[end as int]);
            }
        }
        return None;
    }
    match digits_upto(v, p, hi, cap) {
        Some(m) => Some((negative, m)),
        None => {
            proof {
                lemma_digits_value_nonneg(v@.subrange(p as int, hi as int));
            }
            None
        },
    }
}

/// `value.parse::<i32>()` on the whole of `value`.
pub fn parse_i32(value: &str) -> (r: Option<i32>)
    ensures
        match r {
            Some(x) => i32_spec(value@) == Some(x as int),
            None => i32_spec(value@) is None,
        },
{
    let v = crate::text::chars_of(value);
    proof {
        assert(v@.subrange(0, v@.len() as int) =~= value@);
    }
    match parse_int_range(&v, 0, v.len(), true, 0x8000_0000u128) {
        Some((neg, m)) => {
            if neg {
                Some((-(m as i64)) as i32)
            } else if m <= 0x7fff_ffff {
                Some(m as i32)
            } else {
                None
            }
        },
        None => None,
    }
}

/// `value.parse::<usize>()` on the whole of `value`.
pub fn parse_usize(v: &Vec<char>, lo: usize, hi: usize) -> (r: Option<usize>)
    requires
        lo <= hi <= v@.len(),
    ensures
        match r {
            Some(x) => usize_spec(v@.subrange(lo as int, hi as int)) == Some(x as int),
            None => usize_spec(v@.subrange(lo as int, hi as int)) is None,
        },
{
    let cap: u128 = usize::MAX as u128;
    match parse_int_range(v, lo, hi, false, cap) {
        Some((neg, m)) => {
            proof {
                assert(!neg);
                assert(m <= usize::MAX);
                let il = int_literal(v@.subrange(lo as int, hi as int), false);
                assert(il is Some);
                assert(il->0 == m as int);
            }
            let out = m as usize;
            assert(out as int == m as int);
            Some(out)
        },
        None => {
            proof {
                let t = v@.subrange(lo as int, hi as int);
                let sl: int = if t.len() > 0 && t[0] == '+' { 1 } else { 0 };
                if int_literal(t, false) is Some {
                    lemma_digits_value_nonneg(t.skip(sl));
                }
            }
            None
        },
    }
}
} // verus!
