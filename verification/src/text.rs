//! Character-level helpers shared by the CSS and document modules.
//!
//! Strings are modelled by their views, sequences of `char`. The helpers here
//! work on a `Vec<char>` copy of a string and on half-open index ranges into
//! it, so that callers can slice without copying.
use vstd::prelude::*;
use vstd::string::*;

verus! {

/// `char::is_whitespace`: the Unicode `White_Space` property.
pub open spec fn is_ws(c: char) -> bool {
    ||| ('\u{9}' <= c && c <= '\u{d}')
    ||| c == ' '
    ||| c == '\u{85}'
    ||| c == '\u{a0}'
    ||| c == '\u{1680}'
    ||| ('\u{2000}' <= c && c <= '\u{200a}')
    ||| c == '\u{2028}'
    ||| c == '\u{2029}'
    ||| c == '\u{202f}'
    ||| c == '\u{205f}'
    ||| c == '\u{3000}'
}

/// `char::is_ascii_whitespace`: space, tab, line feed, form feed, carriage return.
pub open spec fn is_ascii_ws(c: char) -> bool {
    c == ' ' || c == '\t' || c == '\n' || c == '\u{c}' || c == '\r'
}

/// `char::is_ascii_digit`.
pub open spec fn is_digit(c: char) -> bool {
    '0' <= c && c <= '9'
}

/// `char::to_ascii_lowercase`.
pub open spec fn lower_char(c: char) -> char {
    if 'A' <= c && c <= 'Z' {
        ((c as u32) + 32) as char
    } else {
        c
    }
}

/// `str::to_ascii_lowercase`, on the character view.
pub open spec fn lower(s: Seq<char>) -> Seq<char> {
    Seq::new(s.len(), |i: int| lower_char(s[i]))
}

/// `str::trim_start`: drops leading Unicode whitespace.
pub open spec fn trim_start(s: Seq<char>) -> Seq<char>
    decreases s.len(),
{
    if s.len() > 0 && is_ws(s[0]) {
        trim_start(s.drop_first())
    } else {
        s
    }
}

/// `str::trim_end`: drops trailing Unicode whitespace.
pub open spec fn trim_end(s: Seq<char>) -> Seq<char>
    decreases s.len(),
{
    if s.len() > 0 && is_ws(s.last()) {
        trim_end(s.drop_last())
    } else {
        s
    }
}

/// `str::trim`.
pub open spec fn trim(s: Seq<char>) -> Seq<char> {
    trim_end(trim_start(s))
}

/// `str::eq_ignore_ascii_case`.
pub open spec fn eq_ci(a: Seq<char>, b: Seq<char>) -> bool {
    lower(a) == lower(b)
}

/// `str::ends_with`.
pub open spec fn ends_with(s: Seq<char>, suffix: Seq<char>) -> bool {
    suffix.len() <= s.len() && s.subrange(s.len() - suffix.len(), s.len() as int) == suffix
}

/// `str::starts_with`.
pub open spec fn starts_with(s: Seq<char>, prefix: Seq<char>) -> bool {
    prefix.len() <= s.len() && s.subrange(0, prefix.len() as int) == prefix
}

/// `str::strip_suffix`, with `None` where `s` does not end with `suffix`.
pub open spec fn strip_suffix(s: Seq<char>, suffix: Seq<char>) -> Option<Seq<char>> {
    if ends_with(s, suffix) {
        Some(s.subrange(0, s.len() - suffix.len()))
    } else {
        None
    }
}

/// `str::strip_prefix`, with `None` where `s` does not start with `prefix`.
pub open spec fn strip_prefix(s: Seq<char>, prefix: Seq<char>) -> Option<Seq<char>> {
    if starts_with(s, prefix) {
        Some(s.subrange(prefix.len() as int, s.len() as int))
    } else {
        None
    }
}

/// Every character of `s` satisfies `is_ws`.
pub open spec fn all_ws(s: Seq<char>) -> bool {
    forall|i: int| 0 <= i < s.len() ==> is_ws(#[trigger] s[i])
}

/// The characters of `s`, in order.
pub fn chars_of(s: &str) -> (out: Vec<char>)
    ensures
        out@ == s@,
{
    let mut out: Vec<char> = Vec::new();
    for c in it: s.chars()
        invariant
            out@ == it.seq().take(it.index() as int),
            it.seq() == s@,
    {
        out.push(c);
    }
    out
}

/// Executable `is_ws`.
pub fn is_whitespace_char(c: char) -> (r: bool)
    ensures
        r == is_ws(c),
{
    ('\u{9}' <= c && c <= '\u{d}') || c == ' ' || c == '\u{85}' || c == '\u{a0}' || c
        == '\u{1680}' || ('\u{2000}' <= c && c <= '\u{200a}') || c == '\u{2028}' || c
        == '\u{2029}' || c == '\u{202f}' || c == '\u{205f}' || c == '\u{3000}'
}

/// Executable `is_ascii_ws`.
pub fn is_ascii_whitespace_char(c: char) -> (r: bool)
    ensures
        r == is_ascii_ws(c),
{
    c == ' ' || c == '\t' || c == '\n' || c == '\u{c}' || c == '\r'
}

/// Executable `lower_char`.
pub fn ascii_lower_char(c: char) -> (r: char)
    ensures
        r == lower_char(c),
{
    if 'A' <= c && c <= 'Z' {
        let code: u32 = (c as u32) + 32;
        proof {
            assert(code <= 0x7a);
        }
        char_from_ascii(code)
    } else {
        c
    }
}

/// Maps an ASCII code point to its `char`.
fn char_from_ascii(code: u32) -> (r: char)
    requires
        code <= 0x7f,
    ensures
        r == code as char,
{
    let b: u8 = code as u8;
    b as char
}

proof fn lemma_trim_start_ws_prefix(s: Seq<char>, i: int)
    requires
        0 <= i <= s.len(),
        all_ws(s.subrange(0, i)),
    ensures
        trim_start(s) == trim_start(s.subrange(i, s.len() as int)),
    decreases i,
{
    if i > 0 {
        assert(is_ws(s.subrange(0, i)[0]));
        assert(s.drop_first().subrange(0, i - 1) =~= s.subrange(1, i));
        assert forall|k: int| 0 <= k < i - 1 implies is_ws(#[trigger] s.drop_first().subrange(0, i - 1)[k]) by {
            assert(s.subrange(0, i)[k + 1] == s[k + 1]);
        }
        lemma_trim_start_ws_prefix(s.drop_first(), i - 1);
        assert(s.drop_first().subrange(i - 1, s.drop_first().len() as int) =~= s.subrange(i, s.len() as int));
    } else {
        assert(s.subrange(0, s.len() as int) =~= s);
    }
}

proof fn lemma_trim_end_ws_suffix(s: Seq<char>, j: int)
    requires
        0 <= j <= s.len(),
        all_ws(s.subrange(j, s.len() as int)),
    ensures
        trim_end(s) == trim_end(s.subrange(0, j)),
    decreases s.len() - j,
{
    if j < s.len() {
        assert(is_ws(s.subrange(j, s.len() as int)[s.len() - 1 - j]));
        assert(is_ws(s.last()));
        assert(s.drop_last().subrange(j, s.drop_last().len() as int) =~= s.subrange(j, s.len() - 1));
        assert forall|k: int| 0 <= k < s.len() - 1 - j implies is_ws(#[trigger] s.drop_last().subrange(j, s.drop_last().len() as int)[k]) by {
            assert(s.subrange(j, s.len() as int)[k] == s[j + k]);
        }
        lemma_trim_end_ws_suffix(s.drop_last(), j);
        assert(s.drop_last().subrange(0, j) =~= s.subrange(0, j));
    } else {
        assert(s.subrange(0, s.len() as int) =~= s);
    }
}

/// The bounds of `trim(v[lo..hi])` inside `v`.
pub fn trim_bounds(v: &Vec<char>, lo: usize, hi: usize) -> (r: (usize, usize))
    requires
        lo <= hi <= v@.len(),
    ensures
        lo <= r.0 <= r.1 <= hi,
        v@.subrange(r.0 as int, r.1 as int) == trim(v@.subrange(lo as int, hi as int)),
{
    let mut a = lo;
    while a < hi && is_whitespace_char(v[a])
        invariant
            lo <= a <= hi <= v@.len(),
            all_ws(v@.subrange(lo as int, a as int)),
        decreases hi - a,
    {
        proof {
            assert forall|k: int| 0 <= k < a + 1 - lo implies is_ws(#[trigger] v@.subrange(lo as int, a + 1)[k]) by {
                if k < a - lo {
                    assert(v@.subrange(lo as int, a as int)[k] == v@[lo + k]);
                }
            }
        }
        a = a + 1;
    }
    let ghost sub = v@.subrange(lo as int, hi as int);
    proof {
        assert(sub.subrange(0, a - lo) =~= v@.subrange(lo as int, a as int));
        lemma_trim_start_ws_prefix(sub, a - lo);
        assert(sub.subrange(a - lo, sub.len() as int) =~= v@.subrange(a as int, hi as int));
        let rest = v@.subrange(a as int, hi as int);
        if rest.len() > 0 {
            assert(rest[0] == v@[a as int]);
        }
        assert(trim_start(rest) == rest);
    }
    let mut b = hi;
    while b > a && is_whitespace_char(v[b - 1])
        invariant
            lo <= a <= b <= hi <= v@.len(),
            all_ws(v@.subrange(b as int, hi as int)),
        decreases b - a,
    {
        proof {
            assert forall|k: int| 0 <= k < hi - b + 1 implies is_ws(#[trigger] v@.subrange(b - 1, hi as int)[k]) by {
                if k > 0 {
                    assert(v@.subrange(b as int, hi as int)[k - 1] == v@[b + k - 1]);
                }
            }
        }
        b = b - 1;
    }
    proof {
        let rest = v@.subrange(a as int, hi as int);
        assert(rest.subrange(b - a, rest.len() as int) =~= v@.subrange(b as int, hi as int));
        lemma_trim_end_ws_suffix(rest, b - a);
        assert(rest.subrange(0, b - a) =~= v@.subrange(a as int, b as int));
        let fin = v@.subrange(a as int, b as int);
        if fin.len() > 0 {
            assert(fin.last() == v@[b - 1]);
        }
        assert(trim_end(fin) == fin);
    }
    (a, b)
}

/// Whether `v[lo..hi]`, lowered to ASCII lower case, equals `lit`.
pub fn lower_range_is(v: &Vec<char>, lo: usize, hi: usize, lit: &str) -> (r: bool)
    requires
        lo <= hi <= v@.len(),
    ensures
        r == (lower(v@.subrange(lo as int, hi as int)) == lit@),
{
    let n = lit.unicode_len();
    if hi - lo != n {
        proof {
            assert(lower(v@.subrange(lo as int, hi as int)).len() != lit@.len());
        }
        return false;
    }
    let mut i: usize = 0;
    while i < n
        invariant
            hi - lo == n == lit@.len(),
            lo <= hi <= v@.len(),
            i <= n,
            forall|k: int| 0 <= k < i ==> lower_char(v@[lo + k]) == lit@[k],
        decreases n - i,
    {
        let c = ascii_lower_char(v[lo + i]);
        if c != lit.get_char(i) {
            proof {
                assert(lower(v@.subrange(lo as int, hi as int))[i as int] != lit@[i as int]);
            }
            return false;
        }
        i = i + 1;
    }
    proof {
        assert(lower(v@.subrange(lo as int, hi as int)) =~= lit@);
    }
    true
}

/// Whether `v[lo..hi]` equals `lit` exactly.
pub fn range_is(v: &Vec<char>, lo: usize, hi: usize, lit: &str) -> (r: bool)
    requires
        lo <= hi <= v@.len(),
    ensures
        r == (v@.subrange(lo as int, hi as int) == lit@),
{
    let n = lit.unicode_len();
    if hi - lo != n {
        return false;
    }
    let mut i: usize = 0;
    while i < n
        invariant
            hi - lo == n == lit@.len(),
            lo <= hi <= v@.len(),
            i <= n,
            forall|k: int| 0 <= k < i ==> v@[lo + k] == lit@[k],
        decreases n - i,
    {
        if v[lo + i] != lit.get_char(i) {
            proof {
                assert(v@.subrange(lo as int, hi as int)[i as int] != lit@[i as int]);
            }
            return false;
        }
        i = i + 1;
    }
    proof {
        assert(v@.subrange(lo as int, hi as int) =~= lit@);
    }
    true
}

/// Whether `v[lo..hi]` ends with `lit`.
pub fn range_ends_with(v: &Vec<char>, lo: usize, hi: usize, lit: &str) -> (r: bool)
    requires
        lo <= hi <= v@.len(),
    ensures
        r == ends_with(v@.subrange(lo as int, hi as int), lit@),
{
    let n = lit.unicode_len();
    if n > hi - lo {
        return false;
    }
    let r = range_is(v, hi - n, hi, lit);
    proof {
        let sub = v@.subrange(lo as int, hi as int);
        assert(sub.subrange(sub.len() - lit@.len(), sub.len() as int) =~= v@.subrange(hi - n, hi as int));
    }
    r
}

/// Whether `v[lo..hi]` starts with `lit`.
pub fn range_starts_with(v: &Vec<char>, lo: usize, hi: usize, lit: &str) -> (r: bool)
    requires
        lo <= hi <= v@.len(),
    ensures
        r == starts_with(v@.subrange(lo as int, hi as int), lit@),
{
    let n = lit.unicode_len();
    if n > hi - lo {
        return false;
    }
    let r = range_is(v, lo, lo + n, lit);
    proof {
        let sub = v@.subrange(lo as int, hi as int);
        assert(sub.subrange(0, lit@.len() as int) =~= v@.subrange(lo as int, lo + n));
    }
    r
}

/// Whether the whole of `a` equals the whole of `b`, ignoring ASCII case.
pub fn str_eq_ignore_ascii_case(a: &str, b: &str) -> (r: bool)
    ensures
        r == eq_ci(a@, b@),
{
    let av = chars_of(a);
    let bv = chars_of(b);
    if av.len() != bv.len() {
        proof {
            assert(lower(a@).len() != lower(b@).len());
        }
        return false;
    }
    let mut i: usize = 0;
    while i < av.len()
        invariant
            av@ == a@,
            bv@ == b@,
            av@.len() == bv@.len(),
            i <= av@.len(),
            forall|k: int| 0 <= k < i ==> lower_char(av@[k]) == lower_char(bv@[k]),
        decreases av@.len() - i,
    {
        if ascii_lower_char(av[i]) != ascii_lower_char(bv[i]) {
            proof {
                assert(lower(a@)[i as int] != lower(b@)[i as int]);
            }
            return false;
        }
        i = i + 1;
    }
    proof {
        assert(lower(a@) =~= lower(b@));
    }
    true
}

/// Whether `s` equals `lit`.
pub fn str_is(s: &str, lit: &str) -> (r: bool)
    ensures
        r == (s@ == lit@),
{
    let v = chars_of(s);
    proof {
        assert(v@.subrange(0, v@.len() as int) =~= s@);
    }
    range_is(&v, 0, v.len(), lit)
}

/// Whether `s`, lowered to ASCII lower case, equals `lit`.
pub fn str_lower_is(s: &str, lit: &str) -> (r: bool)
    ensures
        r == (lower(s@) == lit@),
{
    let v = chars_of(s);
    proof {
        assert(v@.subrange(0, v@.len() as int) =~= s@);
    }
    lower_range_is(&v, 0, v.len(), lit)
}

/// Whether `s`, trimmed and lowered to ASCII lower case, equals `lit`.
pub fn trimmed_lower_is(s: &str, lit: &str) -> (r: bool)
    ensures
        r == (lower(trim(s@)) == lit@),
{
    let v = chars_of(s);
    let (a, b) = trim_bounds(&v, 0, v.len());
    proof {
        assert(v@.subrange(0, v@.len() as int) =~= s@);
    }
    lower_range_is(&v, a, b, lit)
}

/// Calls `String::push`, which appends one character.
#[verifier::external_body]
pub(crate) fn push_char(s: &mut String, c: char)
    ensures
        final(s)@ == old(s)@.push(c),
{
    s.push(c);
}

/// `v[lo..hi]` lowered to ASCII lower case, as a new string.
pub fn lowered_range(v: &Vec<char>, lo: usize, hi: usize) -> (r: String)
    requires
        lo <= hi <= v@.len(),
    ensures
        r@ == lower(v@.subrange(lo as int, hi as int)),
{
    let mut out = String::new();
    let mut i = lo;
    while i < hi
        invariant
            lo <= i <= hi <= v@.len(),
            out@ == lower(v@.subrange(lo as int, i as int)),
        decreases hi - i,
    {
        push_char(&mut out, ascii_lower_char(v[i]));
        proof {
            assert(lower(v@.subrange(lo as int, i + 1)) =~= lower(v@.subrange(lo as int, i as int)).push(lower_char(v@[i as int])));
        }
        i = i + 1;
    }
    out
}

/// `s` split where its leading whitespace ends: the whitespace, and the
/// rest (`str::trim_start`), as slices of `s`.
pub fn split_leading_whitespace(s: &str) -> (r: (&str, &str))
    ensures
        r.1@ == trim_start(s@),
        r.0@ + r.1@ == s@,
        all_ws(r.0@),
{
    let v = chars_of(s);
    let n = v.len();
    let mut a: usize = 0;
    while a < n && is_whitespace_char(v[a])
        invariant
            v@ == s@,
            n == v@.len(),
            a <= n,
            all_ws(v@.subrange(0, a as int)),
        decreases n - a,
    {
        proof {
            assert forall|k: int| 0 <= k < a + 1 implies is_ws(#[trigger] v@.subrange(0, a + 1)[k]) by {
                if k < a {
                    assert(v@.subrange(0, a as int)[k] == v@[k]);
                }
            }
        }
        a = a + 1;
    }
    proof {
        lemma_trim_start_ws_prefix(v@, a as int);
        let rest = v@.subrange(a as int, n as int);
        if rest.len() > 0 {
            assert(rest[0] == v@[a as int]);
        }
        assert(trim_start(rest) == rest);
        assert(v@.subrange(0, a as int) + rest =~= v@);
    }
    (s.substring_char(0, a), s.substring_char(a, n))
}

/// `str::trim_start`, as a slice of `s`.
pub fn trim_start_str(s: &str) -> (r: &str)
    ensures
        r@ == trim_start(s@),
{
    split_leading_whitespace(s).1
}

/// `str::trim_end`, as a slice of `s`.
pub fn trim_end_str(s: &str) -> (r: &str)
    ensures
        r@ == trim_end(s@),
{
    let v = chars_of(s);
    let n = v.len();
    let mut b: usize = n;
    while b > 0 && is_whitespace_char(v[b - 1])
        invariant
            v@ == s@,
            n == v@.len(),
            b <= n,
            all_ws(v@.subrange(b as int, n as int)),
        decreases b,
    {
        proof {
            assert forall|k: int| 0 <= k < n - b + 1 implies is_ws(#[trigger] v@.subrange(b - 1, n as int)[k]) by {
                if k > 0 {
                    assert(v@.subrange(b as int, n as int)[k - 1] == v@[b + k - 1]);
                }
            }
        }
        b = b - 1;
    }
    proof {
        lemma_trim_end_ws_suffix(v@, b as int);
        let fin = v@.subrange(0, b as int);
        if fin.len() > 0 {
            assert(fin.last() == v@[b - 1]);
        }
        assert(trim_end(fin) == fin);
    }
    s.substring_char(0, b)
}

/// `String::from(&s[lo..hi])` by character positions.
pub fn string_of_range(s: &str, v: &Vec<char>, lo: usize, hi: usize) -> (r: String)
    requires
        v@ == s@,
        lo <= hi <= v@.len(),
    ensures
        r@ == s@.subrange(lo as int, hi as int),
{
    let sub = s.substring_char(lo, hi);
    String::from_str(sub)
}

} // verus!
