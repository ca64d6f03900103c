//! Splitting CSS values at top level, that is outside parentheses.
use crate::text::{chars_of, is_ascii_ws, is_ws, trim, trim_bounds, eq_ci, lower_range_is, lower};
use crate::text::{is_whitespace_char, is_ascii_whitespace_char};
use vstd::prelude::*;
use vstd::string::*;

verus! {

/// The views of a sequence of string slices.
pub open spec fn views(v: Seq<&str>) -> Seq<Seq<char>> {
    v.map_values(|t: &str| t@)
}

/// The nesting depth after `c`, where a `)` never takes it below zero.
pub open spec fn next_depth(depth: nat, c: char) -> nat {
    if c == '(' {
        depth + 1
    } else if c == ')' {
        if depth > 0 {
            (depth - 1) as nat
        } else {
            0
        }
    } else {
        depth
    }
}

/// The tokens of `s` from position `i` on, for `split_top_level_whitespace`:
/// runs of characters separated by whitespace outside parentheses. `start`
/// is where the token in progress began.
pub open spec fn ws_scan(s: Seq<char>, i: int, depth: nat, start: Option<int>) -> Seq<Seq<char>>
    decreases s.len() - i,
{
    if i < 0 || i >= s.len() {
        match start {
            Some(a) => seq![s.subrange(a, s.len() as int)],
            None => Seq::empty(),
        }
    } else if is_ws(s[i]) && depth == 0 {
        match start {
            Some(a) => seq![s.subrange(a, i)] + ws_scan(s, i + 1, depth, None),
            None => ws_scan(s, i + 1, depth, None),
        }
    } else {
        let st = match start {
            Some(a) => Some(a),
            None => Some(i),
        };
        ws_scan(s, i + 1, next_depth(depth, s[i]), st)
    }
}

/// The tokens of `s` separated by whitespace outside parentheses.
pub open spec fn top_level_whitespace_tokens(s: Seq<char>) -> Seq<Seq<char>> {
    ws_scan(s, 0, 0, None)
}

/// Splits `value` at whitespace outside parentheses, dropping empty tokens.
pub fn split_top_level_whitespace(value: &str) -> (out: Vec<&str>)
    ensures
        views(out@) == top_level_whitespace_tokens(value@),
{
    let v = chars_of(value);
    let n = v.len();
    let mut out: Vec<&str> = Vec::new();
    let mut depth: usize = 0;
    let mut start: Option<usize> = None;
    let mut i: usize = 0;
    let ghost s = value@;
    while i < n
        invariant
            v@ == s,
            s == value@,
            n == s.len(),
            i <= n,
            depth <= i,
            start matches Some(a) ==> a < i,
            views(out@) + ws_scan(s, i as int, depth as nat, match start {
                Some(a) => Some(a as int),
                None => None,
            }) == top_level_whitespace_tokens(s),
        decreases n - i,
    {
        let c = v[i];
        let ghost old_out = views(out@);
        if is_whitespace_char(c) && depth == 0 {
            match start {
                Some(a) => {
                    let t = value.substring_char(a, i);
                    out.push(t);
                    proof {
                        assert(views(out@) =~= old_out + seq![s.subrange(a as int, i as int)]);
                    }
                },
                None => {},
            }
            start = None;
        } else {
            if start.is_none() {
                start = Some(i);
            }
            if c == '(' {
                depth = depth + 1;
            } else if c == ')' {
                if depth > 0 {
                    depth = depth - 1;
                }
            }
        }
        i = i + 1;
    }
    let ghost before = views(out@);
    match start {
        Some(a) => {
            let t = value.substring_char(a, n);
            out.push(t);
            proof {
                assert(views(out@) =~= before + seq![s.subrange(a as int, n as int)]);
            }
        },
        None => {
            proof {
                assert(before + Seq::<Seq<char>>::empty() =~= before);
            }
        },
    }
    out
}

/// The tokens of `s` from position `i` on, for `str::split_whitespace`: runs
/// of characters separated by Unicode whitespace.
pub open spec fn plain_ws_scan(s: Seq<char>, i: int, start: Option<int>) -> Seq<Seq<char>>
    decreases s.len() - i,
{
    if i < 0 || i >= s.len() {
        match start {
            Some(a) => seq![s.subrange(a, s.len() as int)],
            None => Seq::empty(),
        }
    } else if is_ws(s[i]) {
        match start {
            Some(a) => seq![s.subrange(a, i)] + plain_ws_scan(s, i + 1, None),
            None => plain_ws_scan(s, i + 1, None),
        }
    } else {
        let st = match start {
            Some(a) => Some(a),
            None => Some(i),
        };
        plain_ws_scan(s, i + 1, st)
    }
}

/// `str::split_whitespace`: the non-empty runs of non-whitespace characters.
pub open spec fn whitespace_tokens(s: Seq<char>) -> Seq<Seq<char>> {
    plain_ws_scan(s, 0, None)
}

/// `str::split_whitespace`, collected.
pub fn split_whitespace(value: &str) -> (out: Vec<&str>)
    ensures
        views(out@) == whitespace_tokens(value@),
{
    let v = chars_of(value);
    let n = v.len();
    let mut out: Vec<&str> = Vec::new();
    let mut start: Option<usize> = None;
    let mut i: usize = 0;
    let ghost s = value@;
    while i < n
        invariant
            v@ == s,
            s == value@,
            n == s.len(),
            i <= n,
            start matches Some(a) ==> a < i,
            views(out@) + plain_ws_scan(s, i as int, match start {
                Some(a) => Some(a as int),
                None => None,
            }) == whitespace_tokens(s),
        decreases n - i,
    {
        let c = v[i];
        let ghost old_out = views(out@);
        if is_whitespace_char(c) {
            match start {
                Some(a) => {
                    let t = value.substring_char(a, i);
                    out.push(t);
                    proof {
                        assert(views(out@) =~= old_out + seq![s.subrange(a as int, i as int)]);
                    }
                },
                None => {},
            }
            start = None;
        } else if start.is_none() {
            start = Some(i);
        }
        i = i + 1;
    }
    let ghost before = views(out@);
    match start {
        Some(a) => {
            let t = value.substring_char(a, n);
            out.push(t);
            proof {
                assert(views(out@) =~= before + seq![s.subrange(a as int, n as int)]);
            }
        },
        None => {
            proof {
                assert(before + Seq::<Seq<char>>::empty() =~= before);
            }
        },
    }
    out
}

/// The pieces of `s` from position `i` on, split at every `sep`; `start` is
/// where the piece in progress began.
pub open spec fn char_scan(s: Seq<char>, sep: char, i: int, start: int) -> Seq<Seq<char>>
    decreases s.len() - i,
{
    if i < 0 || i >= s.len() {
        seq![s.subrange(start, s.len() as int)]
    } else if s[i] == sep {
        seq![s.subrange(start, i)] + char_scan(s, sep, i + 1, i + 1)
    } else {
        char_scan(s, sep, i + 1, start)
    }
}

/// `str::split(sep)`: the pieces between the separators, empty ones included.
pub open spec fn split_char_spec(s: Seq<char>, sep: char) -> Seq<Seq<char>> {
    char_scan(s, sep, 0, 0)
}

/// `str::split(sep)`, collected.
pub fn split_char(value: &str, sep: char) -> (out: Vec<&str>)
    ensures
        views(out@) == split_char_spec(value@, sep),
{
    let v = chars_of(value);
    let n = v.len();
    let mut out: Vec<&str> = Vec::new();
    let mut start: usize = 0;
    let mut i: usize = 0;
    let ghost s = value@;
    while i < n
        invariant
            v@ == s,
            s == value@,
            n == s.len(),
            start <= i <= n,
            views(out@) + char_scan(s, sep, i as int, start as int) == split_char_spec(s, sep),
        decreases n - i,
    {
        if v[i] == sep {
            let ghost before = views(out@);
            let piece = value.substring_char(start, i);
            out.push(piece);
            proof {
                assert(views(out@) =~= before + seq![piece@]);
                assert(before + (seq![piece@] + char_scan(s, sep, i + 1, i + 1)) =~= (before + seq![piece@])
                    + char_scan(s, sep, i + 1, i + 1));
            }
            start = i + 1;
        }
        i = i + 1;
    }
    let ghost before = views(out@);
    let piece = value.substring_char(start, n);
    out.push(piece);
    proof {
        assert(views(out@) =~= before + seq![piece@]);
    }
    out
}

/// The parts joined with `sep` between each two.
pub open spec fn join_with(parts: Seq<Seq<char>>, sep: Seq<char>) -> Seq<char>
    decreases parts.len(),
{
    if parts.len() == 0 {
        Seq::empty()
    } else if parts.len() == 1 {
        parts[0]
    } else {
        join_with(parts.drop_last(), sep) + sep + parts.last()
    }
}

/// `parts.join(sep)`.
pub fn join_strs(parts: &Vec<&str>, sep: &str) -> (r: String)
    ensures
        r@ == join_with(views(parts@), sep@),
{
    let ghost p = views(parts@);
    let mut out = String::new();
    let mut i: usize = 0;
    while i < parts.len()
        invariant
            p == views(parts@),
            i <= parts@.len(),
            out@ == join_with(p.take(i as int), sep@),
        decreases parts@.len() - i,
    {
        proof {
            assert(p.take(i + 1).drop_last() =~= p.take(i as int));
            assert(p.take(i + 1).last() == p[i as int]);
        }
        if i > 0 {
            out.append(sep);
        } else {
            proof {
                assert(p.take(1) =~= seq![p[0]]);
                assert(out@ + p[0] =~= p[0]);
            }
        }
        out.append(parts[i]);
        i = i + 1;
    }
    proof {
        assert(p.take(p.len() as int) =~= p);
    }
    out
}

/// The components of `s` from position `i` on, for `css_value_components`:
/// the depth is updated before the ASCII whitespace test.
pub open spec fn component_scan(s: Seq<char>, i: int, depth: nat, start: Option<int>) -> Seq<Seq<char>>
    decreases s.len() - i,
{
    if i < 0 || i >= s.len() {
        match start {
            Some(a) => seq![s.subrange(a, s.len() as int)],
            None => Seq::empty(),
        }
    } else {
        let d = next_depth(depth, s[i]);
        if is_ascii_ws(s[i]) && d == 0 {
            match start {
                Some(a) => seq![s.subrange(a, i)] + component_scan(s, i + 1, d, None),
                None => component_scan(s, i + 1, d, None),
            }
        } else {
            let st = match start {
                Some(a) => Some(a),
                None => Some(i),
            };
            component_scan(s, i + 1, d, st)
        }
    }
}

/// The components of a CSS value: runs separated by ASCII whitespace outside
/// parentheses.
pub open spec fn value_components(s: Seq<char>) -> Seq<Seq<char>> {
    component_scan(s, 0, 0, None)
}

/// Splits a CSS value into its components, keeping function arguments whole.
pub fn css_value_components(value: &str) -> (out: Vec<&str>)
    ensures
        views(out@) == value_components(value@),
{
    let v = chars_of(value);
    let n = v.len();
    let mut out: Vec<&str> = Vec::new();
    let mut depth: usize = 0;
    let mut start: Option<usize> = None;
    let mut i: usize = 0;
    let ghost s = value@;
    while i < n
        invariant
            v@ == s,
            s == value@,
            n == s.len(),
            i <= n,
            depth <= i,
            start matches Some(a) ==> a < i,
            views(out@) + component_scan(s, i as int, depth as nat, match start {
                Some(a) => Some(a as int),
                None => None,
            }) == value_components(s),
        decreases n - i,
    {
        let c = v[i];
        let ghost old_out = views(out@);
        if c == '(' {
            depth = depth + 1;
        } else if c == ')' {
            if depth > 0 {
                depth = depth - 1;
            }
        }
        if is_ascii_whitespace_char(c) && depth == 0 {
            match start {
                Some(a) => {
                    let t = value.substring_char(a, i);
                    out.push(t);
                    proof {
                        assert(views(out@) =~= old_out + seq![s.subrange(a as int, i as int)]);
                    }
                },
                None => {},
            }
            start = None;
        } else if start.is_none() {
            start = Some(i);
        }
        i = i + 1;
    }
    let ghost before = views(out@);
    match start {
        Some(a) => {
            let t = value.substring_char(a, n);
            out.push(t);
            proof {
                assert(views(out@) =~= before + seq![s.subrange(a as int, n as int)]);
            }
        },
        None => {
            proof {
                assert(before + Seq::<Seq<char>>::empty() =~= before);
            }
        },
    }
    out
}

/// The arguments of `s` from position `i` on, for `split_top_level_commas`:
/// each argument is trimmed and must not be empty, and parentheses must
/// balance (`None` otherwise).
pub open spec fn comma_scan(s: Seq<char>, i: int, depth: nat, start: int) -> Option<Seq<Seq<char>>>
    decreases s.len() - i,
{
    if i < 0 || i >= s.len() {
        if depth != 0 {
            None
        } else {
            let last = trim(s.subrange(start, s.len() as int));
            if last.len() == 0 {
                None
            } else {
                Some(seq![last])
            }
        }
    } else if s[i] == '(' {
        comma_scan(s, i + 1, depth + 1, start)
    } else if s[i] == ')' {
        if depth == 0 {
            None
        } else {
            comma_scan(s, i + 1, (depth - 1) as nat, start)
        }
    } else if s[i] == ',' && depth == 0 {
        let part = trim(s.subrange(start, i));
        if part.len() == 0 {
            None
        } else {
            match comma_scan(s, i + 1, depth, i + 1) {
                Some(rest) => Some(seq![part] + rest),
                None => None,
            }
        }
    } else {
        comma_scan(s, i + 1, depth, start)
    }
}

/// The top-level, comma-separated arguments of `s`.
pub open spec fn top_level_commas(s: Seq<char>) -> Option<Seq<Seq<char>>> {
    comma_scan(s, 0, 0, 0)
}

/// The view of an optional list of string slices.
pub open spec fn opt_views(r: Option<Vec<&str>>) -> Option<Seq<Seq<char>>> {
    match r {
        Some(v) => Some(views(v@)),
        None => None,
    }
}

/// Splits `v[lo..hi]` (a slice of `value`) at commas outside parentheses.
fn split_commas_range<'a>(value: &'a str, v: &Vec<char>, lo: usize, hi: usize) -> (out: Option<Vec<&'a str>>)
    requires
        v@ == value@,
        lo <= hi <= v@.len(),
    ensures
        opt_views(out) == top_level_commas(v@.subrange(lo as int, hi as int)),
{
    let ghost s = v@.subrange(lo as int, hi as int);
    let mut out: Vec<&str> = Vec::new();
    let mut depth: usize = 0;
    let mut start: usize = lo;
    let mut i: usize = lo;
    while i < hi
        invariant
            v@ == value@,
            lo <= start <= i <= hi <= v@.len(),
            s == v@.subrange(lo as int, hi as int),
            depth <= i - lo,
            match comma_scan(s, i - lo, depth as nat, start - lo) {
                Some(rest) => top_level_commas(s) == Some(views(out@) + rest),
                None => top_level_commas(s) is None,
            },
        decreases hi - i,
    {
        let c = v[i];
        proof {
            assert(s[i - lo] == c);
        }
        if c == '(' {
            depth = depth + 1;
        } else if c == ')' {
            if depth == 0 {
                return None;
            }
            depth = depth - 1;
        } else if c == ',' && depth == 0 {
            let (a, b) = trim_bounds(v, start, i);
            proof {
                assert(s.subrange(start - lo, i - lo) =~= v@.subrange(start as int, i as int));
            }
            if a == b {
                return None;
            }
            let ghost old_out = views(out@);
            let t = value.substring_char(a, b);
            out.push(t);
            proof {
                assert(views(out@) =~= old_out + seq![v@.subrange(a as int, b as int)]);
                let part = trim(s.subrange(start - lo, i - lo));
                match comma_scan(s, i - lo + 1, depth as nat, i - lo + 1) {
                    Some(rest) => {
                        assert(old_out + (seq![part] + rest) =~= views(out@) + rest);
                    },
                    None => {},
                }
            }
            start = i + 1;
        }
        i = i + 1;
    }
    if depth != 0 {
        return None;
    }
    let (a, b) = trim_bounds(v, start, hi);
    proof {
        assert(s.subrange(start - lo, s.len() as int) =~= v@.subrange(start as int, hi as int));
    }
    if a == b {
        return None;
    }
    let ghost old_out = views(out@);
    let t = value.substring_char(a, b);
    out.push(t);
    proof {
        assert(views(out@) =~= old_out + seq![v@.subrange(a as int, b as int)]);
    }
    Some(out)
}

/// Splits `value` at commas outside parentheses; `None` for an empty
/// argument or unbalanced parentheses.
pub fn split_top_level_commas(value: &str) -> (out: Option<Vec<&str>>)
    ensures
        opt_views(out) == top_level_commas(value@),
{
    let v = chars_of(value);
    proof {
        assert(v@.subrange(0, v@.len() as int) =~= value@);
    }
    split_commas_range(value, &v, 0, v.len())
}

/// The position of the first `c` in `s` at or after `i`, if any.
pub open spec fn find_from(s: Seq<char>, c: char, i: int) -> Option<int>
    decreases s.len() - i,
{
    if i < 0 || i >= s.len() {
        None
    } else if s[i] == c {
        Some(i)
    } else {
        find_from(s, c, i + 1)
    }
}

/// The position of the first `c` in `s`, if any (`str::find`).
pub open spec fn find_char(s: Seq<char>, c: char) -> Option<int> {
    find_from(s, c, 0)
}

/// What `find_from` returns is an occurrence at or after `i`.
pub proof fn lemma_find_from(s: Seq<char>, c: char, i: int)
    requires
        0 <= i,
    ensures
        find_from(s, c, i) matches Some(k) ==> i <= k < s.len() && s[k] == c,
    decreases s.len() - i,
{
    if i < s.len() && s[i] != c {
        lemma_find_from(s, c, i + 1);
    }
}

/// The arguments of the call `name(...)` that `s` is, if it is one: the text
/// before the first `(` names the function (ignoring ASCII case and
/// surrounding whitespace) and the value ends with `)`.
pub open spec fn function_arguments(s: Seq<char>, name: Seq<char>) -> Option<Seq<Seq<char>>> {
    match find_char(s, '(') {
        Some(open) => if eq_ci(trim(s.subrange(0, open)), name) && s.len() > 0 && s.last() == ')' {
            top_level_commas(s.subrange(open + 1, s.len() - 1))
        } else {
            None
        },
        None => None,
    }
}

/// The arguments of `value` read as a call of the CSS function `name`.
pub fn css_function_arguments<'a>(value: &'a str, name: &str) -> (out: Option<Vec<&'a str>>)
    ensures
        opt_views(out) == function_arguments(value@, name@),
{
    let v = chars_of(value);
    let n = v.len();
    let mut open: usize = 0;
    while open < n && v[open] != '('
        invariant
            v@ == value@,
            n == v@.len(),
            open <= n,
            find_from(value@, '(', open as int) == find_char(value@, '('),
        decreases n - open,
    {
        open = open + 1;
    }
    if open == n {
        return None;
    }
    let (a, b) = trim_bounds(&v, 0, open);
    let name_matches = name_eq(&v, a, b, name);
    if !name_matches || v[n - 1] != ')' {
        proof {
            assert(n > 0);
            assert(value@.last() == v@[n - 1]);
        }
        return None;
    }
    proof {
        assert(value@.last() == v@[n - 1]);
    }
    split_commas_range(value, &v, open + 1, n - 1)
}

/// Whether `v[a..b]` equals `name`, ignoring ASCII case.
fn name_eq(v: &Vec<char>, a: usize, b: usize, name: &str) -> (r: bool)
    requires
        a <= b <= v@.len(),
    ensures
        r == eq_ci(v@.subrange(a as int, b as int), name@),
{
    let w = chars_of(name);
    if w.len() != b - a {
        proof {
            assert(lower(v@.subrange(a as int, b as int)).len() != lower(name@).len());
        }
        return false;
    }
    let mut i: usize = 0;
    while i < w.len()
        invariant
            w@ == name@,
            a <= b <= v@.len(),
            w@.len() == b - a,
            i <= w@.len(),
            forall|k: int| 0 <= k < i ==> crate::text::lower_char(v@[a + k]) == crate::text::lower_char(w@[k]),
        decreases w@.len() - i,
    {
        if crate::text::ascii_lower_char(v[a + i]) != crate::text::ascii_lower_char(w[i]) {
            proof {
                assert(lower(v@.subrange(a as int, b as int))[i as int] != lower(name@)[i as int]);
            }
            return false;
        }
        i = i + 1;
    }
    proof {
        assert(lower(v@.subrange(a as int, b as int)) =~= lower(name@));
    }
    true
}

/// The position of the first `sep` outside parentheses in `s` from `i` on,
/// for `split_top_level_once`; `None` at an unbalanced `)` or without one.
pub open spec fn once_scan(s: Seq<char>, i: int, depth: nat, sep: char) -> Option<int>
    decreases s.len() - i,
{
    if i < 0 || i >= s.len() {
        None
    } else if s[i] == '(' {
        once_scan(s, i + 1, depth + 1, sep)
    } else if s[i] == ')' {
        if depth == 0 {
            None
        } else {
            once_scan(s, i + 1, (depth - 1) as nat, sep)
        }
    } else if s[i] == sep && depth == 0 {
        Some(i)
    } else {
        once_scan(s, i + 1, depth, sep)
    }
}

/// The two sides of the first top-level `sep` in `s`.
pub open spec fn split_once_spec(s: Seq<char>, sep: char) -> Option<(Seq<char>, Seq<char>)> {
    match once_scan(s, 0, 0, sep) {
        Some(i) => Some((s.subrange(0, i), s.subrange(i + 1, s.len() as int))),
        None => None,
    }
}

/// Splits `value` at the first `separator` outside parentheses.
pub fn split_top_level_once<'a>(value: &'a str, separator: char) -> (out: Option<(&'a str, &'a str)>)
    ensures
        match out {
            Some((a, b)) => split_once_spec(value@, separator) == Some((a@, b@)),
            None => split_once_spec(value@, separator) is None,
        },
{
    let v = chars_of(value);
    let n = v.len();
    let mut depth: usize = 0;
    let mut i: usize = 0;
    while i < n
        invariant
            v@ == value@,
            n == v@.len(),
            i <= n,
            depth <= i,
            once_scan(value@, i as int, depth as nat, separator) == once_scan(value@, 0, 0, separator),
        decreases n - i,
    {
        let c = v[i];
        if c == '(' {
            depth = depth + 1;
        } else if c == ')' {
            if depth == 0 {
                return None;
            }
            depth = depth - 1;
        } else if c == separator && depth == 0 {
            let left = value.substring_char(0, i);
            let right = value.substring_char(i + 1, n);
            return Some((left, right));
        }
        i = i + 1;
    }
    None
}

} // verus!
