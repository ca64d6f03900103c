//! What a style does to the text it holds: case transformation and the
//! advance width factor of its font.
use crate::number::{num, CssNumber};
use crate::style::types::{CssOverflow, CssStyle, CssTextTransform, StyleModel};
use crate::text::{chars_of, lower, lowered_range};
use crate::unicode::{
    alphabetic, alphanumeric, char_upper, is_alphabetic, is_alphanumeric, lowercase, text_lower, text_upper,
    uppercase, uppercase_char,
};
use vstd::prelude::*;
use vstd::string::*;

verus! {

/// The advance width of a monospace character, as a fraction of the font size.
pub const MONOSPACE_CHARACTER_WIDTH_FACTOR_MICROS: i64 = 600_000;

/// The average advance width of a proportional character, as a fraction of
/// the font size.
pub const TEXT_CHARACTER_WIDTH_FACTOR_MICROS: i64 = 550_000;

/// Capitalization from the start of `s`: the first alphabetic character of
/// each word is upper-cased, where a word starts after any character that
/// is not alphanumeric.
pub open spec fn capitalize_from(s: Seq<char>, word_start: bool) -> Seq<char>
    decreases s.len(),
{
    if s.len() == 0 {
        Seq::empty()
    } else {
        let c = s[0];
        let piece = if word_start && alphabetic(c) { char_upper(c) } else { seq![c] };
        piece + capitalize_from(s.drop_first(), !alphanumeric(c))
    }
}

/// The text as the style's `text-transform` shows it.
pub open spec fn transformed_spec(t: CssTextTransform, text: Seq<char>) -> Seq<char> {
    match t {
        CssTextTransform::NoTransform => text,
        CssTextTransform::Uppercase => text_upper(text),
        CssTextTransform::Lowercase => text_lower(text),
        CssTextTransform::Capitalize => capitalize_from(text, true),
    }
}

/// Whether `s` contains `needle`.
pub open spec fn contains_seq(s: Seq<char>, needle: Seq<char>) -> bool {
    exists|i: int| 0 <= i <= s.len() - needle.len() && #[trigger] s.subrange(i, i + needle.len()) == needle
}

/// The advance width factor of the style's font family: monospace where
/// the family names `mono` in any ASCII case.
pub open spec fn width_factor_spec(m: StyleModel) -> CssNumber {
    if contains_seq(lower(m.font_family), "mono"@) {
        num(MONOSPACE_CHARACTER_WIDTH_FACTOR_MICROS as int)
    } else {
        num(TEXT_CHARACTER_WIDTH_FACTOR_MICROS as int)
    }
}

/// Whether `v` contains `needle`.
fn contains_chars(v: &Vec<char>, needle: &str) -> (r: bool)
    ensures
        r == contains_seq(v@, needle@),
{
    let n = v.len();
    let k = needle.unicode_len();
    if k > n {
        proof {
            assert forall|i: int| 0 <= i <= n - k implies #[trigger] v@.subrange(i, i + k) != needle@ by {}
        }
        return false;
    }
    let mut i: usize = 0;
    loop
        invariant
            k == needle@.len(),
            n == v@.len(),
            k <= n,
            i <= n - k,
            forall|j: int| 0 <= j < i ==> #[trigger] v@.subrange(j, j + k) != needle@,
        decreases n - k - i,
    {
        if crate::text::range_is(v, i, i + k, needle) {
            return true;
        }
        if i == n - k {
            return false;
        }
        i = i + 1;
    }
}

impl CssStyle {
    /// The text as the style's `text-transform` shows it.
    pub fn transformed_text(&self, text: &str) -> (r: String)
        ensures
            r@ == transformed_spec(self@.text_transform, text@),
    {
        match self.text_transform {
            CssTextTransform::NoTransform => String::from_str(text),
            CssTextTransform::Uppercase => uppercase(text),
            CssTextTransform::Lowercase => lowercase(text),
            CssTextTransform::Capitalize => {
                let v = chars_of(text);
                let mut word_start = true;
                let mut out = String::new();
                let mut i: usize = 0;
                proof {
                    assert(v@.skip(0) =~= v@);
                    assert(Seq::<char>::empty() + capitalize_from(v@, true) =~= capitalize_from(v@, true));
                }
                while i < v.len()
                    invariant
                        v@ == text@,
                        i <= v@.len(),
                        out@ + capitalize_from(v@.skip(i as int), word_start) == capitalize_from(v@, true),
                    decreases v@.len() - i,
                {
                    let c = v[i];
                    proof {
                        assert(v@.skip(i as int).drop_first() =~= v@.skip(i + 1));
                        assert(v@.skip(i as int)[0] == c);
                    }
                    let ghost before = out@;
                    let ghost piece = if word_start && alphabetic(c) { char_upper(c) } else { seq![c] };
                    if word_start && is_alphabetic(c) {
                        let upper = uppercase_char(c);
                        out.append(upper.as_str());
                    } else {
                        crate::text::push_char(&mut out, c);
                        proof {
                            assert(before.push(c) =~= before + seq![c]);
                        }
                    }
                    word_start = !is_alphanumeric(c);
                    proof {
                        assert(out@ == before + piece);
                        assert(before + (piece + capitalize_from(v@.skip(i + 1), word_start)) =~= (before + piece)
                            + capitalize_from(v@.skip(i + 1), word_start));
                    }
                    i = i + 1;
                }
                proof {
                    assert(v@.skip(0) =~= v@);
                    assert(v@.skip(v@.len() as int) =~= Seq::<char>::empty());
                    assert(out@ + Seq::<char>::empty() =~= out@);
                }
                out
            },
        }
    }

    /// The advance width of a character, as a fraction of the font size.
    pub fn text_character_width_factor(&self) -> (r: CssNumber)
        ensures
            r == width_factor_spec(self@),
    {
        let v = chars_of(self.font_family.as_str());
        let lowered = lowered_range(&v, 0, v.len());
        let lv = chars_of(lowered.as_str());
        proof {
            assert(v@.subrange(0, v@.len() as int) =~= self.font_family@);
        }
        if contains_chars(&lv, "mono") {
            CssNumber { micros: MONOSPACE_CHARACTER_WIDTH_FACTOR_MICROS }
        } else {
            CssNumber { micros: TEXT_CHARACTER_WIDTH_FACTOR_MICROS }
        }
    }

    /// Whether the box clips what overflows it.
    pub fn clips_overflow(&self) -> (r: bool)
        ensures
            r == (self@.overflow == CssOverflow::Clip),
    {
        self.overflow == CssOverflow::Clip
    }

    /// Drops the declared width once the flow has assigned one, and with it
    /// the maximum width; without a declared width nothing changes.
    pub fn consume_assigned_flow_width(&mut self)
        ensures
            old(self)@.width is Some ==> final(self)@ == (StyleModel { width: None, max_width: None, ..old(self)@ }),
            old(self)@.width is None ==> final(self)@ == old(self)@,
    {
        if self.width.is_some() {
            self.width = None;
            self.max_width = None;
        }
    }
}

} // verus!
