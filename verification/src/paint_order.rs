//! The order in which painted SVG reaches the page: ranges of a box with a
//! `z-index` are set aside while the document paints, then placed behind
//! the document (negative layers) or in front of it (the others), each
//! group by `z-index` and then in the order they were set aside.
use crate::number::CssNumber;
use crate::paint::{format_number, number_text};
use vstd::prelude::*;
use vstd::string::*;

verus! {

/// Painted SVG set aside for a stacking layer.
pub struct DeferredPaint {
    pub z_index: i32,
    /// The position of the range among those set aside.
    pub order: u64,
    pub svg: String,
}

/// The value of a deferred range: its `z-index`, its position and its text.
pub struct PaintView {
    pub z_index: int,
    pub order: int,
    pub svg: Seq<char>,
}

impl View for DeferredPaint {
    type V = PaintView;

    open spec fn view(&self) -> PaintView {
        PaintView { z_index: self.z_index as int, order: self.order as int, svg: self.svg@ }
    }
}

/// The values of a list of deferred ranges.
pub open spec fn paints_view(v: Seq<DeferredPaint>) -> Seq<PaintView> {
    v.map_values(|p: DeferredPaint| p@)
}

/// Whether `a` paints strictly before `b`: a lower `z-index`, or the same
/// one and set aside earlier.
pub open spec fn paints_before(a: PaintView, b: PaintView) -> bool {
    a.z_index < b.z_index || (a.z_index == b.z_index && a.order < b.order)
}

/// `s` with `p` placed before the first range that it paints before.
pub open spec fn insert_paint(p: PaintView, s: Seq<PaintView>) -> Seq<PaintView>
    decreases s.len(),
{
    if s.len() == 0 {
        seq![p]
    } else if paints_before(p, s[0]) {
        seq![p] + s
    } else {
        seq![s[0]] + insert_paint(p, s.drop_first())
    }
}

/// The ranges in paint order: by `z-index`, then by order set aside (a
/// stable sort on the pair).
pub open spec fn sort_paints(s: Seq<PaintView>) -> Seq<PaintView>
    decreases s.len(),
{
    if s.len() == 0 {
        Seq::empty()
    } else {
        insert_paint(s.last(), sort_paints(s.drop_last()))
    }
}

/// The text of the ranges whose `z-index` is negative (`negative`) or not,
/// in their order.
pub open spec fn layer_text(s: Seq<PaintView>, negative: bool) -> Seq<char>
    decreases s.len(),
{
    if s.len() == 0 {
        Seq::empty()
    } else {
        let before = layer_text(s.drop_last(), negative);
        if (s.last().z_index < 0) == negative {
            before + s.last().svg
        } else {
            before
        }
    }
}

/// The SVG being painted, with the ranges set aside for stacking layers.
pub struct PaintBuffer {
    pub svg: String,
    pub deferred: Vec<DeferredPaint>,
    pub next_paint_order: u64,
    /// Where the document's own painting starts, after the SVG header.
    pub document_paint_start: usize,
}

/// `p` inserted at the first position `k` whose range it paints before.
proof fn lemma_insert_at(p: PaintView, s: Seq<PaintView>, k: int)
    requires
        0 <= k <= s.len(),
        forall|j: int| 0 <= j < k ==> !paints_before(p, #[trigger] s[j]),
        k < s.len() ==> paints_before(p, s[k]),
    ensures
        insert_paint(p, s) == s.take(k).push(p) + s.skip(k),
    decreases s.len(),
{
    if s.len() == 0 {
        assert(s.take(k).push(p) + s.skip(k) =~= seq![p]);
    } else if k == 0 {
        assert(s.take(0).push(p) + s.skip(0) =~= seq![p] + s);
    } else {
        let t = s.drop_first();
        assert forall|j: int| 0 <= j < k - 1 implies !paints_before(p, #[trigger] t[j]) by {
            assert(t[j] == s[j + 1]);
        }
        if k - 1 < t.len() {
            assert(t[k - 1] == s[k]);
        }
        lemma_insert_at(p, t, k - 1);
        assert(seq![s[0]] + (t.take(k - 1).push(p) + t.skip(k - 1)) =~= s.take(k).push(p) + s.skip(k));
    }
}

impl PaintBuffer {
    /// A buffer holding `header`, where the document starts to paint.
    pub fn new(header: &str) -> (r: PaintBuffer)
        ensures
            r.svg@ == header@,
            r.deferred@.len() == 0,
            r.next_paint_order == 0,
            r.document_paint_start == header@.len(),
    {
        PaintBuffer {
            svg: String::from_str(header),
            deferred: Vec::new(),
            next_paint_order: 0,
            document_paint_start: header.unicode_len(),
        }
    }

    /// The number of characters painted so far.
    pub fn len(&self) -> (r: usize)
        ensures
            r == self.svg@.len(),
    {
        self.svg.as_str().unicode_len()
    }

    /// Paints `text` at the end.
    pub fn push_str(&mut self, text: &str)
        ensures
            final(self).svg@ == old(self).svg@ + text@,
            final(self).deferred == old(self).deferred,
            final(self).next_paint_order == old(self).next_paint_order,
            final(self).document_paint_start == old(self).document_paint_start,
    {
        self.svg.append(text);
    }

    /// Sets aside what was painted from `start` on as a layer with the
    /// given `z-index`.
    pub fn defer_painted_range(&mut self, start: usize, z_index: i32)
        requires
            start <= old(self).svg@.len(),
            old(self).next_paint_order < u64::MAX,
        ensures
            final(self).svg@ == old(self).svg@.take(start as int),
            paints_view(final(self).deferred@) == paints_view(old(self).deferred@).push(
                PaintView {
                    z_index: z_index as int,
                    order: old(self).next_paint_order as int,
                    svg: old(self).svg@.skip(start as int),
                },
            ),
            final(self).next_paint_order == old(self).next_paint_order + 1,
            final(self).document_paint_start == old(self).document_paint_start,
    {
        let n = self.svg.as_str().unicode_len();
        let kept = String::from_str(self.svg.as_str().substring_char(0, start));
        let moved = String::from_str(self.svg.as_str().substring_char(start, n));
        let order = self.next_paint_order;
        self.next_paint_order = order + 1;
        let ghost before = paints_view(self.deferred@);
        self.deferred.push(DeferredPaint { z_index, order, svg: moved });
        proof {
            assert(old(self).svg@.subrange(0, start as int) =~= old(self).svg@.take(start as int));
            assert(old(self).svg@.subrange(start as int, n as int) =~= old(self).svg@.skip(start as int));
            assert(paints_view(self.deferred@) =~= before.push(
                PaintView { z_index: z_index as int, order: order as int, svg: old(self).svg@.skip(start as int) },
            ));
        }
        self.svg = kept;
    }

    /// Wraps what was painted from `start` on in a group with the given
    /// opacity; with nothing painted there, nothing changes.
    pub fn wrap_painted_range(&mut self, start: usize, opacity: CssNumber)
        requires
            start <= old(self).svg@.len(),
        ensures
            start == old(self).svg@.len() ==> final(self).svg@ == old(self).svg@,
            start < old(self).svg@.len() ==> final(self).svg@ == old(self).svg@.take(start as int)
                + "<g opacity=\""@ + number_text(opacity.val()) + "\">"@ + old(self).svg@.skip(start as int)
                + "</g>"@,
            final(self).deferred == old(self).deferred,
            final(self).next_paint_order == old(self).next_paint_order,
            final(self).document_paint_start == old(self).document_paint_start,
    {
        let n = self.svg.as_str().unicode_len();
        if n == start {
            return;
        }
        let mut out = String::from_str(self.svg.as_str().substring_char(0, start));
        out.append("<g opacity=\"");
        let number = format_number(opacity);
        out.append(number.as_str());
        out.append("\">");
        out.append(self.svg.as_str().substring_char(start, n));
        out.append("</g>");
        proof {
            assert(old(self).svg@.subrange(0, start as int) =~= old(self).svg@.take(start as int));
            assert(old(self).svg@.subrange(start as int, n as int) =~= old(self).svg@.skip(start as int));
        }
        self.svg = out;
    }

    /// Places the layers set aside: those with a negative `z-index` where
    /// the document starts to paint, the others after everything, each group
    /// in paint order; nothing stays set aside.
    pub fn finish_deferred_paint(&mut self)
        requires
            old(self).document_paint_start <= old(self).svg@.len(),
        ensures
            ({
                let sorted = sort_paints(paints_view(old(self).deferred@));
                let svg = old(self).svg@;
                let at = old(self).document_paint_start as int;
                final(self).svg@ == svg.take(at) + layer_text(sorted, true) + svg.skip(at) + layer_text(sorted, false)
            }),
            final(self).deferred@.len() == 0,
            final(self).next_paint_order == old(self).next_paint_order,
            final(self).document_paint_start == old(self).document_paint_start,
    {
        let mut sorted: Vec<DeferredPaint> = Vec::new();
        let ghost source = paints_view(self.deferred@);
        let mut pending: Vec<DeferredPaint> = Vec::new();
        std::mem::swap(&mut pending, &mut self.deferred);
        let mut i: usize = 0;
        proof {
            assert(paints_view(pending@) == source);
        }
        while i < pending.len()
            invariant
                paints_view(pending@) == source,
                i <= pending@.len(),
                paints_view(sorted@) == sort_paints(source.take(i as int)),
            decreases pending@.len() - i,
        {
            let p = DeferredPaint {
                z_index: pending[i].z_index,
                order: pending[i].order,
                svg: String::from_str(pending[i].svg.as_str()),
            };
            let ghost pv = p@;
            let ghost s = paints_view(sorted@);
            proof {
                assert(pv == source[i as int]);
                assert(source.take(i + 1).drop_last() =~= source.take(i as int));
                assert(source.take(i + 1).last() == pv);
            }
            let mut k: usize = 0;
            while k < sorted.len()
                invariant
                    k <= sorted@.len(),
                    s == paints_view(sorted@),
                    pv == p@,
                    forall|j: int| 0 <= j < k ==> !paints_before(pv, #[trigger] s[j]),
                ensures
                    k <= sorted@.len(),
                    forall|j: int| 0 <= j < k ==> !paints_before(pv, #[trigger] s[j]),
                    k < sorted@.len() ==> paints_before(pv, s[k as int]),
                decreases sorted@.len() - k,
            {
                let q = &sorted[k];
                proof {
                    assert(s[k as int] == q@);
                }
                if p.z_index < q.z_index || (p.z_index == q.z_index && p.order < q.order) {
                    break;
                }
                k = k + 1;
            }
            proof {
                lemma_insert_at(pv, s, k as int);
            }
            sorted.insert(k, p);
            proof {
                assert(paints_view(sorted@) =~= s.take(k as int).push(pv) + s.skip(k as int));
            }
            i = i + 1;
        }
        proof {
            assert(source.take(pending@.len() as int) =~= source);
        }
        let ghost order = paints_view(sorted@);
        let mut negative = String::new();
        let mut foreground = String::new();
        let mut j: usize = 0;
        while j < sorted.len()
            invariant
                j <= sorted@.len(),
                order == paints_view(sorted@),
                negative@ == layer_text(order.take(j as int), true),
                foreground@ == layer_text(order.take(j as int), false),
            decreases sorted@.len() - j,
        {
            let paint = &sorted[j];
            proof {
                assert(order.take(j + 1).drop_last() =~= order.take(j as int));
                assert(order.take(j + 1).last() == paint@);
            }
            if paint.z_index < 0 {
                negative.append(paint.svg.as_str());
            } else {
                foreground.append(paint.svg.as_str());
            }
            j = j + 1;
        }
        proof {
            assert(order.take(sorted@.len() as int) =~= order);
        }
        let n = self.svg.as_str().unicode_len();
        let at = self.document_paint_start;
        let mut out = String::from_str(self.svg.as_str().substring_char(0, at));
        out.append(negative.as_str());
        out.append(self.svg.as_str().substring_char(at, n));
        out.append(foreground.as_str());
        proof {
            assert(old(self).svg@.subrange(0, at as int) =~= old(self).svg@.take(at as int));
            assert(old(self).svg@.subrange(at as int, n as int) =~= old(self).svg@.skip(at as int));
        }
        self.svg = out;
    }
}

} // verus!
