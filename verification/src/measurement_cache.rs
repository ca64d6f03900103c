//! A cache of flow measurements, so that a node measured at one width in a
//! frame is measured once: the height of an element at a width.
use crate::document::HtmlDocumentNode;
use crate::number::CssNumber;
use vstd::prelude::*;

verus! {

/// What a measurement is cached under: the element and the width it was
/// measured at.
#[derive(Clone, Copy, Debug, PartialEq, Eq, Structural)]
pub struct FlowMeasurementKey {
    pub node_id: u64,
    pub width: CssNumber,
}

impl FlowMeasurementKey {
    /// The key of the element `node_id` measured at `width`.
    pub fn new(node_id: u64, width: CssNumber) -> (r: FlowMeasurementKey)
        ensures
            r == (FlowMeasurementKey { node_id, width }),
    {
        FlowMeasurementKey { node_id, width }
    }

    /// The key of a node measured at `width`; text is not cached.
    pub fn for_node(node: &HtmlDocumentNode, width: CssNumber) -> (r: Option<FlowMeasurementKey>)
        ensures
            r == match node@ {
                crate::document::NodeView::Element { node_id, .. } => Some(FlowMeasurementKey { node_id, width }),
                crate::document::NodeView::Text(_) => None,
            },
    {
        match node {
            HtmlDocumentNode::Element { node_id, .. } => Some(FlowMeasurementKey::new(*node_id, width)),
            HtmlDocumentNode::Text(_) => None,
        }
    }
}

/// The map held by a list of entries, a later entry winning.
pub open spec fn entries_map(s: Seq<(FlowMeasurementKey, CssNumber)>) -> Map<FlowMeasurementKey, CssNumber>
    decreases s.len(),
{
    if s.len() == 0 {
        Map::empty()
    } else {
        entries_map(s.drop_last()).insert(s.last().0, s.last().1)
    }
}

/// Whether no key occurs twice among the entries.
pub open spec fn unique_keys(s: Seq<(FlowMeasurementKey, CssNumber)>) -> bool {
    forall|i: int, j: int| 0 <= i < j < s.len() ==> (#[trigger] s[i]).0 != (#[trigger] s[j]).0
}

/// Measured heights by element and width, with the number of lookups that
/// found a height (`hits`) and that did not (`misses`).
pub struct FlowMeasurementCache {
    values: Vec<(FlowMeasurementKey, CssNumber)>,
    hits: usize,
    misses: usize,
}

proof fn lemma_entries_contains(s: Seq<(FlowMeasurementKey, CssNumber)>, k: FlowMeasurementKey)
    ensures
        entries_map(s).contains_key(k) <==> exists|i: int| 0 <= i < s.len() && (#[trigger] s[i]).0 == k,
    decreases s.len(),
{
    if s.len() > 0 {
        let d = s.drop_last();
        lemma_entries_contains(d, k);
        if entries_map(d).contains_key(k) {
            let i = choose|i: int| 0 <= i < d.len() && (#[trigger] d[i]).0 == k;
            assert(s[i] == d[i]);
        }
        if exists|i: int| 0 <= i < s.len() && (#[trigger] s[i]).0 == k {
            let i = choose|i: int| 0 <= i < s.len() && (#[trigger] s[i]).0 == k;
            if i < d.len() {
                assert(d[i] == s[i]);
            }
        }
    }
}

proof fn lemma_entries_value(s: Seq<(FlowMeasurementKey, CssNumber)>, i: int)
    requires
        unique_keys(s),
        0 <= i < s.len(),
    ensures
        entries_map(s).contains_key(s[i].0),
        entries_map(s)[s[i].0] == s[i].1,
    decreases s.len(),
{
    let d = s.drop_last();
    if i < s.len() - 1 {
        assert(d[i] == s[i]);
        assert(unique_keys(d)) by {
            assert forall|a: int, b: int| 0 <= a < b < d.len() implies (#[trigger] d[a]).0 != (#[trigger] d[b]).0 by {
                assert(d[a] == s[a] && d[b] == s[b]);
            }
        }
        lemma_entries_value(d, i);
        assert(s[i].0 != s.last().0);
    }
}

proof fn lemma_entries_update(s: Seq<(FlowMeasurementKey, CssNumber)>, i: int, v: CssNumber)
    requires
        unique_keys(s),
        0 <= i < s.len(),
    ensures
        entries_map(s.update(i, (s[i].0, v))) == entries_map(s).insert(s[i].0, v),
        unique_keys(s.update(i, (s[i].0, v))),
{
    let t = s.update(i, (s[i].0, v));
    assert(unique_keys(t)) by {
        assert forall|a: int, b: int| 0 <= a < b < t.len() implies (#[trigger] t[a]).0 != (#[trigger] t[b]).0 by {
            assert(t[a].0 == s[a].0 && t[b].0 == s[b].0);
        }
    }
    assert forall|k: FlowMeasurementKey| #[trigger] entries_map(t).contains_key(k) == entries_map(s).insert(s[i].0, v).contains_key(k) by {
        lemma_entries_contains(t, k);
        lemma_entries_contains(s, k);
        if exists|j: int| 0 <= j < t.len() && (#[trigger] t[j]).0 == k {
            let j = choose|j: int| 0 <= j < t.len() && (#[trigger] t[j]).0 == k;
            assert(s[j].0 == k);
        }
        if exists|j: int| 0 <= j < s.len() && (#[trigger] s[j]).0 == k {
            let j = choose|j: int| 0 <= j < s.len() && (#[trigger] s[j]).0 == k;
            assert(t[j].0 == k);
        }
    }
    assert forall|k: FlowMeasurementKey| #[trigger] entries_map(t).contains_key(k) implies entries_map(t)[k]
        == entries_map(s).insert(s[i].0, v)[k] by {
        lemma_entries_contains(t, k);
        let j = choose|j: int| 0 <= j < t.len() && (#[trigger] t[j]).0 == k;
        lemma_entries_value(t, j);
        if j != i {
            lemma_entries_value(s, j);
        }
    }
    assert(entries_map(t) =~= entries_map(s).insert(s[i].0, v));
}

impl FlowMeasurementCache {
    /// The cached heights.
    pub closed spec fn heights(&self) -> Map<FlowMeasurementKey, CssNumber> {
        entries_map(self.values@)
    }

    /// The number of lookups that found a height, and that did not.
    pub closed spec fn counts(&self) -> (int, int) {
        (self.hits as int, self.misses as int)
    }

    /// Every key is cached once.
    pub closed spec fn wf(&self) -> bool {
        unique_keys(self.values@)
    }

    /// An empty cache.
    pub fn new() -> (r: FlowMeasurementCache)
        ensures
            r.wf(),
            r.heights() == Map::<FlowMeasurementKey, CssNumber>::empty(),
            r.counts() == (0int, 0int),
    {
        FlowMeasurementCache { values: Vec::new(), hits: 0, misses: 0 }
    }

    /// The cached height under `key`, counted as a hit or a miss.
    pub fn get(&mut self, key: FlowMeasurementKey) -> (r: Option<CssNumber>)
        requires
            old(self).wf(),
            old(self).counts().0 < usize::MAX,
            old(self).counts().1 < usize::MAX,
        ensures
            final(self).wf(),
            final(self).heights() == old(self).heights(),
            r == (if old(self).heights().contains_key(key) {
                Some(old(self).heights()[key])
            } else {
                None
            }),
            final(self).counts() == (if r is Some {
                (old(self).counts().0 + 1, old(self).counts().1)
            } else {
                (old(self).counts().0, old(self).counts().1 + 1)
            }),
    {
        let mut i: usize = 0;
        while i < self.values.len()
            invariant
                i <= self.values@.len(),
                unique_keys(self.values@),
                self.values@ == old(self).values@,
                self.hits == old(self).hits,
                self.misses == old(self).misses,
                self.hits < usize::MAX,
                self.misses < usize::MAX,
                forall|j: int| 0 <= j < i ==> (#[trigger] self.values@[j]).0 != key,
            decreases self.values@.len() - i,
        {
            if self.values[i].0 == key {
                proof {
                    lemma_entries_value(self.values@, i as int);
                }
                self.hits = self.hits + 1;
                return Some(self.values[i].1);
            }
            i = i + 1;
        }
        proof {
            lemma_entries_contains(self.values@, key);
        }
        self.misses = self.misses + 1;
        None
    }

    /// Caches `height` under `key`, replacing what was cached there.
    pub fn insert(&mut self, key: FlowMeasurementKey, height: CssNumber)
        requires
            old(self).wf(),
        ensures
            final(self).wf(),
            final(self).heights() == old(self).heights().insert(key, height),
            final(self).counts() == old(self).counts(),
    {
        let mut i: usize = 0;
        while i < self.values.len()
            invariant
                i <= self.values@.len(),
                unique_keys(self.values@),
                self.values@ == old(self).values@,
                self.hits == old(self).hits,
                self.misses == old(self).misses,
                forall|j: int| 0 <= j < i ==> (#[trigger] self.values@[j]).0 != key,
            decreases self.values@.len() - i,
        {
            if self.values[i].0 == key {
                proof {
                    lemma_entries_update(self.values@, i as int, height);
                }
                self.values.set(i, (key, height));
                return;
            }
            i = i + 1;
        }
        let ghost before = self.values@;
        self.values.push((key, height));
        proof {
            assert(self.values@.drop_last() =~= before);
            assert forall|a: int, b: int| 0 <= a < b < self.values@.len() implies (#[trigger] self.values@[a]).0
                != (#[trigger] self.values@[b]).0 by {
                if b == before.len() {
                    assert(self.values@[a] == before[a]);
                } else {
                    assert(self.values@[a] == before[a] && self.values@[b] == before[b]);
                }
            }
        }
    }

    /// The number of lookups that found a height, and that did not.
    pub fn stats(&self) -> (r: (usize, usize))
        ensures
            (r.0 as int, r.1 as int) == self.counts(),
    {
        (self.hits, self.misses)
    }
}

} // verus!
