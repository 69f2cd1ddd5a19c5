//! Hit-test lists: the interactive elements painted in a frame with their
//! bounds and stacking order, sorted so that the topmost comes first.
//!
//! The library never looks inside the bounds; `B` is whatever geometry the
//! renderer uses.

use vstd::prelude::*;
use crate::interaction::ElementId;
use crate::seqs::{keep, lemma_keep_concat, lemma_keep_none, lemma_keep_push, lemma_keep_single};

verus! {

/// One element in the hit-test list.
#[derive(Debug, Clone, Copy)]
pub struct HitTestEntry<B> {
    /// The element
    pub element_id: ElementId,
    /// The element's bounds in screen coordinates
    pub bounds: B,
    /// Stacking order: higher is on top
    pub z_index: i32,
    /// The layer the element belongs to
    pub layer_index: usize,
    /// Whether the element can take keyboard focus
    pub focusable: bool,
}

impl<B> HitTestEntry<B> {
    /// A non-focusable entry.
    pub fn new(element_id: ElementId, bounds: B, z_index: i32, layer_index: usize) -> (e: Self)
        ensures
            e.element_id == element_id,
            e.bounds == bounds,
            e.z_index == z_index,
            e.layer_index == layer_index,
            !e.focusable,
    {
        HitTestEntry { element_id, bounds, z_index, layer_index, focusable: false }
    }

    /// Set whether the element can take focus.
    pub fn with_focusable(self, focusable: bool) -> (e: Self)
        ensures
            e == (HitTestEntry { focusable, ..self }),
    {
        HitTestEntry { focusable, ..self }
    }
}

/// The stacking key of an entry: z-index, then layer.
pub open spec fn stack_key<B>(e: HitTestEntry<B>) -> (i32, usize) {
    (e.z_index, e.layer_index)
}

/// Whether key `a` is strictly above key `b`.
pub open spec fn above(a: (i32, usize), b: (i32, usize)) -> bool {
    a.0 > b.0 || (a.0 == b.0 && a.1 > b.1)
}

/// Selects the entries with key `k`.
pub open spec fn keyed<B>(k: (i32, usize)) -> spec_fn(HitTestEntry<B>) -> bool {
    |e: HitTestEntry<B>| stack_key(e) == k
}

/// `ordered` is `entries` topmost first (by z-index, then layer, both
/// descending), entries of equal key keeping their order.
pub open spec fn topmost_first<B>(entries: Seq<HitTestEntry<B>>, ordered: Seq<HitTestEntry<B>>) -> bool {
    &&& ordered.len() == entries.len()
    &&& forall|i: int, j: int| 0 <= i < j < ordered.len() ==> !above(stack_key(#[trigger] ordered[j]), stack_key(#[trigger] ordered[i]))
    &&& forall|k: (i32, usize)| #[trigger] keep(ordered, keyed::<B>(k)) == keep(entries, keyed::<B>(k))
}

proof fn lemma_topmost_insert<B>(entries: Seq<HitTestEntry<B>>, ordered: Seq<HitTestEntry<B>>, x: HitTestEntry<B>, j: int)
    requires
        topmost_first(entries, ordered),
        0 <= j <= ordered.len(),
        forall|k: int| 0 <= k < j ==> !above(stack_key(x), stack_key(#[trigger] ordered[k])),
        forall|k: int| j <= k < ordered.len() ==> above(stack_key(x), stack_key(#[trigger] ordered[k])),
    ensures
        topmost_first(entries.push(x), ordered.insert(j, x)),
{
    let r2 = ordered.insert(j, x);
    let pre = ordered.take(j);
    let post = ordered.skip(j);
    assert(r2 =~= pre + seq![x] + post);
    assert(ordered =~= pre + post);
    assert forall|a: int, b: int| 0 <= a < b < r2.len() implies !above(stack_key(#[trigger] r2[b]), stack_key(#[trigger] r2[a])) by {
        if a < j && b < j {
            assert(r2[a] == ordered[a] && r2[b] == ordered[b]);
        } else if a < j && b == j {
            assert(r2[a] == ordered[a]);
        } else if a < j {
            assert(r2[a] == ordered[a] && r2[b] == ordered[b - 1]);
        } else if a == j {
            assert(r2[b] == ordered[b - 1]);
        } else {
            assert(r2[a] == ordered[a - 1] && r2[b] == ordered[b - 1]);
        }
    }
    assert forall|k: (i32, usize)| #[trigger] keep(r2, keyed::<B>(k)) == keep(entries.push(x), keyed::<B>(k)) by {
        let f = keyed::<B>(k);
        lemma_keep_concat(pre + seq![x], post, f);
        lemma_keep_concat(pre, seq![x], f);
        lemma_keep_concat(pre, post, f);
        lemma_keep_single(x, f);
        lemma_keep_push(entries, x, f);
        if k == stack_key(x) {
            assert forall|m: int| 0 <= m < post.len() implies !f(#[trigger] post[m]) by {
                assert(post[m] == ordered[j + m]);
            }
            lemma_keep_none(post, f);
            assert(keep(pre, f) + seq![x] =~= (keep(pre, f) + keep(post, f)).push(x));
        } else {
            assert(keep(pre, f) + Seq::<HitTestEntry<B>>::empty() =~= keep(pre, f));
        }
    }
}

/// Collects the hit-test entries of one layer while it is painted.
pub struct HitTestBuilder<B> {
    entries: Vec<HitTestEntry<B>>,
    current_z_base: i32,
    layer_index: usize,
}

impl<B: Copy> HitTestBuilder<B> {
    /// The entries collected.
    pub closed spec fn collected(&self) -> Seq<HitTestEntry<B>> {
        self.entries@
    }

    /// The z-index that relative z-indices are counted from.
    pub closed spec fn z_base(&self) -> i32 {
        self.current_z_base
    }

    /// The layer of the entries.
    pub closed spec fn layer(&self) -> usize {
        self.layer_index
    }

    /// An empty builder for layer `layer_index`, counting z from `z_base`.
    pub fn new(layer_index: usize, z_base: i32) -> (b: Self)
        ensures
            b.collected() == Seq::<HitTestEntry<B>>::empty(),
            b.z_base() == z_base,
            b.layer() == layer_index,
    {
        HitTestBuilder { entries: Vec::new(), current_z_base: z_base, layer_index }
    }

    /// An empty builder for layer 0 counting z from 0.
    pub fn default_for_testing() -> (b: Self)
        ensures
            b.collected() == Seq::<HitTestEntry<B>>::empty(),
            b.z_base() == 0,
            b.layer() == 0,
    {
        Self::new(0, 0)
    }

    /// Add a non-focusable entry at z-index `relative_z` above the base.
    pub fn add_entry(&mut self, element_id: ElementId, bounds: B, relative_z: i32)
        requires
            i32::MIN <= old(self).z_base() + relative_z <= i32::MAX,
        ensures
            final(self).collected() == old(self).collected().push(HitTestEntry {
                element_id,
                bounds,
                z_index: (old(self).z_base() + relative_z) as i32,
                layer_index: old(self).layer(),
                focusable: false,
            }),
            final(self).z_base() == old(self).z_base(),
            final(self).layer() == old(self).layer(),
    {
        let entry = HitTestEntry::new(element_id, bounds, self.current_z_base + relative_z, self.layer_index);
        self.entries.push(entry);
    }

    /// Add a focusable entry at z-index `relative_z` above the base.
    pub fn add_focusable_entry(&mut self, element_id: ElementId, bounds: B, relative_z: i32)
        requires
            i32::MIN <= old(self).z_base() + relative_z <= i32::MAX,
        ensures
            final(self).collected() == old(self).collected().push(HitTestEntry {
                element_id,
                bounds,
                z_index: (old(self).z_base() + relative_z) as i32,
                layer_index: old(self).layer(),
                focusable: true,
            }),
            final(self).z_base() == old(self).z_base(),
            final(self).layer() == old(self).layer(),
    {
        let entry = HitTestEntry::new(element_id, bounds, self.current_z_base + relative_z, self.layer_index).with_focusable(
            true,
        );
        self.entries.push(entry);
    }

    /// Enter a nested stacking context raised by `z_offset`.
    pub fn push_z_context(&mut self, z_offset: i32)
        requires
            i32::MIN <= old(self).z_base() + z_offset <= i32::MAX,
        ensures
            final(self).z_base() == old(self).z_base() + z_offset,
            final(self).collected() == old(self).collected(),
            final(self).layer() == old(self).layer(),
    {
        self.current_z_base = self.current_z_base + z_offset;
    }

    /// Leave a stacking context entered with `z_offset`.
    pub fn pop_z_context(&mut self, z_offset: i32)
        requires
            i32::MIN <= old(self).z_base() - z_offset <= i32::MAX,
        ensures
            final(self).z_base() == old(self).z_base() - z_offset,
            final(self).collected() == old(self).collected(),
            final(self).layer() == old(self).layer(),
    {
        self.current_z_base = self.current_z_base - z_offset;
    }

    /// Sort the entries topmost first (by z-index, then layer, both
    /// descending; equal keys keep their order) and return them.
    pub fn build(&mut self) -> (r: Vec<HitTestEntry<B>>)
        ensures
            topmost_first(old(self).collected(), r@),
            final(self).collected() == r@,
            final(self).z_base() == old(self).z_base(),
            final(self).layer() == old(self).layer(),
    {
        let mut sorted: Vec<HitTestEntry<B>> = Vec::new();
        let mut i: usize = 0;
        while i < self.entries.len()
            invariant
                i <= self.entries@.len(),
                self.entries@ == old(self).collected(),
                topmost_first(self.entries@.take(i as int), sorted@),
            decreases self.entries@.len() - i,
        {
            let x = self.entries[i];
            let mut j: usize = 0;
            while j < sorted.len() && !(x.z_index > sorted[j].z_index
                || (x.z_index == sorted[j].z_index && x.layer_index > sorted[j].layer_index))
                invariant
                    j <= sorted@.len(),
                    forall|k: int| 0 <= k < j ==> !above(stack_key(x), stack_key(#[trigger] sorted@[k])),
                decreases sorted@.len() - j,
            {
                j = j + 1;
            }
            proof {
                assert forall|k: int| j <= k < sorted@.len() implies above(stack_key(x), stack_key(#[trigger] sorted@[k])) by {
                    assert(above(stack_key(x), stack_key(sorted@[j as int])));
                    if k > j {
                        assert(!above(stack_key(sorted@[k]), stack_key(sorted@[j as int])));
                    }
                }
                lemma_topmost_insert(self.entries@.take(i as int), sorted@, x, j as int);
                assert(self.entries@.take(i + 1) =~= self.entries@.take(i as int).push(x));
            }
            sorted.insert(j, x);
            i = i + 1;
        }
        proof {
            assert(self.entries@.take(i as int) =~= self.entries@);
        }
        let mut out: Vec<HitTestEntry<B>> = Vec::new();
        let mut k: usize = 0;
        while k < sorted.len()
            invariant
                k <= sorted@.len(),
                out@ == sorted@.take(k as int),
            decreases sorted@.len() - k,
        {
            out.push(sorted[k]);
            k = k + 1;
            assert(out@ =~= sorted@.take(k as int));
        }
        assert(sorted@.take(k as int) =~= sorted@);
        self.entries = sorted;
        out
    }

    /// The entries collected so far.
    pub fn entries(&self) -> (r: &[HitTestEntry<B>])
        ensures
            r@ == self.collected(),
    {
        self.entries.as_slice()
    }

    /// Drop the entries.
    pub fn clear(&mut self)
        ensures
            final(self).collected() == Seq::<HitTestEntry<B>>::empty(),
            final(self).z_base() == old(self).z_base(),
            final(self).layer() == old(self).layer(),
    {
        self.entries.clear();
    }
}

/// Elements that take part in hit testing.
pub trait HitTestable {
    /// The element's id.
    fn element_id(&self) -> ElementId;

    /// Whether the element takes part in hit testing; unless an element
    /// says otherwise, it does.
    fn is_interactive(&self) -> (r: bool)
        default_ensures
            r,
    {
        true
    }

    /// The element's z-index relative to its parent; unless an element says
    /// otherwise, zero.
    fn z_index_offset(&self) -> (r: i32)
        default_ensures
            r == 0,
    {
        0
    }
}

} // verus!
