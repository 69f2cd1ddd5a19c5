//! Retained layout nodes: the layout node built for each layout id is kept
//! across frames, and nodes whose id was not used in a frame are evicted at
//! its end.
//!
//! `N` is the layout engine's node handle; the cache hands evicted handles
//! back so that the engine can release them.

use vstd::prelude::*;
use crate::layout_id::LayoutId;
use crate::seqs::{keep, lemma_keep_push};
use crate::text::same_text;

verus! {

/// A retained layout node with the hashes it was built from.
#[derive(Debug, Clone, Copy, PartialEq, Eq)]
pub struct CachedNode<N> {
    /// The layout engine's node
    pub node_id: N,
    /// Hash of the node's style
    pub style_hash: u64,
    /// Hash of the node's children
    pub children_hash: u64,
    /// Hash of the node's content
    pub data_hash: u64,
}

/// Selects entries whose id is in `live`.
pub open spec fn is_live<N>(live: Set<Seq<char>>) -> spec_fn((Seq<char>, CachedNode<N>)) -> bool {
    |e: (Seq<char>, CachedNode<N>)| live.contains(e.0)
}

/// Selects entries whose id is not in `live`.
pub open spec fn is_dead<N>(live: Set<Seq<char>>) -> spec_fn((Seq<char>, CachedNode<N>)) -> bool {
    |e: (Seq<char>, CachedNode<N>)| !live.contains(e.0)
}

/// The node handles of `entries`.
pub open spec fn handles<N>(entries: Seq<(Seq<char>, CachedNode<N>)>) -> Seq<N> {
    entries.map_values(|e: (Seq<char>, CachedNode<N>)| e.1.node_id)
}

/// The layout nodes kept across frames, and the ids used this frame.
pub struct LayoutCache<N> {
    nodes: Vec<(LayoutId, CachedNode<N>)>,
    live_this_frame: Vec<LayoutId>,
}

impl<N: Copy> LayoutCache<N> {
    /// The cached nodes by id, in insertion order.
    pub closed spec fn entries(&self) -> Seq<(Seq<char>, CachedNode<N>)> {
        self.nodes@.map_values(|e: (LayoutId, CachedNode<N>)| (e.0@, e.1))
    }

    /// The ids used this frame.
    pub closed spec fn live(&self) -> Set<Seq<char>> {
        self.live_this_frame@.map_values(|id: LayoutId| id@).to_set()
    }

    /// The invariant: each id is cached once and listed live once.
    pub closed spec fn wf(&self) -> bool {
        &&& forall|i: int, j: int| 0 <= i < j < self.nodes@.len() ==> (#[trigger] self.nodes@[i]).0@ != (#[trigger] self.nodes@[j]).0@
        &&& forall|i: int, j: int| 0 <= i < j < self.live_this_frame@.len() ==> (#[trigger] self.live_this_frame@[i])@ != (#[trigger] self.live_this_frame@[j])@
    }

    /// An empty cache.
    pub fn new() -> (c: Self)
        ensures
            c.wf(),
            c.entries() == Seq::<(Seq<char>, CachedNode<N>)>::empty(),
            c.live() == Set::<Seq<char>>::empty(),
    {
        let c = LayoutCache { nodes: Vec::new(), live_this_frame: Vec::new() };
        assert(c.entries() =~= Seq::<(Seq<char>, CachedNode<N>)>::empty());
        assert(c.live() =~= Set::<Seq<char>>::empty());
        c
    }

    /// Start a frame: no id is used yet; the cached nodes stay.
    pub fn begin_frame(&mut self)
        requires
            old(self).wf(),
        ensures
            final(self).wf(),
            final(self).entries() == old(self).entries(),
            final(self).live() == Set::<Seq<char>>::empty(),
    {
        self.live_this_frame.clear();
        assert(self.live() =~= Set::<Seq<char>>::empty());
    }

    fn find_live(&self, id: &LayoutId) -> (r: bool)
        ensures
            r == self.live().contains(id@),
    {
        let mut i: usize = 0;
        while i < self.live_this_frame.len()
            invariant
                i <= self.live_this_frame@.len(),
                forall|j: int| 0 <= j < i ==> (#[trigger] self.live_this_frame@[j])@ != id@,
            decreases self.live_this_frame@.len() - i,
        {
            if same_text(self.live_this_frame[i].as_str(), id.as_str()) {
                assert(self.live_this_frame@.map_values(|x: LayoutId| x@)[i as int] == id@);
                return true;
            }
            i = i + 1;
        }
        assert(!self.live().contains(id@)) by {
            let s = self.live_this_frame@.map_values(|x: LayoutId| x@);
            if s.to_set().contains(id@) {
                let j = choose|j: int| 0 <= j < s.len() && s[j] == id@;
                assert(self.live_this_frame@[j]@ == id@);
            }
        }
        false
    }

    /// Mark `id` as used this frame.
    pub fn mark_live(&mut self, id: &LayoutId)
        requires
            old(self).wf(),
        ensures
            final(self).wf(),
            final(self).entries() == old(self).entries(),
            final(self).live() == old(self).live().insert(id@),
    {
        if self.find_live(id) {
            assert(self.live() =~= old(self).live().insert(id@));
            return;
        }
        let ghost before = self.live_this_frame@;
        self.live_this_frame.push(LayoutId::new(id.as_str()));
        proof {
            assert(self.live_this_frame@.map_values(|x: LayoutId| x@) =~= before.map_values(|x: LayoutId| x@).push(id@));
            before.map_values(|x: LayoutId| x@).lemma_push_to_set_commute(id@);
            assert forall|i: int, j: int| 0 <= i < j < self.live_this_frame@.len() implies (#[trigger] self.live_this_frame@[i])@ != (#[trigger] self.live_this_frame@[j])@ by {
                if j == before.len() {
                    assert(before.map_values(|x: LayoutId| x@)[i] == before[i]@);
                    assert(!old(self).live().contains(id@));
                    if before[i]@ == id@ {
                        assert(before.map_values(|x: LayoutId| x@).contains(id@));
                    }
                }
            }
        }
    }

    fn position(&self, id: &LayoutId) -> (r: Option<usize>)
        ensures
            r matches Some(i) ==> i < self.nodes@.len() && self.nodes@[i as int].0@ == id@,
            r is None ==> forall|j: int| 0 <= j < self.nodes@.len() ==> (#[trigger] self.nodes@[j]).0@ != id@,
    {
        let mut i: usize = 0;
        while i < self.nodes.len()
            invariant
                i <= self.nodes@.len(),
                forall|j: int| 0 <= j < i ==> (#[trigger] self.nodes@[j]).0@ != id@,
            decreases self.nodes@.len() - i,
        {
            if same_text(self.nodes[i].0.as_str(), id.as_str()) {
                return Some(i);
            }
            i = i + 1;
        }
        None
    }

    /// The node cached for `id`, if any.
    pub fn get(&self, id: &LayoutId) -> (r: Option<&CachedNode<N>>)
        requires
            self.wf(),
        ensures
            r is None <==> forall|j: int| 0 <= j < self.entries().len() ==> (#[trigger] self.entries()[j]).0 != id@,
            r matches Some(n) ==> exists|j: int| 0 <= j < self.entries().len() && #[trigger] self.entries()[j] == (id@, *n),
    {
        match self.position(id) {
            Some(i) => {
                assert(self.entries()[i as int] == (id@, self.nodes@[i as int].1));
                Some(&self.nodes[i].1)
            },
            None => {
                assert forall|j: int| 0 <= j < self.entries().len() implies (#[trigger] self.entries()[j]).0 != id@ by {
                    assert(self.entries()[j].0 == self.nodes@[j].0@);
                }
                None
            },
        }
    }

    /// Cache `node` for `id`, replacing the node cached for it before.
    pub fn insert(&mut self, id: &LayoutId, node: CachedNode<N>)
        requires
            old(self).wf(),
        ensures
            final(self).wf(),
            final(self).live() == old(self).live(),
            (exists|j: int| 0 <= j < old(self).entries().len() && (#[trigger] old(self).entries()[j]).0 == id@) ==> exists|j: int| {
                &&& 0 <= j < old(self).entries().len()
                &&& (#[trigger] old(self).entries()[j]).0 == id@
                &&& final(self).entries() == old(self).entries().update(j, (id@, node))
            },
            (forall|j: int| 0 <= j < old(self).entries().len() ==> (#[trigger] old(self).entries()[j]).0 != id@) ==>
                final(self).entries() == old(self).entries().push((id@, node)),
    {
        let ghost before = self.nodes@;
        match self.position(id) {
            Some(i) => {
                self.nodes.set(i, (LayoutId::new(id.as_str()), node));
                proof {
                    assert(self.entries() =~= old(self).entries().update(i as int, (id@, node)));
                    assert(old(self).entries()[i as int].0 == id@);
                    assert forall|a: int, b: int| 0 <= a < b < self.nodes@.len() implies (#[trigger] self.nodes@[a]).0@ != (#[trigger] self.nodes@[b]).0@ by {
                        assert(self.nodes@[a].0@ == before[a].0@);
                        assert(self.nodes@[b].0@ == before[b].0@);
                    }
                }
            },
            None => {
                self.nodes.push((LayoutId::new(id.as_str()), node));
                proof {
                    assert(self.entries() =~= old(self).entries().push((id@, node)));
                    assert forall|j: int| 0 <= j < old(self).entries().len() implies (#[trigger] old(self).entries()[j]).0 != id@ by {
                        assert(old(self).entries()[j].0 == before[j].0@);
                    }
                }
            },
        }
    }

    /// End a frame: evict every node whose id was not used, keeping the
    /// others in order; returns the evicted nodes' handles, in order.
    pub fn end_frame(&mut self) -> (dead: Vec<N>)
        requires
            old(self).wf(),
        ensures
            final(self).wf(),
            final(self).live() == old(self).live(),
            final(self).entries() == keep(old(self).entries(), is_live::<N>(old(self).live())),
            dead@ == handles(keep(old(self).entries(), is_dead::<N>(old(self).live()))),
    {
        let ghost all = self.entries();
        let ghost live = self.live();
        let mut old_nodes: Vec<(LayoutId, CachedNode<N>)> = Vec::new();
        std::mem::swap(&mut old_nodes, &mut self.nodes);
        let mut kept: Vec<(LayoutId, CachedNode<N>)> = Vec::new();
        let mut dead: Vec<N> = Vec::new();
        let ghost src = old_nodes@;
        let total = old_nodes.len();
        let mut rest = old_nodes;
        let mut reversed: Vec<(LayoutId, CachedNode<N>)> = Vec::new();
        while rest.len() > 0
            invariant
                rest@.len() + reversed@.len() == src.len(),
                rest@ == src.subrange(0, rest@.len() as int),
                forall|j: int| 0 <= j < reversed@.len() ==> #[trigger] reversed@[j] == src[src.len() - 1 - j],
            decreases rest@.len(),
        {
            let e = rest.pop().unwrap();
            reversed.push(e);
        }
        let mut k: usize = 0;
        while reversed.len() > 0
            invariant
                reversed@.len() + k == src.len(),
                src.len() == total,
                forall|j: int| 0 <= j < reversed@.len() ==> #[trigger] reversed@[j] == src[src.len() - 1 - j],
                live == self.live(),
                all == src.map_values(|e: (LayoutId, CachedNode<N>)| (e.0@, e.1)),
                kept@.map_values(|e: (LayoutId, CachedNode<N>)| (e.0@, e.1)) == keep(all.take(k as int), is_live::<N>(live)),
                dead@ == handles(keep(all.take(k as int), is_dead::<N>(live))),
            decreases reversed@.len(),
        {
            let e = reversed.pop().unwrap();
            assert(e == src[k as int]);
            let ghost ev = (e.0@, e.1);
            proof {
                assert(all.take(k + 1) =~= all.take(k as int).push(ev));
                lemma_keep_push(all.take(k as int), ev, is_live::<N>(live));
                lemma_keep_push(all.take(k as int), ev, is_dead::<N>(live));
            }
            if self.find_live(&e.0) {
                let ghost kb = kept@;
                kept.push(e);
                proof {
                    assert(kept@.map_values(|x: (LayoutId, CachedNode<N>)| (x.0@, x.1)) =~= kb.map_values(|x: (LayoutId, CachedNode<N>)| (x.0@, x.1)).push(ev));
                }
            } else {
                let ghost db = dead@;
                dead.push(e.1.node_id);
                proof {
                    assert(dead@ =~= db.push(ev.1.node_id));
                    assert(handles(keep(all.take(k as int), is_dead::<N>(live)).push(ev)) =~= handles(keep(all.take(k as int), is_dead::<N>(live))).push(ev.1.node_id));
                }
            }
            k = k + 1;
        }
        proof {
            assert(all.take(k as int) =~= all);
            assert(unique_keys(all)) by {
                assert forall|a: int, b: int| 0 <= a < b < all.len() implies (#[trigger] all[a]).0 != (#[trigger] all[b]).0 by {
                    assert(all[a].0 == src[a].0@ && all[b].0 == src[b].0@);
                }
            }
            lemma_keep_unique_keys(all, is_live::<N>(live));
            let kv = kept@.map_values(|x: (LayoutId, CachedNode<N>)| (x.0@, x.1));
            assert forall|a: int, b: int| 0 <= a < b < kept@.len() implies (#[trigger] kept@[a]).0@ != (#[trigger] kept@[b]).0@ by {
                assert(kv[a].0 == kept@[a].0@ && kv[b].0 == kept@[b].0@);
            }
        }
        self.nodes = kept;
        dead
    }

    /// The number of cached nodes and of ids used this frame.
    pub fn stats(&self) -> (r: (usize, usize))
        requires
            self.wf(),
        ensures
            r.0 == self.entries().len(),
            r.1 == self.live().len(),
    {
        proof {
            self.lemma_live_len();
        }
        (self.nodes.len(), self.live_this_frame.len())
    }

    proof fn lemma_live_len(&self)
        requires
            self.wf(),
        ensures
            self.live().len() == self.live_this_frame@.len(),
    {
        let s = self.live_this_frame@.map_values(|x: LayoutId| x@);
        assert(s.no_duplicates()) by {
            assert forall|a: int, b: int| 0 <= a < s.len() && 0 <= b < s.len() && a != b implies s[a] != s[b] by {
                if a < b {
                    assert(self.live_this_frame@[a]@ != self.live_this_frame@[b]@);
                } else {
                    assert(self.live_this_frame@[b]@ != self.live_this_frame@[a]@);
                }
            }
        }
        s.unique_seq_to_set();
    }
}

/// Whether the ids of `s` are distinct.
pub open spec fn unique_keys<N>(s: Seq<(Seq<char>, CachedNode<N>)>) -> bool {
    forall|a: int, b: int| 0 <= a < b < s.len() ==> (#[trigger] s[a]).0 != (#[trigger] s[b]).0
}

proof fn lemma_keep_unique_keys<N>(s: Seq<(Seq<char>, CachedNode<N>)>, f: spec_fn((Seq<char>, CachedNode<N>)) -> bool)
    requires
        unique_keys(s),
    ensures
        unique_keys(keep(s, f)),
    decreases s.len(),
{
    if s.len() > 0 {
        let init = s.drop_last();
        let x = s.last();
        assert(s =~= init.push(x));
        assert(unique_keys(init)) by {
            assert forall|a: int, b: int| 0 <= a < b < init.len() implies (#[trigger] init[a]).0 != (#[trigger] init[b]).0 by {
                assert(init[a] == s[a] && init[b] == s[b]);
            }
        }
        lemma_keep_unique_keys(init, f);
        lemma_keep_push(init, x, f);
        let ki = keep(init, f);
        if f(x) {
            let k = keep(s, f);
            assert forall|a: int, b: int| 0 <= a < b < k.len() implies (#[trigger] k[a]).0 != (#[trigger] k[b]).0 by {
                if b == ki.len() {
                    assert(k[b] == x);
                    assert(k[a] == ki[a]);
                    crate::seqs::lemma_keep_contains(init, f, ki[a]);
                    assert(ki.contains(ki[a]));
                    let m = choose|m: int| 0 <= m < init.len() && init[m] == ki[a];
                    assert(s[m] == init[m]);
                    assert(s[s.len() - 1] == x);
                } else {
                    assert(k[a] == ki[a] && k[b] == ki[b]);
                }
            }
        }
    }
}

/// Ending a frame keeps exactly the nodes whose ids were used in it: an id
/// is still cached afterwards exactly when it was cached and marked live.
pub proof fn law_end_frame_keeps_live<N>(
    entries: Seq<(Seq<char>, CachedNode<N>)>,
    live: Set<Seq<char>>,
    id: Seq<char>,
)
    ensures
        (exists|j: int| 0 <= j < keep(entries, is_live::<N>(live)).len() && (#[trigger] keep(entries, is_live::<N>(live))[j]).0 == id)
            <==> (live.contains(id) && exists|j: int| 0 <= j < entries.len() && (#[trigger] entries[j]).0 == id),
    decreases entries.len(),
{
    let f = is_live::<N>(live);
    if entries.len() > 0 {
        let init = entries.drop_last();
        let x = entries.last();
        law_end_frame_keeps_live(init, live, id);
        assert(entries =~= init.push(x));
        lemma_keep_push(init, x, f);
        let ki = keep(init, f);
        let k = keep(entries, f);
        if exists|j: int| 0 <= j < k.len() && (#[trigger] k[j]).0 == id {
            let j = choose|j: int| 0 <= j < k.len() && (#[trigger] k[j]).0 == id;
            if f(x) && j == ki.len() {
                assert(k[j] == x);
                assert(entries[entries.len() - 1] == x);
            } else {
                assert(k[j] == ki[j]);
                let m = choose|m: int| 0 <= m < init.len() && (#[trigger] init[m]).0 == id;
                assert(entries[m] == init[m]);
            }
        }
        if live.contains(id) && exists|j: int| 0 <= j < entries.len() && (#[trigger] entries[j]).0 == id {
            let j = choose|j: int| 0 <= j < entries.len() && (#[trigger] entries[j]).0 == id;
            if j == entries.len() - 1 {
                assert(x.0 == id);
                assert(k[ki.len() as int] == x);
            } else {
                assert(init[j] == entries[j]);
                let m = choose|m: int| 0 <= m < ki.len() && (#[trigger] ki[m]).0 == id;
                assert(k[m] == ki[m]);
            }
        }
    }
}

} // verus!
