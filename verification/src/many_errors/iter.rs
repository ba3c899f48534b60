//! Walking the children of a [`ManyErrors`] and building one from a vector of
//! items: pairs, [`WithContext`] leaves, or [`ControlFlow`]s that stop at the
//! first `Break`.

use vstd::prelude::*;

use core::ops::ControlFlow;

use vstd::std_specs::iter::IteratorSpec;

use crate::with_context::{Colon, WithContext};
use crate::AsDisplay;

use super::{ManyErrors, Node};

verus! {

/// Iterator over references to the direct children of a [`ManyErrors`].
pub type Iter<'a, C, E, GC = C, F = Colon, GF = AsDisplay> = std::vec::IntoIter<&'a Node<C, E, GC, F, GF>>;

/// Owning iterator over the direct children of a [`ManyErrors`].
pub type IntoIter<C, E, GC = C, F = Colon, GF = AsDisplay> = std::vec::IntoIter<Node<C, E, GC, F, GF>>;

/// The leaves of the pairs in `items`, in order.
pub open spec fn pair_leaves<C, E, GC, F, GF>(items: Seq<(C, E)>) -> Seq<Node<C, E, GC, F, GF>> {
    items.map_values(|p: (C, E)| Node::spec_leaf(p.0, p.1))
}

/// The leaves holding the pairs in `items`, in order.
pub open spec fn leaves<C, E, GC, F, GF>(items: Seq<WithContext<C, E, F>>) -> Seq<Node<C, E, GC, F, GF>> {
    items.map_values(|w: WithContext<C, E, F>| Node::Leaf(w))
}

/// The value carried by a `ControlFlow`, whichever variant holds it.
pub open spec fn flow_value<T>(flow: ControlFlow<T, T>) -> T {
    match flow {
        ControlFlow::Continue(x) => x,
        ControlFlow::Break(x) => x,
    }
}

/// The values of `flows` up to and including the first `Break`; all of them
/// when there is none.
pub open spec fn flow_prefix<T>(flows: Seq<ControlFlow<T, T>>) -> Seq<T>
    decreases flows.len(),
{
    if flows.len() == 0 {
        Seq::empty()
    } else {
        match flows[0] {
            ControlFlow::Continue(x) => seq![x] + flow_prefix(flows.drop_first()),
            ControlFlow::Break(x) => seq![x],
        }
    }
}

/// Past a run of `Continue`s, the prefix is their values followed by the
/// prefix of what remains.
proof fn lemma_flow_prefix_split<T>(flows: Seq<ControlFlow<T, T>>, i: int)
    requires
        0 <= i <= flows.len(),
        forall|j: int| 0 <= j < i ==> flows[j] is Continue,
    ensures
        flow_prefix(flows) == flows.take(i).map_values(|f: ControlFlow<T, T>| flow_value(f)) + flow_prefix(
            flows.skip(i),
        ),
    decreases i,
{
    if i > 0 {
        let rest = flows.drop_first();
        assert forall|j: int| 0 <= j < i - 1 implies rest[j] is Continue by {
            assert(rest[j] == flows[j + 1]);
        }
        lemma_flow_prefix_split(rest, i - 1);
        assert(rest.skip(i - 1) =~= flows.skip(i));
        assert(flows.take(i).map_values(|f: ControlFlow<T, T>| flow_value(f)) =~= seq![flow_value(flows[0])]
            + rest.take(i - 1).map_values(|f: ControlFlow<T, T>| flow_value(f)));
    } else {
        assert(flows.skip(0) =~= flows);
        assert(flows.take(0).map_values(|f: ControlFlow<T, T>| flow_value(f)) =~= Seq::<T>::empty());
    }
}

impl<C, E, GC, F, GF> ManyErrors<C, E, GC, F, GF> {
    /// References to the direct children, in insertion order.
    pub fn node_refs(&self) -> (v: Vec<&Node<C, E, GC, F, GF>>)
        ensures
            v@.len() == self.spec_nodes().len(),
            forall|i: int| 0 <= i < v@.len() ==> *v@[i] == self.spec_nodes()[i],
    {
        let mut r: Vec<&Node<C, E, GC, F, GF>> = Vec::new();
        match self {
            ManyErrors::Empty => {},
            ManyErrors::One(n) => {
                r.push(n);
            },
            ManyErrors::Many(v) => {
                for i in 0..v.len()
                    invariant
                        r@.len() == i,
                        forall|j: int| 0 <= j < i ==> *r@[j] == v@[j],
                {
                    r.push(&v[i]);
                }
            },
        }
        r
    }

    /// An iterator over references to each direct child, in insertion order.
    pub fn iter(&self) -> (it: Iter<'_, C, E, GC, F, GF>)
        ensures
            it.remaining().len() == self.spec_nodes().len(),
            forall|i: int| 0 <= i < it.remaining().len() ==> *it.remaining()[i] == self.spec_nodes()[i],
    {
        self.node_refs().into_iter()
    }

    /// An iterator that moves each direct child out, in insertion order.
    pub fn into_iter(self) -> (it: IntoIter<C, E, GC, F, GF>)
        ensures
            it.remaining() == self.spec_nodes(),
    {
        self.into_nodes().into_iter()
    }

    /// Appends a leaf for each pair of `items`, in order.
    pub fn extend_pairs(&mut self, items: Vec<(C, E)>)
        ensures
            final(self).spec_nodes() == old(self).spec_nodes() + pair_leaves(items@),
            old(self).wf() ==> final(self).wf(),
    {
        let ghost start = self.spec_nodes();
        let ghost all = items@;
        for p in it: items
            invariant
                all == it.seq(),
                self.spec_nodes() == start + pair_leaves::<C, E, GC, F, GF>(all.take(it.index() as int)),
                old(self).wf() ==> self.wf(),
        {
            self.push(p.0, p.1);
            assert(pair_leaves::<C, E, GC, F, GF>(all.take(it.index() + 1)) =~= pair_leaves::<C, E, GC, F, GF>(
                all.take(it.index() as int),
            ).push(Node::spec_leaf(p.0, p.1)));
        }
        assert(all.take(all.len() as int) =~= all);
    }

    /// An aggregate of one leaf per pair of `items`, in order.
    pub fn from_pairs(items: Vec<(C, E)>) -> (r: Self)
        ensures
            r.spec_nodes() == pair_leaves::<C, E, GC, F, GF>(items@),
            r.wf(),
    {
        let mut r = ManyErrors::Empty;
        r.extend_pairs(items);
        assert(r.spec_nodes() =~= pair_leaves::<C, E, GC, F, GF>(items@));
        r
    }

    /// Appends a leaf holding each pair of `items`, in order.
    pub fn extend_leaves(&mut self, items: Vec<WithContext<C, E, F>>)
        ensures
            final(self).spec_nodes() == old(self).spec_nodes() + leaves(items@),
            old(self).wf() ==> final(self).wf(),
    {
        let ghost start = self.spec_nodes();
        let ghost all = items@;
        for w in it: items
            invariant
                all == it.seq(),
                self.spec_nodes() == start + leaves::<C, E, GC, F, GF>(all.take(it.index() as int)),
                old(self).wf() ==> self.wf(),
        {
            self.push_node(Node::Leaf(w));
            assert(leaves::<C, E, GC, F, GF>(all.take(it.index() + 1)) =~= leaves::<C, E, GC, F, GF>(
                all.take(it.index() as int),
            ).push(Node::Leaf(w)));
        }
        assert(all.take(all.len() as int) =~= all);
    }

    /// An aggregate of one leaf per pair of `items`, in order.
    pub fn from_leaves(items: Vec<WithContext<C, E, F>>) -> (r: Self)
        ensures
            r.spec_nodes() == leaves::<C, E, GC, F, GF>(items@),
            r.wf(),
    {
        let mut r = ManyErrors::Empty;
        r.extend_leaves(items);
        assert(r.spec_nodes() =~= leaves::<C, E, GC, F, GF>(items@));
        r
    }

    /// Appends a leaf for each pair of `flows` up to and including the first
    /// `Break`: `Continue(w)` records `w` and goes on, `Break(w)` records `w`
    /// and stops.
    pub fn extend_flows(&mut self, flows: Vec<ControlFlow<WithContext<C, E, F>, WithContext<C, E, F>>>)
        ensures
            final(self).spec_nodes() == old(self).spec_nodes() + leaves(flow_prefix(flows@)),
            old(self).wf() ==> final(self).wf(),
    {
        let ghost start = self.spec_nodes();
        let ghost all = flows@;
        proof {
            lemma_flow_prefix_split(all, 0);
            assert(all.skip(0) =~= all);
        }
        for f in it: flows
            invariant
                all == it.seq(),
                all == flows@,
                start == old(self).spec_nodes(),
                forall|j: int| 0 <= j < it.index() ==> all[j] is Continue,
                flow_prefix(all) == all.take(it.index() as int).map_values(
                    |f: ControlFlow<WithContext<C, E, F>, WithContext<C, E, F>>| flow_value(f),
                ) + flow_prefix(all.skip(it.index() as int)),
                self.spec_nodes() == start + leaves::<C, E, GC, F, GF>(
                    all.take(it.index() as int).map_values(
                        |f: ControlFlow<WithContext<C, E, F>, WithContext<C, E, F>>| flow_value(f),
                    ),
                ),
                old(self).wf() ==> self.wf(),
        {
            let ghost i = it.index() as int;
            let ghost seen = all.take(i).map_values(
                |f: ControlFlow<WithContext<C, E, F>, WithContext<C, E, F>>| flow_value(f),
            );
            assert(all[i] == f);
            match f {
                ControlFlow::Continue(w) => {
                    self.push_node(Node::Leaf(w));
                    proof {
                        lemma_flow_prefix_split(all, i + 1);
                        assert(all.take(i + 1).map_values(
                            |f: ControlFlow<WithContext<C, E, F>, WithContext<C, E, F>>| flow_value(f),
                        ) =~= seen.push(w));
                        assert(leaves::<C, E, GC, F, GF>(seen.push(w)) =~= leaves::<C, E, GC, F, GF>(seen).push(
                            Node::Leaf(w),
                        ));
                    }
                },
                ControlFlow::Break(w) => {
                    self.push_node(Node::Leaf(w));
                    proof {
                        assert(all.skip(i)[0] == all[i]);
                        assert(flow_prefix(all.skip(i)) =~= seq![w]);
                        assert(leaves::<C, E, GC, F, GF>(seen + seq![w]) =~= leaves::<C, E, GC, F, GF>(seen).push(
                            Node::Leaf(w),
                        ));
                        assert(flow_prefix(all) =~= seen + seq![w]);
                        assert(self.spec_nodes() =~= start + leaves::<C, E, GC, F, GF>(flow_prefix(all)));
                    }
                    return;
                },
            }
        }
        proof {
            assert(all.skip(all.len() as int) =~= Seq::<ControlFlow<WithContext<C, E, F>, WithContext<C, E, F>>>::empty());
            assert(flow_prefix(all.skip(all.len() as int)) =~= Seq::<WithContext<C, E, F>>::empty());
            assert(all.take(all.len() as int) =~= all);
        }
    }

    /// An aggregate of the leaves of `flows` up to and including the first
    /// `Break`.
    pub fn from_flows(flows: Vec<ControlFlow<WithContext<C, E, F>, WithContext<C, E, F>>>) -> (r: Self)
        ensures
            r.spec_nodes() == leaves::<C, E, GC, F, GF>(flow_prefix(flows@)),
            r.wf(),
    {
        let mut r = ManyErrors::Empty;
        r.extend_flows(flows);
        assert(r.spec_nodes() =~= leaves::<C, E, GC, F, GF>(flow_prefix(flows@)));
        r
    }
}

impl<C, E, GC, F, GF> ManyErrors<C, E, GC, F, GF> {
    /// Appends a leaf for each `(context, error)` of `flows` up to and including the first
    /// `Break`: `Continue(p)` records `p` and goes on, `Break(p)` records `p`
    /// and stops.
    pub fn extend_pair_flows(&mut self, flows: Vec<ControlFlow<(C, E), (C, E)>>)
        ensures
            final(self).spec_nodes() == old(self).spec_nodes() + pair_leaves(flow_prefix(flows@)),
            old(self).wf() ==> final(self).wf(),
    {
        let ghost start = self.spec_nodes();
        let ghost all = flows@;
        proof {
            lemma_flow_prefix_split(all, 0);
            assert(all.skip(0) =~= all);
        }
        for f in it: flows
            invariant
                all == it.seq(),
                all == flows@,
                start == old(self).spec_nodes(),
                forall|j: int| 0 <= j < it.index() ==> all[j] is Continue,
                flow_prefix(all) == all.take(it.index() as int).map_values(
                    |f: ControlFlow<(C, E), (C, E)>| flow_value(f),
                ) + flow_prefix(all.skip(it.index() as int)),
                self.spec_nodes() == start + pair_leaves::<C, E, GC, F, GF>(
                    all.take(it.index() as int).map_values(
                        |f: ControlFlow<(C, E), (C, E)>| flow_value(f),
                    ),
                ),
                old(self).wf() ==> self.wf(),
        {
            let ghost i = it.index() as int;
            let ghost seen = all.take(i).map_values(
                |f: ControlFlow<(C, E), (C, E)>| flow_value(f),
            );
            assert(all[i] == f);
            match f {
                ControlFlow::Continue(w) => {
                    self.push(w.0, w.1);
                    proof {
                        lemma_flow_prefix_split(all, i + 1);
                        assert(all.take(i + 1).map_values(
                            |f: ControlFlow<(C, E), (C, E)>| flow_value(f),
                        ) =~= seen.push(w));
                        assert(pair_leaves::<C, E, GC, F, GF>(seen.push(w)) =~= pair_leaves::<C, E, GC, F, GF>(seen).push(
                            Node::spec_leaf(w.0, w.1),
                        ));
                    }
                },
                ControlFlow::Break(w) => {
                    self.push(w.0, w.1);
                    proof {
                        assert(all.skip(i)[0] == all[i]);
                        assert(flow_prefix(all.skip(i)) =~= seq![w]);
                        assert(pair_leaves::<C, E, GC, F, GF>(seen + seq![w]) =~= pair_leaves::<C, E, GC, F, GF>(seen).push(
                            Node::spec_leaf(w.0, w.1),
                        ));
                        assert(flow_prefix(all) =~= seen + seq![w]);
                        assert(self.spec_nodes() =~= start + pair_leaves::<C, E, GC, F, GF>(flow_prefix(all)));
                    }
                    return;
                },
            }
        }
        proof {
            assert(all.skip(all.len() as int) =~= Seq::<ControlFlow<(C, E), (C, E)>>::empty());
            assert(flow_prefix(all.skip(all.len() as int)) =~= Seq::<(C, E)>::empty());
            assert(all.take(all.len() as int) =~= all);
        }
    }

    /// An aggregate of the `(context, error)` leaves of `flows` up to and including the first
    /// `Break`.
    pub fn from_pair_flows(flows: Vec<ControlFlow<(C, E), (C, E)>>) -> (r: Self)
        ensures
            r.spec_nodes() == pair_leaves::<C, E, GC, F, GF>(flow_prefix(flows@)),
            r.wf(),
    {
        let mut r = ManyErrors::Empty;
        r.extend_pair_flows(flows);
        assert(r.spec_nodes() =~= pair_leaves::<C, E, GC, F, GF>(flow_prefix(flows@)));
        r
    }
}

} // verus!

verus! {

impl<C, E, GC, F, GF> ManyErrors<C, E, GC, F, GF> {
    /// Pulls items from `iter` and appends a leaf for each, up to and
    /// including the first `Break`: `Continue(w)` records `w` and goes on,
    /// `Break(w)` records `w` and stops, leaving the rest of `iter` unpulled.
    pub fn extend_flow_iter<It: Iterator<Item = ControlFlow<WithContext<C, E, F>, WithContext<C, E, F>>>>(
        &mut self,
        iter: &mut It,
    )
        requires
            (*old(iter)).obeys_prophetic_iter_laws(),
            (*old(iter)).decrease() is Some,
        ensures
            final(self).spec_nodes() == old(self).spec_nodes() + leaves(flow_prefix((*old(iter)).remaining())),
            (*final(iter)).remaining() == (*old(iter)).remaining().skip(flow_prefix((*old(iter)).remaining()).len() as int),
            old(self).wf() ==> final(self).wf(),
    {
        let ghost start = self.spec_nodes();
        let ghost all = (*iter).remaining();
        let ghost mut i: int = 0;
        proof {
            lemma_flow_prefix_split(all, 0);
            assert(all.skip(0) =~= all);
        }
        loop
            invariant
                0 <= i <= all.len(),
                all == (*old(iter)).remaining(),
                start == old(self).spec_nodes(),
                (*iter).obeys_prophetic_iter_laws(),
                (*iter).decrease() is Some,
                (*iter).remaining() == all.skip(i),
                forall|j: int| 0 <= j < i ==> all[j] is Continue,
                flow_prefix(all) == all.take(i).map_values(
                    |f: ControlFlow<WithContext<C, E, F>, WithContext<C, E, F>>| flow_value(f),
                ) + flow_prefix(all.skip(i)),
                self.spec_nodes() == start + leaves::<C, E, GC, F, GF>(
                    all.take(i).map_values(
                        |f: ControlFlow<WithContext<C, E, F>, WithContext<C, E, F>>| flow_value(f),
                    ),
                ),
                old(self).wf() ==> self.wf(),
            decreases (*iter).decrease()->0,
        {
            let ghost seen = all.take(i).map_values(
                |f: ControlFlow<WithContext<C, E, F>, WithContext<C, E, F>>| flow_value(f),
            );
            match iter.next() {
                None => {
                    proof {
                        assert(all.skip(i).len() == 0);
                        assert(i == all.len());
                        assert(flow_prefix(all.skip(i)) =~= Seq::<WithContext<C, E, F>>::empty());
                        assert(seen + flow_prefix(all.skip(i)) =~= seen);
                        assert(all.take(i) =~= all);
                        assert(flow_prefix(all).len() == i);
                    }
                    return;
                },
                Some(ControlFlow::Continue(w)) => {
                    assert(all.skip(i)[0] == all[i]);
                    assert(all[i] == ControlFlow::<WithContext<C, E, F>, WithContext<C, E, F>>::Continue(w));
                    self.push_node(Node::Leaf(w));
                    proof {
                        lemma_flow_prefix_split(all, i + 1);
                        assert(all.take(i + 1).map_values(
                            |f: ControlFlow<WithContext<C, E, F>, WithContext<C, E, F>>| flow_value(f),
                        ) =~= seen.push(w));
                        assert(leaves::<C, E, GC, F, GF>(seen.push(w)) =~= leaves::<C, E, GC, F, GF>(seen).push(
                            Node::Leaf(w),
                        ));
                        assert(all.skip(i).drop_first() =~= all.skip(i + 1));
                        i = i + 1;
                    }
                },
                Some(ControlFlow::Break(w)) => {
                    assert(all.skip(i)[0] == all[i]);
                    assert(all[i] == ControlFlow::<WithContext<C, E, F>, WithContext<C, E, F>>::Break(w));
                    self.push_node(Node::Leaf(w));
                    proof {
                        assert(flow_prefix(all.skip(i)) =~= seq![w]);
                        assert(leaves::<C, E, GC, F, GF>(seen + seq![w]) =~= leaves::<C, E, GC, F, GF>(seen).push(
                            Node::Leaf(w),
                        ));
                        assert(flow_prefix(all) =~= seen + seq![w]);
                        assert(flow_prefix(all).len() == i + 1);
                        assert(all.skip(i).drop_first() =~= all.skip(i + 1));
                        assert(self.spec_nodes() =~= start + leaves::<C, E, GC, F, GF>(flow_prefix(all)));
                    }
                    return;
                },
            }
        }
    }

    /// An aggregate of the leaves that [`extend_flow_iter`](Self::extend_flow_iter)
    /// pulls from `iter`: up to and including the first `Break`.
    pub fn from_flow_iter<It: Iterator<Item = ControlFlow<WithContext<C, E, F>, WithContext<C, E, F>>>>(
        iter: &mut It,
    ) -> (r: Self)
        requires
            (*old(iter)).obeys_prophetic_iter_laws(),
            (*old(iter)).decrease() is Some,
        ensures
            r.spec_nodes() == leaves::<C, E, GC, F, GF>(flow_prefix((*old(iter)).remaining())),
            (*final(iter)).remaining() == (*old(iter)).remaining().skip(flow_prefix((*old(iter)).remaining()).len() as int),
            r.wf(),
    {
        let mut r = ManyErrors::Empty;
        r.extend_flow_iter(iter);
        assert(r.spec_nodes() =~= leaves::<C, E, GC, F, GF>(flow_prefix((*old(iter)).remaining())));
        r
    }
}

} // verus!

verus! {

impl<C, E, GC, F, GF> ManyErrors<C, E, GC, F, GF> {
    /// Pulls items from `iter` and appends a leaf for each `(context, error)`, up to and
    /// including the first `Break`: `Continue(p)` records `p` and goes on,
    /// `Break(p)` records `p` and stops, leaving the rest of `iter` unpulled.
    pub fn extend_pair_flow_iter<It: Iterator<Item = ControlFlow<(C, E), (C, E)>>>(
        &mut self,
        iter: &mut It,
    )
        requires
            (*old(iter)).obeys_prophetic_iter_laws(),
            (*old(iter)).decrease() is Some,
        ensures
            final(self).spec_nodes() == old(self).spec_nodes() + pair_leaves(flow_prefix((*old(iter)).remaining())),
            (*final(iter)).remaining() == (*old(iter)).remaining().skip(flow_prefix((*old(iter)).remaining()).len() as int),
            old(self).wf() ==> final(self).wf(),
    {
        let ghost start = self.spec_nodes();
        let ghost all = (*iter).remaining();
        let ghost mut i: int = 0;
        proof {
            lemma_flow_prefix_split(all, 0);
            assert(all.skip(0) =~= all);
        }
        loop
            invariant
                0 <= i <= all.len(),
                all == (*old(iter)).remaining(),
                start == old(self).spec_nodes(),
                (*iter).obeys_prophetic_iter_laws(),
                (*iter).decrease() is Some,
                (*iter).remaining() == all.skip(i),
                forall|j: int| 0 <= j < i ==> all[j] is Continue,
                flow_prefix(all) == all.take(i).map_values(
                    |f: ControlFlow<(C, E), (C, E)>| flow_value(f),
                ) + flow_prefix(all.skip(i)),
                self.spec_nodes() == start + pair_leaves::<C, E, GC, F, GF>(
                    all.take(i).map_values(
                        |f: ControlFlow<(C, E), (C, E)>| flow_value(f),
                    ),
                ),
                old(self).wf() ==> self.wf(),
            decreases (*iter).decrease()->0,
        {
            let ghost seen = all.take(i).map_values(
                |f: ControlFlow<(C, E), (C, E)>| flow_value(f),
            );
            match iter.next() {
                None => {
                    proof {
                        assert(all.skip(i).len() == 0);
                        assert(i == all.len());
                        assert(flow_prefix(all.skip(i)) =~= Seq::<(C, E)>::empty());
                        assert(seen + flow_prefix(all.skip(i)) =~= seen);
                        assert(all.take(i) =~= all);
                        assert(flow_prefix(all).len() == i);
                    }
                    return;
                },
                Some(ControlFlow::Continue(w)) => {
                    assert(all.skip(i)[0] == all[i]);
                    assert(all[i] == ControlFlow::<(C, E), (C, E)>::Continue(w));
                    self.push(w.0, w.1);
                    proof {
                        lemma_flow_prefix_split(all, i + 1);
                        assert(all.take(i + 1).map_values(
                            |f: ControlFlow<(C, E), (C, E)>| flow_value(f),
                        ) =~= seen.push(w));
                        assert(pair_leaves::<C, E, GC, F, GF>(seen.push(w)) =~= pair_leaves::<C, E, GC, F, GF>(seen).push(
                            Node::spec_leaf(w.0, w.1),
                        ));
                        assert(all.skip(i).drop_first() =~= all.skip(i + 1));
                        i = i + 1;
                    }
                },
                Some(ControlFlow::Break(w)) => {
                    assert(all.skip(i)[0] == all[i]);
                    assert(all[i] == ControlFlow::<(C, E), (C, E)>::Break(w));
                    self.push(w.0, w.1);
                    proof {
                        assert(flow_prefix(all.skip(i)) =~= seq![w]);
                        assert(pair_leaves::<C, E, GC, F, GF>(seen + seq![w]) =~= pair_leaves::<C, E, GC, F, GF>(seen).push(
                            Node::spec_leaf(w.0, w.1),
                        ));
                        assert(flow_prefix(all) =~= seen + seq![w]);
                        assert(flow_prefix(all).len() == i + 1);
                        assert(all.skip(i).drop_first() =~= all.skip(i + 1));
                        assert(self.spec_nodes() =~= start + pair_leaves::<C, E, GC, F, GF>(flow_prefix(all)));
                    }
                    return;
                },
            }
        }
    }

    /// An aggregate of the leaves that [`extend_pair_flow_iter`](Self::extend_pair_flow_iter)
    /// pulls from `iter`: up to and including the first `Break`.
    pub fn from_pair_flow_iter<It: Iterator<Item = ControlFlow<(C, E), (C, E)>>>(
        iter: &mut It,
    ) -> (r: Self)
        requires
            (*old(iter)).obeys_prophetic_iter_laws(),
            (*old(iter)).decrease() is Some,
        ensures
            r.spec_nodes() == pair_leaves::<C, E, GC, F, GF>(flow_prefix((*old(iter)).remaining())),
            (*final(iter)).remaining() == (*old(iter)).remaining().skip(flow_prefix((*old(iter)).remaining()).len() as int),
            r.wf(),
    {
        let mut r = ManyErrors::Empty;
        r.extend_pair_flow_iter(iter);
        assert(r.spec_nodes() =~= pair_leaves::<C, E, GC, F, GF>(flow_prefix((*old(iter)).remaining())));
        r
    }
}

} // verus!
