//! [`Listing`]: each direct child of a [`ManyErrors`] on its own line.

use vstd::prelude::*;

use core::marker::PhantomData;

use crate::many_errors::{ManyErrors, Node};
use crate::text::{join, write_char};
use crate::{AsDisplay, Format};

verus! {

/// Aggregate strategy that renders each direct child of a
/// [`ManyErrors`] on its own line, through the per-item strategy
/// `IndividualErrorFormat` (default [`AsDisplay`]: each child's own text).
/// An aggregate without children renders as nothing.
#[derive(Debug, Default, Clone, Copy, PartialEq, Eq, Hash)]
pub struct Listing<IndividualErrorFormat = AsDisplay>(PhantomData<IndividualErrorFormat>);

/// The texts `G` renders for `nodes`, in order.
pub open spec fn item_texts<G: Format<Node<C, E, GC, F, GF>>, C, E, GC, F, GF>(
    nodes: Seq<Node<C, E, GC, F, GF>>,
) -> Seq<Seq<char>> {
    nodes.map_values(|n: Node<C, E, GC, F, GF>| G::spec_fmt(&n))
}

impl<C, E, GC, F, GF, G: Format<Node<C, E, GC, F, GF>>> Format<ManyErrors<C, E, GC, F, GF>> for Listing<G> {
    open spec fn spec_fmt(m: &ManyErrors<C, E, GC, F, GF>) -> Seq<char> {
        join(item_texts::<G, C, E, GC, F, GF>(m.spec_nodes()), seq!['\n'])
    }

    fn fmt(m: &ManyErrors<C, E, GC, F, GF>, out: &mut String) {
        let nodes = m.node_refs();
        let ghost start = out@;
        let ghost all = m.spec_nodes();
        let mut i: usize = 0;
        while i < nodes.len()
            invariant
                i <= nodes@.len(),
                nodes@.len() == all.len(),
                all == m.spec_nodes(),
                forall|j: int| 0 <= j < nodes@.len() ==> *nodes@[j] == all[j],
                out@ == start + join(item_texts::<G, C, E, GC, F, GF>(all.take(i as int)), seq!['\n']),
            decreases nodes.len() - i,
        {
            let ghost before = item_texts::<G, C, E, GC, F, GF>(all.take(i as int));
            if i > 0 {
                write_char(out, '\n');
            }
            G::fmt(nodes[i], out);
            proof {
                let after = item_texts::<G, C, E, GC, F, GF>(all.take(i + 1));
                assert(after.drop_last() =~= before);
                assert(after.last() == G::spec_fmt(&all[i as int]));
                if i == 0 {
                    assert(before =~= Seq::<Seq<char>>::empty());
                    assert(after.len() == 1);
                }
            }
            i = i + 1;
        }
        assert(all.take(i as int) =~= all);
    }
}

impl<'a, T: ?Sized, G> Format<&'a T> for Listing<G> where Listing<G>: Format<T> {
    open spec fn spec_fmt(value: &&'a T) -> Seq<char> {
        <Listing<G> as Format<T>>::spec_fmt(*value)
    }

    fn fmt(value: &&'a T, out: &mut String) {
        <Listing<G> as Format<T>>::fmt(*value, out);
    }
}

} // verus!
