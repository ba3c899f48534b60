//! `+=` on [`ManyErrors`]: merge another aggregate, append a leaf, append the
//! error of a failed `Result`, or do any of these only when an `Option` holds
//! a value. [`ManyErrors::merge`] is the by-value form of merging.

use vstd::prelude::*;

use super::{ManyErrors, Node};

verus! {

/// The children after appending the error of `result` under `context`; the
/// children are unchanged when `result` is `Ok`.
pub open spec fn nodes_after_result<C, E, GC, F, GF, T>(
    nodes: Seq<Node<C, E, GC, F, GF>>,
    context: C,
    result: Result<T, E>,
) -> Seq<Node<C, E, GC, F, GF>> {
    match result {
        Ok(_) => nodes,
        Err(e) => nodes.push(Node::spec_leaf(context, e)),
    }
}

impl<C, E, GC, F, GF> ManyErrors<C, E, GC, F, GF> {
    /// Appends `error` under `context` if `result` is `Err`; leaves `self`
    /// unchanged on `Ok`.
    pub fn push_result<T>(&mut self, context: C, result: Result<T, E>)
        ensures
            final(self).spec_nodes() == nodes_after_result(old(self).spec_nodes(), context, result),
            old(self).wf() ==> final(self).wf(),
            (*final(self) is Empty) == ((*old(self) is Empty) && result is Ok),
    {
        match result {
            Err(error) => self.push(context, error),
            Ok(_) => {},
        }
    }
}

/// Merges all top-level nodes of `rhs` into `self`.
impl<C, E, GC, F, GF> std::ops::AddAssign for ManyErrors<C, E, GC, F, GF> {
    fn add_assign(&mut self, rhs: Self)
        ensures
            final(self).spec_nodes() == old(self).spec_nodes() + rhs.spec_nodes(),
            old(self).wf() ==> final(self).wf(),
    {
        self.extend_nodes(rhs.into_nodes());
    }
}

/// Appends a single leaf `(context, error)`.
impl<C, E, GC, F, GF> std::ops::AddAssign<(C, E)> for ManyErrors<C, E, GC, F, GF> {
    fn add_assign(&mut self, rhs: (C, E))
        ensures
            final(self).spec_nodes() == old(self).spec_nodes().push(Node::spec_leaf(rhs.0, rhs.1)),
            old(self).wf() ==> final(self).wf(),
    {
        self.push(rhs.0, rhs.1);
    }
}

/// Appends the error of `result` if it is `Err`.
impl<C, E, GC, F, GF, T> std::ops::AddAssign<(C, Result<T, E>)> for ManyErrors<C, E, GC, F, GF> {
    fn add_assign(&mut self, rhs: (C, Result<T, E>))
        ensures
            final(self).spec_nodes() == nodes_after_result(old(self).spec_nodes(), rhs.0, rhs.1),
            old(self).wf() ==> final(self).wf(),
    {
        self.push_result(rhs.0, rhs.1);
    }
}

/// Appends the leaf if the option holds one.
impl<C, E, GC, F, GF> std::ops::AddAssign<Option<(C, E)>> for ManyErrors<C, E, GC, F, GF> {
    fn add_assign(&mut self, rhs: Option<(C, E)>)
        ensures
            final(self).spec_nodes() == match rhs {
                Some(p) => old(self).spec_nodes().push(Node::spec_leaf(p.0, p.1)),
                None => old(self).spec_nodes(),
            },
            old(self).wf() ==> final(self).wf(),
    {
        match rhs {
            Some(p) => self.push(p.0, p.1),
            None => {},
        }
    }
}

/// Appends the error of the result if the option holds a failed one.
impl<C, E, GC, F, GF, T> std::ops::AddAssign<Option<(C, Result<T, E>)>> for ManyErrors<C, E, GC, F, GF> {
    fn add_assign(&mut self, rhs: Option<(C, Result<T, E>)>)
        ensures
            final(self).spec_nodes() == match rhs {
                Some(p) => nodes_after_result(old(self).spec_nodes(), p.0, p.1),
                None => old(self).spec_nodes(),
            },
            old(self).wf() ==> final(self).wf(),
    {
        match rhs {
            Some(p) => self.push_result(p.0, p.1),
            None => {},
        }
    }
}

/// Merges the other aggregate if the option holds one.
impl<C, E, GC, F, GF> std::ops::AddAssign<Option<ManyErrors<C, E, GC, F, GF>>> for ManyErrors<C, E, GC, F, GF> {
    fn add_assign(&mut self, rhs: Option<ManyErrors<C, E, GC, F, GF>>)
        ensures
            final(self).spec_nodes() == match rhs {
                Some(other) => old(self).spec_nodes() + other.spec_nodes(),
                None => old(self).spec_nodes(),
            },
            old(self).wf() ==> final(self).wf(),
    {
        match rhs {
            Some(other) => self.extend_nodes(other.into_nodes()),
            None => {
                assert(old(self).spec_nodes() == self.spec_nodes());
            },
        }
    }
}

} // verus!
