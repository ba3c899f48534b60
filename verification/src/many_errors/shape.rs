//! Rebuilding a [`ManyErrors`] tree node by node: switching its strategies
//! ([`ManyErrors::with_formats`]) and cloning it. Both keep the shape of the
//! tree; [`many_rel`] states that two trees have the same shape and that
//! corresponding contexts, errors and labels are related as given.

use vstd::prelude::*;

use core::marker::PhantomData;

use crate::with_context::WithContext;
use crate::Format;

use super::{ManyErrors, Node, Subgroup};

verus! {

/// `a` and `b` have the same shape: the same variants at the same places, with
/// leaf contexts related by `rc`, leaf errors by `re` and group labels by `rg`.
pub open spec fn many_rel<C, E, GC, F, GF, F2, GF2>(
    a: ManyErrors<C, E, GC, F, GF>,
    b: ManyErrors<C, E, GC, F2, GF2>,
    rc: spec_fn(C, C) -> bool,
    re: spec_fn(E, E) -> bool,
    rg: spec_fn(GC, GC) -> bool,
) -> bool
    decreases a, 0int,
{
    match a {
        ManyErrors::Empty => b is Empty,
        ManyErrors::One(x) => b matches ManyErrors::One(y) && node_rel(x, y, rc, re, rg),
        ManyErrors::Many(v) => b matches ManyErrors::Many(w) && v.len() == w.len() && nodes_rel(
            v@,
            w@,
            v.len() as int,
            rc,
            re,
            rg,
        ),
    }
}

/// The first `k` nodes of `vs` and `ws` are pairwise related by [`node_rel`].
pub open spec fn nodes_rel<C, E, GC, F, GF, F2, GF2>(
    vs: Seq<Node<C, E, GC, F, GF>>,
    ws: Seq<Node<C, E, GC, F2, GF2>>,
    k: int,
    rc: spec_fn(C, C) -> bool,
    re: spec_fn(E, E) -> bool,
    rg: spec_fn(GC, GC) -> bool,
) -> bool
    decreases vs, k,
{
    if k <= 0 || k > vs.len() {
        true
    } else {
        nodes_rel(vs, ws, k - 1, rc, re, rg) && node_rel(vs[k - 1], ws[k - 1], rc, re, rg)
    }
}

/// `a` and `b` are the same kind of node, with related contents.
pub open spec fn node_rel<C, E, GC, F, GF, F2, GF2>(
    a: Node<C, E, GC, F, GF>,
    b: Node<C, E, GC, F2, GF2>,
    rc: spec_fn(C, C) -> bool,
    re: spec_fn(E, E) -> bool,
    rg: spec_fn(GC, GC) -> bool,
) -> bool
    decreases a, 0int,
{
    match a {
        Node::Leaf(x) => b matches Node::Leaf(y) && rc(x.context, y.context) && re(x.error, y.error),
        Node::Group(g) => b matches Node::Group(h) && rg(g.context, h.context) && many_rel(
            *g.errors,
            *h.errors,
            rc,
            re,
            rg,
        ),
    }
}

/// Equality, as a relation.
pub open spec fn same<T>() -> spec_fn(T, T) -> bool {
    |x: T, y: T| x == y
}

/// "`y` is a clone of `x`", as a relation.
pub open spec fn clone_of<T: Clone>() -> spec_fn(T, T) -> bool {
    |x: T, y: T| cloned(x, y)
}

impl<C, E, GC, F, GF> ManyErrors<C, E, GC, F, GF> {
    /// Switches the leaf strategy `F` and group-label strategy `GF` without
    /// touching the stored values, rebuilding the tree recursively.
    pub fn with_formats<NewF, NewGF>(self) -> (r: ManyErrors<C, E, GC, NewF, NewGF>)
        where
            NewF: Format<WithContext<C, E, NewF>>,
            NewGF: Format<GC>,
        ensures
            many_rel(self, r, same(), same(), same()),
        decreases self, 0int,
    {
        let ghost orig = self;
        match self {
            ManyErrors::Empty => ManyErrors::Empty,
            ManyErrors::One(n) => {
                proof {
                    assert(decreases_to!(orig => orig->One_0));
                }
                ManyErrors::One(n.with_formats())
            },
            ManyErrors::Many(v) => {
                let ghost vs = v@;
                let mut out: Vec<Node<C, E, GC, NewF, NewGF>> = Vec::new();
                for n in it: v
                    invariant
                        orig == self,
                        orig == ManyErrors::<C, E, GC, F, GF>::Many(v),
                        vs == v@,
                        it.seq() == vs,
                        out@.len() == it.index(),
                        nodes_rel(vs, out@, it.index() as int, same(), same(), same()),
                {
                    proof {
                        assert(decreases_to!(orig => orig->Many_0));
                        assert(decreases_to!(orig->Many_0 => vs));
                        assert(decreases_to!(vs => vs[it.index() as int]));
                        assert(n == vs[it.index() as int]);
                        assert(decreases_to!(orig => n));
                    }
                    let ghost before = out@;
                    let ghost i = it.index() as int;
                    out.push(n.with_formats());
                    proof {
                        assert forall|j: int| 0 <= j <= i implies nodes_rel(vs, out@, j, same(), same(), same())
                            == nodes_rel(vs, before, j, same(), same(), same()) by {
                            lemma_nodes_rel_prefix(vs, out@, before, j, same(), same(), same());
                        }
                    }
                }
                ManyErrors::Many(out)
            },
        }
    }
}

/// [`nodes_rel`] on the first `k` nodes reads only the first `k` of `ws`.
pub proof fn lemma_nodes_rel_prefix<C, E, GC, F, GF, F2, GF2>(
    vs: Seq<Node<C, E, GC, F, GF>>,
    ws: Seq<Node<C, E, GC, F2, GF2>>,
    us: Seq<Node<C, E, GC, F2, GF2>>,
    k: int,
    rc: spec_fn(C, C) -> bool,
    re: spec_fn(E, E) -> bool,
    rg: spec_fn(GC, GC) -> bool,
)
    requires
        0 <= k <= us.len(),
        us.len() <= ws.len(),
        forall|j: int| 0 <= j < us.len() ==> ws[j] == us[j],
    ensures
        nodes_rel(vs, ws, k, rc, re, rg) == nodes_rel(vs, us, k, rc, re, rg),
    decreases k,
{
    if k > 0 && k <= vs.len() {
        lemma_nodes_rel_prefix(vs, ws, us, k - 1, rc, re, rg);
    }
}

impl<C, E, GC, F, GF> Node<C, E, GC, F, GF> {
    /// Switches the strategies of the node (and of any nested aggregate).
    pub fn with_formats<NewF, NewGF>(self) -> (r: Node<C, E, GC, NewF, NewGF>)
        where
            NewF: Format<WithContext<C, E, NewF>>,
            NewGF: Format<GC>,
        ensures
            node_rel(self, r, same(), same(), same()),
        decreases self, 0int,
    {
        let ghost orig = self;
        match self {
            Node::Leaf(w) => Node::Leaf(w.with_format()),
            Node::Group(g) => {
                proof {
                    assert(decreases_to!(orig => orig->Group_0));
                }
                Node::Group(g.with_formats())
            },
        }
    }
}

impl<C, E, GC, F, GF> Subgroup<C, E, GC, F, GF> {
    /// Switches the strategies of the nested aggregate; the label is kept.
    pub fn with_formats<NewF, NewGF>(self) -> (r: Subgroup<C, E, GC, NewF, NewGF>)
        where
            NewF: Format<WithContext<C, E, NewF>>,
            NewGF: Format<GC>,
        ensures
            r.context == self.context,
            many_rel(*self.errors, *r.errors, same(), same(), same()),
        decreases self, 0int,
    {
        let ghost orig = self;
        let errors = *self.errors;
        proof {
            assert(decreases_to!(orig => orig.errors));
        }
        Subgroup { context: self.context, errors: Box::new(errors.with_formats()), _label: PhantomData }
    }
}

impl<C: Clone, E: Clone, GC: Clone, F, GF> ManyErrors<C, E, GC, F, GF> {
    /// A clone of the tree: every context, error and label cloned, the shape
    /// kept.
    pub fn duplicate(&self) -> (r: Self)
        ensures
            many_rel(*self, r, clone_of(), clone_of(), clone_of()),
        decreases self, 0int,
    {
        match self {
            ManyErrors::Empty => ManyErrors::Empty,
            ManyErrors::One(n) => ManyErrors::One(n.duplicate()),
            ManyErrors::Many(v) => {
                let mut out: Vec<Node<C, E, GC, F, GF>> = Vec::new();
                let mut i: usize = 0;
                while i < v.len()
                    invariant
                        *self == ManyErrors::<C, E, GC, F, GF>::Many(*v),
                        i <= v.len(),
                        out@.len() == i,
                        nodes_rel(v@, out@, i as int, clone_of(), clone_of(), clone_of()),
                    decreases v.len() - i,
                {
                    proof {
                        assert(decreases_to!(*self => (*self)->Many_0));
                        assert(decreases_to!(*v => v@));
                        assert(decreases_to!(v@ => v@[i as int]));
                        assert(decreases_to!(*self => v@[i as int]));
                    }
                    let ghost before = out@;
                    out.push(v[i].duplicate());
                    proof {
                        assert forall|j: int| 0 <= j <= i implies nodes_rel(v@, out@, j, clone_of(), clone_of(), clone_of())
                            == nodes_rel(v@, before, j, clone_of(), clone_of(), clone_of()) by {
                            lemma_nodes_rel_prefix(v@, out@, before, j, clone_of(), clone_of(), clone_of());
                        }
                    }
                    i = i + 1;
                }
                ManyErrors::Many(out)
            },
        }
    }
}

impl<C: Clone, E: Clone, GC: Clone, F, GF> Node<C, E, GC, F, GF> {
    /// A clone of the node, its contents cloned.
    pub fn duplicate(&self) -> (r: Self)
        ensures
            node_rel(*self, r, clone_of(), clone_of(), clone_of()),
        decreases self, 0int,
    {
        match self {
            Node::Leaf(w) => Node::Leaf(WithContext { context: w.context.clone(), error: w.error.clone(), _format: PhantomData }),
            Node::Group(g) => Node::Group(g.duplicate()),
        }
    }
}

impl<C: Clone, E: Clone, GC: Clone, F, GF> Subgroup<C, E, GC, F, GF> {
    /// A clone of the group: the label and the nested aggregate cloned.
    pub fn duplicate(&self) -> (r: Self)
        ensures
            cloned(self.context, r.context),
            many_rel(*self.errors, *r.errors, clone_of(), clone_of(), clone_of()),
        decreases self, 0int,
    {
        proof {
            assert(decreases_to!(*self => self.errors));
        }
        Subgroup { context: self.context.clone(), errors: Box::new(self.errors.duplicate()), _label: PhantomData }
    }
}

impl<C: Clone, E: Clone, GC: Clone, F, GF> Clone for ManyErrors<C, E, GC, F, GF> {
    fn clone(&self) -> (r: Self)
        ensures
            many_rel(*self, r, clone_of(), clone_of(), clone_of()),
    {
        self.duplicate()
    }
}

impl<C: Clone, E: Clone, GC: Clone, F, GF> Clone for Node<C, E, GC, F, GF> {
    fn clone(&self) -> (r: Self)
        ensures
            node_rel(*self, r, clone_of(), clone_of(), clone_of()),
    {
        self.duplicate()
    }
}

impl<C: Clone, E: Clone, GC: Clone, F, GF> Clone for Subgroup<C, E, GC, F, GF> {
    fn clone(&self) -> (r: Self)
        ensures
            cloned(self.context, r.context),
            many_rel(*self.errors, *r.errors, clone_of(), clone_of(), clone_of()),
    {
        self.duplicate()
    }
}

} // verus!
