//! Aggregated, context-tagged errors from iterator or fold-style operations.

use vstd::prelude::*;

use crate::text::no_errors;
use crate::with_context::{Colon, WithContext};
use crate::{AsDisplay, DisplayText, DynError, ErrorSource, Format, Formatted};

mod iter;
mod node;
mod ops;
mod shape;

pub mod strategy;

pub use crate::connectors::{Ascii, Connectors, TreeConnectors, Unicode};
pub use node::{Node, Subgroup};
pub use iter::{flow_prefix, flow_value, leaves, pair_leaves, IntoIter, Iter};
pub use ops::nodes_after_result;
pub use shape::{clone_of, many_rel, node_rel, nodes_rel, same};

pub use strategy::{Bullets, Inline, Joined, List, Listing, Tree};

use strategy::{draw_line_many, line_many};

verus! {

/// Zero or more context-tagged errors, arranged as a rose tree.
///
/// Each child is a [`Node`]: a leaf [`WithContext`] pair or a labelled
/// sub-group. The three-variant split avoids a vector until a second error
/// arrives: the values that `new` and the `push` family build hold two or more
/// children exactly in the `Many` variant.
#[derive(Debug, PartialEq, Eq, Hash, Default)]
pub enum ManyErrors<C, E, GC = C, F = Colon, GF = AsDisplay> {
    /// No errors recorded.
    #[default]
    Empty,
    /// Exactly one child.
    One(Node<C, E, GC, F, GF>),
    /// Two or more children.
    Many(Vec<Node<C, E, GC, F, GF>>),
}

impl<C, E, GC, F, GF> ManyErrors<C, E, GC, F, GF> {
    /// The direct children, in insertion order.
    pub open spec fn spec_nodes(&self) -> Seq<Node<C, E, GC, F, GF>> {
        match self {
            ManyErrors::Empty => Seq::empty(),
            ManyErrors::One(n) => seq![*n],
            ManyErrors::Many(v) => v@,
        }
    }

    /// The shape that `new` and the `push` family maintain: the `Many`
    /// variant holds at least two children.
    pub open spec fn wf(&self) -> bool {
        match self {
            ManyErrors::Many(v) => v.len() >= 2,
            _ => true,
        }
    }

    /// Creates an empty `ManyErrors`.
    pub fn new() -> (r: Self)
        ensures
            r is Empty,
            r.spec_nodes().len() == 0,
            r.wf(),
    {
        ManyErrors::Empty
    }

    /// Returns `true` if no errors have been recorded.
    pub fn is_empty(&self) -> (b: bool)
        ensures
            b == (self is Empty),
    {
        match self {
            ManyErrors::Empty => true,
            _ => false,
        }
    }

    /// The number of direct children (leaves and sub-groups).
    pub fn len(&self) -> (n: usize)
        ensures
            n == self.spec_nodes().len(),
    {
        match self {
            ManyErrors::Empty => 0,
            ManyErrors::One(_) => 1,
            ManyErrors::Many(v) => v.len(),
        }
    }

    /// Appends a child node, promoting `Empty → One → Many`.
    pub fn push_node(&mut self, node: Node<C, E, GC, F, GF>)
        ensures
            final(self).spec_nodes() == old(self).spec_nodes().push(node),
            (*old(self) is Empty) ==> (*final(self) is One),
            !(*old(self) is Empty) ==> (*final(self) is Many),
            old(self).wf() ==> final(self).wf(),
    {
        let mut prev = ManyErrors::Empty;
        core::mem::swap(self, &mut prev);
        *self = match prev {
            ManyErrors::Empty => ManyErrors::One(node),
            ManyErrors::One(first) => {
                let mut v = Vec::new();
                v.push(first);
                v.push(node);
                proof {
                    assert(v@ =~= seq![first].push(node));
                }
                ManyErrors::Many(v)
            },
            ManyErrors::Many(v) => {
                let mut v = v;
                v.push(node);
                ManyErrors::Many(v)
            },
        };
    }

    /// Appends a leaf error with context, promoting `Empty → One → Many`.
    pub fn push(&mut self, context: C, error: E)
        ensures
            final(self).spec_nodes() == old(self).spec_nodes().push(Node::spec_leaf(context, error)),
            (*old(self) is Empty) ==> (*final(self) is One),
            !(*old(self) is Empty) ==> (*final(self) is Many),
            old(self).wf() ==> final(self).wf(),
    {
        self.push_node(Node::Leaf(WithContext::new(context, error)));
    }

    /// Appends a named sub-group of errors.
    pub fn push_group(&mut self, context: GC, errors: Self)
        ensures
            final(self).spec_nodes() == old(self).spec_nodes().push(Node::spec_group(context, errors)),
            (*old(self) is Empty) ==> (*final(self) is One),
            !(*old(self) is Empty) ==> (*final(self) is Many),
            old(self).wf() ==> final(self).wf(),
    {
        self.push_node(Node::Group(Subgroup::new(context, errors)));
    }

    /// The children of `self`, moved into a vector in insertion order.
    pub fn into_nodes(self) -> (v: Vec<Node<C, E, GC, F, GF>>)
        ensures
            v@ == self.spec_nodes(),
    {
        match self {
            ManyErrors::Empty => Vec::new(),
            ManyErrors::One(n) => {
                let mut v = Vec::new();
                v.push(n);
                v
            },
            ManyErrors::Many(v) => v,
        }
    }

    /// Appends every node of `nodes`, in order.
    pub fn extend_nodes(&mut self, nodes: Vec<Node<C, E, GC, F, GF>>)
        ensures
            final(self).spec_nodes() == old(self).spec_nodes() + nodes@,
            old(self).wf() ==> final(self).wf(),
            (*final(self) is Empty) == ((*old(self) is Empty) && nodes@.len() == 0),
    {
        let ghost start = self.spec_nodes();
        let ghost items = nodes@;
        let ghost was_wf = self.wf();
        let ghost was_empty = *self is Empty;
        for n in it: nodes
            invariant
                items == it.seq(),
                self.spec_nodes() == start + items.take(it.index() as int),
                was_wf ==> self.wf(),
                (*self is Empty) == (was_empty && it.index() == 0),
        {
            self.push_node(n);
            assert(items.take(it.index() + 1) =~= items.take(it.index() as int).push(n));
        }
        assert(items.take(items.len() as int) =~= items);
    }

    /// All the children of `self`, then all the children of `other`.
    pub fn merge(self, other: Self) -> (r: Self)
        ensures
            r.spec_nodes() == self.spec_nodes() + other.spec_nodes(),
            self.wf() ==> r.wf(),
            (r is Empty) == ((self is Empty) && other.spec_nodes().len() == 0),
    {
        let mut me = self;
        me.extend_nodes(other.into_nodes());
        me
    }

    /// `Ok(ok)` if no errors were recorded, otherwise `Err(self)`.
    pub fn into_result<T>(self, ok: T) -> (r: Result<T, Self>)
        ensures
            (self is Empty) ==> r == Ok::<T, Self>(ok),
            !(self is Empty) ==> r == Err::<T, Self>(self),
    {
        match self {
            ManyErrors::Empty => Ok(ok),
            _ => Err(self),
        }
    }
}

/// The text of an aggregate: a shallow single-line summary, `"N errors: "`
/// then each child's own text (no source chains) separated by `"; "`, groups
/// as `"label (…)"`; `"no errors"` when there are none.
impl<C, E: ErrorSource, GC, F: Format<WithContext<C, E, F>>, GF: Format<GC>> DisplayText for ManyErrors<C, E, GC, F, GF> {
    open spec fn spec_text(&self) -> Seq<char> {
        line_many(*self, false, no_errors())
    }

    fn write_text(&self, out: &mut String) {
        draw_line_many(self, false, false, out);
    }
}

/// An aggregate of independent sibling errors has no single linear cause: its
/// source is always `None`.
impl<C, E: ErrorSource, GC, F: Format<WithContext<C, E, F>>, GF: Format<GC>> ErrorSource for ManyErrors<C, E, GC, F, GF> {
    open spec fn spec_sources(&self) -> Seq<Seq<char>> {
        Seq::empty()
    }

    fn source(&self) -> (s: Option<DynError>) {
        None
    }
}

impl<C, E, GC, F, GF> ManyErrors<C, E, GC, F, GF> {
    /// The shallow single-line summary (the aggregate's own text).
    pub fn to_string(&self) -> (s: String)
        where
            E: ErrorSource,
            F: Format<WithContext<C, E, F>>,
            GF: Format<GC>,
        ensures
            s@ == self.spec_text(),
    {
        let mut out = String::new();
        self.write_text(&mut out);
        out
    }

    /// Renders as a branching Unicode tree with a count header.
    pub fn tree(&self) -> (r: Formatted<&Self, Tree>)
        ensures
            r.value() == self,
    {
        Formatted::new(self)
    }

    /// Renders as a numbered list.
    pub fn list(&self) -> (r: Formatted<&Self, List>)
        ensures
            r.value() == self,
    {
        Formatted::new(self)
    }

    /// Renders as a bulleted list with `•` markers.
    pub fn bullets(&self) -> (r: Formatted<&Self, Bullets>)
        ensures
            r.value() == self,
    {
        Formatted::new(self)
    }

    /// Renders on a single line, walking source chains: `";"`-separated
    /// siblings, parens around groups.
    pub fn joined(&self) -> (r: Formatted<&Self, Joined>)
        ensures
            r.value() == self,
    {
        Formatted::new(self)
    }

    /// Wraps `self` for rendering with an arbitrary aggregate strategy.
    pub fn formatted<F2>(&self) -> (r: Formatted<&Self, F2>)
        ensures
            r.value() == self,
    {
        Formatted::new(self)
    }
}

} // verus!
