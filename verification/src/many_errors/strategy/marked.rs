//! The nested-list traversal behind [`List`](super::List) and
//! [`Bullets`](super::Bullets): the two differ only in the row marker and two
//! indent offsets, captured by [`Marker`]. Indentation is counted in units of
//! two spaces.

use vstd::prelude::*;

use crate::many_errors::{ManyErrors, Node};
use crate::text::{
    colon_space, decimal, errors_word, indent, no_errors, open_paren, repeat, write_char, write_colon_space,
    write_error_count, write_indented, write_no_errors, write_open_paren,
};
use crate::with_context::WithContext;
use crate::{ErrorSource, Format};

use super::{leaf_chain, write_leaf_chain};

verus! {

/// Two spaces: one unit of list indentation.
pub open spec fn unit() -> Seq<char> {
    seq![' ', ' ']
}

/// Row marker and indent offsets of a nested-list rendering.
pub trait Marker {
    /// Row indent (in units) of top-level children.
    const TOP_ROW: usize;
    /// Offset from a group's content column to its children's row indent.
    const GROUP_ROW_OFFSET: usize;

    /// The row prefix of child `index`, whose row is indented by `prefix`.
    spec fn spec_marker(prefix: Seq<char>, index: nat) -> Seq<char>;

    /// Appends the row prefix of child `index`.
    fn write_marker(out: &mut String, prefix: &str, index: usize)
        requires
            index < usize::MAX,
        ensures
            final(out)@ == old(out)@ + Self::spec_marker(prefix@, index as nat),
    ;
}

/// The nested-list rendering of `m`.
pub open spec fn marked_many<M: Marker, C, E: ErrorSource, GC, F: Format<WithContext<C, E, F>>, GF: Format<GC>>(
    m: ManyErrors<C, E, GC, F, GF>,
) -> Seq<char>
    decreases m, 0int,
{
    match m {
        ManyErrors::Empty => no_errors(),
        ManyErrors::One(n) => marked_node::<M, C, E, GC, F, GF>(n, 0),
        ManyErrors::Many(v) => decimal(v.len() as nat) + errors_word() + seq![':'] + marked_children::<
            M,
            C,
            E,
            GC,
            F,
            GF,
        >(v@, v.len() as int, M::TOP_ROW as nat),
    }
}

/// The first `k` of `nodes`, one marked row each at row indent `row`, their
/// content one unit past the row.
pub open spec fn marked_children<M: Marker, C, E: ErrorSource, GC, F: Format<WithContext<C, E, F>>, GF: Format<GC>>(
    nodes: Seq<Node<C, E, GC, F, GF>>,
    k: int,
    row: nat,
) -> Seq<char>
    decreases nodes, k,
{
    if k <= 0 || k > nodes.len() {
        Seq::empty()
    } else {
        marked_children::<M, C, E, GC, F, GF>(nodes, k - 1, row) + M::spec_marker(repeat(unit(), row), (k - 1) as nat)
            + marked_node::<M, C, E, GC, F, GF>(nodes[k - 1], row + 1)
    }
}

/// One node whose own text re-indents to `content` units.
pub open spec fn marked_node<M: Marker, C, E: ErrorSource, GC, F: Format<WithContext<C, E, F>>, GF: Format<GC>>(
    n: Node<C, E, GC, F, GF>,
    content: nat,
) -> Seq<char>
    decreases n, 0int,
{
    let base = repeat(unit(), content);
    match n {
        Node::Leaf(w) => indent(leaf_chain(&w), base),
        Node::Group(g) => indent(GF::spec_fmt(&g.context), base) + match *g.errors {
            ManyErrors::Empty => colon_space() + no_errors(),
            ManyErrors::One(inner) => colon_space() + marked_node::<M, C, E, GC, F, GF>(inner, content),
            ManyErrors::Many(v) => open_paren() + decimal(v.len() as nat) + errors_word() + seq![')', ':']
                + marked_children::<M, C, E, GC, F, GF>(v@, v.len() as int, (content + M::GROUP_ROW_OFFSET) as nat),
        },
    }
}

/// `prefix` with one more unit of indentation.
fn deeper(prefix: &String) -> (s: String)
    ensures
        s@ == prefix@ + unit(),
{
    let mut s = prefix.clone();
    proof {
        reveal_strlit("  ");
        assert("  "@ =~= unit());
    }
    s.append("  ");
    s
}

/// `prefix` with `n` more units of indentation.
fn deeper_by(prefix: &String, n: usize, Ghost(units): Ghost<nat>) -> (s: String)
    requires
        prefix@ == repeat(unit(), units),
    ensures
        s@ == repeat(unit(), (units + n) as nat),
{
    let mut s = prefix.clone();
    let mut i: usize = 0;
    while i < n
        invariant
            i <= n,
            s@ == repeat(unit(), (units + i) as nat),
        decreases n - i,
    {
        s = deeper(&s);
        i = i + 1;
    }
    s
}

/// Appends the nested-list rendering of `m`.
pub(crate) fn draw_marked_many<M: Marker, C, E: ErrorSource, GC, F: Format<WithContext<C, E, F>>, GF: Format<GC>>(
    m: &ManyErrors<C, E, GC, F, GF>,
    out: &mut String,
)
    ensures
        final(out)@ == old(out)@ + marked_many::<M, C, E, GC, F, GF>(*m),
{
    let root = String::new();
    proof {
        assert(root@ =~= repeat(unit(), 0));
    }
    match m {
        ManyErrors::Empty => {
            write_no_errors(out);
        },
        ManyErrors::One(n) => {
            draw_marked_node::<M, C, E, GC, F, GF>(n, &root, Ghost(0), out);
        },
        ManyErrors::Many(v) => {
            write_error_count(out, v.len());
            write_char(out, ':');
            let row = deeper_by(&root, M::TOP_ROW, Ghost(0));
            proof {
                assert(decreases_to!(*m => (*m)->Many_0));
            }
            draw_marked_children::<M, C, E, GC, F, GF>(v, &row, Ghost(M::TOP_ROW as nat), out);
        },
    }
}

/// Appends one marked row per node of `nodes`, rows indented by `row`.
pub(crate) fn draw_marked_children<M: Marker, C, E: ErrorSource, GC, F: Format<WithContext<C, E, F>>, GF: Format<GC>>(
    nodes: &Vec<Node<C, E, GC, F, GF>>,
    row: &String,
    Ghost(units): Ghost<nat>,
    out: &mut String,
)
    requires
        row@ == repeat(unit(), units),
    ensures
        final(out)@ == old(out)@ + marked_children::<M, C, E, GC, F, GF>(nodes@, nodes@.len() as int, units),
    decreases nodes@, 0int,
{
    let ghost start = out@;
    let content = deeper(row);
    let mut i: usize = 0;
    while i < nodes.len()
        invariant
            i <= nodes.len(),
            row@ == repeat(unit(), units),
            content@ == repeat(unit(), units + 1),
            out@ == start + marked_children::<M, C, E, GC, F, GF>(nodes@, i as int, units),
        decreases nodes.len() - i,
    {
        M::write_marker(out, row.as_str(), i);
        proof {
            assert(decreases_to!(nodes@ => nodes@[i as int]));
        }
        draw_marked_node::<M, C, E, GC, F, GF>(&nodes[i], &content, Ghost(units + 1), out);
        proof {
            if i == 0 {
                assert(marked_children::<M, C, E, GC, F, GF>(nodes@, 0, units) =~= Seq::<char>::empty());
            }
        }
        i = i + 1;
    }
}

/// Appends one node whose own text re-indents to `content`.
pub(crate) fn draw_marked_node<M: Marker, C, E: ErrorSource, GC, F: Format<WithContext<C, E, F>>, GF: Format<GC>>(
    n: &Node<C, E, GC, F, GF>,
    content: &String,
    Ghost(units): Ghost<nat>,
    out: &mut String,
)
    requires
        content@ == repeat(unit(), units),
    ensures
        final(out)@ == old(out)@ + marked_node::<M, C, E, GC, F, GF>(*n, units),
    decreases n, 0int,
{
    match n {
        Node::Leaf(w) => {
            let mut text = String::new();
            write_leaf_chain(w, &mut text);
            write_indented(out, content.as_str(), text.as_str());
        },
        Node::Group(g) => {
            let mut label = String::new();
            GF::fmt(&g.context, &mut label);
            write_indented(out, content.as_str(), label.as_str());
            let ghost mid = out@;
            match &*g.errors {
                ManyErrors::Empty => {
                    write_colon_space(out);
                    write_no_errors(out);
                    assert(out@ =~= mid + (colon_space() + no_errors()));
                },
                ManyErrors::One(inner) => {
                    write_colon_space(out);
                    draw_marked_node::<M, C, E, GC, F, GF>(inner, content, Ghost(units), out);
                    assert(out@ =~= mid + (colon_space() + marked_node::<M, C, E, GC, F, GF>(*inner, units)));
                },
                ManyErrors::Many(v) => {
                    write_open_paren(out);
                    write_error_count(out, v.len());
                    write_char(out, ')');
                    write_char(out, ':');
                    let row = deeper_by(content, M::GROUP_ROW_OFFSET, Ghost(units));
                    proof {
                        assert(decreases_to!(*n => (*n)->Group_0));
                        assert(decreases_to!((*n)->Group_0 => (*n)->Group_0.errors));
                        assert(decreases_to!(*(*n)->Group_0.errors => (*(*n)->Group_0.errors)->Many_0));
                    }
                    let ghost before_rows = out@;
                    draw_marked_children::<M, C, E, GC, F, GF>(v, &row, Ghost((units + M::GROUP_ROW_OFFSET) as nat), out);
                    assert(out@ =~= mid + (open_paren() + decimal(v.len() as nat) + errors_word() + seq![')', ':']
                        + marked_children::<M, C, E, GC, F, GF>(v@, v.len() as int, (units + M::GROUP_ROW_OFFSET) as nat)));
                },
            }
        },
    }
}

} // verus!
