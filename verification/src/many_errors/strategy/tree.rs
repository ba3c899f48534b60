//! [`Tree`]: render a [`ManyErrors`] as a branching box-drawing tree.
//!
//! The ancestry path is `levels`, one flag per ancestor depth: `true` if that
//! ancestor was the last child (a blank gap continues under it), `false`
//! otherwise (a vertical bar continues under it).

use vstd::prelude::*;

use core::marker::PhantomData;

use crate::connectors::{TreeConnectors, Unicode};
use crate::many_errors::{ManyErrors, Node};
use crate::text::{
    decimal, errors_word, indent, no_errors, open_paren, repeat, texts, colon_space, write_char,
    write_colon_space, write_error_count, write_indented, write_no_errors, write_open_paren, write_repeat,
    write_str,
};
use crate::with_context::WithContext;
use crate::{chain, error_chain, ErrorSource, Format};

verus! {

/// Aggregate strategy that renders a [`ManyErrors`] as a branching tree drawn
/// with the glyph set `Conn`; `Header` selects whether a level with two or
/// more children starts with `"N errors:"` ([`WithHeader`], the default) or
/// not ([`NoHeader`]).
#[derive(Debug, Default, Clone, Copy, PartialEq, Eq, Hash)]
pub struct Tree<Conn = Unicode, Header = WithHeader>(PhantomData<(Conn, Header)>);

/// Type-level switch for the count header of a [`Tree`].
pub trait HeaderSwitch {
    /// Whether the `"N errors:"` header is printed.
    const SHOW: bool;
}

/// Print the `"N errors:"` header.
#[derive(Debug, Default, Clone, Copy, PartialEq, Eq, Hash)]
pub struct WithHeader;

impl HeaderSwitch for WithHeader {
    const SHOW: bool = true;
}

/// Omit the `"N errors:"` header.
#[derive(Debug, Default, Clone, Copy, PartialEq, Eq, Hash)]
pub struct NoHeader;

impl HeaderSwitch for NoHeader {
    const SHOW: bool = false;
}

/// The ancestry prefix: a gap under each ancestor that was a last child, a
/// bar under each other ancestor.
pub open spec fn pad<Conn: TreeConnectors>(levels: Seq<bool>) -> Seq<char>
    decreases levels.len(),
{
    if levels.len() == 0 {
        Seq::empty()
    } else {
        pad::<Conn>(levels.drop_last()) + if levels.last() {
            Conn::GAP@
        } else {
            Conn::VERT@
        }
    }
}

/// The source lines under a leaf whose content sits after `base`: the source
/// at index `d` starts a new line with `base`, `d` gaps and the last-child
/// glyph, its own line feeds re-indented one gap deeper.
pub open spec fn tree_sources<Conn: TreeConnectors>(sources: Seq<Seq<char>>, base: Seq<char>) -> Seq<char>
    decreases sources.len(),
{
    if sources.len() == 0 {
        Seq::empty()
    } else {
        let d = (sources.len() - 1) as nat;
        tree_sources::<Conn>(sources.drop_last(), base) + seq!['\n'] + base + repeat(Conn::GAP@, d)
            + Conn::LAST@ + indent(sources.last(), base + repeat(Conn::GAP@, d + 1))
    }
}

/// The tree rendering of `m` under the ancestry `levels`.
pub open spec fn tree_many<Conn: TreeConnectors, C, E: ErrorSource, GC, F: Format<WithContext<C, E, F>>, GF: Format<GC>>(
    m: ManyErrors<C, E, GC, F, GF>,
    levels: Seq<bool>,
    header: bool,
) -> Seq<char>
    decreases m, 0int,
{
    match m {
        ManyErrors::Empty => no_errors(),
        ManyErrors::One(n) => tree_node::<Conn, C, E, GC, F, GF>(n, levels),
        ManyErrors::Many(v) => if header {
            decimal(v.len() as nat) + errors_word() + seq![':'] + tree_children::<Conn, C, E, GC, F, GF>(
                v@,
                v.len() as int,
                levels,
                true,
            )
        } else {
            tree_children::<Conn, C, E, GC, F, GF>(v@, v.len() as int, levels, false)
        },
    }
}

/// The first `k` of `nodes` as branches under `levels`; `lead` puts a line
/// feed before the first branch too.
pub open spec fn tree_children<Conn: TreeConnectors, C, E: ErrorSource, GC, F: Format<WithContext<C, E, F>>, GF: Format<GC>>(
    nodes: Seq<Node<C, E, GC, F, GF>>,
    k: int,
    levels: Seq<bool>,
    lead: bool,
) -> Seq<char>
    decreases nodes, k,
{
    if k <= 0 || k > nodes.len() {
        Seq::empty()
    } else {
        let i = k - 1;
        let is_last = i == nodes.len() - 1;
        tree_children::<Conn, C, E, GC, F, GF>(nodes, i, levels, lead) + (if i == 0 && !lead {
            Seq::empty()
        } else {
            seq!['\n']
        }) + pad::<Conn>(levels) + (if is_last {
            Conn::LAST@
        } else {
            Conn::BRANCH@
        }) + tree_node::<Conn, C, E, GC, F, GF>(nodes[i], levels.push(is_last))
    }
}

/// One node, after its connector has been drawn.
pub open spec fn tree_node<Conn: TreeConnectors, C, E: ErrorSource, GC, F: Format<WithContext<C, E, F>>, GF: Format<GC>>(
    n: Node<C, E, GC, F, GF>,
    levels: Seq<bool>,
) -> Seq<char>
    decreases n, 0int,
{
    let base = pad::<Conn>(levels);
    match n {
        Node::Leaf(w) => indent(F::spec_fmt(&w), base) + tree_sources::<Conn>(w.error.spec_sources(), base),
        Node::Group(g) => {
            let label = GF::spec_fmt(&g.context);
            match *g.errors {
                ManyErrors::Empty => indent(label + colon_space() + no_errors(), base),
                ManyErrors::One(inner) => indent(label + colon_space(), base) + tree_node::<
                    Conn,
                    C,
                    E,
                    GC,
                    F,
                    GF,
                >(inner, levels),
                ManyErrors::Many(v) => indent(
                    label + open_paren() + decimal(v.len() as nat) + errors_word() + seq![')', ':'],
                    base,
                ) + tree_children::<Conn, C, E, GC, F, GF>(v@, v.len() as int, levels, true),
            }
        },
    }
}

/// Appends the ancestry prefix of `levels` followed by `extra` gaps.
fn write_pad<Conn: TreeConnectors>(out: &mut String, levels: &Vec<bool>, extra: usize)
    ensures
        final(out)@ == old(out)@ + pad::<Conn>(levels@) + repeat(Conn::GAP@, extra as nat),
{
    let ghost start = out@;
    let mut i: usize = 0;
    while i < levels.len()
        invariant
            i <= levels.len(),
            out@ == start + pad::<Conn>(levels@.take(i as int)),
        decreases levels.len() - i,
    {
        if levels[i] {
            write_str(out, Conn::GAP);
        } else {
            write_str(out, Conn::VERT);
        }
        proof {
            assert(levels@.take(i + 1).drop_last() =~= levels@.take(i as int));
        }
        i = i + 1;
    }
    proof {
        assert(levels@.take(i as int) =~= levels@);
    }
    write_repeat(out, Conn::GAP, extra);
}

/// The ancestry prefix of `levels`, as a string.
fn pad_string<Conn: TreeConnectors>(levels: &Vec<bool>, extra: usize) -> (s: String)
    ensures
        s@ == pad::<Conn>(levels@) + repeat(Conn::GAP@, extra as nat),
{
    let mut s = String::new();
    write_pad::<Conn>(&mut s, levels, extra);
    s
}

/// Appends the source lines of `error` under a leaf drawn after `levels`.
pub(crate) fn draw_error_chain<Conn: TreeConnectors, E: ErrorSource>(error: &E, levels: &Vec<bool>, out: &mut String)
    ensures
        final(out)@ == old(out)@ + tree_sources::<Conn>(error.spec_sources(), pad::<Conn>(levels@)),
{
    let parts = chain(error);
    let ghost sources = error.spec_sources();
    let ghost base = pad::<Conn>(levels@);
    let ghost start = out@;
    proof {
        assert(texts(parts@).len() == parts@.len());
        assert(error_chain(error).len() == 1 + sources.len());
        assert(sources.take(0) =~= Seq::<Seq<char>>::empty());
    }
    let mut j: usize = 1;
    while j < parts.len()
        invariant
            1 <= j <= parts.len(),
            texts(parts@) == error_chain(error),
            sources == error.spec_sources(),
            parts@.len() == 1 + sources.len(),
            base == pad::<Conn>(levels@),
            out@ == start + tree_sources::<Conn>(sources.take(j - 1), base),
        decreases parts.len() - j,
    {
        let depth = j - 1;
        write_char(out, '\n');
        write_pad::<Conn>(out, levels, depth);
        write_str(out, Conn::LAST);
        let prefix = pad_string::<Conn>(levels, depth + 1);
        write_indented(out, prefix.as_str(), parts[j].as_str());
        proof {
            assert(texts(parts@)[j as int] == parts@[j as int]@);
            assert(error_chain(error)[j as int] == sources[j - 1]);
            let sub = sources.take(j as int);
            assert(sub.drop_last() =~= sources.take(j - 1));
            assert(sub.last() == sources[j - 1]);
            assert(out@ =~= start + tree_sources::<Conn>(sub, base));
        }
        j = j + 1;
    }
    proof {
        assert(sources.take(j - 1) =~= sources);
    }
}

/// Appends the tree rendering of `m` under the ancestry `levels`.
pub(crate) fn draw_many<Conn: TreeConnectors, C, E: ErrorSource, GC, F: Format<WithContext<C, E, F>>, GF: Format<GC>>(
    m: &ManyErrors<C, E, GC, F, GF>,
    levels: &mut Vec<bool>,
    header: bool,
    out: &mut String,
)
    ensures
        final(levels)@ == old(levels)@,
        final(out)@ == old(out)@ + tree_many::<Conn, C, E, GC, F, GF>(*m, old(levels)@, header),
    decreases m, 0int,
{
    match m {
        ManyErrors::Empty => {
            write_no_errors(out);
        },
        ManyErrors::One(n) => {
            draw_node::<Conn, C, E, GC, F, GF>(n, levels, out);
        },
        ManyErrors::Many(v) => {
            proof {
                assert(decreases_to!(*m => (*m)->Many_0));
            }
            if header {
                write_error_count(out, v.len());
                write_char(out, ':');
                draw_children::<Conn, C, E, GC, F, GF>(v, levels, true, out);
            } else {
                draw_children::<Conn, C, E, GC, F, GF>(v, levels, false, out);
            }
        },
    }
}

/// Appends every node of `nodes` as a branch under `levels`.
pub(crate) fn draw_children<Conn: TreeConnectors, C, E: ErrorSource, GC, F: Format<WithContext<C, E, F>>, GF: Format<GC>>(
    nodes: &Vec<Node<C, E, GC, F, GF>>,
    levels: &mut Vec<bool>,
    lead: bool,
    out: &mut String,
)
    ensures
        final(levels)@ == old(levels)@,
        final(out)@ == old(out)@ + tree_children::<Conn, C, E, GC, F, GF>(nodes@, nodes@.len() as int, old(levels)@, lead),
    decreases nodes@, 0int,
{
    let ghost start = out@;
    let ghost lv = levels@;
    let n = nodes.len();
    let mut i: usize = 0;
    while i < n
        invariant
            n == nodes@.len(),
            i <= n,
            levels@ == lv,
            out@ == start + tree_children::<Conn, C, E, GC, F, GF>(nodes@, i as int, lv, lead),
        decreases n - i,
    {
        if i > 0 || lead {
            write_char(out, '\n');
        }
        write_pad::<Conn>(out, levels, 0);
        let is_last = i == n - 1;
        if is_last {
            write_str(out, Conn::LAST);
        } else {
            write_str(out, Conn::BRANCH);
        }
        levels.push(is_last);
        proof {
            assert(decreases_to!(nodes@ => nodes@[i as int]));
        }
        draw_node::<Conn, C, E, GC, F, GF>(&nodes[i], levels, out);
        levels.pop();
        proof {
            assert(levels@ =~= lv);
            if i == 0 {
                assert(tree_children::<Conn, C, E, GC, F, GF>(nodes@, 0, lv, lead) =~= Seq::<char>::empty());
            }
        }
        i = i + 1;
    }
}

/// Appends a leaf after its connector: the pair's text, then its sources.
fn draw_leaf<Conn: TreeConnectors, C, E: ErrorSource, F: Format<WithContext<C, E, F>>>(
    w: &WithContext<C, E, F>,
    levels: &mut Vec<bool>,
    out: &mut String,
)
    ensures
        final(levels)@ == old(levels)@,
        final(out)@ == old(out)@ + indent(F::spec_fmt(w), pad::<Conn>(old(levels)@)) + tree_sources::<Conn>(
            w.error.spec_sources(),
            pad::<Conn>(old(levels)@),
        ),
{
    let prefix = pad_string::<Conn>(levels, 0);
    proof {
        assert(prefix@ =~= pad::<Conn>(levels@));
    }
    let mut content = String::new();
    F::fmt(w, &mut content);
    write_indented(out, prefix.as_str(), content.as_str());
    draw_error_chain::<Conn, E>(&w.error, levels, out);
}

/// Appends one node after its connector.
pub(crate) fn draw_node<Conn: TreeConnectors, C, E: ErrorSource, GC, F: Format<WithContext<C, E, F>>, GF: Format<GC>>(
    n: &Node<C, E, GC, F, GF>,
    levels: &mut Vec<bool>,
    out: &mut String,
)
    ensures
        final(levels)@ == old(levels)@,
        final(out)@ == old(out)@ + tree_node::<Conn, C, E, GC, F, GF>(*n, old(levels)@),
    decreases n, 0int,
{
    match n {
        Node::Leaf(w) => {
            draw_leaf::<Conn, C, E, F>(w, levels, out);
            assert(out@ =~= old(out)@ + tree_node::<Conn, C, E, GC, F, GF>(*n, old(levels)@));
        },
        Node::Group(g) => {
            let prefix = pad_string::<Conn>(levels, 0);
            proof {
                assert(prefix@ =~= pad::<Conn>(levels@));
            }
            let mut content = String::new();
            GF::fmt(&g.context, &mut content);
            match &*g.errors {
                ManyErrors::Empty => {
                    write_colon_space(&mut content);
                    write_no_errors(&mut content);
                    write_indented(out, prefix.as_str(), content.as_str());
                    assert(out@ =~= old(out)@ + tree_node::<Conn, C, E, GC, F, GF>(*n, old(levels)@));
                },
                ManyErrors::One(inner) => {
                    write_colon_space(&mut content);
                    write_indented(out, prefix.as_str(), content.as_str());
                    draw_node::<Conn, C, E, GC, F, GF>(inner, levels, out);
                },
                ManyErrors::Many(v) => {
                    write_open_paren(&mut content);
                    write_error_count(&mut content, v.len());
                    write_char(&mut content, ')');
                    write_char(&mut content, ':');
                    assert(content@ =~= GF::spec_fmt(&g.context) + open_paren() + decimal(v.len() as nat)
                        + errors_word() + seq![')', ':']);
                    write_indented(out, prefix.as_str(), content.as_str());
                    proof {
                        assert(decreases_to!(*n => (*n)->Group_0));
                        assert(decreases_to!((*n)->Group_0 => (*n)->Group_0.errors));
                        assert(decreases_to!(*(*n)->Group_0.errors => (*(*n)->Group_0.errors)->Many_0));
                    }
                    draw_children::<Conn, C, E, GC, F, GF>(v, levels, true, out);
                },
            }
        },
    }
}

impl<C, E: ErrorSource, GC, F: Format<WithContext<C, E, F>>, GF: Format<GC>, Conn: TreeConnectors, Header: HeaderSwitch> Format<ManyErrors<C, E, GC, F, GF>> for Tree<Conn, Header> {
    open spec fn spec_fmt(m: &ManyErrors<C, E, GC, F, GF>) -> Seq<char> {
        tree_many::<Conn, C, E, GC, F, GF>(*m, Seq::empty(), Header::SHOW)
    }

    fn fmt(m: &ManyErrors<C, E, GC, F, GF>, out: &mut String) {
        let mut levels: Vec<bool> = Vec::new();
        draw_many::<Conn, C, E, GC, F, GF>(m, &mut levels, Header::SHOW, out);
    }
}

impl<'a, T: ?Sized, Conn, Header> Format<&'a T> for Tree<Conn, Header> where Tree<Conn, Header>: Format<T> {
    open spec fn spec_fmt(value: &&'a T) -> Seq<char> {
        <Tree<Conn, Header> as Format<T>>::spec_fmt(*value)
    }

    fn fmt(value: &&'a T, out: &mut String) {
        <Tree<Conn, Header> as Format<T>>::fmt(*value, out);
    }
}

} // verus!
