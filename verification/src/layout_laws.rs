//! Closed forms of the aggregate layouts: where each row of a [`Tree`], a
//! [`List`] or [`Bullets`] rendering and a [`Joined`] or [`Inline`] line sits,
//! written front to back with explicit depths and indices, and proved equal to
//! what the renderers produce.

use vstd::prelude::*;

use crate::many_errors::strategy::{
    leaf_chain, line_many, line_node, line_nodes, marked_children, marked_many, marked_node, pad, tree_children,
    tree_node, tree_sources, unit, HeaderSwitch, Marker, Summary,
};
use crate::many_errors::{leaves, Bullets, Inline, Joined, List, ManyErrors, Node, Subgroup, Tree};
use crate::text::{colon_space, decimal, errors_word, indent, join, no_errors, open_paren, repeat, semicolon_space};
use crate::with_context::WithContext;
use crate::{ErrorSource, Format, TreeConnectors};

verus! {

/// The line of one source drawn `depth` gaps past `base`: a line feed, `base`,
/// `depth` gaps, the last-child glyph, then the source re-indented one gap
/// deeper.
pub open spec fn rung<Conn: TreeConnectors>(source: Seq<char>, base: Seq<char>, depth: nat) -> Seq<char> {
    seq!['\n'] + base + repeat(Conn::GAP@, depth) + Conn::LAST@ + indent(source, base + repeat(Conn::GAP@, depth + 1))
}

/// The lines of `sources` below a leaf whose content sits after `base`, the
/// first at `depth` gaps and each next one a gap deeper than the one before.
pub open spec fn ladder<Conn: TreeConnectors>(sources: Seq<Seq<char>>, base: Seq<char>, depth: nat) -> Seq<char>
    decreases sources.len(),
{
    if sources.len() == 0 {
        Seq::empty()
    } else {
        rung::<Conn>(sources[0], base, depth) + ladder::<Conn>(sources.drop_first(), base, depth + 1)
    }
}

/// Appending a source to a ladder adds one rung, at the depth equal to the
/// number of sources before it.
proof fn lemma_ladder_push<Conn: TreeConnectors>(sources: Seq<Seq<char>>, last: Seq<char>, base: Seq<char>, depth: nat)
    ensures
        ladder::<Conn>(sources.push(last), base, depth) == ladder::<Conn>(sources, base, depth) + rung::<Conn>(
            last,
            base,
            depth + sources.len(),
        ),
    decreases sources.len(),
{
    if sources.len() == 0 {
        let one = sources.push(last);
        assert(one.len() == 1 && one[0] == last);
        assert(one.drop_first().len() == 0);
        assert(ladder::<Conn>(one.drop_first(), base, depth + 1) == Seq::<char>::empty());
        assert(ladder::<Conn>(one, base, depth) =~= rung::<Conn>(last, base, depth));
        assert(ladder::<Conn>(sources, base, depth) == Seq::<char>::empty());
        assert(ladder::<Conn>(sources, base, depth) + rung::<Conn>(last, base, depth) =~= rung::<Conn>(last, base, depth));
    } else {
        assert(sources.push(last).drop_first() =~= sources.drop_first().push(last));
        lemma_ladder_push::<Conn>(sources.drop_first(), last, base, depth + 1);
        assert(ladder::<Conn>(sources.push(last), base, depth) =~= ladder::<Conn>(sources, base, depth) + rung::<
            Conn,
        >(last, base, depth + sources.len()));
    }
}

/// In a tree, each source of a leaf's chain hangs one gap deeper than the
/// source before it: the source at index `d` starts its line with the leaf's
/// ancestry, exactly `d` gaps and the last-child glyph.
pub proof fn law_tree_sources_ladder<Conn: TreeConnectors>(sources: Seq<Seq<char>>, base: Seq<char>)
    ensures
        tree_sources::<Conn>(sources, base) == ladder::<Conn>(sources, base, 0),
    decreases sources.len(),
{
    if sources.len() > 0 {
        law_tree_sources_ladder::<Conn>(sources.drop_last(), base);
        assert(sources.drop_last().push(sources.last()) =~= sources);
        lemma_ladder_push::<Conn>(sources.drop_last(), sources.last(), base, 0);
        assert(tree_sources::<Conn>(sources, base) =~= ladder::<Conn>(sources, base, 0));
    }
}

/// Re-indenting with an empty prefix changes nothing.
proof fn lemma_indent_empty_prefix(content: Seq<char>)
    ensures
        indent(content, Seq::empty()) == content,
    decreases content.len(),
{
    if content.len() > 0 {
        lemma_indent_empty_prefix(content.drop_last());
        assert(content.drop_last() + seq![content.last()] =~= content);
        assert(indent(content, Seq::empty()) =~= content);
    }
}

/// A tree holding one leaf renders the leaf's text, then its sources as a
/// ladder from the left margin, each a gap deeper than the one before.
pub proof fn law_tree_single_leaf<Conn: TreeConnectors, H: HeaderSwitch, C, E: ErrorSource, GC, F: Format<WithContext<C, E, F>>, GF: Format<GC>>(
    w: WithContext<C, E, F>,
)
    ensures
        <Tree<Conn, H> as Format<ManyErrors<C, E, GC, F, GF>>>::spec_fmt(
            &ManyErrors::<C, E, GC, F, GF>::One(Node::Leaf(w)),
        ) == F::spec_fmt(&w) + ladder::<Conn>(w.error.spec_sources(), Seq::empty(), 0),
{
    assert(pad::<Conn>(Seq::empty()) =~= Seq::<char>::empty());
    lemma_indent_empty_prefix(F::spec_fmt(&w));
    law_tree_sources_ladder::<Conn>(w.error.spec_sources(), Seq::empty());
}

/// The branch of leaf `w` under the ancestry text `base`: a line feed, `base`,
/// the last-child or branch glyph, the leaf's text re-indented under its
/// continuation (a gap under a last child, a bar under any other), then its
/// sources as a ladder under that continuation.
pub open spec fn leaf_branch<Conn: TreeConnectors, C, E: ErrorSource, F: Format<WithContext<C, E, F>>>(
    w: WithContext<C, E, F>,
    base: Seq<char>,
    last: bool,
) -> Seq<char> {
    let cont = base + if last {
        Conn::GAP@
    } else {
        Conn::VERT@
    };
    seq!['\n'] + base + (if last {
        Conn::LAST@
    } else {
        Conn::BRANCH@
    }) + indent(F::spec_fmt(&w), cont) + ladder::<Conn>(w.error.spec_sources(), cont, 0)
}

/// The branches of the leaves `ws` from index `i` on, all under the ancestry
/// text `base`, the final one drawn as the last child.
pub open spec fn leaf_branches<Conn: TreeConnectors, C, E: ErrorSource, F: Format<WithContext<C, E, F>>>(
    ws: Seq<WithContext<C, E, F>>,
    base: Seq<char>,
    i: int,
) -> Seq<char>
    decreases ws.len() - i,
{
    if i < 0 || i >= ws.len() {
        Seq::empty()
    } else {
        leaf_branch::<Conn, C, E, F>(ws[i], base, i == ws.len() - 1) + leaf_branches::<Conn, C, E, F>(ws, base, i + 1)
    }
}

/// The ancestry text of one more level: the parent's, then a gap under a last
/// child or a bar under any other.
proof fn lemma_pad_push<Conn: TreeConnectors>(levels: Seq<bool>, last: bool)
    ensures
        pad::<Conn>(levels.push(last)) == pad::<Conn>(levels) + if last {
            Conn::GAP@
        } else {
            Conn::VERT@
        },
{
    assert(levels.push(last).drop_last() =~= levels);
}

/// The first `k` leaf children under `levels`, followed by the branches from
/// `k` on, are all the branches.
proof fn lemma_tree_leaf_children<Conn: TreeConnectors, C, E: ErrorSource, GC, F: Format<WithContext<C, E, F>>, GF: Format<GC>>(
    ws: Seq<WithContext<C, E, F>>,
    k: int,
    levels: Seq<bool>,
)
    requires
        0 <= k <= ws.len(),
    ensures
        tree_children::<Conn, C, E, GC, F, GF>(leaves::<C, E, GC, F, GF>(ws), k, levels, true)
            + leaf_branches::<Conn, C, E, F>(ws, pad::<Conn>(levels), k) == leaf_branches::<Conn, C, E, F>(
            ws,
            pad::<Conn>(levels),
            0,
        ),
    decreases k,
{
    let nodes = leaves::<C, E, GC, F, GF>(ws);
    let base = pad::<Conn>(levels);
    if k == 0 {
        assert(tree_children::<Conn, C, E, GC, F, GF>(nodes, 0, levels, true) =~= Seq::<char>::empty());
        assert(Seq::<char>::empty() + leaf_branches::<Conn, C, E, F>(ws, base, 0) =~= leaf_branches::<Conn, C, E, F>(
            ws,
            base,
            0,
        ));
    } else {
        let i = k - 1;
        lemma_tree_leaf_children::<Conn, C, E, GC, F, GF>(ws, i, levels);
        let last = i == ws.len() - 1;
        let lv = levels.push(last);
        assert(nodes.len() == ws.len());
        assert(nodes[i] == Node::<C, E, GC, F, GF>::Leaf(ws[i]));
        lemma_pad_push::<Conn>(levels, last);
        law_tree_sources_ladder::<Conn>(ws[i].error.spec_sources(), pad::<Conn>(lv));
        let row = leaf_branch::<Conn, C, E, F>(ws[i], base, last);
        assert(tree_node::<Conn, C, E, GC, F, GF>(nodes[i], lv) == indent(F::spec_fmt(&ws[i]), pad::<Conn>(lv))
            + tree_sources::<Conn>(ws[i].error.spec_sources(), pad::<Conn>(lv)));
        assert(seq!['\n'] + base + (if last {
            Conn::LAST@
        } else {
            Conn::BRANCH@
        }) + tree_node::<Conn, C, E, GC, F, GF>(nodes[i], lv) =~= row);
        assert(tree_children::<Conn, C, E, GC, F, GF>(nodes, k, levels, true) =~= tree_children::<
            Conn,
            C,
            E,
            GC,
            F,
            GF,
        >(nodes, i, levels, true) + row);
        assert(leaf_branches::<Conn, C, E, F>(ws, base, i) == row + leaf_branches::<Conn, C, E, F>(ws, base, k));
        assert(tree_children::<Conn, C, E, GC, F, GF>(nodes, i, levels, true) + row + leaf_branches::<Conn, C, E, F>(
            ws,
            base,
            k,
        ) =~= tree_children::<Conn, C, E, GC, F, GF>(nodes, i, levels, true) + (row + leaf_branches::<
            Conn,
            C,
            E,
            F,
        >(ws, base, k)));
    }
}

/// In a tree, the children of a group of leaves hang under the group's own
/// ancestry unchanged: each branch starts its line with the ancestry text of
/// the group's level (a gap under every last ancestor, the group included),
/// and the final child takes the last-child glyph.
pub proof fn law_tree_group_of_leaves<Conn: TreeConnectors, C, E: ErrorSource, GC, F: Format<WithContext<C, E, F>>, GF: Format<GC>>(
    g: Subgroup<C, E, GC, F, GF>,
    ws: Seq<WithContext<C, E, F>>,
    levels: Seq<bool>,
)
    requires
        *g.errors is Many,
        (*g.errors)->Many_0@ == leaves::<C, E, GC, F, GF>(ws),
    ensures
        tree_node::<Conn, C, E, GC, F, GF>(Node::Group(g), levels) == indent(
            GF::spec_fmt(&g.context) + open_paren() + decimal(ws.len()) + errors_word() + seq![')', ':'],
            pad::<Conn>(levels),
        ) + leaf_branches::<Conn, C, E, F>(ws, pad::<Conn>(levels), 0),
{
    let v = (*g.errors)->Many_0;
    assert(v.len() == ws.len());
    lemma_tree_leaf_children::<Conn, C, E, GC, F, GF>(ws, ws.len() as int, levels);
    assert(leaf_branches::<Conn, C, E, F>(ws, pad::<Conn>(levels), ws.len() as int) =~= Seq::<char>::empty());
    assert(tree_children::<Conn, C, E, GC, F, GF>(v@, v.len() as int, levels, true) =~= leaf_branches::<
        Conn,
        C,
        E,
        F,
    >(ws, pad::<Conn>(levels), 0));
}

/// A tree whose last child is a group of leaves: the group's rows continue
/// under a gap, never under a bar, since nothing follows the group. With the
/// count header the rows follow `"2 errors:"`; without it the first row starts
/// the text.
pub proof fn law_tree_last_group_hangs_under_gap<Conn: TreeConnectors, H: HeaderSwitch, C, E: ErrorSource, GC, F: Format<WithContext<C, E, F>>, GF: Format<GC>>(
    m: ManyErrors<C, E, GC, F, GF>,
    w: WithContext<C, E, F>,
    g: Subgroup<C, E, GC, F, GF>,
    ws: Seq<WithContext<C, E, F>>,
)
    requires
        m is Many,
        m->Many_0@ == seq![Node::Leaf(w), Node::Group(g)],
        *g.errors is Many,
        (*g.errors)->Many_0@ == leaves::<C, E, GC, F, GF>(ws),
    ensures
        ({
            let rows = leaf_branch::<Conn, C, E, F>(w, Seq::empty(), false) + seq!['\n'] + Conn::LAST@ + indent(
                GF::spec_fmt(&g.context) + open_paren() + decimal(ws.len()) + errors_word() + seq![')', ':'],
                Conn::GAP@,
            ) + leaf_branches::<Conn, C, E, F>(ws, Conn::GAP@, 0);
            let text = <Tree<Conn, H> as Format<ManyErrors<C, E, GC, F, GF>>>::spec_fmt(&m);
            &&& H::SHOW ==> text == decimal(2) + errors_word() + seq![':'] + rows
            &&& !H::SHOW ==> seq!['\n'] + text == rows
        }),
{
    let v = m->Many_0;
    let top = Seq::<bool>::empty();
    assert(pad::<Conn>(top) =~= Seq::<char>::empty());
    lemma_pad_push::<Conn>(top, false);
    lemma_pad_push::<Conn>(top, true);
    assert(pad::<Conn>(top.push(false)) =~= Conn::VERT@);
    assert(pad::<Conn>(top.push(true)) =~= Conn::GAP@);
    law_tree_sources_ladder::<Conn>(w.error.spec_sources(), Conn::VERT@);
    assert(Seq::<char>::empty() + Conn::VERT@ =~= Conn::VERT@);
    assert(tree_node::<Conn, C, E, GC, F, GF>(Node::Leaf(w), top.push(false)) == indent(F::spec_fmt(&w), Conn::VERT@)
        + tree_sources::<Conn>(w.error.spec_sources(), Conn::VERT@));
    law_tree_group_of_leaves::<Conn, C, E, GC, F, GF>(g, ws, top.push(true));
    assert(v@[0] == Node::<C, E, GC, F, GF>::Leaf(w));
    assert(v@[1] == Node::<C, E, GC, F, GF>::Group(g));
    assert(v.len() == 2);
    let first = leaf_branch::<Conn, C, E, F>(w, Seq::empty(), false);
    let header = GF::spec_fmt(&g.context) + open_paren() + decimal(ws.len()) + errors_word() + seq![')', ':'];
    let second = seq!['\n'] + Conn::LAST@ + (indent(header, Conn::GAP@) + leaf_branches::<Conn, C, E, F>(ws, Conn::GAP@, 0));
    let rows = first + seq!['\n'] + Conn::LAST@ + indent(header, Conn::GAP@) + leaf_branches::<Conn, C, E, F>(ws, Conn::GAP@, 0);
    assert(first + second =~= rows);
    let text = <Tree<Conn, H> as Format<ManyErrors<C, E, GC, F, GF>>>::spec_fmt(&m);
    if H::SHOW {
        assert(tree_children::<Conn, C, E, GC, F, GF>(v@, 0, top, true) =~= Seq::<char>::empty());
        assert(tree_children::<Conn, C, E, GC, F, GF>(v@, 1, top, true) =~= first);
        assert(tree_children::<Conn, C, E, GC, F, GF>(v@, 2, top, true) =~= first + second);
        assert(text =~= decimal(2) + errors_word() + seq![':'] + rows);
    } else {
        assert(tree_children::<Conn, C, E, GC, F, GF>(v@, 0, top, false) =~= Seq::<char>::empty());
        assert(seq!['\n'] + tree_children::<Conn, C, E, GC, F, GF>(v@, 1, top, false) =~= first);
        assert(tree_children::<Conn, C, E, GC, F, GF>(v@, 2, top, false) =~= tree_children::<Conn, C, E, GC, F, GF>(
            v@,
            1,
            top,
            false,
        ) + second);
        assert(seq!['\n'] + text =~= rows);
    }
}

/// The rows of the leaves `ws` from index `i` on, in a numbered or bulleted
/// list with row indent `row` units: each row is its marker, then the leaf's
/// chain re-indented one unit past the row.
pub open spec fn leaf_rows<M: Marker, C, E: ErrorSource, F: Format<WithContext<C, E, F>>>(
    ws: Seq<WithContext<C, E, F>>,
    row: nat,
    i: int,
) -> Seq<char>
    decreases ws.len() - i,
{
    if i < 0 || i >= ws.len() {
        Seq::empty()
    } else {
        M::spec_marker(repeat(unit(), row), i as nat) + indent(leaf_chain(&ws[i]), repeat(unit(), row + 1))
            + leaf_rows::<M, C, E, F>(ws, row, i + 1)
    }
}

/// The first `k` leaf rows, followed by the rows from `k` on, are all the
/// rows.
proof fn lemma_marked_leaf_children<M: Marker, C, E: ErrorSource, GC, F: Format<WithContext<C, E, F>>, GF: Format<GC>>(
    ws: Seq<WithContext<C, E, F>>,
    k: int,
    row: nat,
)
    requires
        0 <= k <= ws.len(),
    ensures
        marked_children::<M, C, E, GC, F, GF>(leaves::<C, E, GC, F, GF>(ws), k, row) + leaf_rows::<M, C, E, F>(
            ws,
            row,
            k,
        ) == leaf_rows::<M, C, E, F>(ws, row, 0),
    decreases k,
{
    let nodes = leaves::<C, E, GC, F, GF>(ws);
    if k == 0 {
        assert(marked_children::<M, C, E, GC, F, GF>(nodes, 0, row) =~= Seq::<char>::empty());
        assert(Seq::<char>::empty() + leaf_rows::<M, C, E, F>(ws, row, 0) =~= leaf_rows::<M, C, E, F>(ws, row, 0));
    } else {
        let i = k - 1;
        lemma_marked_leaf_children::<M, C, E, GC, F, GF>(ws, i, row);
        assert(nodes.len() == ws.len());
        assert(nodes[i] == Node::<C, E, GC, F, GF>::Leaf(ws[i]));
        let one = M::spec_marker(repeat(unit(), row), i as nat) + indent(leaf_chain(&ws[i]), repeat(unit(), row + 1));
        assert(marked_node::<M, C, E, GC, F, GF>(nodes[i], row + 1) == indent(leaf_chain(&ws[i]), repeat(unit(), row + 1)));
        assert(marked_children::<M, C, E, GC, F, GF>(nodes, k, row) =~= marked_children::<M, C, E, GC, F, GF>(
            nodes,
            i,
            row,
        ) + one);
        assert(leaf_rows::<M, C, E, F>(ws, row, i) == one + leaf_rows::<M, C, E, F>(ws, row, k));
        assert(marked_children::<M, C, E, GC, F, GF>(nodes, i, row) + one + leaf_rows::<M, C, E, F>(ws, row, k)
            =~= marked_children::<M, C, E, GC, F, GF>(nodes, i, row) + (one + leaf_rows::<M, C, E, F>(ws, row, k)));
    }
}

/// In a numbered or bulleted list, the rows of a group of leaves sit
/// `GROUP_ROW_OFFSET` units past the group's own content column, whatever that
/// column is: a group nested deeper lists its rows deeper.
pub proof fn law_marked_group_of_leaves<M: Marker, C, E: ErrorSource, GC, F: Format<WithContext<C, E, F>>, GF: Format<GC>>(
    g: Subgroup<C, E, GC, F, GF>,
    ws: Seq<WithContext<C, E, F>>,
    content: nat,
)
    requires
        *g.errors is Many,
        (*g.errors)->Many_0@ == leaves::<C, E, GC, F, GF>(ws),
    ensures
        marked_node::<M, C, E, GC, F, GF>(Node::Group(g), content) == indent(
            GF::spec_fmt(&g.context),
            repeat(unit(), content),
        ) + open_paren() + decimal(ws.len()) + errors_word() + seq![')', ':'] + leaf_rows::<M, C, E, F>(
            ws,
            (content + M::GROUP_ROW_OFFSET) as nat,
            0,
        ),
{
    let v = (*g.errors)->Many_0;
    let row = (content + M::GROUP_ROW_OFFSET) as nat;
    assert(v.len() == ws.len());
    lemma_marked_leaf_children::<M, C, E, GC, F, GF>(ws, ws.len() as int, row);
    assert(leaf_rows::<M, C, E, F>(ws, row, ws.len() as int) =~= Seq::<char>::empty());
    assert(marked_children::<M, C, E, GC, F, GF>(v@, v.len() as int, row) =~= leaf_rows::<M, C, E, F>(ws, row, 0));
    assert(marked_node::<M, C, E, GC, F, GF>(Node::Group(g), content) =~= indent(
        GF::spec_fmt(&g.context),
        repeat(unit(), content),
    ) + open_paren() + decimal(ws.len()) + errors_word() + seq![')', ':'] + leaf_rows::<M, C, E, F>(ws, row, 0));
}

/// A numbered or bulleted list holding one group of leaves: the label sits at
/// the left margin, and the rows `GROUP_ROW_OFFSET` units in from it.
pub proof fn law_marked_single_group<C, E: ErrorSource, GC, F: Format<WithContext<C, E, F>>, GF: Format<GC>>(
    m: ManyErrors<C, E, GC, F, GF>,
    g: Subgroup<C, E, GC, F, GF>,
    ws: Seq<WithContext<C, E, F>>,
)
    requires
        m == ManyErrors::<C, E, GC, F, GF>::One(Node::Group(g)),
        *g.errors is Many,
        (*g.errors)->Many_0@ == leaves::<C, E, GC, F, GF>(ws),
    ensures
        <List as Format<ManyErrors<C, E, GC, F, GF>>>::spec_fmt(&m) == GF::spec_fmt(&g.context) + open_paren()
            + decimal(ws.len()) + errors_word() + seq![')', ':'] + leaf_rows::<List, C, E, F>(
            ws,
            List::GROUP_ROW_OFFSET as nat,
            0,
        ),
        <Bullets as Format<ManyErrors<C, E, GC, F, GF>>>::spec_fmt(&m) == GF::spec_fmt(&g.context) + open_paren()
            + decimal(ws.len()) + errors_word() + seq![')', ':'] + leaf_rows::<Bullets, C, E, F>(
            ws,
            Bullets::GROUP_ROW_OFFSET as nat,
            0,
        ),
{
    assert(repeat(unit(), 0) =~= Seq::<char>::empty());
    lemma_indent_empty_prefix(GF::spec_fmt(&g.context));
    law_marked_group_of_leaves::<List, C, E, GC, F, GF>(g, ws, 0);
    law_marked_group_of_leaves::<Bullets, C, E, GC, F, GF>(g, ws, 0);
    assert(marked_many::<List, C, E, GC, F, GF>(m) == marked_node::<List, C, E, GC, F, GF>(Node::Group(g), 0));
    assert(marked_many::<Bullets, C, E, GC, F, GF>(m) == marked_node::<Bullets, C, E, GC, F, GF>(Node::Group(g), 0));
}

/// The chain of each leaf of `ws`: its text, then its sources, joined by
/// `": "`.
pub open spec fn leaf_chains<C, E: ErrorSource, F: Format<WithContext<C, E, F>>>(ws: Seq<WithContext<C, E, F>>) -> Seq<Seq<char>> {
    ws.map_values(|w: WithContext<C, E, F>| leaf_chain(&w))
}

/// One leaf on one line: its chain when `deep`, its own text otherwise.
pub open spec fn leaf_line<C, E: ErrorSource, F: Format<WithContext<C, E, F>>>(w: WithContext<C, E, F>, deep: bool) -> Seq<char> {
    if deep {
        leaf_chain(&w)
    } else {
        F::spec_fmt(&w)
    }
}

/// The own text of each leaf of `ws`, without its sources.
pub open spec fn leaf_texts<C, E: ErrorSource, F: Format<WithContext<C, E, F>>>(ws: Seq<WithContext<C, E, F>>) -> Seq<Seq<char>> {
    ws.map_values(|w: WithContext<C, E, F>| F::spec_fmt(&w))
}

/// The first `k` leaves on one line: their lines joined by `"; "`.
proof fn lemma_line_leaf_nodes<C, E: ErrorSource, GC, F: Format<WithContext<C, E, F>>, GF: Format<GC>>(
    ws: Seq<WithContext<C, E, F>>,
    k: int,
    deep: bool,
    empty: Seq<char>,
)
    requires
        0 <= k <= ws.len(),
    ensures
        line_nodes(leaves::<C, E, GC, F, GF>(ws), k, deep, empty) == join(
            ws.map_values(|w: WithContext<C, E, F>| leaf_line(w, deep)).take(k),
            semicolon_space(),
        ),
    decreases k,
{
    let nodes = leaves::<C, E, GC, F, GF>(ws);
    let lines = ws.map_values(|w: WithContext<C, E, F>| leaf_line(w, deep));
    assert(nodes.len() == ws.len());
    if k == 0 {
        assert(lines.take(0).len() == 0);
    } else if k == 1 {
        assert(nodes[0] == Node::<C, E, GC, F, GF>::Leaf(ws[0]));
        assert(lines.take(1).len() == 1);
        assert(lines.take(1)[0] == leaf_line(ws[0], deep));
        assert(line_node(nodes[0], deep, empty) == leaf_line(ws[0], deep));
        assert(line_nodes(nodes, 1, deep, empty) == line_node(nodes[0], deep, empty));
        assert(join(lines.take(1), semicolon_space()) == lines.take(1)[0]);
    } else {
        lemma_line_leaf_nodes::<C, E, GC, F, GF>(ws, k - 1, deep, empty);
        assert(nodes[k - 1] == Node::<C, E, GC, F, GF>::Leaf(ws[k - 1]));
        assert(lines.take(k).drop_last() =~= lines.take(k - 1));
        assert(lines.take(k).last() == leaf_line(ws[k - 1], deep));
        assert(line_node(nodes[k - 1], deep, empty) == leaf_line(ws[k - 1], deep));
        assert(line_nodes(nodes, k, deep, empty) == line_nodes(nodes, k - 1, deep, empty) + semicolon_space()
            + line_node(nodes[k - 1], deep, empty));
        assert(join(lines.take(k), semicolon_space()) == join(lines.take(k).drop_last(), semicolon_space())
            + semicolon_space() + lines.take(k).last());
    }
}

/// The single line of an aggregate of leaves: the count, then every leaf's
/// line (its chain when `deep`, its own text otherwise), joined by `"; "`.
proof fn lemma_line_many_of_leaves<C, E: ErrorSource, GC, F: Format<WithContext<C, E, F>>, GF: Format<GC>>(
    m: ManyErrors<C, E, GC, F, GF>,
    ws: Seq<WithContext<C, E, F>>,
    deep: bool,
    empty: Seq<char>,
)
    requires
        m is Many,
        m->Many_0@ == leaves::<C, E, GC, F, GF>(ws),
    ensures
        line_many(m, deep, empty) == decimal(ws.len()) + errors_word() + colon_space() + join(
            if deep {
                leaf_chains(ws)
            } else {
                leaf_texts(ws)
            },
            semicolon_space(),
        ),
{
    let v = m->Many_0;
    let lines = ws.map_values(|w: WithContext<C, E, F>| leaf_line(w, deep));
    assert(v.len() == ws.len());
    lemma_line_leaf_nodes::<C, E, GC, F, GF>(ws, ws.len() as int, deep, empty);
    assert(lines.take(ws.len() as int) =~= lines);
    if deep {
        assert(lines =~= leaf_chains(ws));
    } else {
        assert(lines =~= leaf_texts(ws));
    }
}

/// On one line ([`Joined`]), a group of leaves at any depth renders every leaf
/// with its whole source chain: the label, then `" ("`, the count, `": "`, the
/// leaves' chains joined by `"; "`, and `")"`.
pub proof fn law_line_group_of_leaves<C, E: ErrorSource, GC, F: Format<WithContext<C, E, F>>, GF: Format<GC>>(
    g: Subgroup<C, E, GC, F, GF>,
    ws: Seq<WithContext<C, E, F>>,
    empty: Seq<char>,
)
    requires
        *g.errors is Many,
        (*g.errors)->Many_0@ == leaves::<C, E, GC, F, GF>(ws),
    ensures
        line_node(Node::Group(g), true, empty) == GF::spec_fmt(&g.context) + open_paren() + decimal(ws.len())
            + errors_word() + colon_space() + join(leaf_chains(ws), semicolon_space()) + seq![')'],
{
    lemma_line_many_of_leaves::<C, E, GC, F, GF>(*g.errors, ws, true, empty);
    assert(line_node(Node::Group(g), true, empty) =~= GF::spec_fmt(&g.context) + open_paren() + decimal(ws.len())
        + errors_word() + colon_space() + join(leaf_chains(ws), semicolon_space()) + seq![')']);
}

/// [`Joined`] and [`Inline`] on an aggregate of leaves: the count, then every
/// leaf's chain (its text and all its sources, joined by `": "`), the chains
/// joined by `"; "`.
pub proof fn law_line_of_leaves<C, E: ErrorSource, GC, F: Format<WithContext<C, E, F>>, GF: Format<GC>>(
    m: ManyErrors<C, E, GC, F, GF>,
    ws: Seq<WithContext<C, E, F>>,
)
    requires
        m is Many,
        m->Many_0@ == leaves::<C, E, GC, F, GF>(ws),
    ensures
        <Joined as Format<ManyErrors<C, E, GC, F, GF>>>::spec_fmt(&m) == decimal(ws.len()) + errors_word()
            + colon_space() + join(leaf_chains(ws), semicolon_space()),
        <Inline as Format<ManyErrors<C, E, GC, F, GF>>>::spec_fmt(&m) == decimal(ws.len()) + errors_word()
            + colon_space() + join(leaf_chains(ws), semicolon_space()),
{
    lemma_line_many_of_leaves::<C, E, GC, F, GF>(m, ws, true, no_errors());
    lemma_line_many_of_leaves::<C, E, GC, F, GF>(m, ws, true, Seq::empty());
}

/// [`Summary`] on an aggregate of leaves: the count, then every leaf's own
/// text, without its sources, joined by `"; "`.
pub proof fn law_summary_of_leaves<C, E: ErrorSource, GC, F: Format<WithContext<C, E, F>>, GF: Format<GC>>(
    m: ManyErrors<C, E, GC, F, GF>,
    ws: Seq<WithContext<C, E, F>>,
)
    requires
        m is Many,
        m->Many_0@ == leaves::<C, E, GC, F, GF>(ws),
    ensures
        <Summary as Format<ManyErrors<C, E, GC, F, GF>>>::spec_fmt(&m) == decimal(ws.len()) + errors_word()
            + colon_space() + join(leaf_texts(ws), semicolon_space()),
{
    lemma_line_many_of_leaves::<C, E, GC, F, GF>(m, ws, false, no_errors());
}

/// Neither `m` nor any group inside it, at any depth, is empty.
pub open spec fn many_nonempty_throughout<C, E, GC, F, GF>(m: ManyErrors<C, E, GC, F, GF>) -> bool
    decreases m, 0int,
{
    match m {
        ManyErrors::Empty => false,
        ManyErrors::One(n) => node_nonempty_throughout(n),
        ManyErrors::Many(v) => nodes_nonempty_throughout(v@, v.len() as int),
    }
}

/// No group among the first `k` of `nodes`, at any depth, is empty.
pub open spec fn nodes_nonempty_throughout<C, E, GC, F, GF>(nodes: Seq<Node<C, E, GC, F, GF>>, k: int) -> bool
    decreases nodes, k,
{
    if k <= 0 || k > nodes.len() {
        true
    } else {
        nodes_nonempty_throughout(nodes, k - 1) && node_nonempty_throughout(nodes[k - 1])
    }
}

/// No group of `n`, at any depth, is empty.
pub open spec fn node_nonempty_throughout<C, E, GC, F, GF>(n: Node<C, E, GC, F, GF>) -> bool
    decreases n, 0int,
{
    match n {
        Node::Leaf(_) => true,
        Node::Group(g) => many_nonempty_throughout(*g.errors),
    }
}

/// Without an empty aggregate anywhere, the text of an empty one never shows.
proof fn lemma_line_many_empty_unused<C, E: ErrorSource, GC, F: Format<WithContext<C, E, F>>, GF: Format<GC>>(
    m: ManyErrors<C, E, GC, F, GF>,
    deep: bool,
    e1: Seq<char>,
    e2: Seq<char>,
)
    requires
        many_nonempty_throughout(m),
    ensures
        line_many(m, deep, e1) == line_many(m, deep, e2),
    decreases m, 0int,
{
    match m {
        ManyErrors::Empty => {},
        ManyErrors::One(n) => {
            lemma_line_node_empty_unused(n, deep, e1, e2);
        },
        ManyErrors::Many(v) => {
            lemma_line_nodes_empty_unused(v@, v.len() as int, deep, e1, e2);
        },
    }
}

/// [`lemma_line_many_empty_unused`] on the first `k` nodes.
proof fn lemma_line_nodes_empty_unused<C, E: ErrorSource, GC, F: Format<WithContext<C, E, F>>, GF: Format<GC>>(
    nodes: Seq<Node<C, E, GC, F, GF>>,
    k: int,
    deep: bool,
    e1: Seq<char>,
    e2: Seq<char>,
)
    requires
        nodes_nonempty_throughout(nodes, k),
    ensures
        line_nodes(nodes, k, deep, e1) == line_nodes(nodes, k, deep, e2),
    decreases nodes, k,
{
    if k > 0 && k <= nodes.len() {
        lemma_line_nodes_empty_unused(nodes, k - 1, deep, e1, e2);
        assert(decreases_to!(nodes => nodes[k - 1]));
        lemma_line_node_empty_unused(nodes[k - 1], deep, e1, e2);
        if k == 1 {
            assert(nodes_nonempty_throughout(nodes, 0));
        }
    }
}

/// [`lemma_line_many_empty_unused`] on one node.
proof fn lemma_line_node_empty_unused<C, E: ErrorSource, GC, F: Format<WithContext<C, E, F>>, GF: Format<GC>>(
    n: Node<C, E, GC, F, GF>,
    deep: bool,
    e1: Seq<char>,
    e2: Seq<char>,
)
    requires
        node_nonempty_throughout(n),
    ensures
        line_node(n, deep, e1) == line_node(n, deep, e2),
    decreases n, 0int,
{
    match n {
        Node::Leaf(_) => {},
        Node::Group(g) => {
            assert(decreases_to!(n => g));
            lemma_line_many_empty_unused(*g.errors, deep, e1, e2);
        },
    }
}

/// [`Inline`] renders exactly what [`Joined`] renders, every leaf with its
/// whole source chain, whenever no aggregate in it, at any depth, is empty.
pub proof fn law_inline_is_joined_without_empty<C, E: ErrorSource, GC, F: Format<WithContext<C, E, F>>, GF: Format<GC>>(
    m: &ManyErrors<C, E, GC, F, GF>,
)
    requires
        many_nonempty_throughout(*m),
    ensures
        <Inline as Format<ManyErrors<C, E, GC, F, GF>>>::spec_fmt(m) == <Joined as Format<
            ManyErrors<C, E, GC, F, GF>,
        >>::spec_fmt(m),
{
    lemma_line_many_empty_unused(*m, true, Seq::empty(), no_errors());
}

/// Without the count header, the first branch of a level starts the text: it
/// is the headed rendering without its first line feed.
proof fn lemma_tree_children_lead<Conn: TreeConnectors, C, E: ErrorSource, GC, F: Format<WithContext<C, E, F>>, GF: Format<GC>>(
    nodes: Seq<Node<C, E, GC, F, GF>>,
    k: int,
    levels: Seq<bool>,
)
    requires
        1 <= k <= nodes.len(),
    ensures
        seq!['\n'] + tree_children::<Conn, C, E, GC, F, GF>(nodes, k, levels, false) == tree_children::<
            Conn,
            C,
            E,
            GC,
            F,
            GF,
        >(nodes, k, levels, true),
    decreases k,
{
    let i = k - 1;
    let is_last = i == nodes.len() - 1;
    let rest = pad::<Conn>(levels) + (if is_last {
        Conn::LAST@
    } else {
        Conn::BRANCH@
    }) + tree_node::<Conn, C, E, GC, F, GF>(nodes[i], levels.push(is_last));
    if k == 1 {
        assert(tree_children::<Conn, C, E, GC, F, GF>(nodes, 0, levels, false) =~= Seq::<char>::empty());
        assert(tree_children::<Conn, C, E, GC, F, GF>(nodes, 0, levels, true) =~= Seq::<char>::empty());
        assert(tree_children::<Conn, C, E, GC, F, GF>(nodes, 1, levels, false) =~= rest);
        assert(tree_children::<Conn, C, E, GC, F, GF>(nodes, 1, levels, true) =~= seq!['\n'] + rest);
    } else {
        lemma_tree_children_lead::<Conn, C, E, GC, F, GF>(nodes, i, levels);
        assert(tree_children::<Conn, C, E, GC, F, GF>(nodes, k, levels, false) =~= tree_children::<
            Conn,
            C,
            E,
            GC,
            F,
            GF,
        >(nodes, i, levels, false) + seq!['\n'] + rest);
        assert(tree_children::<Conn, C, E, GC, F, GF>(nodes, k, levels, true) =~= tree_children::<
            Conn,
            C,
            E,
            GC,
            F,
            GF,
        >(nodes, i, levels, true) + seq!['\n'] + rest);
    }
}

/// A tree of leaves: every leaf a branch from the left margin, the final one
/// drawn as the last child, each with its sources as a ladder below it. With
/// the count header the branches follow `"N errors:"`; without it the first
/// branch starts the text.
pub proof fn law_tree_of_leaves<Conn: TreeConnectors, H: HeaderSwitch, C, E: ErrorSource, GC, F: Format<WithContext<C, E, F>>, GF: Format<GC>>(
    m: ManyErrors<C, E, GC, F, GF>,
    ws: Seq<WithContext<C, E, F>>,
)
    requires
        m is Many,
        m->Many_0@ == leaves::<C, E, GC, F, GF>(ws),
    ensures
        H::SHOW ==> <Tree<Conn, H> as Format<ManyErrors<C, E, GC, F, GF>>>::spec_fmt(&m) == decimal(ws.len())
            + errors_word() + seq![':'] + leaf_branches::<Conn, C, E, F>(ws, Seq::empty(), 0),
        !H::SHOW && ws.len() > 0 ==> seq!['\n'] + <Tree<Conn, H> as Format<ManyErrors<C, E, GC, F, GF>>>::spec_fmt(&m)
            == leaf_branches::<Conn, C, E, F>(ws, Seq::empty(), 0),
{
    let v = m->Many_0;
    let top = Seq::<bool>::empty();
    assert(pad::<Conn>(top) =~= Seq::<char>::empty());
    assert(v.len() == ws.len());
    lemma_tree_leaf_children::<Conn, C, E, GC, F, GF>(ws, ws.len() as int, top);
    assert(leaf_branches::<Conn, C, E, F>(ws, Seq::empty(), ws.len() as int) =~= Seq::<char>::empty());
    assert(tree_children::<Conn, C, E, GC, F, GF>(v@, v.len() as int, top, true) =~= leaf_branches::<Conn, C, E, F>(
        ws,
        Seq::empty(),
        0,
    ));
    if ws.len() > 0 {
        lemma_tree_children_lead::<Conn, C, E, GC, F, GF>(v@, v.len() as int, top);
    }
}

/// In a tree, a group holding a single leaf puts the leaf on the group's own
/// line after `": "`, its sources as a ladder below; an empty group reads
/// `"label: no errors"`.
pub proof fn law_tree_small_groups<Conn: TreeConnectors, C, E: ErrorSource, GC, F: Format<WithContext<C, E, F>>, GF: Format<GC>>(
    g: Subgroup<C, E, GC, F, GF>,
    levels: Seq<bool>,
)
    ensures
        *g.errors matches ManyErrors::One(Node::Leaf(w)) ==> tree_node::<Conn, C, E, GC, F, GF>(Node::Group(g), levels)
            == indent(GF::spec_fmt(&g.context) + colon_space(), pad::<Conn>(levels)) + indent(
            F::spec_fmt(&w),
            pad::<Conn>(levels),
        ) + ladder::<Conn>(w.error.spec_sources(), pad::<Conn>(levels), 0),
        *g.errors is Empty ==> tree_node::<Conn, C, E, GC, F, GF>(Node::Group(g), levels) == indent(
            GF::spec_fmt(&g.context) + colon_space() + no_errors(),
            pad::<Conn>(levels),
        ),
{
    if let ManyErrors::One(Node::Leaf(w)) = *g.errors {
        law_tree_sources_ladder::<Conn>(w.error.spec_sources(), pad::<Conn>(levels));
        assert(tree_node::<Conn, C, E, GC, F, GF>(Node::Leaf(w), levels) == indent(F::spec_fmt(&w), pad::<Conn>(levels))
            + tree_sources::<Conn>(w.error.spec_sources(), pad::<Conn>(levels)));
        assert(tree_node::<Conn, C, E, GC, F, GF>(Node::Group(g), levels) == indent(
            GF::spec_fmt(&g.context) + colon_space(),
            pad::<Conn>(levels),
        ) + tree_node::<Conn, C, E, GC, F, GF>(Node::Leaf(w), levels));
        assert(tree_node::<Conn, C, E, GC, F, GF>(Node::Group(g), levels) =~= indent(
            GF::spec_fmt(&g.context) + colon_space(),
            pad::<Conn>(levels),
        ) + indent(F::spec_fmt(&w), pad::<Conn>(levels)) + ladder::<Conn>(w.error.spec_sources(), pad::<Conn>(levels), 0));
    }
}

/// A numbered or bulleted list of leaves: `"N errors:"`, then one row per
/// leaf at the top row indent, each leaf's chain one unit past its row.
pub proof fn law_marked_of_leaves<C, E: ErrorSource, GC, F: Format<WithContext<C, E, F>>, GF: Format<GC>>(
    m: ManyErrors<C, E, GC, F, GF>,
    ws: Seq<WithContext<C, E, F>>,
)
    requires
        m is Many,
        m->Many_0@ == leaves::<C, E, GC, F, GF>(ws),
    ensures
        <List as Format<ManyErrors<C, E, GC, F, GF>>>::spec_fmt(&m) == decimal(ws.len()) + errors_word() + seq![':']
            + leaf_rows::<List, C, E, F>(ws, List::TOP_ROW as nat, 0),
        <Bullets as Format<ManyErrors<C, E, GC, F, GF>>>::spec_fmt(&m) == decimal(ws.len()) + errors_word()
            + seq![':'] + leaf_rows::<Bullets, C, E, F>(ws, Bullets::TOP_ROW as nat, 0),
{
    lemma_marked_of_leaves::<List, C, E, GC, F, GF>(m, ws);
    lemma_marked_of_leaves::<Bullets, C, E, GC, F, GF>(m, ws);
}

/// [`law_marked_of_leaves`] for any row marker.
proof fn lemma_marked_of_leaves<M: Marker, C, E: ErrorSource, GC, F: Format<WithContext<C, E, F>>, GF: Format<GC>>(
    m: ManyErrors<C, E, GC, F, GF>,
    ws: Seq<WithContext<C, E, F>>,
)
    requires
        m is Many,
        m->Many_0@ == leaves::<C, E, GC, F, GF>(ws),
    ensures
        marked_many::<M, C, E, GC, F, GF>(m) == decimal(ws.len()) + errors_word() + seq![':'] + leaf_rows::<
            M,
            C,
            E,
            F,
        >(ws, M::TOP_ROW as nat, 0),
{
    let v = m->Many_0;
    assert(v.len() == ws.len());
    lemma_marked_leaf_children::<M, C, E, GC, F, GF>(ws, ws.len() as int, M::TOP_ROW as nat);
    assert(leaf_rows::<M, C, E, F>(ws, M::TOP_ROW as nat, ws.len() as int) =~= Seq::<char>::empty());
    assert(marked_children::<M, C, E, GC, F, GF>(v@, v.len() as int, M::TOP_ROW as nat) =~= leaf_rows::<
        M,
        C,
        E,
        F,
    >(ws, M::TOP_ROW as nat, 0));
}

/// In a numbered or bulleted list, a group holding a single leaf puts the
/// leaf's chain on the group's own line after `": "`, re-indented to the
/// group's content column; an empty group reads `"label: no errors"`.
pub proof fn law_marked_small_groups<M: Marker, C, E: ErrorSource, GC, F: Format<WithContext<C, E, F>>, GF: Format<GC>>(
    g: Subgroup<C, E, GC, F, GF>,
    content: nat,
)
    ensures
        *g.errors matches ManyErrors::One(Node::Leaf(w)) ==> marked_node::<M, C, E, GC, F, GF>(Node::Group(g), content)
            == indent(GF::spec_fmt(&g.context), repeat(unit(), content)) + colon_space() + indent(
            leaf_chain(&w),
            repeat(unit(), content),
        ),
        *g.errors is Empty ==> marked_node::<M, C, E, GC, F, GF>(Node::Group(g), content) == indent(
            GF::spec_fmt(&g.context),
            repeat(unit(), content),
        ) + colon_space() + no_errors(),
{
    if let ManyErrors::One(Node::Leaf(w)) = *g.errors {
        assert(marked_node::<M, C, E, GC, F, GF>(Node::Leaf(w), content) == indent(leaf_chain(&w), repeat(unit(), content)));
        assert(marked_node::<M, C, E, GC, F, GF>(Node::Group(g), content) == indent(
            GF::spec_fmt(&g.context),
            repeat(unit(), content),
        ) + (colon_space() + marked_node::<M, C, E, GC, F, GF>(Node::Leaf(w), content)));
        assert(marked_node::<M, C, E, GC, F, GF>(Node::Group(g), content) =~= indent(
            GF::spec_fmt(&g.context),
            repeat(unit(), content),
        ) + colon_space() + indent(leaf_chain(&w), repeat(unit(), content)));
    }
    if *g.errors is Empty {
        assert(marked_node::<M, C, E, GC, F, GF>(Node::Group(g), content) =~= indent(
            GF::spec_fmt(&g.context),
            repeat(unit(), content),
        ) + colon_space() + no_errors());
    }
}

/// On one line, a group holding a single leaf reads `"label (chain)"` when
/// deep and `"label (text)"` when shallow; an empty group reads `"label ()"`
/// around the text given for an empty aggregate (`"no errors"` for
/// [`Joined`] and [`Summary`], nothing for [`Inline`]).
pub proof fn law_line_small_groups<C, E: ErrorSource, GC, F: Format<WithContext<C, E, F>>, GF: Format<GC>>(
    g: Subgroup<C, E, GC, F, GF>,
    deep: bool,
    empty: Seq<char>,
)
    ensures
        *g.errors matches ManyErrors::One(Node::Leaf(w)) ==> line_node(Node::Group(g), deep, empty)
            == GF::spec_fmt(&g.context) + open_paren() + leaf_line(w, deep) + seq![')'],
        *g.errors is Empty ==> line_node(Node::Group(g), deep, empty) == GF::spec_fmt(&g.context) + open_paren()
            + empty + seq![')'],
{
    if let ManyErrors::One(Node::Leaf(w)) = *g.errors {
        assert(line_node(Node::<C, E, GC, F, GF>::Leaf(w), deep, empty) == leaf_line(w, deep));
        assert(line_many(*g.errors, deep, empty) == line_node(Node::<C, E, GC, F, GF>::Leaf(w), deep, empty));
    }
}

/// Row markers: a numbered row reads `"N. "`, counting from 1, and a
/// bulleted row `"• "`, each on a new line after the row's indent.
pub proof fn law_row_markers(prefix: Seq<char>, index: nat)
    ensures
        <List as Marker>::spec_marker(prefix, index) == seq!['\n'] + prefix + decimal(index + 1) + seq!['.', ' '],
        <Bullets as Marker>::spec_marker(prefix, index) == seq!['\n'] + prefix + seq!['•', ' '],
{
}

} // verus!
