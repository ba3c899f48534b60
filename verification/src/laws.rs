//! Properties of the library as a whole, stated over the spec functions that
//! the rendering strategies and the aggregate's operations are proved against.

use vstd::prelude::*;

use core::ops::ControlFlow;

use crate::many_errors::strategy::{item_texts, leaf_chain, line_many, line_node, line_nodes, unit, HeaderSwitch, Summary};
use crate::many_errors::{
    flow_prefix, flow_value, many_rel, node_rel, nodes_rel, same, Bullets, Inline, Joined, List, Listing,
    ManyErrors, Node, Tree, TreeConnectors,
};
use crate::separator::{Empty, WithSep};
use crate::text::{colon_space, indent, join, no_errors, repeat};
use crate::with_context::{Colon, WithContext};
use crate::{error_chain, Add, Chain, Connectors, DisplayText, DynError, ErrorSource, Format, OneLine, Suggest, Suggestion};

verus! {

/// `Empty` is a left identity of `Add`: `Add<Empty, L>` renders exactly what
/// `L` renders.
pub proof fn law_add_empty_left<E: ?Sized, L: Format<E>>(value: &E)
    ensures
        <Add<Empty, L> as Format<E>>::spec_fmt(value) == L::spec_fmt(value),
{
    assert(Seq::<char>::empty() + L::spec_fmt(value) =~= L::spec_fmt(value));
}

/// `Empty` is a right identity of `Add`.
pub proof fn law_add_empty_right<E: ?Sized, L: Format<E>>(value: &E)
    ensures
        <Add<L, Empty> as Format<E>>::spec_fmt(value) == L::spec_fmt(value),
{
    assert(L::spec_fmt(value) + Seq::<char>::empty() =~= L::spec_fmt(value));
}

/// `Add` is associative: how three strategies are grouped does not change
/// the text.
pub proof fn law_add_associative<E: ?Sized, A: Format<E>, B: Format<E>, C: Format<E>>(value: &E)
    ensures
        <Add<Add<A, B>, C> as Format<E>>::spec_fmt(value) == <Add<A, Add<B, C>> as Format<E>>::spec_fmt(value),
{
    assert(A::spec_fmt(value) + B::spec_fmt(value) + C::spec_fmt(value) =~= A::spec_fmt(value) + (
    B::spec_fmt(value) + C::spec_fmt(value)));
}

/// `WithSep<L, Sep, R>` renders `L`, then `Sep`, then `R`, each against the
/// same value.
pub proof fn law_with_sep<E: ?Sized, L: Format<E>, Sep: Format<E>, R: Format<E>>(value: &E)
    ensures
        <WithSep<L, Sep, R> as Format<E>>::spec_fmt(value) == L::spec_fmt(value) + Sep::spec_fmt(value) + R::spec_fmt(
            value,
        ),
{
}

/// The default pair strategy renders `"{context}: {error}"`.
pub proof fn law_colon_pair<C: DisplayText, E: DisplayText, F>(w: &WithContext<C, E, F>)
    ensures
        <Colon as Format<WithContext<C, E, F>>>::spec_fmt(w) == w.context.spec_text() + colon_space()
            + w.error.spec_text(),
{
    assert(w.context.spec_text() + seq![':'] + seq![' '] + w.error.spec_text() =~= w.context.spec_text()
        + colon_space() + w.error.spec_text());
}

/// Walking the chain of a pair never shows the inner error twice: the chain
/// is the pair's own text, then the inner error's sources (the inner error
/// itself is skipped, the pair's text already holds it).
pub proof fn law_pair_chain_skips_inner_error<C, E: ErrorSource, F: Format<WithContext<C, E, F>>>(
    w: &WithContext<C, E, F>,
)
    ensures
        error_chain(w) == seq![F::spec_fmt(w)] + w.error.spec_sources(),
{
}

/// On a pair, the one-line strategy is the leaf chain that the aggregate
/// shapes draw for a leaf.
pub proof fn law_one_line_pair_is_leaf_chain<C, E: ErrorSource, F: Format<WithContext<C, E, F>>>(
    w: &WithContext<C, E, F>,
)
    ensures
        <OneLine as Format<WithContext<C, E, F>>>::spec_fmt(w) == leaf_chain(w),
{
}

/// The suggestion is the top-level error's hint only: two errors with the
/// same hint get the same suggestion, whatever their messages and sources.
pub proof fn law_suggestion_ignores_chain(a: &DynError, b: &DynError)
    requires
        a.hint@ == b.hint@,
    ensures
        <Suggestion as Format<DynError>>::spec_fmt(a) == <Suggestion as Format<DynError>>::spec_fmt(b),
        <Suggestion as Format<DynError>>::spec_fmt(a) == a.spec_hint(),
{
}

/// Whatever the error type, the suggestion strategy renders the top-level
/// hint and nothing of the source chain.
pub proof fn law_suggestion_is_top_level_hint<E: ErrorSource + Suggest + ?Sized>(e: &E)
    ensures
        <Suggestion as Format<E>>::spec_fmt(e) == e.spec_hint(),
{
}

/// What `main` prints for an error returned through [`MainResult`]: the error
/// and its whole source chain joined with `": "`.
pub proof fn law_main_result_prints_one_line<E: ErrorSource>(e: E)
    ensures
        crate::DisplaySwapDebug(crate::Formatted::<E, OneLine>::spec_new(e)).0.spec_text() == join(
            error_chain(&e),
            colon_space(),
        ),
{
    crate::lemma_formatted_value::<E, OneLine>(e);
}

/// An error without sources renders as its own text under every per-error
/// strategy.
pub proof fn law_no_source_renders_own_text<E: ErrorSource + ?Sized, Conn: Connectors>(e: &E)
    requires
        e.spec_sources().len() == 0,
    ensures
        <OneLine as Format<E>>::spec_fmt(e) == e.spec_text(),
        <Chain<Conn> as Format<E>>::spec_fmt(e) == e.spec_text(),
        <crate::tree::Tree as Format<E>>::spec_fmt(e) == e.spec_text(),
{
    assert(error_chain(e) =~= seq![e.spec_text()]);
    assert(e.spec_text() + Seq::<char>::empty() =~= e.spec_text());
}

/// An aggregate has no source, so the chain-walking per-error strategies
/// render its shallow summary, and as the source of another error it is one
/// summary line of that error's chain.
pub proof fn law_aggregate_one_line_is_summary<C, E: ErrorSource, GC, F: Format<WithContext<C, E, F>>, GF: Format<GC>, Conn: Connectors>(
    m: &ManyErrors<C, E, GC, F, GF>,
)
    ensures
        <OneLine as Format<ManyErrors<C, E, GC, F, GF>>>::spec_fmt(m) == m.spec_text(),
        <Chain<Conn> as Format<ManyErrors<C, E, GC, F, GF>>>::spec_fmt(m) == m.spec_text(),
        m.spec_text() == <Summary as Format<ManyErrors<C, E, GC, F, GF>>>::spec_fmt(m),
        error_chain(m) == seq![m.spec_text()],
{
    assert(error_chain(m) =~= seq![m.spec_text()]);
    assert(m.spec_text() + Seq::<char>::empty() =~= m.spec_text());
}

/// The aggregate shapes render a reference, or a reference to a reference,
/// exactly as the aggregate itself.
pub proof fn law_ref_renders_as_value<C, E: ErrorSource, GC, F: Format<WithContext<C, E, F>>, GF: Format<GC>, Conn: TreeConnectors, H: HeaderSwitch>(
    m: &ManyErrors<C, E, GC, F, GF>,
)
    ensures
        <List as Format<&&ManyErrors<C, E, GC, F, GF>>>::spec_fmt(&&m) == <List as Format<ManyErrors<C, E, GC, F, GF>>>::spec_fmt(m),
        <Tree<Conn, H> as Format<&&ManyErrors<C, E, GC, F, GF>>>::spec_fmt(&&m) == <Tree<Conn, H> as Format<ManyErrors<C, E, GC, F, GF>>>::spec_fmt(m),
        <Bullets as Format<&ManyErrors<C, E, GC, F, GF>>>::spec_fmt(&m) == <Bullets as Format<ManyErrors<C, E, GC, F, GF>>>::spec_fmt(m),
        <Joined as Format<&ManyErrors<C, E, GC, F, GF>>>::spec_fmt(&m) == <Joined as Format<ManyErrors<C, E, GC, F, GF>>>::spec_fmt(m),
{
}

/// An aggregate without children renders `"no errors"` in every shape but
/// [`Inline`] and [`Listing`], which render nothing.
pub proof fn law_empty_aggregate<C, E: ErrorSource, GC, F: Format<WithContext<C, E, F>>, GF: Format<GC>, Conn: TreeConnectors, H: HeaderSwitch, G: Format<Node<C, E, GC, F, GF>>>(
    m: &ManyErrors<C, E, GC, F, GF>,
)
    requires
        *m is Empty,
    ensures
        m.spec_text() == no_errors(),
        <Joined as Format<ManyErrors<C, E, GC, F, GF>>>::spec_fmt(m) == no_errors(),
        <Tree<Conn, H> as Format<ManyErrors<C, E, GC, F, GF>>>::spec_fmt(m) == no_errors(),
        <List as Format<ManyErrors<C, E, GC, F, GF>>>::spec_fmt(m) == no_errors(),
        <Bullets as Format<ManyErrors<C, E, GC, F, GF>>>::spec_fmt(m) == no_errors(),
        <Inline as Format<ManyErrors<C, E, GC, F, GF>>>::spec_fmt(m) == Seq::<char>::empty(),
        <Listing<G> as Format<ManyErrors<C, E, GC, F, GF>>>::spec_fmt(m) == Seq::<char>::empty(),
{
}

/// An aggregate with a single leaf has no count header: the one-line shapes
/// render the leaf alone, the deep ones with its source chain.
pub proof fn law_single_leaf_no_header<C, E: ErrorSource, GC, F: Format<WithContext<C, E, F>>, GF: Format<GC>, G: Format<Node<C, E, GC, F, GF>>>(
    m: &ManyErrors<C, E, GC, F, GF>,
    w: WithContext<C, E, F>,
)
    requires
        *m == ManyErrors::<C, E, GC, F, GF>::One(Node::Leaf(w)),
    ensures
        m.spec_text() == F::spec_fmt(&w),
        <Joined as Format<ManyErrors<C, E, GC, F, GF>>>::spec_fmt(m) == leaf_chain(&w),
        <Inline as Format<ManyErrors<C, E, GC, F, GF>>>::spec_fmt(m) == leaf_chain(&w),
        <List as Format<ManyErrors<C, E, GC, F, GF>>>::spec_fmt(m) == indent(leaf_chain(&w), Seq::empty()),
        <Bullets as Format<ManyErrors<C, E, GC, F, GF>>>::spec_fmt(m) == indent(leaf_chain(&w), Seq::empty()),
        <Listing<G> as Format<ManyErrors<C, E, GC, F, GF>>>::spec_fmt(m) == G::spec_fmt(&Node::Leaf(w)),
{
    assert(repeat(unit(), 0) =~= Seq::<char>::empty());
    assert(m.spec_nodes() =~= seq![Node::<C, E, GC, F, GF>::Leaf(w)]);
    assert(item_texts::<G, C, E, GC, F, GF>(m.spec_nodes()) =~= seq![
        G::spec_fmt(&Node::Leaf(w)),
    ]);
}

/// The shallow summary of a leaf is the pair's own text: the leaf error's
/// sources do not reach it, while the deep line walks them.
pub proof fn law_summary_is_shallow<C, E: ErrorSource, GC, F: Format<WithContext<C, E, F>>, GF: Format<GC>>(
    w: WithContext<C, E, F>,
    empty: Seq<char>,
)
    ensures
        line_node(Node::<C, E, GC, F, GF>::Leaf(w), false, empty) == F::spec_fmt(&w),
        line_node(Node::<C, E, GC, F, GF>::Leaf(w), true, empty) == join(
            seq![F::spec_fmt(&w)] + w.error.spec_sources(),
            colon_space(),
        ),
{
}

/// For the values that `new` and the push family build, an aggregate is
/// empty exactly when it has no children.
pub proof fn law_empty_iff_no_children<C, E, GC, F, GF>(m: &ManyErrors<C, E, GC, F, GF>)
    requires
        m.wf(),
    ensures
        (*m is Empty) <==> m.spec_nodes().len() == 0,
{
}

/// Merging is associative on the children.
pub proof fn law_merge_associative<C, E, GC, F, GF>(
    a: Seq<Node<C, E, GC, F, GF>>,
    b: Seq<Node<C, E, GC, F, GF>>,
    c: Seq<Node<C, E, GC, F, GF>>,
)
    ensures
        (a + b) + c == a + (b + c),
{
    assert((a + b) + c =~= a + (b + c));
}

/// The `ControlFlow` collectors record every item before the first `Break`,
/// then that `Break`'s item, and nothing after it.
pub proof fn law_flows_stop_at_first_break<T>(flows: Seq<ControlFlow<T, T>>, i: int)
    requires
        0 <= i < flows.len(),
        flows[i] is Break,
        forall|j: int| 0 <= j < i ==> flows[j] is Continue,
    ensures
        flow_prefix(flows) == flows.take(i + 1).map_values(|f: ControlFlow<T, T>| flow_value(f)),
    decreases i,
{
    if i > 0 {
        let rest = flows.drop_first();
        assert forall|j: int| 0 <= j < i - 1 implies rest[j] is Continue by {
            assert(rest[j] == flows[j + 1]);
        }
        law_flows_stop_at_first_break(rest, i - 1);
        assert(flows.take(i + 1).map_values(|f: ControlFlow<T, T>| flow_value(f)) =~= seq![flow_value(flows[0])]
            + rest.take(i).map_values(|f: ControlFlow<T, T>| flow_value(f)));
    } else {
        assert(flows.take(1).map_values(|f: ControlFlow<T, T>| flow_value(f)) =~= seq![flow_value(flows[0])]);
    }
}

/// Without a `Break`, the `ControlFlow` collectors record every item.
pub proof fn law_flows_without_break<T>(flows: Seq<ControlFlow<T, T>>)
    requires
        forall|j: int| 0 <= j < flows.len() ==> flows[j] is Continue,
    ensures
        flow_prefix(flows) == flows.map_values(|f: ControlFlow<T, T>| flow_value(f)),
    decreases flows.len(),
{
    if flows.len() > 0 {
        let rest = flows.drop_first();
        assert forall|j: int| 0 <= j < rest.len() implies rest[j] is Continue by {
            assert(rest[j] == flows[j + 1]);
        }
        law_flows_without_break(rest);
        assert(flows.map_values(|f: ControlFlow<T, T>| flow_value(f)) =~= seq![flow_value(flows[0])]
            + rest.map_values(|f: ControlFlow<T, T>| flow_value(f)));
    } else {
        assert(flows.map_values(|f: ControlFlow<T, T>| flow_value(f)) =~= Seq::<T>::empty());
    }
}

/// Re-indenting a text without line feeds leaves it unchanged.
pub proof fn law_indent_single_line(content: Seq<char>, prefix: Seq<char>)
    requires
        !content.contains('\n'),
    ensures
        indent(content, prefix) == content,
    decreases content.len(),
{
    if content.len() > 0 {
        assert(!content.drop_last().contains('\n')) by {
            if content.drop_last().contains('\n') {
                let k = choose|k: int| 0 <= k < content.drop_last().len() && content.drop_last()[k] == '\n';
                assert(content[k] == '\n');
            }
        }
        law_indent_single_line(content.drop_last(), prefix);
        assert(content.last() != '\n') by {
            assert(content[content.len() - 1] == content.last());
        }
        assert(content.drop_last() + seq![content.last()] =~= content);
    }
}

/// Switching strategies there and back keeps every value and the shape:
/// shape-and-value equality composes.
pub proof fn law_with_formats_composes<C, E, GC, F1, GF1, F2, GF2, F3, GF3>(
    a: ManyErrors<C, E, GC, F1, GF1>,
    b: ManyErrors<C, E, GC, F2, GF2>,
    c: ManyErrors<C, E, GC, F3, GF3>,
)
    requires
        many_rel(a, b, same(), same(), same()),
        many_rel(b, c, same(), same(), same()),
    ensures
        many_rel(a, c, same(), same(), same()),
    decreases a, 0int,
{
    match a {
        ManyErrors::Empty => {},
        ManyErrors::One(x) => {
            let y = b->One_0;
            let z = c->One_0;
            law_node_rel_composes(x, y, z);
        },
        ManyErrors::Many(v) => {
            let w = b->Many_0;
            let u = c->Many_0;
            lemma_nodes_rel_composes(v@, w@, u@, v.len() as int);
        },
    }
}

/// [`law_with_formats_composes`] on the first `k` children.
proof fn lemma_nodes_rel_composes<C, E, GC, F1, GF1, F2, GF2, F3, GF3>(
    vs: Seq<Node<C, E, GC, F1, GF1>>,
    ws: Seq<Node<C, E, GC, F2, GF2>>,
    us: Seq<Node<C, E, GC, F3, GF3>>,
    k: int,
)
    requires
        0 <= k <= vs.len(),
        vs.len() == ws.len(),
        ws.len() == us.len(),
        nodes_rel(vs, ws, k, same(), same(), same()),
        nodes_rel(ws, us, k, same(), same(), same()),
    ensures
        nodes_rel(vs, us, k, same(), same(), same()),
    decreases vs, k,
{
    if k > 0 {
        lemma_nodes_rel_composes(vs, ws, us, k - 1);
        assert(decreases_to!(vs => vs[k - 1]));
        law_node_rel_composes(vs[k - 1], ws[k - 1], us[k - 1]);
    }
}

/// [`law_with_formats_composes`] on one node.
pub proof fn law_node_rel_composes<C, E, GC, F1, GF1, F2, GF2, F3, GF3>(
    a: Node<C, E, GC, F1, GF1>,
    b: Node<C, E, GC, F2, GF2>,
    c: Node<C, E, GC, F3, GF3>,
)
    requires
        node_rel(a, b, same(), same(), same()),
        node_rel(b, c, same(), same(), same()),
    ensures
        node_rel(a, c, same(), same(), same()),
    decreases a, 0int,
{
    match a {
        Node::Leaf(_) => {},
        Node::Group(g) => {
            let h = b->Group_0;
            let i = c->Group_0;
            assert(decreases_to!(a => g));
            law_with_formats_composes(*g.errors, *h.errors, *i.errors);
        },
    }
}

} // verus!

verus! {

/// No leaf error of `m`, at any depth, has a source.
pub open spec fn many_without_sources<C, E: ErrorSource, GC, F, GF>(m: ManyErrors<C, E, GC, F, GF>) -> bool
    decreases m, 0int,
{
    match m {
        ManyErrors::Empty => true,
        ManyErrors::One(n) => node_without_sources(n),
        ManyErrors::Many(v) => nodes_without_sources(v@, v.len() as int),
    }
}

/// No leaf error among the first `k` of `nodes`, at any depth, has a source.
pub open spec fn nodes_without_sources<C, E: ErrorSource, GC, F, GF>(
    nodes: Seq<Node<C, E, GC, F, GF>>,
    k: int,
) -> bool
    decreases nodes, k,
{
    if k <= 0 || k > nodes.len() {
        true
    } else {
        nodes_without_sources(nodes, k - 1) && node_without_sources(nodes[k - 1])
    }
}

/// No leaf error of `n`, at any depth, has a source.
pub open spec fn node_without_sources<C, E: ErrorSource, GC, F, GF>(n: Node<C, E, GC, F, GF>) -> bool
    decreases n, 0int,
{
    match n {
        Node::Leaf(w) => w.error.spec_sources().len() == 0,
        Node::Group(g) => many_without_sources(*g.errors),
    }
}

/// When no leaf error has a source, the deep single line ([`Joined`]) is the
/// shallow summary (the aggregate's own text): walking chains adds nothing.
pub proof fn law_joined_is_summary_without_sources<C, E: ErrorSource, GC, F: Format<WithContext<C, E, F>>, GF: Format<GC>>(
    m: &ManyErrors<C, E, GC, F, GF>,
)
    requires
        many_without_sources(*m),
    ensures
        <Joined as Format<ManyErrors<C, E, GC, F, GF>>>::spec_fmt(m) == m.spec_text(),
{
    lemma_line_many_deep_is_shallow(*m, no_errors());
}

/// [`law_joined_is_summary_without_sources`] for any text of an empty
/// aggregate.
proof fn lemma_line_many_deep_is_shallow<C, E: ErrorSource, GC, F: Format<WithContext<C, E, F>>, GF: Format<GC>>(
    m: ManyErrors<C, E, GC, F, GF>,
    empty: Seq<char>,
)
    requires
        many_without_sources(m),
    ensures
        line_many(m, true, empty) == line_many(m, false, empty),
    decreases m, 0int,
{
    match m {
        ManyErrors::Empty => {},
        ManyErrors::One(n) => {
            lemma_line_node_deep_is_shallow(n, empty);
        },
        ManyErrors::Many(v) => {
            lemma_line_nodes_deep_is_shallow(v@, v.len() as int, empty);
        },
    }
}

/// [`lemma_line_many_deep_is_shallow`] on the first `k` nodes.
proof fn lemma_line_nodes_deep_is_shallow<C, E: ErrorSource, GC, F: Format<WithContext<C, E, F>>, GF: Format<GC>>(
    nodes: Seq<Node<C, E, GC, F, GF>>,
    k: int,
    empty: Seq<char>,
)
    requires
        nodes_without_sources(nodes, k),
    ensures
        line_nodes(nodes, k, true, empty) == line_nodes(nodes, k, false, empty),
    decreases nodes, k,
{
    if k > 0 && k <= nodes.len() {
        lemma_line_nodes_deep_is_shallow(nodes, k - 1, empty);
        assert(decreases_to!(nodes => nodes[k - 1]));
        lemma_line_node_deep_is_shallow(nodes[k - 1], empty);
    }
}

/// [`lemma_line_many_deep_is_shallow`] on one node.
proof fn lemma_line_node_deep_is_shallow<C, E: ErrorSource, GC, F: Format<WithContext<C, E, F>>, GF: Format<GC>>(
    n: Node<C, E, GC, F, GF>,
    empty: Seq<char>,
)
    requires
        node_without_sources(n),
    ensures
        line_node(n, true, empty) == line_node(n, false, empty),
    decreases n, 0int,
{
    match n {
        Node::Leaf(w) => {
            assert(seq![F::spec_fmt(&w)] + w.error.spec_sources() =~= seq![F::spec_fmt(&w)]);
        },
        Node::Group(g) => {
            assert(decreases_to!(n => g));
            lemma_line_many_deep_is_shallow(*g.errors, empty);
        },
    }
}

} // verus!
