//! Single-line strategies: [`Joined`] (deep, walks source chains), [`Summary`]
//! (shallow, each error's own text: the default text of a [`ManyErrors`]) and
//! [`Inline`] (deep, empty aggregates render as nothing).

use vstd::prelude::*;

use crate::many_errors::{ManyErrors, Node};
use crate::text::{
    decimal, errors_word, no_errors, open_paren, semicolon_space, colon_space, write_char,
    write_colon_space, write_error_count, write_no_errors, write_open_paren, write_semicolon_space,
};
use crate::with_context::WithContext;
use crate::{ErrorSource, Format};

use super::{leaf_chain, write_leaf_chain};

verus! {

/// Aggregate strategy that renders a [`ManyErrors`] on a single line, walking
/// each leaf's source chain: siblings separated by `"; "`, groups in parens.
#[derive(Debug, Default, Clone, Copy, PartialEq, Eq, Hash)]
pub struct Joined;

/// Shallow single-line strategy: each error's own text only, no source chains.
#[derive(Debug, Default, Clone, Copy, PartialEq, Eq, Hash)]
pub struct Summary;

/// Like [`Joined`], but an aggregate with no children renders as nothing.
#[derive(Debug, Default, Clone, Copy, PartialEq, Eq, Hash)]
pub struct Inline;

/// The single-line rendering of `m`: `deep` walks leaf source chains, `empty`
/// is what an aggregate without children renders as.
pub open spec fn line_many<C, E: ErrorSource, GC, F: Format<WithContext<C, E, F>>, GF: Format<GC>>(
    m: ManyErrors<C, E, GC, F, GF>,
    deep: bool,
    empty: Seq<char>,
) -> Seq<char>
    decreases m, 0int,
{
    match m {
        ManyErrors::Empty => empty,
        ManyErrors::One(n) => line_node(n, deep, empty),
        ManyErrors::Many(v) => decimal(v.len() as nat) + errors_word() + colon_space() + line_nodes(
            v@,
            v.len() as int,
            deep,
            empty,
        ),
    }
}

/// The first `k` of `nodes`, each on the same line, separated by `"; "`.
pub open spec fn line_nodes<C, E: ErrorSource, GC, F: Format<WithContext<C, E, F>>, GF: Format<GC>>(
    nodes: Seq<Node<C, E, GC, F, GF>>,
    k: int,
    deep: bool,
    empty: Seq<char>,
) -> Seq<char>
    decreases nodes, k,
{
    if k <= 0 || k > nodes.len() {
        Seq::empty()
    } else if k == 1 {
        line_node(nodes[0], deep, empty)
    } else {
        line_nodes(nodes, k - 1, deep, empty) + semicolon_space() + line_node(nodes[k - 1], deep, empty)
    }
}

/// The single-line rendering of one child.
pub open spec fn line_node<C, E: ErrorSource, GC, F: Format<WithContext<C, E, F>>, GF: Format<GC>>(
    n: Node<C, E, GC, F, GF>,
    deep: bool,
    empty: Seq<char>,
) -> Seq<char>
    decreases n, 0int,
{
    match n {
        Node::Leaf(w) => if deep {
            leaf_chain(&w)
        } else {
            F::spec_fmt(&w)
        },
        Node::Group(g) => GF::spec_fmt(&g.context) + open_paren() + line_many(*g.errors, deep, empty)
            + seq![')'],
    }
}

/// Appends the single-line rendering of `m`; `inline` selects the empty text
/// `""` in place of `"no errors"`.
pub(crate) fn draw_line_many<C, E: ErrorSource, GC, F: Format<WithContext<C, E, F>>, GF: Format<GC>>(
    m: &ManyErrors<C, E, GC, F, GF>,
    deep: bool,
    inline: bool,
    out: &mut String,
)
    ensures
        final(out)@ == old(out)@ + line_many(*m, deep, if inline { Seq::empty() } else { no_errors() }),
    decreases m, 0int,
{
    let ghost empty = if inline { Seq::<char>::empty() } else { no_errors() };
    match m {
        ManyErrors::Empty => {
            if !inline {
                write_no_errors(out);
            } else {
                assert(old(out)@ + Seq::<char>::empty() =~= old(out)@);
            }
        },
        ManyErrors::One(n) => {
            draw_line_node(n, deep, inline, out);
        },
        ManyErrors::Many(v) => {
            write_error_count(out, v.len());
            write_colon_space(out);
            let ghost start = out@;
            let mut i: usize = 0;
            while i < v.len()
                invariant
                    *m == ManyErrors::Many(*v),
                    i <= v.len(),
                    empty == if inline { Seq::<char>::empty() } else { no_errors() },
                    out@ == start + line_nodes(v@, i as int, deep, empty),
                decreases v.len() - i,
            {
                if i > 0 {
                    write_semicolon_space(out);
                }
                proof {
                    assert(decreases_to!(*m => (*m)->Many_0));
                    assert(decreases_to!(*v => v@));
                    assert(decreases_to!(v@ => v@[i as int]));
                    assert(decreases_to!(*m => v@[i as int]));
                }
                draw_line_node(&v[i], deep, inline, out);
                proof {
                    if i == 0 {
                        assert(line_nodes(v@, 0, deep, empty) =~= Seq::<char>::empty());
                    }
                }
                i = i + 1;
            }
        },
    }
}

/// Appends the single-line rendering of one child.
pub(crate) fn draw_line_node<C, E: ErrorSource, GC, F: Format<WithContext<C, E, F>>, GF: Format<GC>>(
    n: &Node<C, E, GC, F, GF>,
    deep: bool,
    inline: bool,
    out: &mut String,
)
    ensures
        final(out)@ == old(out)@ + line_node(*n, deep, if inline { Seq::empty() } else { no_errors() }),
    decreases n, 0int,
{
    match n {
        Node::Leaf(w) => {
            if deep {
                write_leaf_chain(w, out);
            } else {
                F::fmt(w, out);
            }
        },
        Node::Group(g) => {
            GF::fmt(&g.context, out);
            write_open_paren(out);
            draw_line_many(&*g.errors, deep, inline, out);
            write_char(out, ')');
        },
    }
}

impl<C, E: ErrorSource, GC, F: Format<WithContext<C, E, F>>, GF: Format<GC>> Format<ManyErrors<C, E, GC, F, GF>> for Joined {
    open spec fn spec_fmt(m: &ManyErrors<C, E, GC, F, GF>) -> Seq<char> {
        line_many(*m, true, no_errors())
    }

    fn fmt(m: &ManyErrors<C, E, GC, F, GF>, out: &mut String) {
        draw_line_many(m, true, false, out);
    }
}

impl<C, E: ErrorSource, GC, F: Format<WithContext<C, E, F>>, GF: Format<GC>> Format<ManyErrors<C, E, GC, F, GF>> for Summary {
    open spec fn spec_fmt(m: &ManyErrors<C, E, GC, F, GF>) -> Seq<char> {
        line_many(*m, false, no_errors())
    }

    fn fmt(m: &ManyErrors<C, E, GC, F, GF>, out: &mut String) {
        draw_line_many(m, false, false, out);
    }
}

impl<C, E: ErrorSource, GC, F: Format<WithContext<C, E, F>>, GF: Format<GC>> Format<ManyErrors<C, E, GC, F, GF>> for Inline {
    open spec fn spec_fmt(m: &ManyErrors<C, E, GC, F, GF>) -> Seq<char> {
        line_many(*m, true, Seq::empty())
    }

    fn fmt(m: &ManyErrors<C, E, GC, F, GF>, out: &mut String) {
        draw_line_many(m, true, true, out);
    }
}

impl<'a, T: ?Sized> Format<&'a T> for Joined where Joined: Format<T> {
    open spec fn spec_fmt(value: &&'a T) -> Seq<char> {
        <Joined as Format<T>>::spec_fmt(*value)
    }

    fn fmt(value: &&'a T, out: &mut String) {
        <Joined as Format<T>>::fmt(*value, out);
    }
}

impl<'a, T: ?Sized> Format<&'a T> for Summary where Summary: Format<T> {
    open spec fn spec_fmt(value: &&'a T) -> Seq<char> {
        <Summary as Format<T>>::spec_fmt(*value)
    }

    fn fmt(value: &&'a T, out: &mut String) {
        <Summary as Format<T>>::fmt(*value, out);
    }
}

impl<'a, T: ?Sized> Format<&'a T> for Inline where Inline: Format<T> {
    open spec fn spec_fmt(value: &&'a T) -> Seq<char> {
        <Inline as Format<T>>::spec_fmt(*value)
    }

    fn fmt(value: &&'a T, out: &mut String) {
        <Inline as Format<T>>::fmt(*value, out);
    }
}

} // verus!
