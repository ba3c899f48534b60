//! The per-error [`Tree`] format: a source chain drawn under a configurable
//! marker and indent.

use vstd::prelude::*;

use core::marker::PhantomData;

use crate::text::{repeat, texts, write_char, write_str};
use crate::{chain, error_chain, DisplayText, ErrorSource, Format};

verus! {

/// A glyph type whose default value has a fixed text.
pub trait DefaultText {
    /// The text of the default value.
    spec fn spec_default_text() -> Seq<char>;

    /// Appends the text of the default value.
    fn write_default_text(out: &mut String)
        ensures
            final(out)@ == old(out)@ + Self::spec_default_text(),
    ;
}

/// Default tree branch marker: `"└── "`.
#[derive(Debug, Default, Clone, Copy, PartialEq, Eq, Hash, PartialOrd, Ord)]
pub struct TreeMarker;

impl DefaultText for TreeMarker {
    open spec fn spec_default_text() -> Seq<char> {
        seq!['└', '─', '─', ' ']
    }

    fn write_default_text(out: &mut String) {
        proof {
            reveal_strlit("└── ");
            assert("└── "@ =~= seq!['└', '─', '─', ' ']);
        }
        write_str(out, "└── ");
    }
}

impl DisplayText for TreeMarker {
    open spec fn spec_text(&self) -> Seq<char> {
        Self::spec_default_text()
    }

    fn write_text(&self, out: &mut String) {
        Self::write_default_text(out);
    }
}

/// Default tree indent: four spaces.
#[derive(Debug, Default, Clone, Copy, PartialEq, Eq, Hash, PartialOrd, Ord)]
pub struct TreeIndent;

impl DefaultText for TreeIndent {
    open spec fn spec_default_text() -> Seq<char> {
        seq![' ', ' ', ' ', ' ']
    }

    fn write_default_text(out: &mut String) {
        proof {
            reveal_strlit("    ");
            assert("    "@ =~= seq![' ', ' ', ' ', ' ']);
        }
        write_str(out, "    ");
    }
}

impl DisplayText for TreeIndent {
    open spec fn spec_text(&self) -> Seq<char> {
        Self::spec_default_text()
    }

    fn write_text(&self, out: &mut String) {
        Self::write_default_text(out);
    }
}

/// Tree format with a configurable marker `M` and indent `I`: the top error on
/// its own line, then each source on a new line preceded by `depth - 1`
/// indents and the marker.
#[derive(Debug, Default, Clone, Copy, PartialEq, Eq, Hash)]
pub struct Tree<M = TreeMarker, I = TreeIndent>(PhantomData<(M, I)>);

/// The lines of the sources in `sources` (index `i` sits at depth `i + 1`).
pub open spec fn marked_lines(sources: Seq<Seq<char>>, marker: Seq<char>, indent: Seq<char>) -> Seq<char>
    decreases sources.len(),
{
    if sources.len() == 0 {
        Seq::empty()
    } else {
        marked_lines(sources.drop_last(), marker, indent) + seq!['\n'] + repeat(indent, (sources.len() - 1) as nat)
            + marker + sources.last()
    }
}

impl<E: ErrorSource + ?Sized, M: DefaultText, I: DefaultText> Format<E> for Tree<M, I> {
    open spec fn spec_fmt(value: &E) -> Seq<char> {
        value.spec_text() + marked_lines(value.spec_sources(), M::spec_default_text(), I::spec_default_text())
    }

    fn fmt(value: &E, out: &mut String) {
        let parts = chain(value);
        let ghost start = out@;
        let ghost sources = value.spec_sources();
        let ghost marker = M::spec_default_text();
        let ghost ind = I::spec_default_text();
        proof {
            assert(texts(parts@).len() == parts@.len());
            assert(error_chain(value)[0] == value.spec_text());
            assert(texts(parts@)[0] == parts@[0]@);
            assert(sources.take(0) =~= Seq::<Seq<char>>::empty());
        }
        write_str(out, parts[0].as_str());
        let mut n: usize = 1;
        while n < parts.len()
            invariant
                1 <= n <= parts.len(),
                texts(parts@) == error_chain(value),
                sources == value.spec_sources(),
                marker == M::spec_default_text(),
                ind == I::spec_default_text(),
                out@ == start + value.spec_text() + marked_lines(sources.take(n - 1), marker, ind),
            decreases parts.len() - n,
        {
            write_char(out, '\n');
            let ghost before = out@;
            let mut k: usize = 0;
            while k < n - 1
                invariant
                    k <= n - 1,
                    ind == I::spec_default_text(),
                    out@ == before + repeat(ind, k as nat),
                decreases n - 1 - k,
            {
                I::write_default_text(out);
                k = k + 1;
            }
            M::write_default_text(out);
            write_str(out, parts[n].as_str());
            proof {
                assert(texts(parts@).len() == parts@.len());
                assert(error_chain(value).len() == 1 + sources.len());
                assert(texts(parts@)[n as int] == parts@[n as int]@);
                assert(error_chain(value)[n as int] == sources[n - 1]);
                assert(sources.take(n as int).drop_last() =~= sources.take(n - 1));
            }
            n = n + 1;
        }
        proof {
            assert(sources.take(n - 1) =~= sources);
        }
    }
}

} // verus!
