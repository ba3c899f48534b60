//! Separator strategies for [`Add`]: each writes a fixed text and ignores its
//! input, so they compose with any value.

use vstd::prelude::*;

use crate::{Add, Format};

verus! {

/// Strategy that writes a single line feed.
#[derive(Debug, Default, Clone, Copy, PartialEq, Eq, Hash, PartialOrd, Ord)]
pub struct NewLine;

impl<E: ?Sized> Format<E> for NewLine {
    open spec fn spec_fmt(value: &E) -> Seq<char> {
        seq!['\n']
    }

    fn fmt(value: &E, out: &mut String) {
        proof {
            reveal_strlit("\n");
        }
        out.append("\n");
    }
}

/// Strategy that writes a single space.
#[derive(Debug, Default, Clone, Copy, PartialEq, Eq, Hash, PartialOrd, Ord)]
pub struct Space;

impl<E: ?Sized> Format<E> for Space {
    open spec fn spec_fmt(value: &E) -> Seq<char> {
        seq![' ']
    }

    fn fmt(value: &E, out: &mut String) {
        proof {
            reveal_strlit(" ");
        }
        out.append(" ");
    }
}

/// Strategy that writes nothing: the identity element of [`Add`].
#[derive(Debug, Default, Clone, Copy, PartialEq, Eq, Hash, PartialOrd, Ord)]
pub struct Empty;

impl<E: ?Sized> Format<E> for Empty {
    open spec fn spec_fmt(value: &E) -> Seq<char> {
        Seq::empty()
    }

    fn fmt(value: &E, out: &mut String) {
        assert(old(out)@ + Seq::<char>::empty() =~= old(out)@);
    }
}

/// Strategy that writes a colon (`":"`).
#[derive(Debug, Default, Clone, Copy, PartialEq, Eq, Hash, PartialOrd, Ord)]
pub struct ColonChar;

impl<E: ?Sized> Format<E> for ColonChar {
    open spec fn spec_fmt(value: &E) -> Seq<char> {
        seq![':']
    }

    fn fmt(value: &E, out: &mut String) {
        proof {
            reveal_strlit(":");
        }
        out.append(":");
    }
}

/// The colon separator under its short name.
pub type Colon = ColonChar;

/// Writes `": "`.
pub type ColonSpace = Add<ColonChar, Space>;

/// Writes `L`, then `Sep`, then `R`.
pub type WithSep<L, Sep, R> = Add<Add<L, Sep>, R>;

/// `L` and `R` with a [`Space`] between.
pub type WithSpace<L, R> = WithSep<L, Space, R>;

/// `L` and `R` with a [`NewLine`] between.
pub type WithNewLine<L, R> = WithSep<L, NewLine, R>;

/// `L` and `R` with [`ColonSpace`] between.
pub type WithColonSpace<L, R> = WithSep<L, ColonSpace, R>;

} // verus!
