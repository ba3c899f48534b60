//! [`Add`]: the combinator that renders two strategies in sequence.

use vstd::prelude::*;

use core::marker::PhantomData;

use crate::Format;

pub mod separator;

verus! {

/// Combines two [`Format`] strategies, rendering `L` then `R` against the same
/// value. There is no built-in separator: use one of the [`separator`] tags as
/// a middle term. Both sides are written unconditionally.
#[derive(Debug, Default, Clone, Copy, PartialEq, Eq, Hash)]
pub struct Add<L, R>(PhantomData<(L, R)>);

impl<E: ?Sized, L: Format<E>, R: Format<E>> Format<E> for Add<L, R> {
    open spec fn spec_fmt(value: &E) -> Seq<char> {
        L::spec_fmt(value) + R::spec_fmt(value)
    }

    fn fmt(value: &E, out: &mut String) {
        L::fmt(value, out);
        R::fmt(value, out);
    }
}

} // verus!
