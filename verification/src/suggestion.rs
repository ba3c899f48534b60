//! [`Suggest`] hints and the [`Suggestion`] strategy that renders them.

use vstd::prelude::*;

use crate::{ErrorSource, Format};

verus! {

/// A suggestion for how to fix an error.
///
/// Only the top-level error's hint is printed; the source chain isn't walked.
pub trait Suggest {
    /// The hint text of `self`; empty when there is no hint. Every
    /// implementation in this library defines it; the default leaves it
    /// unspecified.
    open spec fn spec_hint(&self) -> Seq<char> {
        vstd::pervasive::arbitrary()
    }

    /// Appends the suggestion text for `self` to `out`.
    fn fmt(&self, out: &mut String)
        ensures
            final(out)@ == old(out)@ + self.spec_hint(),
    ;
}

impl<T: Suggest + ?Sized> Suggest for &T {
    open spec fn spec_hint(&self) -> Seq<char> {
        (**self).spec_hint()
    }

    fn fmt(&self, out: &mut String) {
        Suggest::fmt(*self, out);
    }
}

/// Strategy that renders the top-level error's [`Suggest`] hint; the source
/// chain is not walked.
#[derive(Debug, Default, Clone, Copy, PartialEq, Eq, Hash, PartialOrd, Ord)]
pub struct Suggestion;

impl<E: ErrorSource + Suggest + ?Sized> Format<E> for Suggestion {
    open spec fn spec_fmt(value: &E) -> Seq<char> {
        value.spec_hint()
    }

    fn fmt(value: &E, out: &mut String) {
        Suggest::fmt(value, out);
    }
}

} // verus!
