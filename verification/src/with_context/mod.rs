//! [`WithContext`]: a context value paired with an error.

use vstd::prelude::*;

use core::marker::PhantomData;

use crate::{DisplayText, DynError, ErrorSource, Format};

mod format;

pub use format::{Colon, ContextField, ContextPath, ErrorField, PathColon, PathText, WithContextColon, WithContextPathColon};

verus! {

/// [`WithContext`] with the path-aware [`PathColon`] strategy.
pub type WithPath<C, E> = WithContext<C, E, PathColon>;

/// A context value paired with an error, rendered through the static
/// [`Format`] strategy `WithContextFormat` (default [`Colon`]:
/// `"{context}: {error}"`).
///
/// As an error, its source is the inner error's source: the inner error
/// itself is skipped, since the strategy already prints it, so chain-walking
/// strategies don't show it twice.
#[derive(Debug, Clone, Copy, PartialEq, Eq, Hash)]
pub struct WithContext<C, E, WithContextFormat = Colon> {
    /// The context value tagging this error (e.g. a file path or step number).
    pub context: C,
    /// The underlying error.
    pub error: E,
    /// Ties the pair to its strategy; carries no data.
    pub _format: PhantomData<WithContextFormat>,
}

impl<C, E, WithContextFormat> WithContext<C, E, WithContextFormat> {
    /// The pair of `context` and `error`, as a value.
    pub open spec fn spec_new(context: C, error: E) -> Self {
        WithContext { context, error, _format: PhantomData }
    }

    /// Pairs `context` with `error`.
    pub fn new(context: C, error: E) -> (w: Self)
        ensures
            w == Self::spec_new(context, error),
    {
        WithContext { context, error, _format: PhantomData }
    }

    /// The same pair, rendered through another strategy.
    pub fn with_format<NewSelfFormat>(self) -> (w: WithContext<C, E, NewSelfFormat>)
        where
            NewSelfFormat: Format<WithContext<C, E, NewSelfFormat>>,
        ensures
            w == WithContext::<C, E, NewSelfFormat>::spec_new(self.context, self.error),
    {
        WithContext { context: self.context, error: self.error, _format: PhantomData }
    }

    /// The text of the pair, as its strategy renders it.
    pub fn to_string(&self) -> (s: String)
        where
            WithContextFormat: Format<Self>,
        ensures
            s@ == WithContextFormat::spec_fmt(self),
    {
        let mut out = String::new();
        WithContextFormat::fmt(self, &mut out);
        out
    }

    /// The inner error's source (the inner error itself is skipped).
    pub fn source(&self) -> (s: Option<DynError>)
        where
            E: ErrorSource,
        ensures
            match s {
                None => self.error.spec_sources().len() == 0,
                Some(d) => d.spec_chain() == self.error.spec_sources(),
            },
    {
        self.error.source()
    }
}

impl<C, E, WithContextFormat> From<(C, E)> for WithContext<C, E, WithContextFormat> {
    fn from(pair: (C, E)) -> (w: Self) {
        WithContext { context: pair.0, error: pair.1, _format: PhantomData }
    }
}

impl<C, E, WithContextFormat> vstd::std_specs::convert::FromSpecImpl<(C, E)> for WithContext<C, E, WithContextFormat> {
    open spec fn obeys_from_spec() -> bool {
        true
    }

    open spec fn from_spec(pair: (C, E)) -> Self {
        WithContext { context: pair.0, error: pair.1, _format: PhantomData }
    }
}

impl<C, E, WithContextFormat: Format<WithContext<C, E, WithContextFormat>>> DisplayText for WithContext<C, E, WithContextFormat> {
    open spec fn spec_text(&self) -> Seq<char> {
        WithContextFormat::spec_fmt(self)
    }

    fn write_text(&self, out: &mut String) {
        WithContextFormat::fmt(self, out);
    }
}

impl<C, E: ErrorSource, WithContextFormat: Format<WithContext<C, E, WithContextFormat>>> ErrorSource for WithContext<C, E, WithContextFormat> {
    open spec fn spec_sources(&self) -> Seq<Seq<char>> {
        self.error.spec_sources()
    }

    fn source(&self) -> (s: Option<DynError>) {
        self.error.source()
    }
}

} // verus!
