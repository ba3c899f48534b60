//! [`MainResult`]: a `Result` for `main` whose error renders through a
//! strategy, and the [`DisplaySwapDebug`] wrapper it relies on.

use vstd::prelude::*;

use crate::separator::{NewLine, WithSep};
use crate::{DisplayText, ErrorSource, Format, Formatted, OneLine, Suggestion};

verus! {

/// A result for `main`: the error is wrapped in [`Formatted`] and
/// [`DisplaySwapDebug`], so that printing it for debugging renders the
/// strategy `F` (default [`OneLine`]).
pub type MainResult<E, F = OneLine, T = ()> = core::result::Result<T, DisplaySwapDebug<Formatted<E, F>>>;

/// [`MainResult`] whose error is followed by a newline and its suggestion.
pub type MainResultWithSuggestion<E, F = OneLine, T = ()> = core::result::Result<
    T,
    DisplaySwapDebug<Formatted<E, WithSuggestion<F, NewLine>>>,
>;

/// The strategy `F`, then `Sep`, then the top-level [`Suggestion`]; the
/// separator is written even when the suggestion is empty.
pub type WithSuggestion<F = OneLine, Sep = NewLine> = WithSep<F, Sep, Suggestion>;

/// Wrapper whose debug rendering is the inner value's text: `main` prints a
/// returned error for debugging, and this makes that print the rendered error.
#[derive(Clone, Copy, Default, PartialEq, Eq, Hash, PartialOrd, Ord)]
pub struct DisplaySwapDebug<T>(pub T);

impl<T> DisplaySwapDebug<T> {
    /// Wraps `value`.
    pub fn new(value: T) -> (r: Self)
        ensures
            r.0 == value,
    {
        DisplaySwapDebug(value)
    }

    /// What the wrapper prints when printed for debugging: the text of the
    /// inner value.
    pub fn debug_string(&self) -> (s: String)
        where
            T: DisplayText,
        ensures
            s@ == self.0.spec_text(),
    {
        let mut out = String::new();
        self.0.write_text(&mut out);
        out
    }
}

impl<U: DisplayText> DisplaySwapDebug<DisplaySwapDebug<U>> {
    /// What the outer wrapper prints when displayed: the debug rendering of
    /// the inner wrapper, which is the text of the value it wraps.
    pub fn to_string(&self) -> (s: String)
        ensures
            s@ == self.0.0.spec_text(),
    {
        self.0.debug_string()
    }
}

impl<'a, U: DisplayText> DisplaySwapDebug<&'a DisplaySwapDebug<U>> {
    /// What the outer wrapper prints when displayed: the debug rendering of
    /// the borrowed inner wrapper, which is the text of the value it wraps.
    pub fn to_string(&self) -> (s: String)
        ensures
            s@ == self.0.0.spec_text(),
    {
        self.0.debug_string()
    }
}

/// `?` in a function returning [`MainResult`] wraps the error for rendering
/// through `F`.
impl<E: ErrorSource, F: Format<E>> From<E> for DisplaySwapDebug<Formatted<E, F>> {
    fn from(value: E) -> (r: Self) {
        DisplaySwapDebug(Formatted::new(value))
    }
}

impl<E: ErrorSource, F: Format<E>> vstd::std_specs::convert::FromSpecImpl<E> for DisplaySwapDebug<Formatted<E, F>> {
    open spec fn obeys_from_spec() -> bool {
        true
    }

    open spec fn from_spec(value: E) -> Self {
        DisplaySwapDebug(Formatted::spec_new(value))
    }
}

impl<T> From<T> for DisplaySwapDebug<T> {
    fn from(value: T) -> (r: Self) {
        DisplaySwapDebug(value)
    }
}

impl<T> vstd::std_specs::convert::FromSpecImpl<T> for DisplaySwapDebug<T> {
    open spec fn obeys_from_spec() -> bool {
        true
    }

    open spec fn from_spec(value: T) -> Self {
        DisplaySwapDebug(value)
    }
}

} // verus!
