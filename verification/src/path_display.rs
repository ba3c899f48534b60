//! [`DisplayPath`]: gives a path-like value a text.

use vstd::prelude::*;

use crate::with_context::PathText;
use crate::DisplayText;

verus! {

/// Wrapper that renders a path-like value as its displayed path, so it can sit
/// where a text is needed (e.g. as the context of a
/// [`WithContext`](crate::WithContext) under the default
/// [`Colon`](crate::with_context::Colon) strategy).
#[derive(Debug, Clone, Copy, Default, PartialEq, Eq, Hash, PartialOrd, Ord)]
pub struct DisplayPath<T>(pub T);

impl<T> DisplayPath<T> {
    /// Wraps `value`.
    pub fn new(value: T) -> (r: Self)
        ensures
            r.0 == value,
    {
        DisplayPath(value)
    }
}

impl<P: PathText> DisplayText for DisplayPath<P> {
    open spec fn spec_text(&self) -> Seq<char> {
        self.0.spec_path()
    }

    fn write_text(&self, out: &mut String) {
        self.0.write_path(out);
    }
}

impl<T> From<T> for DisplayPath<T> {
    fn from(value: T) -> (r: Self) {
        DisplayPath(value)
    }
}

impl<T> vstd::std_specs::convert::FromSpecImpl<T> for DisplayPath<T> {
    open spec fn obeys_from_spec() -> bool {
        true
    }

    open spec fn from_spec(value: T) -> Self {
        DisplayPath(value)
    }
}

} // verus!
