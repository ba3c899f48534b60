//! Field extractors and pre-composed strategies for [`WithContext`].

use vstd::prelude::*;

use crate::separator::WithColonSpace;
use crate::{DisplayText, Format};

use super::WithContext;

verus! {

/// [`WithContext`] with the default [`Colon`] strategy.
pub type WithContextColon<C, E> = WithContext<C, E, Colon>;

/// [`WithContext`] with the [`PathColon`] strategy.
pub type WithContextPathColon<C, E> = WithContext<C, E, PathColon>;

/// Strategy that prints the `context` field of a pair through its text.
#[derive(Debug, Default, Clone, Copy, PartialEq, Eq, Hash, PartialOrd, Ord)]
pub struct ContextField;

impl<C: DisplayText, E, WithContextFormat> Format<WithContext<C, E, WithContextFormat>> for ContextField {
    open spec fn spec_fmt(w: &WithContext<C, E, WithContextFormat>) -> Seq<char> {
        w.context.spec_text()
    }

    fn fmt(w: &WithContext<C, E, WithContextFormat>, out: &mut String) {
        w.context.write_text(out);
    }
}

/// Strategy that prints the `error` field of a pair through its text.
#[derive(Debug, Default, Clone, Copy, PartialEq, Eq, Hash, PartialOrd, Ord)]
pub struct ErrorField;

impl<C, E: DisplayText, WithContextFormat> Format<WithContext<C, E, WithContextFormat>> for ErrorField {
    open spec fn spec_fmt(w: &WithContext<C, E, WithContextFormat>) -> Seq<char> {
        w.error.spec_text()
    }

    fn fmt(w: &WithContext<C, E, WithContextFormat>, out: &mut String) {
        w.error.write_text(out);
    }
}

/// A value that names a file-system path and renders as that path.
pub trait PathText {
    /// The displayed form of the path.
    /// Every implementation in this library defines it; the default leaves
    /// it unspecified.
    open spec fn spec_path(&self) -> Seq<char> {
        vstd::pervasive::arbitrary()
    }

    /// Appends the displayed form of the path to `out`.
    fn write_path(&self, out: &mut String)
        ensures
            final(out)@ == old(out)@ + self.spec_path(),
    ;
}

impl PathText for str {
    open spec fn spec_path(&self) -> Seq<char> {
        self@
    }

    fn write_path(&self, out: &mut String) {
        out.append(self);
    }
}

impl PathText for String {
    open spec fn spec_path(&self) -> Seq<char> {
        self@
    }

    fn write_path(&self, out: &mut String) {
        out.append(self.as_str());
    }
}

impl<T: PathText + ?Sized> PathText for &T {
    open spec fn spec_path(&self) -> Seq<char> {
        (**self).spec_path()
    }

    fn write_path(&self, out: &mut String) {
        (**self).write_path(out);
    }
}

/// Strategy that prints the `context` field of a pair as a path.
#[derive(Debug, Default, Clone, Copy, PartialEq, Eq, Hash, PartialOrd, Ord)]
pub struct ContextPath;

impl<P: PathText, E, WithContextFormat> Format<WithContext<P, E, WithContextFormat>> for ContextPath {
    open spec fn spec_fmt(w: &WithContext<P, E, WithContextFormat>) -> Seq<char> {
        w.context.spec_path()
    }

    fn fmt(w: &WithContext<P, E, WithContextFormat>, out: &mut String) {
        w.context.write_path(out);
    }
}

/// Default pair strategy: `"{context}: {error}"`.
pub type Colon = WithColonSpace<ContextField, ErrorField>;

/// Path-aware pair strategy: `"{path}: {error}"`.
pub type PathColon = WithColonSpace<ContextPath, ErrorField>;

} // verus!
