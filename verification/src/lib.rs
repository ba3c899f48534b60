//! Quality of life utilities for error handling: static rendering strategies
//! for errors and their source chains, context-tagged errors, and aggregates
//! of many errors rendered as trees, lists or single lines.

use vstd::prelude::*;

pub mod text;
mod add;
mod chain;
mod connectors;
mod dyn_error;
pub mod indent;
pub mod laws;
pub mod layout_laws;
mod main_result;
pub mod many_errors;
mod oneline;
pub mod path_display;
mod suggestion;
pub mod tree;
pub mod with_context;

pub use add::{Add, separator};
pub use chain::Chain;
pub use connectors::{Ascii, Connectors, TreeConnectors, Unicode};
pub use dyn_error::DynError;
pub use main_result::{DisplaySwapDebug, MainResult, MainResultWithSuggestion, WithSuggestion};
pub use many_errors::{Bullets, Inline, Joined, List, Listing, ManyErrors, Node, Subgroup, Tree};
pub use oneline::{Flat, OneLine};
pub use path_display::DisplayPath;
pub use suggestion::{Suggest, Suggestion};
pub use with_context::WithContext;

use core::marker::PhantomData;
use text::{decimal, signed_decimal, texts, write_decimal, write_signed_decimal};

verus! {

/// `Clone` of `PhantomData` (std): the marker carries no data, so the clone is
/// the marker itself. The strategy-tagged types derive `Clone` through it.
pub assume_specification<T: core::marker::PointeeSized>[<PhantomData<T> as Clone>::clone](p: &PhantomData<T>) -> (r: PhantomData<T>)
    ensures
        r == *p,
;

/// Anything with a textual rendering of its own (what `Display` writes).
pub trait DisplayText {
    /// The text of `self`.
    /// Every implementation in this library defines it; the default leaves
    /// it unspecified.
    open spec fn spec_text(&self) -> Seq<char> {
        vstd::pervasive::arbitrary()
    }

    /// Appends the text of `self` to `out`.
    fn write_text(&self, out: &mut String)
        ensures
            final(out)@ == old(out)@ + self.spec_text(),
    ;
}

impl DisplayText for str {
    open spec fn spec_text(&self) -> Seq<char> {
        self@
    }

    fn write_text(&self, out: &mut String) {
        out.append(self);
    }
}

impl DisplayText for String {
    open spec fn spec_text(&self) -> Seq<char> {
        self@
    }

    fn write_text(&self, out: &mut String) {
        out.append(self.as_str());
    }
}

impl<T: DisplayText + ?Sized> DisplayText for &T {
    open spec fn spec_text(&self) -> Seq<char> {
        (**self).spec_text()
    }

    fn write_text(&self, out: &mut String) {
        (**self).write_text(out);
    }
}

impl DisplayText for usize {
    open spec fn spec_text(&self) -> Seq<char> {
        decimal(*self as nat)
    }

    fn write_text(&self, out: &mut String) {
        write_decimal(out, *self as u64);
    }
}

impl DisplayText for u64 {
    open spec fn spec_text(&self) -> Seq<char> {
        decimal(*self as nat)
    }

    fn write_text(&self, out: &mut String) {
        write_decimal(out, *self);
    }
}

impl DisplayText for u32 {
    open spec fn spec_text(&self) -> Seq<char> {
        decimal(*self as nat)
    }

    fn write_text(&self, out: &mut String) {
        write_decimal(out, *self as u64);
    }
}

impl DisplayText for u8 {
    open spec fn spec_text(&self) -> Seq<char> {
        decimal(*self as nat)
    }

    fn write_text(&self, out: &mut String) {
        write_decimal(out, *self as u64);
    }
}

impl DisplayText for i32 {
    open spec fn spec_text(&self) -> Seq<char> {
        signed_decimal(*self as int)
    }

    fn write_text(&self, out: &mut String) {
        write_signed_decimal(out, *self as i64);
    }
}

impl DisplayText for i64 {
    open spec fn spec_text(&self) -> Seq<char> {
        signed_decimal(*self as int)
    }

    fn write_text(&self, out: &mut String) {
        write_signed_decimal(out, *self);
    }
}

/// An error: a text of its own, and the chain of errors that caused it.
pub trait ErrorSource: DisplayText {
    /// The texts of the sources of `self` (its cause, the cause's cause, ...),
    /// outermost first; empty when `self` has no source.
    /// Every implementation in this library defines it; the default leaves
    /// it unspecified.
    open spec fn spec_sources(&self) -> Seq<Seq<char>> {
        vstd::pervasive::arbitrary()
    }

    /// The error that caused `self`, if any.
    fn source(&self) -> (s: Option<DynError>)
        ensures
            match s {
                None => self.spec_sources().len() == 0,
                Some(d) => d.spec_chain() == self.spec_sources(),
            },
    ;
}

impl<T: ErrorSource + ?Sized> ErrorSource for &T {
    open spec fn spec_sources(&self) -> Seq<Seq<char>> {
        (**self).spec_sources()
    }

    fn source(&self) -> (s: Option<DynError>) {
        (**self).source()
    }
}

/// The texts of `error` and of each of its sources, outermost first.
pub open spec fn error_chain<E: ErrorSource + ?Sized>(error: &E) -> Seq<Seq<char>> {
    seq![error.spec_text()] + error.spec_sources()
}

/// The texts of an error and of its source chain: the first item is `error`
/// itself; subsequent items come from [`ErrorSource::source`].
pub fn chain<E: ErrorSource + ?Sized>(error: &E) -> (v: Vec<String>)
    ensures
        texts(v@) == error_chain(error),
{
    let mut first = String::new();
    error.write_text(&mut first);
    let mut v: Vec<String> = Vec::new();
    v.push(first);
    let mut cur = error.source();
    proof {
        assert(texts(v@) =~= seq![error.spec_text()]);
    }
    loop
        invariant
            texts(v@) + match cur {
                None => Seq::<Seq<char>>::empty(),
                Some(d) => d.spec_chain(),
            } == error_chain(error),
        decreases match cur {
            None => 0,
            Some(d) => d.spec_chain().len(),
        },
    {
        match cur {
            None => {
                assert(texts(v@) =~= error_chain(error));
                return v;
            },
            Some(d) => {
                let ghost before = texts(v@);
                let ghost rest = d.spec_chain();
                v.push(d.message);
                cur = match d.source {
                    None => None,
                    Some(b) => Some(*b),
                };
                proof {
                    assert(texts(v@) =~= before.push(rest[0]));
                    assert(rest =~= seq![rest[0]] + rest.drop_first());
                }
            },
        }
    }
}

/// A static strategy for rendering a value as text.
///
/// Usually the value is an error whose source chain the strategy walks via
/// [`chain`], but the trait itself imposes nothing on `E`: each strategy
/// declares its own bounds, so strategies also format non-error values such as
/// the pair of a [`WithContext`](crate::WithContext).
pub trait Format<E: ?Sized> {
    /// The text this strategy renders for `value`.
    /// Every implementation in this library defines it; the default leaves
    /// it unspecified.
    open spec fn spec_fmt(value: &E) -> Seq<char> {
        vstd::pervasive::arbitrary()
    }

    /// Appends the rendering of `value` to `out`.
    fn fmt(value: &E, out: &mut String)
        ensures
            final(out)@ == old(out)@ + Self::spec_fmt(value),
    ;
}

/// Strategy that renders a value through its own [`DisplayText`].
#[derive(Debug, Default, Clone, Copy, PartialEq, Eq, Hash, PartialOrd, Ord)]
pub struct AsDisplay;

impl<T: DisplayText + ?Sized> Format<T> for AsDisplay {
    open spec fn spec_fmt(value: &T) -> Seq<char> {
        value.spec_text()
    }

    fn fmt(value: &T, out: &mut String) {
        value.write_text(out);
    }
}

/// A value paired with a static [`Format`] strategy `F`; its text is what `F`
/// renders for the value.
#[derive(Clone, Copy, Default, PartialEq, Eq, Hash)]
pub struct Formatted<E, F = OneLine>(E, PhantomData<F>);

impl<E, F> Formatted<E, F> {
    /// The wrapped value.
    pub closed spec fn value(&self) -> E {
        self.0
    }

    /// `error`, wrapped for the strategy `F`.
    pub closed spec fn spec_new(error: E) -> Self {
        Formatted(error, PhantomData)
    }

    /// Wraps `error` so that it renders through the strategy `F`.
    pub fn new(error: E) -> (r: Self)
        ensures
            r == Self::spec_new(error),
            r.value() == error,
    {
        Formatted(error, PhantomData)
    }

    /// The wrapped value.
    pub fn get_ref(&self) -> (r: &E)
        ensures
            *r == self.value(),
    {
        &self.0
    }

    /// Renders the wrapped value via the strategy `F`.
    pub fn to_string(&self) -> (s: String)
        where
            F: Format<E>,
        ensures
            s@ == F::spec_fmt(&self.value()),
    {
        let mut out = String::new();
        F::fmt(&self.0, &mut out);
        out
    }
}

/// The value wrapped by [`Formatted::spec_new`] is the value given.
pub proof fn lemma_formatted_value<E, F>(error: E)
    ensures
        Formatted::<E, F>::spec_new(error).value() == error,
{
}

impl<E, F: Format<E>> DisplayText for Formatted<E, F> {
    open spec fn spec_text(&self) -> Seq<char> {
        F::spec_fmt(&self.value())
    }

    fn write_text(&self, out: &mut String) {
        F::fmt(&self.0, out);
    }
}

/// Helper methods to render any error with a strategy.
pub trait FormatError {
    /// Formats the error in a single line, its source chain joined by `": "`.
    fn one_line(&self) -> (r: Formatted<&Self, OneLine>)
        ensures
            r.value() == self,
    {
        Formatted::new(self)
    }

    /// Formats the error as an indented source-chain ladder.
    fn chain(&self) -> (r: Formatted<&Self, Chain>)
        ensures
            r.value() == self,
    {
        Formatted::new(self)
    }

    /// Renders the error's [`Suggestion`] hint; the source chain is not walked.
    fn suggestion(&self) -> (r: Formatted<&Self, Suggestion>)
        ensures
            r.value() == self,
    {
        Formatted::new(self)
    }

    /// Formats the error as a source-chain tree under the default marker and
    /// indent (`"└── "`, four spaces).
    fn tree(&self) -> (r: Formatted<&Self, tree::Tree>)
        ensures
            r.value() == self,
    {
        Formatted::new(self)
    }

    /// Formats the error using a custom [`Format`] strategy.
    fn formatted<F>(&self) -> (r: Formatted<&Self, F>)
        ensures
            r.value() == self,
    {
        Formatted::new(self)
    }
}

impl<E: ErrorSource + ?Sized> FormatError for E {}

} // verus!
