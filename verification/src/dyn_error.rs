//! [`DynError`]: an error value as the rendering strategies read it.

use vstd::prelude::*;

use crate::{error_chain, DisplayText, ErrorSource, Suggest};

verus! {

/// An error as every chain-walking strategy sees it: its own message, its
/// optional "did you mean" hint, and the error it was caused by.
///
/// This is the library's value-level form of a `&dyn Error`: `message` is what
/// the error's `Display` writes, `source` is what `Error::source` returns.
#[derive(Debug, PartialEq, Eq, Hash)]
pub struct DynError {
    /// The error's own text.
    pub message: String,
    /// The fix hint written by [`Suggest`]; empty when the error has none.
    pub hint: String,
    /// The error that caused this one.
    pub source: Option<Box<DynError>>,
}

impl DynError {
    /// The texts of the error and of each of its sources, outermost first.
    pub open spec fn spec_chain(&self) -> Seq<Seq<char>>
        decreases self,
    {
        seq![self.message@] + match self.source {
            None => Seq::empty(),
            Some(b) => b.spec_chain(),
        }
    }

    /// An error with `message`, no hint and no source.
    pub fn new(message: &str) -> (e: DynError)
        ensures
            e.message@ == message@,
            e.hint@ == Seq::<char>::empty(),
            e.source is None,
            e.spec_chain() == seq![message@],
    {
        DynError { message: message.to_owned(), hint: String::new(), source: None }
    }

    /// The value-level form of `error`: its text, no hint, and its source
    /// chain.
    pub fn of<E: ErrorSource + ?Sized>(error: &E) -> (e: DynError)
        ensures
            e.message@ == error.spec_text(),
            e.hint@ == Seq::<char>::empty(),
            e.spec_chain() == error_chain(error),
    {
        let mut message = String::new();
        error.write_text(&mut message);
        let source = match error.source() {
            None => None,
            Some(d) => Some(Box::new(d)),
        };
        DynError { message, hint: String::new(), source }
    }

    /// The same error, caused by `source`.
    pub fn with_source(self, source: DynError) -> (e: DynError)
        ensures
            e.message == self.message,
            e.hint == self.hint,
            e.source == Some(Box::new(source)),
            e.spec_chain() == seq![self.message@] + source.spec_chain(),
    {
        DynError { message: self.message, hint: self.hint, source: Some(Box::new(source)) }
    }

    /// The same error, with the fix hint `hint`.
    pub fn with_hint(self, hint: &str) -> (e: DynError)
        ensures
            e.message == self.message,
            e.hint@ == hint@,
            e.source == self.source,
            e.spec_chain() == self.spec_chain(),
    {
        DynError { message: self.message, hint: hint.to_owned(), source: self.source }
    }

    /// A copy of the error with every field equal.
    pub fn duplicate(&self) -> (e: DynError)
        ensures
            e == *self,
        decreases self,
    {
        let source = match &self.source {
            None => None,
            Some(b) => Some(Box::new(b.duplicate())),
        };
        DynError { message: self.message.clone(), hint: self.hint.clone(), source }
    }

    /// The error's own text (its `Display`).
    pub fn to_string(&self) -> (s: String)
        ensures
            s@ == self.message@,
    {
        self.message.clone()
    }
}

impl Clone for DynError {
    fn clone(&self) -> (e: Self)
        ensures
            e == *self,
    {
        self.duplicate()
    }
}

impl DisplayText for DynError {
    open spec fn spec_text(&self) -> Seq<char> {
        self.message@
    }

    fn write_text(&self, out: &mut String) {
        out.append(self.message.as_str());
    }
}

impl ErrorSource for DynError {
    open spec fn spec_sources(&self) -> Seq<Seq<char>> {
        match self.source {
            None => Seq::empty(),
            Some(b) => b.spec_chain(),
        }
    }

    fn source(&self) -> (s: Option<DynError>) {
        match &self.source {
            None => None,
            Some(b) => Some(b.duplicate()),
        }
    }
}

impl Suggest for DynError {
    open spec fn spec_hint(&self) -> Seq<char> {
        self.hint@
    }

    fn fmt(&self, out: &mut String) {
        out.append(self.hint.as_str());
    }
}

} // verus!
