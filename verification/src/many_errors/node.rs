//! A single child of a [`ManyErrors`]: a leaf error with context, or a named
//! sub-group.

use vstd::prelude::*;

use core::marker::PhantomData;

use crate::text::{no_errors, open_paren, write_char, write_open_paren};
use crate::with_context::{Colon, WithContext};
use crate::{AsDisplay, DisplayText, DynError, ErrorSource, Format};

use super::strategy::{draw_line_many, line_many};
use super::ManyErrors;

verus! {

/// The payload of a [`Node::Group`]: a label paired with the boxed nested
/// [`ManyErrors`].
#[derive(Debug, PartialEq, Eq, Hash)]
pub struct Subgroup<C, E, GroupContext = C, F = Colon, GroupFormat = AsDisplay> {
    /// The group label.
    pub context: GroupContext,
    /// The nested errors.
    pub errors: Box<ManyErrors<C, E, GroupContext, F, GroupFormat>>,
    /// Ties the group to its label strategy; carries no data.
    pub _label: PhantomData<GroupFormat>,
}

impl<C, E, GroupContext, F, GroupFormat> Subgroup<C, E, GroupContext, F, GroupFormat> {
    /// Pairs the label `context` with the nested `errors`.
    pub fn new(context: GroupContext, errors: ManyErrors<C, E, GroupContext, F, GroupFormat>) -> (g: Self)
        ensures
            g == (Subgroup { context, errors: Box::new(errors), _label: PhantomData }),
    {
        Subgroup { context, errors: Box::new(errors), _label: PhantomData }
    }
}

/// A child of a [`ManyErrors`]: either a leaf error paired with context, or a
/// named sub-group of further errors.
#[derive(Debug, PartialEq, Eq, Hash)]
pub enum Node<C, E, GroupContext = C, F = Colon, GroupFormat = AsDisplay> {
    /// A leaf: one context-tagged error.
    Leaf(WithContext<C, E, F>),
    /// A named sub-group: a label paired with nested errors.
    Group(Subgroup<C, E, GroupContext, F, GroupFormat>),
}

impl<C, E, GroupContext, F, GroupFormat> Node<C, E, GroupContext, F, GroupFormat> {
    /// The leaf of `context` and `error`.
    pub open spec fn spec_leaf(context: C, error: E) -> Self {
        Node::Leaf(WithContext::spec_new(context, error))
    }

    /// The group labelled `context` over `errors`.
    pub open spec fn spec_group(context: GroupContext, errors: ManyErrors<C, E, GroupContext, F, GroupFormat>) -> Self {
        Node::Group(Subgroup { context, errors: Box::new(errors), _label: PhantomData })
    }

    /// Returns `true` if this is a [`Node::Leaf`].
    pub fn is_leaf(&self) -> (b: bool)
        ensures
            b == (self is Leaf),
    {
        match self {
            Node::Leaf(_) => true,
            Node::Group(_) => false,
        }
    }

    /// The leaf's pair, or `None` for a group.
    pub fn as_leaf(&self) -> (r: Option<&WithContext<C, E, F>>)
        ensures
            match self {
                Node::Leaf(w) => r == Some(w),
                Node::Group(_) => r is None,
            },
    {
        match self {
            Node::Leaf(w) => Some(w),
            Node::Group(_) => None,
        }
    }

    /// The group's payload, or `None` for a leaf.
    pub fn as_group(&self) -> (r: Option<&Subgroup<C, E, GroupContext, F, GroupFormat>>)
        ensures
            match self {
                Node::Group(g) => r == Some(g),
                Node::Leaf(_) => r is None,
            },
    {
        match self {
            Node::Group(g) => Some(g),
            Node::Leaf(_) => None,
        }
    }
}

impl<C, E, GroupContext, F, GroupFormat> From<WithContext<C, E, F>> for Node<C, E, GroupContext, F, GroupFormat> {
    fn from(w: WithContext<C, E, F>) -> (n: Self) {
        Node::Leaf(w)
    }
}

impl<C, E, GroupContext, F, GroupFormat> vstd::std_specs::convert::FromSpecImpl<WithContext<C, E, F>> for Node<C, E, GroupContext, F, GroupFormat> {
    open spec fn obeys_from_spec() -> bool {
        true
    }

    open spec fn from_spec(w: WithContext<C, E, F>) -> Self {
        Node::Leaf(w)
    }
}

impl<C, E, GroupContext, F, GroupFormat> From<(C, E)> for Node<C, E, GroupContext, F, GroupFormat> {
    fn from(pair: (C, E)) -> (n: Self) {
        Node::Leaf(WithContext::new(pair.0, pair.1))
    }
}

impl<C, E, GroupContext, F, GroupFormat> vstd::std_specs::convert::FromSpecImpl<(C, E)> for Node<C, E, GroupContext, F, GroupFormat> {
    open spec fn obeys_from_spec() -> bool {
        true
    }

    open spec fn from_spec(pair: (C, E)) -> Self {
        Node::spec_leaf(pair.0, pair.1)
    }
}

impl<C, E, GroupContext, F, GroupFormat> From<Subgroup<C, E, GroupContext, F, GroupFormat>> for Node<C, E, GroupContext, F, GroupFormat> {
    fn from(group: Subgroup<C, E, GroupContext, F, GroupFormat>) -> (n: Self) {
        Node::Group(group)
    }
}

impl<C, E, GroupContext, F, GroupFormat> vstd::std_specs::convert::FromSpecImpl<Subgroup<C, E, GroupContext, F, GroupFormat>> for Node<C, E, GroupContext, F, GroupFormat> {
    open spec fn obeys_from_spec() -> bool {
        true
    }

    open spec fn from_spec(group: Subgroup<C, E, GroupContext, F, GroupFormat>) -> Self {
        Node::Group(group)
    }
}

/// Standalone group rendering: the label through `GroupFormat`, then the
/// nested errors as a shallow summary in parens: `"label (…)"`.
impl<C, E: ErrorSource, GroupContext, F: Format<WithContext<C, E, F>>, GroupFormat: Format<GroupContext>> DisplayText for Subgroup<C, E, GroupContext, F, GroupFormat> {
    open spec fn spec_text(&self) -> Seq<char> {
        GroupFormat::spec_fmt(&self.context) + open_paren() + line_many(*self.errors, false, no_errors()) + seq![')']
    }

    fn write_text(&self, out: &mut String) {
        GroupFormat::fmt(&self.context, out);
        write_open_paren(out);
        draw_line_many(&*self.errors, false, false, out);
        write_char(out, ')');
    }
}

impl<C, E: ErrorSource, GroupContext, F: Format<WithContext<C, E, F>>, GroupFormat: Format<GroupContext>> Subgroup<C, E, GroupContext, F, GroupFormat> {
    /// The standalone text of the group: `"label (…)"`.
    pub fn to_string(&self) -> (s: String)
        ensures
            s@ == self.spec_text(),
    {
        let mut out = String::new();
        self.write_text(&mut out);
        out
    }
}

impl<C, E: ErrorSource, GroupContext, F: Format<WithContext<C, E, F>>, GroupFormat: Format<GroupContext>> Node<C, E, GroupContext, F, GroupFormat> {
    /// The standalone text of the node: a leaf's pair, or a group's
    /// `"label (…)"`.
    pub fn to_string(&self) -> (s: String)
        ensures
            s@ == self.spec_text(),
    {
        let mut out = String::new();
        self.write_text(&mut out);
        out
    }
}

/// A group has no single linear cause: its source is always `None`.
impl<C, E: ErrorSource, GroupContext, F: Format<WithContext<C, E, F>>, GroupFormat: Format<GroupContext>> ErrorSource for Subgroup<C, E, GroupContext, F, GroupFormat> {
    open spec fn spec_sources(&self) -> Seq<Seq<char>> {
        Seq::empty()
    }

    fn source(&self) -> (s: Option<DynError>) {
        None
    }
}

/// A leaf renders as its pair, a group as `"label (…)"`.
impl<C, E: ErrorSource, GroupContext, F: Format<WithContext<C, E, F>>, GroupFormat: Format<GroupContext>> DisplayText for Node<C, E, GroupContext, F, GroupFormat> {
    open spec fn spec_text(&self) -> Seq<char> {
        match self {
            Node::Leaf(w) => w.spec_text(),
            Node::Group(g) => g.spec_text(),
        }
    }

    fn write_text(&self, out: &mut String) {
        match self {
            Node::Leaf(w) => w.write_text(out),
            Node::Group(g) => g.write_text(out),
        }
    }
}

/// A leaf's source is its pair's source (the inner error is skipped); a
/// group's source is `None`.
impl<C, E: ErrorSource, GroupContext, F: Format<WithContext<C, E, F>>, GroupFormat: Format<GroupContext>> ErrorSource for Node<C, E, GroupContext, F, GroupFormat> {
    open spec fn spec_sources(&self) -> Seq<Seq<char>> {
        match self {
            Node::Leaf(w) => w.error.spec_sources(),
            Node::Group(_) => Seq::empty(),
        }
    }

    fn source(&self) -> (s: Option<DynError>) {
        match self {
            Node::Leaf(w) => w.error.source(),
            Node::Group(_) => None,
        }
    }
}

} // verus!
