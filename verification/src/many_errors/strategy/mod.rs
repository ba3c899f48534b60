//! Aggregate format strategies for [`ManyErrors`]: [`Tree`], [`List`],
//! [`Bullets`], [`Joined`] and [`Inline`], plus the building blocks they share.

use vstd::prelude::*;

use crate::text::{colon_space, decimal, errors_word, join, write_error_count, write_joined};
use crate::with_context::WithContext;
use crate::{chain, DisplayText, ErrorSource, Format};

mod bullets;
mod list;
mod listing;
mod marked;
mod one_line;
mod tree;

pub use bullets::Bullets;
pub use list::List;
pub use listing::{item_texts, Listing};
pub use marked::{marked_children, marked_many, marked_node, unit, Marker};
pub use one_line::{line_many, line_node, line_nodes, Inline, Joined, Summary};
pub use tree::{pad, tree_children, tree_many, tree_node, tree_sources, HeaderSwitch, NoHeader, Tree, WithHeader};
pub(crate) use marked::{draw_marked_children, draw_marked_many, draw_marked_node};
pub(crate) use one_line::{draw_line_many, draw_line_node};
pub(crate) use tree::{draw_children, draw_error_chain, draw_many, draw_node};

verus! {

/// Rendered when an aggregate (or a group) has no children.
pub const NO_ERRORS: &'static str = "no errors";

/// `"N errors"`: the count phrase every aggregate header builds on.
pub struct ErrorCount(pub usize);

impl DisplayText for ErrorCount {
    open spec fn spec_text(&self) -> Seq<char> {
        decimal(self.0 as nat) + errors_word()
    }

    fn write_text(&self, out: &mut String) {
        write_error_count(out, self.0);
    }
}

/// The leaf pair (its text through `F`) followed by the `": "`-joined texts of
/// the inner error's sources.
pub open spec fn leaf_chain<C, E: ErrorSource, F: Format<WithContext<C, E, F>>>(w: &WithContext<C, E, F>) -> Seq<char> {
    join(seq![F::spec_fmt(w)] + w.error.spec_sources(), colon_space())
}

/// Displays a leaf pair followed by its `": "`-joined source chain.
pub struct LeafChain<'a, C, E, F>(pub &'a WithContext<C, E, F>);

impl<'a, C, E: ErrorSource, F: Format<WithContext<C, E, F>>> DisplayText for LeafChain<'a, C, E, F> {
    open spec fn spec_text(&self) -> Seq<char> {
        leaf_chain(self.0)
    }

    fn write_text(&self, out: &mut String) {
        write_leaf_chain(self.0, out);
    }
}

impl<'a, C, E: ErrorSource, F: Format<WithContext<C, E, F>>> LeafChain<'a, C, E, F> {
    /// The leaf pair and its `": "`-joined source chain, as a string.
    pub fn to_string(&self) -> (s: String)
        ensures
            s@ == leaf_chain(self.0),
    {
        let mut out = String::new();
        write_leaf_chain(self.0, &mut out);
        out
    }
}

impl ErrorCount {
    /// `"N errors"`, as a string.
    pub fn to_string(&self) -> (s: String)
        ensures
            s@ == decimal(self.0 as nat) + errors_word(),
    {
        let mut out = String::new();
        write_error_count(&mut out, self.0);
        out
    }
}

/// Appends the leaf pair and its `": "`-joined source chain.
pub(crate) fn write_leaf_chain<C, E: ErrorSource, F: Format<WithContext<C, E, F>>>(w: &WithContext<C, E, F>, out: &mut String)
    ensures
        final(out)@ == old(out)@ + leaf_chain(w),
{
    let parts = chain(w);
    proof {
        reveal_strlit(": ");
        assert(": "@ =~= colon_space());
    }
    write_joined(out, &parts, ": ");
}

} // verus!

