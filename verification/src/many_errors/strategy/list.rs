//! [`List`]: render a [`ManyErrors`](crate::ManyErrors) as a numbered list.

use vstd::prelude::*;

use crate::many_errors::ManyErrors;
use crate::text::{decimal, write_char, write_decimal, write_str};
use crate::with_context::WithContext;
use crate::{ErrorSource, Format};

use super::marked::{draw_marked_many, marked_many, Marker};

verus! {

/// Aggregate strategy that renders a [`ManyErrors`](crate::ManyErrors) as a
/// numbered list (`1.`, `2.`, … per level).
#[derive(Debug, Default, Clone, Copy, PartialEq, Eq, Hash)]
pub struct List;

/// Numbered rows: top-level rows sit flush; a group's rows indent one unit
/// past the group's content column.
impl Marker for List {
    const TOP_ROW: usize = 0;
    const GROUP_ROW_OFFSET: usize = 1;

    open spec fn spec_marker(prefix: Seq<char>, index: nat) -> Seq<char> {
        seq!['\n'] + prefix + decimal(index + 1) + seq!['.', ' ']
    }

    fn write_marker(out: &mut String, prefix: &str, index: usize) {
        write_char(out, '\n');
        write_str(out, prefix);
        write_decimal(out, index as u64 + 1);
        write_char(out, '.');
        write_char(out, ' ');
        assert(out@ =~= old(out)@ + Self::spec_marker(prefix@, index as nat));
    }
}

impl<C, E: ErrorSource, GC, F: Format<WithContext<C, E, F>>, GF: Format<GC>> Format<ManyErrors<C, E, GC, F, GF>> for List {
    open spec fn spec_fmt(m: &ManyErrors<C, E, GC, F, GF>) -> Seq<char> {
        marked_many::<List, C, E, GC, F, GF>(*m)
    }

    fn fmt(m: &ManyErrors<C, E, GC, F, GF>, out: &mut String) {
        draw_marked_many::<List, C, E, GC, F, GF>(m, out);
    }
}

impl<'a, T: ?Sized> Format<&'a T> for List where List: Format<T> {
    open spec fn spec_fmt(value: &&'a T) -> Seq<char> {
        <List as Format<T>>::spec_fmt(*value)
    }

    fn fmt(value: &&'a T, out: &mut String) {
        <List as Format<T>>::fmt(*value, out);
    }
}

} // verus!
