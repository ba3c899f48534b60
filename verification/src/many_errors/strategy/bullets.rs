//! [`Bullets`]: render a [`ManyErrors`](crate::ManyErrors) as a bulleted list.

use vstd::prelude::*;

use crate::many_errors::ManyErrors;
use crate::text::{write_char, write_str};
use crate::with_context::WithContext;
use crate::{ErrorSource, Format};

use super::marked::{draw_marked_many, marked_many, Marker};

verus! {

/// Aggregate strategy that renders a [`ManyErrors`](crate::ManyErrors) as a
/// bulleted (`•`) list.
#[derive(Debug, Default, Clone, Copy, PartialEq, Eq, Hash)]
pub struct Bullets;

/// Bulleted rows: top-level rows indent one unit; a group's rows sit at the
/// group's content column.
impl Marker for Bullets {
    const TOP_ROW: usize = 1;
    const GROUP_ROW_OFFSET: usize = 0;

    open spec fn spec_marker(prefix: Seq<char>, index: nat) -> Seq<char> {
        seq!['\n'] + prefix + seq!['•', ' ']
    }

    fn write_marker(out: &mut String, prefix: &str, index: usize) {
        write_char(out, '\n');
        write_str(out, prefix);
        write_char(out, '•');
        write_char(out, ' ');
        assert(out@ =~= old(out)@ + Self::spec_marker(prefix@, index as nat));
    }
}

impl<C, E: ErrorSource, GC, F: Format<WithContext<C, E, F>>, GF: Format<GC>> Format<ManyErrors<C, E, GC, F, GF>> for Bullets {
    open spec fn spec_fmt(m: &ManyErrors<C, E, GC, F, GF>) -> Seq<char> {
        marked_many::<Bullets, C, E, GC, F, GF>(*m)
    }

    fn fmt(m: &ManyErrors<C, E, GC, F, GF>, out: &mut String) {
        draw_marked_many::<Bullets, C, E, GC, F, GF>(m, out);
    }
}

impl<'a, T: ?Sized> Format<&'a T> for Bullets where Bullets: Format<T> {
    open spec fn spec_fmt(value: &&'a T) -> Seq<char> {
        <Bullets as Format<T>>::spec_fmt(*value)
    }

    fn fmt(value: &&'a T, out: &mut String) {
        <Bullets as Format<T>>::fmt(*value, out);
    }
}

} // verus!
