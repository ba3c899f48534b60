//! [`OneLine`]: an error and its sources on one line.

use vstd::prelude::*;

use crate::text::{join, write_joined};
use crate::{chain, error_chain, ErrorSource, Format};

verus! {

/// One-line format: joins the error and its sources with `": "`.
#[derive(Debug, Default, Clone, Copy, PartialEq, Eq, Hash, PartialOrd, Ord)]
pub struct OneLine;

/// The one-line strategy under its other name.
pub type Flat = OneLine;

impl<E: ErrorSource + ?Sized> Format<E> for OneLine {
    open spec fn spec_fmt(value: &E) -> Seq<char> {
        join(error_chain(value), seq![':', ' '])
    }

    fn fmt(value: &E, out: &mut String) {
        let parts = chain(value);
        proof {
            reveal_strlit(": ");
            assert(": "@ =~= seq![':', ' ']);
        }
        write_joined(out, &parts, ": ");
    }
}

} // verus!
