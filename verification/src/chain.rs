//! [`Chain`]: one error's source chain as an indented ladder.

use vstd::prelude::*;

use core::marker::PhantomData;

use crate::connectors::{Connectors, Unicode};
use crate::text::{indent, repeat, texts, write_indented, write_repeat, write_str};
use crate::{chain, error_chain, ErrorSource, Format};

verus! {

/// Per-error source-chain ladder format, drawn with a [`Connectors`] glyph set:
/// the top error on its own line, then each source on a new line preceded by
/// `depth - 1` gaps and the last-child glyph; a source text that embeds line
/// feeds is re-indented `depth` gaps deep.
#[derive(Debug, Default, Clone, Copy, PartialEq, Eq, Hash)]
pub struct Chain<C = Unicode>(PhantomData<C>);

/// The ladder lines of the sources in `sources` (the source at index `i` sits
/// at depth `i + 1`).
pub open spec fn ladder(sources: Seq<Seq<char>>, gap: Seq<char>, last: Seq<char>) -> Seq<char>
    decreases sources.len(),
{
    if sources.len() == 0 {
        Seq::empty()
    } else {
        let depth = sources.len();
        ladder(sources.drop_last(), gap, last) + seq!['\n'] + repeat(gap, (depth - 1) as nat) + last
            + indent(sources.last(), repeat(gap, depth))
    }
}

impl<E: ErrorSource + ?Sized, C: Connectors> Format<E> for Chain<C> {
    open spec fn spec_fmt(value: &E) -> Seq<char> {
        value.spec_text() + ladder(value.spec_sources(), C::GAP@, C::LAST@)
    }

    fn fmt(value: &E, out: &mut String) {
        let parts = chain(value);
        let ghost start = out@;
        let ghost sources = value.spec_sources();
        proof {
            assert(texts(parts@).len() == parts@.len());
            assert(error_chain(value)[0] == value.spec_text());
            assert(texts(parts@)[0] == parts@[0]@);
            assert(sources.take(0) =~= Seq::<Seq<char>>::empty());
        }
        write_str(out, parts[0].as_str());
        let mut n: usize = 1;
        while n < parts.len()
            invariant
                1 <= n <= parts.len(),
                texts(parts@) == error_chain(value),
                sources == value.spec_sources(),
                out@ == start + value.spec_text() + ladder(sources.take(n - 1), C::GAP@, C::LAST@),
            decreases parts.len() - n,
        {
            proof {
                reveal_strlit("\n");
            }
            write_str(out, "\n");
            write_repeat(out, C::GAP, n - 1);
            write_str(out, C::LAST);
            let mut prefix = String::new();
            write_repeat(&mut prefix, C::GAP, n);
            write_indented(out, prefix.as_str(), parts[n].as_str());
            proof {
                assert(texts(parts@).len() == parts@.len());
                assert(error_chain(value).len() == 1 + sources.len());
                assert(texts(parts@)[n as int] == parts@[n as int]@);
                assert(error_chain(value)[n as int] == sources[n - 1]);
                assert(texts(parts@)[n as int] == sources[n - 1]);
                assert(sources.take(n as int).drop_last() =~= sources.take(n - 1));
            }
            n = n + 1;
        }
        proof {
            assert(sources.take(n - 1) =~= sources);
        }
    }
}

} // verus!
