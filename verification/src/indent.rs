//! Multiline re-indentation for layout-owning strategies.

use vstd::prelude::*;

use crate::text::{indent, repeat, write_indented, write_repeat};
use crate::DisplayText;

verus! {

/// Appends `content`, re-indenting every embedded line feed to `prefix`.
pub fn indented<P: DisplayText + ?Sized, C: DisplayText + ?Sized>(out: &mut String, prefix: &P, content: &C)
    ensures
        final(out)@ == old(out)@ + indent(content.spec_text(), prefix.spec_text()),
{
    let mut p = String::new();
    prefix.write_text(&mut p);
    let mut c = String::new();
    content.write_text(&mut c);
    write_indented(out, p.as_str(), c.as_str());
}

/// `Repeat(unit, n)` renders `unit` written `n` times.
pub struct Repeat(pub &'static str, pub usize);

impl DisplayText for Repeat {
    open spec fn spec_text(&self) -> Seq<char> {
        repeat(self.0@, self.1 as nat)
    }

    fn write_text(&self, out: &mut String) {
        write_repeat(out, self.0, self.1);
    }
}

} // verus!
