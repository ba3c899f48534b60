//! Box-drawing glyph sets shared by the [`Chain`](crate::Chain) ladder and the
//! aggregate [`Tree`](crate::Tree).

use vstd::prelude::*;

verus! {

/// The two glyphs a linear source-chain ladder needs.
pub trait Connectors {
    /// Prefix for a last (or only) child.
    const LAST: &'static str;
    /// Blank continuation under a last child.
    const GAP: &'static str;
}

/// The full glyph set of a branching tree.
pub trait TreeConnectors: Connectors {
    /// Prefix for a non-last child.
    const BRANCH: &'static str;
    /// Continuation bar under a non-last child.
    const VERT: &'static str;
}

/// Unicode box-drawing connectors (default).
#[derive(Debug, Default, Clone, Copy, PartialEq, Eq, Hash, PartialOrd, Ord)]
pub struct Unicode;

impl Connectors for Unicode {
    const LAST: &'static str = "└─ ";
    const GAP: &'static str = "   ";
}

impl TreeConnectors for Unicode {
    const BRANCH: &'static str = "├─ ";
    const VERT: &'static str = "│  ";
}

/// ASCII-only connectors.
#[derive(Debug, Default, Clone, Copy, PartialEq, Eq, Hash, PartialOrd, Ord)]
pub struct Ascii;

impl Connectors for Ascii {
    const LAST: &'static str = "`- ";
    const GAP: &'static str = "   ";
}

impl TreeConnectors for Ascii {
    const BRANCH: &'static str = "|- ";
    const VERT: &'static str = "|  ";
}

/// The texts of the Unicode glyphs: `"└─ "`, `"   "`, `"├─ "`, `"│  "`.
pub proof fn lemma_unicode_glyphs()
    ensures
        <Unicode as Connectors>::LAST@ == seq!['└', '─', ' '],
        <Unicode as Connectors>::GAP@ == seq![' ', ' ', ' '],
        <Unicode as TreeConnectors>::BRANCH@ == seq!['├', '─', ' '],
        <Unicode as TreeConnectors>::VERT@ == seq!['│', ' ', ' '],
{
    reveal_strlit("└─ ");
    reveal_strlit("   ");
    reveal_strlit("├─ ");
    reveal_strlit("│  ");
}

/// The texts of the ASCII glyphs: `` "`- " ``, `"   "`, `"|- "`, `"|  "`.
pub proof fn lemma_ascii_glyphs()
    ensures
        <Ascii as Connectors>::LAST@ == seq!['`', '-', ' '],
        <Ascii as Connectors>::GAP@ == seq![' ', ' ', ' '],
        <Ascii as TreeConnectors>::BRANCH@ == seq!['|', '-', ' '],
        <Ascii as TreeConnectors>::VERT@ == seq!['|', ' ', ' '],
{
    reveal_strlit("`- ");
    reveal_strlit("   ");
    reveal_strlit("|- ");
    reveal_strlit("|  ");
}

} // verus!
