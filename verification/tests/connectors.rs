use errortools::{Ascii, Connectors, TreeConnectors, Unicode};

#[test]
fn test_unicode_glyphs() {
    assert_eq!(Unicode::BRANCH, "├─ ");
    assert_eq!(Unicode::LAST, "└─ ");
    assert_eq!(Unicode::VERT, "│  ");
    assert_eq!(Unicode::GAP, "   ");
}

#[test]
fn test_ascii_glyphs() {
    assert_eq!(Ascii::BRANCH, "|- ");
    assert_eq!(Ascii::LAST, "`- ");
    assert_eq!(Ascii::VERT, "|  ");
    assert_eq!(Ascii::GAP, "   ");
}

/// The glyphs line up: every glyph is three characters wide.
#[test]
fn glyphs_have_equal_width() {
    for glyph in [Unicode::BRANCH, Unicode::LAST, Unicode::VERT, Unicode::GAP, Ascii::BRANCH, Ascii::LAST, Ascii::VERT, Ascii::GAP] {
        assert_eq!(glyph.chars().count(), 3);
    }
}
