use errortools::tree::{TreeIndent, TreeMarker};
use errortools::{DynError, FormatError};

fn one() -> DynError {
    DynError::new("One")
}

/// `Error::Two(ErrorInner::…)` of the earlier fixture set: "Two" caused by a
/// bare inner error.
fn two(inner: DynError) -> DynError {
    DynError::new("Two").with_source(inner)
}

#[test]
fn test_tree_no_source() {
    let error = one();
    assert_eq!(error.tree().to_string(), "One");
}

#[test]
fn test_tree_one_source() {
    let error = two(DynError::new("One"));
    assert_eq!(error.tree().to_string(), "Two\n└── One");
}

#[test]
fn test_tree_nested() {
    let error = two(DynError::new("Two"));
    assert_eq!(error.tree().to_string(), "Two\n└── Two");
}

#[test]
fn test_tree_marker_debug() {
    assert_eq!(format!("{:?}", TreeMarker), "TreeMarker");
    assert_eq!(format!("{:?}", TreeIndent), "TreeIndent");
}

/// Each deeper source gets one more indent before the marker.
#[test]
fn tree_indents_each_level() {
    let error = DynError::new("a").with_source(DynError::new("b").with_source(DynError::new("c")));
    assert_eq!(error.tree().to_string(), "a\n└── b\n    └── c");
}
