use errortools::many_errors::strategy::{LeafChain, NoHeader};
use errortools::with_context::{Colon, PathColon};
use errortools::{Ascii, DynError, FormatError, Formatted, Inline, List, ManyErrors, Tree, Unicode, WithContext};

fn inner_a() -> DynError {
    DynError::new("InnerA")
}

fn inner_b() -> DynError {
    DynError::new("InnerB")
}

fn mid(inner: DynError) -> DynError {
    DynError::new("mid").with_source(inner)
}

fn two_leaves() -> ManyErrors<&'static str, DynError> {
    let mut e = ManyErrors::new();
    e.push("a", inner_a());
    e.push("b", inner_b());
    e
}

fn with_chain() -> ManyErrors<&'static str, DynError> {
    let mut e = ManyErrors::new();
    e.push("a", mid(inner_a()));
    e.push("b", mid(inner_b()));
    e
}

fn nested() -> ManyErrors<&'static str, DynError> {
    let mut inner = ManyErrors::new();
    inner.push("x", inner_a());
    inner.push("y", inner_b());
    let mut outer = ManyErrors::new();
    outer.push("leaf", inner_a());
    outer.push_group("region", inner);
    outer
}

// --- Bullets ---

#[test]
fn test_bullets_empty() {
    let e = ManyErrors::<&str, DynError>::new();
    assert_eq!(e.bullets().to_string(), "no errors");
}

#[test]
fn test_bullets_single_leaf_no_bullet() {
    let mut e = ManyErrors::<&str, DynError>::new();
    e.push("ctx", inner_a());
    assert_eq!(e.bullets().to_string(), "ctx: InnerA");
}

#[test]
fn test_bullets_two_leaves() {
    assert_eq!(two_leaves().bullets().to_string(), "2 errors:\n  • a: InnerA\n  • b: InnerB");
}

#[test]
fn test_bullets_walks_source_chain() {
    let s = with_chain().bullets().to_string();
    assert!(s.contains("• a: mid: InnerA"), "got: {s}");
    assert!(s.contains("• b: mid: InnerB"), "got: {s}");
}

#[test]
fn test_bullets_nested_group() {
    assert_eq!(
        nested().bullets().to_string(),
        "2 errors:\n  • leaf: InnerA\n  • region (2 errors):\n    • x: InnerA\n    • y: InnerB"
    );
}

#[test]
fn test_bullets_empty_group() {
    let mut outer = ManyErrors::<&str, DynError>::new();
    outer.push_group("g", ManyErrors::new());
    assert_eq!(outer.bullets().to_string(), "g: no errors");
}

// --- Inline ---

#[test]
fn test_inline_empty() {
    let e = ManyErrors::<&str, DynError>::new();
    assert_eq!(e.formatted::<Inline>().to_string(), "");
}

#[test]
fn test_inline_single() {
    let mut e = ManyErrors::<&str, DynError>::new();
    e.push("ctx", mid(inner_a()));
    assert_eq!(e.formatted::<Inline>().to_string(), "ctx: mid: InnerA");
}

#[test]
fn test_inline_two() {
    let e = two_leaves();
    let s = e.formatted::<Inline>().to_string();
    assert!(s.contains("2 errors:"), "got: {s}");
    assert!(s.contains("a: InnerA"), "got: {s}");
    assert!(s.contains("b: InnerB"), "got: {s}");
    assert!(s.contains("; "), "got: {s}");
}

// --- List ---

#[test]
fn test_list_empty() {
    let e = ManyErrors::<&str, DynError>::new();
    assert_eq!(e.list().to_string(), "no errors");
}

#[test]
fn test_list_single_leaf_no_header() {
    let mut e = ManyErrors::<&str, DynError>::new();
    e.push("ctx", inner_a());
    assert_eq!(e.list().to_string(), "ctx: InnerA");
}

#[test]
fn test_list_two_leaves() {
    assert_eq!(two_leaves().list().to_string(), "2 errors:\n1. a: InnerA\n2. b: InnerB");
}

#[test]
fn test_list_walks_source_chain() {
    let s = with_chain().list().to_string();
    assert!(s.contains("1. a: mid: InnerA"), "got: {s}");
    assert!(s.contains("2. b: mid: InnerB"), "got: {s}");
}

#[test]
fn test_list_nested_group() {
    assert_eq!(
        nested().list().to_string(),
        "2 errors:\n1. leaf: InnerA\n2. region (2 errors):\n    1. x: InnerA\n    2. y: InnerB"
    );
}

#[test]
fn test_list_empty_group() {
    let mut outer = ManyErrors::<&str, DynError>::new();
    outer.push_group("g", ManyErrors::new());
    assert_eq!(outer.list().to_string(), "g: no errors");
}

#[test]
fn test_list_single_child_group_inline() {
    let mut inner = ManyErrors::<&str, DynError>::new();
    inner.push("x", inner_a());
    let mut outer = ManyErrors::<&str, DynError>::new();
    outer.push("leaf", inner_a());
    outer.push_group("region", inner);
    assert_eq!(outer.list().to_string(), "2 errors:\n1. leaf: InnerA\n2. region: x: InnerA");
}

// --- shared helpers ---

#[test]
fn test_ref_trampoline_double_reference() {
    let e = two_leaves();
    let direct = e.list().to_string();
    assert_eq!(Formatted::<_, List>::new(&&e).to_string(), direct);
    assert_eq!(Formatted::<_, Tree>::new(&&e).to_string(), e.tree().to_string());
}

#[test]
fn test_leaf_chain_equals_one_line() {
    let w = WithContext::<_, _, Colon>::new("ctx", mid(inner_a()));
    assert_eq!(LeafChain(&w).to_string(), w.one_line().to_string());

    let no_source = WithContext::<_, _, Colon>::new("ctx", inner_a());
    assert_eq!(LeafChain(&no_source).to_string(), no_source.one_line().to_string());
}

#[test]
fn test_non_display_context_via_path_colon() {
    let mut e = ManyErrors::<String, DynError, &str, PathColon>::new();
    e.push(String::from("a.txt"), DynError::new("missing"));
    e.push(String::from("b.txt"), DynError::new("denied"));

    assert_eq!(e.to_string(), "2 errors: a.txt: missing; b.txt: denied");
    assert_eq!(e.tree().to_string(), "2 errors:\n├─ a.txt: missing\n└─ b.txt: denied");
    assert_eq!(e.list().to_string(), "2 errors:\n1. a.txt: missing\n2. b.txt: denied");
    assert_eq!(e.joined().to_string(), "2 errors: a.txt: missing; b.txt: denied");
}

// --- Joined / Summary ---

#[test]
fn test_joined_empty() {
    let e = ManyErrors::<&str, DynError>::new();
    assert_eq!(e.joined().to_string(), "no errors");
}

#[test]
fn test_joined_single_leaf_no_header() {
    let mut e = ManyErrors::<&str, DynError>::new();
    e.push("ctx", inner_a());
    assert_eq!(e.joined().to_string(), "ctx: InnerA");
}

#[test]
fn test_joined_two_leaves() {
    assert_eq!(two_leaves().joined().to_string(), "2 errors: a: InnerA; b: InnerB");
}

#[test]
fn test_joined_walks_source_chain() {
    assert_eq!(with_chain().joined().to_string(), "2 errors: a: mid: InnerA; b: mid: InnerB");
}

#[test]
fn test_joined_nested_group() {
    assert_eq!(
        nested().joined().to_string(),
        "2 errors: leaf: InnerA; region (2 errors: x: InnerA; y: InnerB)"
    );
}

#[test]
fn test_joined_single_group() {
    let mut inner = ManyErrors::<&str, DynError>::new();
    inner.push("x", inner_a());
    let mut outer = ManyErrors::<&str, DynError>::new();
    outer.push_group("g", inner);
    assert_eq!(outer.joined().to_string(), "g (x: InnerA)");
}

#[test]
fn test_joined_empty_group() {
    let mut outer = ManyErrors::<&str, DynError>::new();
    outer.push_group("g", ManyErrors::new());
    assert_eq!(outer.joined().to_string(), "g (no errors)");
}

#[test]
fn test_summary_empty() {
    let e = ManyErrors::<&str, DynError>::new();
    assert_eq!(e.to_string(), "no errors");
}

#[test]
fn test_summary_single_leaf_no_header() {
    let mut e = ManyErrors::<&str, DynError>::new();
    e.push("ctx", inner_a());
    assert_eq!(e.to_string(), "ctx: InnerA");
}

#[test]
fn test_summary_two_leaves() {
    assert_eq!(two_leaves().to_string(), "2 errors: a: InnerA; b: InnerB");
}

#[test]
fn test_summary_does_not_walk_source() {
    let s = with_chain().to_string();
    assert_eq!(s, "2 errors: a: mid; b: mid");
    assert!(!s.contains("InnerA"), "source must not be walked: {s}");
}

#[test]
fn test_summary_nested_group() {
    assert_eq!(
        nested().to_string(),
        "2 errors: leaf: InnerA; region (2 errors: x: InnerA; y: InnerB)"
    );
}

#[test]
fn test_summary_single_group() {
    let mut inner = ManyErrors::<&str, DynError>::new();
    inner.push("x", inner_a());
    let mut outer = ManyErrors::<&str, DynError>::new();
    outer.push_group("g", inner);
    assert_eq!(outer.to_string(), "g (x: InnerA)");
}

#[test]
fn test_summary_empty_group() {
    let mut outer = ManyErrors::<&str, DynError>::new();
    outer.push_group("g", ManyErrors::new());
    assert_eq!(outer.to_string(), "g (no errors)");
}

#[test]
fn test_summary_heterogeneous_group_label() {
    let mut inner = ManyErrors::<&str, DynError, usize>::new();
    inner.push("x", inner_a());
    let mut outer = ManyErrors::<&str, DynError, usize>::new();
    outer.push("leaf", inner_b());
    outer.push_group(7, inner);
    assert_eq!(outer.to_string(), "2 errors: leaf: InnerB; 7 (x: InnerA)");
}

#[test]
fn test_summary_single_leaf_with_source() {
    let mut e = ManyErrors::<&str, DynError>::new();
    e.push("ctx", mid(inner_a()));
    assert_eq!(e.to_string(), "ctx: mid");
}

// --- Tree ---

#[test]
fn test_tree_empty() {
    let e = ManyErrors::<&str, DynError>::new();
    assert_eq!(e.tree().to_string(), "no errors");
}

#[test]
fn test_tree_empty_group() {
    let mut outer = ManyErrors::<&str, DynError>::new();
    outer.push_group("g", ManyErrors::new());
    assert_eq!(outer.tree().to_string(), "g: no errors");
}

#[test]
fn test_tree_single_leaf() {
    let mut e = ManyErrors::<&str, DynError>::new();
    e.push("ctx", inner_a());
    assert_eq!(e.tree().to_string(), "ctx: InnerA");
}

#[test]
fn test_tree_two_leaves_unicode() {
    let e = two_leaves();
    assert_eq!(e.tree().to_string(), "2 errors:\n├─ a: InnerA\n└─ b: InnerB");
}

#[test]
fn test_tree_ascii() {
    let e = two_leaves();
    assert_eq!(Formatted::<_, Tree<Ascii>>::new(&e).to_string(), "2 errors:\n|- a: InnerA\n`- b: InnerB");
}

#[test]
fn test_tree_no_header() {
    let e = two_leaves();
    assert_eq!(Formatted::<_, Tree<Unicode, NoHeader>>::new(&e).to_string(), "├─ a: InnerA\n└─ b: InnerB");
}

#[test]
fn test_tree_with_source_chain() {
    let e = with_chain();
    let s = e.tree().to_string();
    assert!(s.contains("├─ a: mid"), "got: {s}");
    assert!(s.contains("│  └─ InnerA"), "got: {s}");
    assert!(s.contains("└─ b: mid"), "got: {s}");
    assert!(s.contains("   └─ InnerB"), "got: {s}");
}

#[test]
fn test_tree_nested_group() {
    let mut inner = ManyErrors::<&str, DynError>::new();
    inner.push("x", inner_a());
    inner.push("y", inner_b());

    let mut outer = ManyErrors::<&str, DynError>::new();
    outer.push_group("region", inner);
    outer.push("leaf", inner_a());

    let s = outer.tree().to_string();
    assert!(s.contains("2 errors:"), "got: {s}");
    assert!(s.contains("region (2 errors):"), "got: {s}");
    assert!(s.contains("x: InnerA"), "got: {s}");
    assert!(s.contains("y: InnerB"), "got: {s}");
    assert!(s.contains("leaf: InnerA"), "got: {s}");
}

#[test]
fn test_tree_heterogeneous_group_label() {
    let mut inner = ManyErrors::<&str, DynError, usize>::new();
    inner.push("x", inner_a());

    let mut outer = ManyErrors::<&str, DynError, usize>::new();
    outer.push_group(7, inner);
    outer.push("leaf", inner_b());

    let s = outer.tree().to_string();
    assert!(s.contains("7: x: InnerA"), "got: {s}");
    assert!(s.contains("leaf: InnerB"), "got: {s}");
}

/// The README's region tree: groups nest with bars under non-last branches.
#[test]
fn tree_of_nested_regions() {
    let mut regional = ManyErrors::<&str, DynError>::new();
    regional.push("i-0a1", DynError::new("connection refused"));
    regional.push("i-0b2", DynError::new("connection refused"));
    let mut errs = ManyErrors::<&str, DynError>::new();
    errs.push_group("us-east-1", regional);
    errs.push("eu-west-1", DynError::new("connection refused"));
    assert_eq!(
        errs.tree().to_string(),
        "2 errors:\n├─ us-east-1 (2 errors):\n│  ├─ i-0a1: connection refused\n│  └─ i-0b2: connection refused\n└─ eu-west-1: connection refused"
    );
    assert_eq!(
        errs.to_string(),
        "2 errors: us-east-1 (2 errors: i-0a1: connection refused; i-0b2: connection refused); eu-west-1: connection refused"
    );
}

/// A multi-line leaf text is re-indented under its branch in every deep shape.
#[test]
fn multiline_leaf_is_reindented() {
    let mut e = ManyErrors::<&str, DynError>::new();
    e.push("a", DynError::new("first\nsecond"));
    e.push("b", inner_b());
    assert_eq!(e.tree().to_string(), "2 errors:\n├─ a: first\n│  second\n└─ b: InnerB");
    assert_eq!(e.list().to_string(), "2 errors:\n1. a: first\n  second\n2. b: InnerB");
    assert_eq!(e.bullets().to_string(), "2 errors:\n  • a: first\n    second\n  • b: InnerB");
}

/// Aggregates render `"no errors"` in every shape but `Inline`.
#[test]
fn empty_aggregate_in_every_shape() {
    let e = ManyErrors::<&str, DynError>::new();
    assert_eq!(e.to_string(), "no errors");
    assert_eq!(e.joined().to_string(), "no errors");
    assert_eq!(e.tree().to_string(), "no errors");
    assert_eq!(e.list().to_string(), "no errors");
    assert_eq!(e.bullets().to_string(), "no errors");
    assert_eq!(e.formatted::<Inline>().to_string(), "");
    assert_eq!(e.one_line().to_string(), "no errors");
}

/// Numbers in headers and rows count past nine.
#[test]
fn list_numbers_past_nine() {
    let mut e = ManyErrors::<usize, DynError, usize>::new();
    for i in 0..12usize {
        e.push(i, inner_a());
    }
    let s = e.list().to_string();
    assert!(s.starts_with("12 errors:\n1. 0: InnerA\n"), "got: {s}");
    assert!(s.ends_with("\n12. 11: InnerA"), "got: {s}");
}

/// An aggregate has no source: the chain-walking per-error strategies print
/// its shallow summary.
#[test]
fn aggregate_one_line_and_chain_print_the_summary() {
    let e = with_chain();
    assert_eq!(e.one_line().to_string(), "2 errors: a: mid; b: mid");
    assert_eq!(e.chain().to_string(), "2 errors: a: mid; b: mid");
}
