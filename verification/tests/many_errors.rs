use core::ops::ControlFlow;

use errortools::with_context::Colon;
use errortools::{
    AsDisplay, DynError, ErrorSource, FormatError, Listing, ManyErrors, Node, OneLine, Subgroup, WithContext,
};
use itertools::Itertools;

fn inner_a() -> DynError {
    DynError::new("InnerA")
}

fn inner_b() -> DynError {
    DynError::new("InnerB")
}

fn mid(inner: DynError) -> DynError {
    DynError::new("mid").with_source(inner)
}

/// The leaf error of the earlier fixture set.
fn leaf() -> DynError {
    DynError::new("leaf")
}

fn w(ctx: &'static str) -> WithContext<&'static str, DynError> {
    WithContext::new(ctx, leaf())
}

type N = Node<&'static str, DynError, &'static str, Colon, AsDisplay>;

// --- push / push_group / variants ---

#[test]
fn mod_test_new_is_none() {
    let e = ManyErrors::<&str, DynError>::new();
    assert!(matches!(e, ManyErrors::Empty));
    assert!(e.is_empty());
    assert_eq!(e.len(), 0);
}

#[test]
fn mod_test_push_none_to_one() {
    let mut e = ManyErrors::<&str, DynError>::new();
    e.push("a", inner_a());
    assert!(matches!(e, ManyErrors::One(_)));
    assert_eq!(e.len(), 1);
}

#[test]
fn mod_test_push_one_to_many() {
    let mut e = ManyErrors::<&str, DynError>::new();
    e.push("a", inner_a());
    e.push("b", inner_a());
    assert!(matches!(e, ManyErrors::Many(_)));
    assert_eq!(e.len(), 2);
}

#[test]
fn mod_test_push_many_grows() {
    let mut e = ManyErrors::<u32, DynError, &str>::new();
    for i in 0..5u32 {
        e.push(i, inner_a());
    }
    assert_eq!(e.len(), 5);
}

#[test]
fn test_push_group() {
    let mut inner = ManyErrors::<&str, DynError>::new();
    inner.push("x", inner_a());
    inner.push("y", inner_b());

    let mut outer = ManyErrors::<&str, DynError>::new();
    outer.push_group("region", inner);
    assert_eq!(outer.len(), 1);
    assert!(matches!(outer, ManyErrors::One(Node::Group(_))));
}

#[test]
fn test_push_leaf_and_group() {
    let mut e = ManyErrors::<&str, DynError>::new();
    e.push("leaf", inner_a());
    let mut sub = ManyErrors::new();
    sub.push("sub-leaf", inner_b());
    e.push_group("group", sub);
    assert_eq!(e.len(), 2);
}

#[test]
fn mod_test_into_result_none_ok() {
    let e = ManyErrors::<&str, DynError>::new();
    assert_eq!(e.into_result(42), Ok(42));
}

#[test]
fn mod_test_into_result_one_err() {
    let mut e = ManyErrors::<&str, DynError>::new();
    e.push("a", inner_a());
    assert!(e.into_result(()).is_err());
}

#[test]
fn mod_test_into_result_many_err() {
    let mut e = ManyErrors::<&str, DynError>::new();
    e.push("a", inner_a());
    e.push("b", inner_a());
    assert!(e.into_result(()).is_err());
}

#[test]
fn mod_test_source_none() {
    let e = ManyErrors::<&str, DynError>::new();
    assert!(e.source().is_none());
}

#[test]
fn test_source_one_leaf_is_none() {
    let mut e = ManyErrors::<&str, DynError>::new();
    e.push("ctx", mid(inner_a()));
    assert!(e.source().is_none());
}

#[test]
fn test_source_one_group_is_none() {
    let mut e = ManyErrors::<&str, DynError>::new();
    let mut sub = ManyErrors::new();
    sub.push("x", inner_a());
    e.push_group("g", sub);
    assert!(e.source().is_none());
}

#[test]
fn mod_test_source_many_is_none() {
    let mut e = ManyErrors::<&str, DynError>::new();
    e.push("a", inner_a());
    e.push("b", inner_a());
    assert!(e.source().is_none());
}

#[test]
fn test_display_empty() {
    let e = ManyErrors::<&str, DynError>::new();
    assert_eq!(e.to_string(), "no errors");
}

#[test]
fn test_display_single_leaf_no_header() {
    let mut e = ManyErrors::<&str, DynError>::new();
    e.push("ctx", inner_a());
    assert_eq!(e.to_string(), "ctx: InnerA");
}

#[test]
fn test_display_two_leaves() {
    let mut e = ManyErrors::<&str, DynError>::new();
    e.push("a", inner_a());
    e.push("b", inner_b());
    assert_eq!(e.to_string(), "2 errors: a: InnerA; b: InnerB");
}

#[test]
fn test_display_does_not_walk_source() {
    let mut e = ManyErrors::<&str, DynError>::new();
    e.push("a", mid(inner_a()));
    e.push("b", mid(inner_b()));
    let s = e.to_string();
    assert_eq!(s, "2 errors: a: mid; b: mid");
    assert!(!s.contains("InnerA"), "source must not be walked: {s}");
}

#[test]
fn test_display_nested_group() {
    let mut inner = ManyErrors::<&str, DynError>::new();
    inner.push("x", inner_a());
    inner.push("y", inner_b());

    let mut outer = ManyErrors::<&str, DynError>::new();
    outer.push("leaf", inner_a());
    outer.push_group("region", inner);

    assert_eq!(outer.to_string(), "2 errors: leaf: InnerA; region (2 errors: x: InnerA; y: InnerB)");
}

#[test]
fn test_one_line_single_leaf_walks_chain() {
    let mut e = ManyErrors::<&str, DynError>::new();
    e.push("ctx", mid(inner_a()));
    assert_eq!(e.joined().to_string(), "ctx: mid: InnerA");
}

// --- the earlier ManyErrors tests, on the node-based aggregate ---

#[test]
fn many_errors_test_new_is_none() {
    let e = ManyErrors::<&str, DynError>::new();
    assert!(matches!(e, ManyErrors::Empty));
    assert!(e.is_empty());
    assert_eq!(e.len(), 0);
}

#[test]
fn many_errors_test_push_none_to_one() {
    let mut e = ManyErrors::<&str, DynError>::new();
    e.push("a", leaf());
    assert!(matches!(e, ManyErrors::One(_)));
    assert_eq!(e.len(), 1);
}

#[test]
fn many_errors_test_push_one_to_many() {
    let mut e = ManyErrors::<&str, DynError>::new();
    e.push("a", leaf());
    e.push("b", leaf());
    assert!(matches!(e, ManyErrors::Many(_)));
    assert_eq!(e.len(), 2);
}

#[test]
fn many_errors_test_push_many_grows() {
    let mut e = ManyErrors::<u32, DynError>::new();
    for i in 0..5u32 {
        e.push(i, leaf());
    }
    assert_eq!(e.len(), 5);
}

#[test]
fn many_errors_test_into_result_none_ok() {
    let e = ManyErrors::<&str, DynError>::new();
    assert_eq!(e.into_result(42), Ok(42));
}

#[test]
fn many_errors_test_into_result_one_err() {
    let mut e = ManyErrors::<&str, DynError>::new();
    e.push("a", leaf());
    assert!(e.into_result(()).is_err());
}

#[test]
fn many_errors_test_into_result_many_err() {
    let mut e = ManyErrors::<&str, DynError>::new();
    e.push("a", leaf());
    e.push("b", leaf());
    assert!(e.into_result(()).is_err());
}

#[test]
fn many_errors_test_collect_from_with_context() {
    let errs: ManyErrors<&str, DynError> = ManyErrors::from_leaves(vec![w("a"), w("b"), w("c")]);
    assert_eq!(errs.len(), 3);
}

#[test]
fn many_errors_test_collect_from_tuples() {
    let errs: ManyErrors<&str, DynError> = ManyErrors::from_pairs(vec![("a", leaf()), ("b", leaf())]);
    assert_eq!(errs.len(), 2);
}

#[test]
fn many_errors_test_extend_from_with_context() {
    let mut e = ManyErrors::<&str, DynError>::new();
    e.extend_leaves(vec![w("a"), w("b")]);
    assert_eq!(e.len(), 2);
}

#[test]
fn many_errors_test_control_flow_all_continue() {
    let items: Vec<ControlFlow<WithContext<&str, DynError>, WithContext<&str, DynError>>> =
        vec![ControlFlow::Continue(w("a")), ControlFlow::Continue(w("b"))];
    let errs: ManyErrors<&str, DynError> = ManyErrors::from_flows(items);
    assert_eq!(errs.len(), 2);
}

#[test]
fn many_errors_test_control_flow_tuples() {
    let items: Vec<ControlFlow<(&str, DynError), (&str, DynError)>> =
        vec![ControlFlow::Continue(("a", leaf())), ControlFlow::Break(("b", leaf()))];
    let errs: ManyErrors<&str, DynError> = ManyErrors::from_pair_flows(items);
    assert_eq!(errs.len(), 2);
}

#[test]
fn many_errors_test_source_none() {
    let e = ManyErrors::<&str, DynError>::new();
    assert!(e.source().is_none());
}

#[test]
fn many_errors_test_source_many_is_none() {
    let mut e = ManyErrors::<&str, DynError>::new();
    e.push("a", leaf());
    e.push("b", leaf());
    assert!(e.source().is_none());
}

#[test]
fn many_errors_test_iter_none() {
    let e = ManyErrors::<&str, DynError>::new();
    assert_eq!(e.iter().count(), 0);
}

#[test]
fn many_errors_test_iter_one() {
    let mut e = ManyErrors::<&str, DynError>::new();
    e.push("a", leaf());
    let items: Vec<_> = e.iter().collect();
    assert_eq!(items.len(), 1);
    assert_eq!(items[0].as_leaf().unwrap().context, "a");
}

#[test]
fn many_errors_test_iter_many() {
    let mut e = ManyErrors::<&str, DynError>::new();
    e.push("a", leaf());
    e.push("b", leaf());
    let ctxs: Vec<_> = e.iter().map(|n| n.as_leaf().unwrap().context).collect();
    assert_eq!(ctxs, ["a", "b"]);
}

#[test]
fn test_listing_none_empty() {
    let e = ManyErrors::<&str, DynError>::new();
    assert_eq!(e.formatted::<Listing<OneLine>>().to_string(), "");
}

#[test]
fn test_listing_one_formats_chain() {
    let mut e = ManyErrors::<&str, DynError>::new();
    e.push("ctx", DynError::new("mid").with_source(leaf()));
    assert_eq!(e.formatted::<Listing<OneLine>>().to_string(), "ctx: mid: leaf");
}

#[test]
fn test_listing_many_one_per_line() {
    let errs: ManyErrors<&str, DynError> = ManyErrors::from_pairs(vec![("a", leaf()), ("b", leaf()), ("c", leaf())]);
    let out = errs.formatted::<Listing<OneLine>>().to_string();
    assert_eq!(out, "a: leaf\nb: leaf\nc: leaf");
}

#[test]
fn test_listing_tree_strategy() {
    let mut e = ManyErrors::<&str, DynError>::new();
    e.push("ctx", DynError::new("mid").with_source(leaf()));
    let out = e.formatted::<Listing<errortools::tree::Tree>>().to_string();
    assert!(out.contains("ctx"));
    assert!(out.contains("mid"));
    assert!(out.contains("leaf"));
}

// --- `+=` and merge ---

#[test]
fn test_add_many_errors_merges_nodes() {
    let mut a = ManyErrors::<&str, DynError>::new();
    a.push("a", inner_a());
    let mut b = ManyErrors::<&str, DynError>::new();
    b.push("b", inner_b());
    b.push("c", inner_a());
    let merged = a.merge(b);
    assert_eq!(merged.len(), 3);
}

#[test]
fn test_add_many_errors_with_empty() {
    let mut a = ManyErrors::<&str, DynError>::new();
    a.push("a", inner_a());
    let merged = a.merge(ManyErrors::new());
    assert_eq!(merged.len(), 1);
}

#[test]
fn test_add_tuple_pushes_leaf() {
    let mut errs = ManyErrors::<&str, DynError>::new();
    errs += ("ctx", inner_a());
    assert_eq!(errs.len(), 1);
}

#[test]
fn test_add_result_err_pushes() {
    let mut errs = ManyErrors::<&str, DynError>::new();
    errs += ("ctx", Err::<(), _>(inner_a()));
    assert_eq!(errs.len(), 1);
}

#[test]
fn test_add_result_ok_skips() {
    let mut errs = ManyErrors::<&str, DynError>::new();
    errs += ("ctx", Ok::<(), DynError>(()));
    assert!(errs.is_empty());
}

#[test]
fn test_add_result_chain() {
    let results: Vec<Result<(), DynError>> = vec![Ok(()), Err(inner_a()), Ok(()), Err(inner_b())];
    let errs = results.into_iter().enumerate().fold(ManyErrors::<usize, DynError>::new(), |mut acc, (i, r)| {
        acc += (i, r);
        acc
    });
    assert_eq!(errs.len(), 2);
}

#[test]
fn test_add_option_tuple_some_pushes() {
    let mut errs = ManyErrors::<&str, DynError>::new();
    errs += Some(("ctx", inner_a()));
    assert_eq!(errs.len(), 1);
}

#[test]
fn test_add_option_tuple_none_skips() {
    let mut errs = ManyErrors::<&str, DynError>::new();
    errs += None::<(&str, DynError)>;
    assert!(errs.is_empty());
}

#[test]
fn test_add_option_result_some_err_pushes() {
    let mut errs = ManyErrors::<&str, DynError>::new();
    errs += Some(("ctx", Err::<(), _>(inner_a())));
    assert_eq!(errs.len(), 1);
}

#[test]
fn test_add_option_result_some_ok_skips() {
    let mut errs = ManyErrors::<&str, DynError>::new();
    errs += Some(("ctx", Ok::<(), DynError>(())));
    assert!(errs.is_empty());
}

#[test]
fn test_add_option_many_errors_some_merges() {
    let mut other = ManyErrors::<&str, DynError>::new();
    other.push("b", inner_b());
    let mut errs = ManyErrors::<&str, DynError>::new();
    errs += Some(other);
    assert_eq!(errs.len(), 1);
}

#[test]
fn test_add_option_many_errors_none_skips() {
    let mut errs = ManyErrors::<&str, DynError>::new();
    errs += None::<ManyErrors<&str, DynError>>;
    assert!(errs.is_empty());
}

#[test]
fn test_add_assign_many_errors() {
    let mut a = ManyErrors::<&str, DynError>::new();
    a.push("a", inner_a());
    let mut b = ManyErrors::<&str, DynError>::new();
    b.push("b", inner_b());
    b.push("c", inner_a());
    a += b;
    assert_eq!(a.len(), 3);
}

#[test]
fn test_add_assign_tuple() {
    let mut errs = ManyErrors::<&str, DynError>::new();
    errs += ("ctx", inner_a());
    assert_eq!(errs.len(), 1);
}

#[test]
fn test_add_assign_result_err() {
    let mut errs = ManyErrors::<&str, DynError>::new();
    errs += ("ctx", Err::<(), _>(inner_a()));
    assert_eq!(errs.len(), 1);
}

#[test]
fn test_add_assign_result_ok() {
    let mut errs = ManyErrors::<&str, DynError>::new();
    errs += ("ctx", Ok::<(), DynError>(()));
    assert!(errs.is_empty());
}

#[test]
fn test_add_assign_option_some_pushes() {
    let mut errs = ManyErrors::<&str, DynError>::new();
    errs += Some(("ctx", inner_a()));
    assert_eq!(errs.len(), 1);
}

#[test]
fn test_add_assign_option_none_skips() {
    let mut errs = ManyErrors::<&str, DynError>::new();
    errs += None::<(&str, DynError)>;
    assert!(errs.is_empty());
}

// --- iteration and collecting ---

#[test]
fn iter_test_collect_from_tuples() {
    let errs: ManyErrors<&str, DynError> = ManyErrors::from_pairs(vec![("a", inner_a()), ("b", inner_a())]);
    assert_eq!(errs.len(), 2);
}

#[test]
fn iter_test_extend_from_with_context() {
    let mut e = ManyErrors::<&str, DynError>::new();
    e.extend_leaves(vec![WithContext::new("a", inner_a()), WithContext::new("b", inner_a())]);
    assert_eq!(e.len(), 2);
}

#[test]
fn iter_test_extend_from_tuples_via_partition_result() {
    let results: Vec<Result<i32, (&str, DynError)>> = vec![Ok(1), Err(("a", inner_a())), Ok(2), Err(("b", inner_a()))];
    let (oks, pairs): (Vec<i32>, Vec<(&str, DynError)>) = results.into_iter().partition_result();
    let errs = ManyErrors::<&str, DynError>::from_pairs(pairs);
    assert_eq!(oks, [1, 2]);
    assert_eq!(errs.len(), 2);
}

#[test]
fn iter_test_control_flow_all_continue() {
    let items: Vec<ControlFlow<WithContext<&str, DynError>, WithContext<&str, DynError>>> = vec![
        ControlFlow::Continue(WithContext::new("a", inner_a())),
        ControlFlow::Continue(WithContext::new("b", inner_a())),
    ];
    let errs: ManyErrors<&str, DynError> = ManyErrors::from_flows(items);
    assert_eq!(errs.len(), 2);
}

#[test]
fn iter_test_control_flow_tuples() {
    let items: Vec<ControlFlow<(&str, DynError), (&str, DynError)>> =
        vec![ControlFlow::Continue(("a", inner_a())), ControlFlow::Break(("b", inner_a()))];
    let errs: ManyErrors<&str, DynError> = ManyErrors::from_pair_flows(items);
    assert_eq!(errs.len(), 2);
}

#[test]
fn iter_test_iter_none() {
    let e = ManyErrors::<&str, DynError>::new();
    assert_eq!(e.iter().count(), 0);
}

#[test]
fn iter_test_iter_one() {
    let mut e = ManyErrors::<&str, DynError>::new();
    e.push("a", inner_a());
    let items: Vec<_> = e.iter().collect();
    assert_eq!(items.len(), 1);
    assert_eq!(items[0].as_leaf().unwrap().context, "a");
}

#[test]
fn iter_test_iter_many() {
    let mut e = ManyErrors::<&str, DynError>::new();
    e.push("a", inner_a());
    e.push("b", inner_a());
    let ctxs: Vec<_> = e.iter().map(|n| n.as_leaf().unwrap().context).collect();
    assert_eq!(ctxs, ["a", "b"]);
}

#[test]
fn test_into_iter_ref() {
    let mut e = ManyErrors::<&str, DynError>::new();
    e.push("a", inner_a());
    e.push("b", inner_a());
    let mut ctxs = Vec::new();
    for n in e.iter() {
        ctxs.push(n.as_leaf().unwrap().context);
    }
    assert_eq!(ctxs, ["a", "b"]);
}

#[test]
fn test_into_iter_owned() {
    let mut e = ManyErrors::<&str, DynError>::new();
    e.push("a", inner_a());
    e.push("b", inner_b());
    let ctxs: Vec<_> = e.into_iter().map(|n| n.as_leaf().unwrap().context).collect();
    assert_eq!(ctxs, ["a", "b"]);
}

#[test]
fn test_into_iter_owned_one_and_none() {
    let one = {
        let mut e = ManyErrors::<&str, DynError>::new();
        e.push("solo", inner_a());
        e
    };
    assert_eq!(one.into_iter().count(), 1);

    let none = ManyErrors::<&str, DynError>::new();
    assert_eq!(none.into_iter().count(), 0);
}

/// A `Break` records its item and stops: later items are not recorded.
#[test]
fn control_flow_break_stops_recording() {
    let items: Vec<ControlFlow<(&str, DynError), (&str, DynError)>> = vec![
        ControlFlow::Continue(("a", inner_a())),
        ControlFlow::Break(("b", inner_a())),
        ControlFlow::Continue(("c", inner_a())),
        ControlFlow::Continue(("d", inner_a())),
    ];
    let errs: ManyErrors<&str, DynError> = ManyErrors::from_pair_flows(items);
    let ctxs: Vec<_> = errs.iter().map(|n| n.as_leaf().unwrap().context).collect();
    assert_eq!(ctxs, ["a", "b"]);
}

// --- nodes ---

#[test]
fn test_leaf_from_with_context() {
    let w = WithContext::<_, _, Colon>::new("ctx", inner_a());
    let node: N = Node::from(w);
    assert!(node.is_leaf());
    assert_eq!(node.as_leaf().unwrap().context, "ctx");
}

#[test]
fn test_leaf_from_tuple() {
    let node: N = Node::from(("ctx", inner_a()));
    assert!(node.is_leaf());
    assert_eq!(node.as_leaf().unwrap().context, "ctx");
}

#[test]
fn test_accessor_mismatch_is_none() {
    let leaf: N = Node::from(("ctx", inner_a()));
    assert!(leaf.as_group().is_none());

    let group: N = Node::Group(Subgroup::new("region", ManyErrors::new()));
    assert!(group.as_leaf().is_none());
}

#[test]
fn test_group_context() {
    let node: N = Node::Group(Subgroup::new("region", ManyErrors::new()));
    assert!(!node.is_leaf());
    assert_eq!(node.as_group().unwrap().context, "region");
}

#[test]
fn test_clone_leaf() {
    let node: N = Node::from(("ctx", inner_a()));
    let cloned = node.clone();
    assert_eq!(node, cloned);
}

#[test]
fn test_clone_group() {
    let node: N = Node::Group(Subgroup::new("grp", ManyErrors::new()));
    let cloned = node.clone();
    assert_eq!(node, cloned);
}

#[test]
fn test_debug_leaf() {
    let node: N = Node::from(("ctx", inner_a()));
    let s = format!("{node:?}");
    assert!(s.contains("Leaf"));
    assert!(s.contains("ctx"));
}

#[test]
fn test_debug_group() {
    let node: N = Node::Group(Subgroup::new("grp", ManyErrors::new()));
    let s = format!("{node:?}");
    assert!(s.contains("Group"));
    assert!(s.contains("grp"));
}

#[test]
fn test_node_from_subgroup() {
    let node: N = Subgroup::new("region", ManyErrors::new()).into();
    assert!(!node.is_leaf());
    assert_eq!(node.as_group().unwrap().context, "region");
}

#[test]
fn test_node_display() {
    let leaf: Node<&str, DynError> = Node::from(("ctx", mid(inner_a())));
    assert_eq!(leaf.to_string(), "ctx: mid");

    let mut inner = ManyErrors::<&str, DynError>::new();
    inner.push("x", mid(inner_a()));
    let group: Node<&str, DynError> = Subgroup::new("g", inner).into();
    assert_eq!(group.to_string(), "g (x: mid)");
}

#[test]
fn test_node_error_source() {
    let leaf: Node<&str, DynError> = Node::from(("ctx", mid(inner_a())));
    assert_eq!(leaf.source().expect("leaf has a source").to_string(), "InnerA");
    assert_eq!(leaf.one_line().to_string(), "ctx: mid: InnerA");

    let group: Node<&str, DynError> = Subgroup::new("g", ManyErrors::new()).into();
    assert!(group.source().is_none());
}

#[test]
fn test_subgroup_error_source_is_none() {
    let mut inner = ManyErrors::<&str, DynError>::new();
    inner.push("x", inner_a());
    let group = Subgroup::new("g", inner);
    assert!(group.source().is_none());
    assert_eq!(group.to_string(), "g (x: InnerA)");
}

#[test]
fn test_group_display_is_lossless() {
    let mut inner = ManyErrors::<&str, DynError>::new();
    inner.push("x", inner_a());
    inner.push("y", inner_b());
    let mut outer = ManyErrors::<&str, DynError>::new();
    outer.push_group("region", inner);

    let group = outer.iter().next().unwrap().as_group().unwrap();
    assert_eq!(group.to_string(), "region (2 errors: x: InnerA; y: InnerB)");
}

/// Cloning a whole tree keeps its rendering.
#[test]
fn clone_keeps_rendering() {
    let mut inner = ManyErrors::<&str, DynError>::new();
    inner.push("x", mid(inner_a()));
    inner.push("y", inner_b());
    let mut outer = ManyErrors::<&str, DynError>::new();
    outer.push("leaf", inner_a());
    outer.push_group("region", inner);
    let copy = outer.clone();
    assert_eq!(copy, outer);
    assert_eq!(copy.tree().to_string(), outer.tree().to_string());
}

/// Merging keeps both sides' children in order.
#[test]
fn merge_keeps_order() {
    let a = ManyErrors::<&str, DynError>::from_pairs(vec![("a", inner_a())]);
    let b = ManyErrors::<&str, DynError>::from_pairs(vec![("b", inner_b()), ("c", inner_a())]);
    let merged = a.merge(b);
    let ctxs: Vec<_> = merged.iter().map(|n| n.as_leaf().unwrap().context).collect();
    assert_eq!(ctxs, ["a", "b", "c"]);
    assert_eq!(merged.to_string(), "3 errors: a: InnerA; b: InnerB; c: InnerA");
}

#[test]
fn many_errors_test_control_flow_break_stops_and_records() {
    let mut count = 0usize;
    let errs: ManyErrors<&str, DynError> = {
        let mut iter = ["a", "b", "c", "d"].iter().map(|s| {
            count += 1;
            if *s == "b" {
                ControlFlow::Break(WithContext::new(*s, leaf()))
            } else {
                ControlFlow::Continue(WithContext::new(*s, leaf()))
            }
        });
        ManyErrors::from_flow_iter(&mut iter)
    };
    assert_eq!(errs.len(), 2);
    assert_eq!(count, 2);
}

#[test]
fn iter_test_control_flow_break_stops_and_records() {
    let mut count = 0usize;
    let errs: ManyErrors<&str, DynError> = {
        let mut iter = ["a", "b", "c", "d"].iter().map(|s| {
            count += 1;
            if *s == "b" {
                ControlFlow::Break(WithContext::new(*s, inner_a()))
            } else {
                ControlFlow::Continue(WithContext::new(*s, inner_a()))
            }
        });
        ManyErrors::from_flow_iter(&mut iter)
    };
    assert_eq!(errs.len(), 2);
    assert_eq!(count, 2);
}

/// The pair collector also stops pulling at the first `Break`, and leaves the
/// rest of the iterator for the caller.
#[test]
fn pair_flow_iter_leaves_the_rest() {
    let items: Vec<ControlFlow<(&str, DynError), (&str, DynError)>> = vec![
        ControlFlow::Continue(("a", inner_a())),
        ControlFlow::Break(("b", inner_b())),
        ControlFlow::Continue(("c", inner_a())),
    ];
    let mut iter = items.into_iter();
    let mut errs = ManyErrors::<&str, DynError>::new();
    errs.extend_pair_flow_iter(&mut iter);
    assert_eq!(errs.to_string(), "2 errors: a: InnerA; b: InnerB");
    assert_eq!(iter.count(), 1);
}

/// Without any source below the leaves, the deep single line is the summary.
#[test]
fn joined_is_summary_without_sources() {
    let mut inner = ManyErrors::<&str, DynError>::new();
    inner.push("x", inner_a());
    inner.push("y", inner_b());
    let mut outer = ManyErrors::<&str, DynError>::new();
    outer.push("leaf", inner_a());
    outer.push_group("region", inner);
    assert_eq!(outer.joined().to_string(), outer.to_string());
}

/// The default aggregate is the empty one.
#[test]
fn default_is_empty() {
    let e: ManyErrors<&str, DynError> = Default::default();
    assert!(e.is_empty());
    assert_eq!(e, ManyErrors::new());
}
