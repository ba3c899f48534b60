use errortools::separator::NewLine;
use errortools::{Add, DynError, ErrorSource, Flat, FormatError, Suggestion};

fn inner_a() -> DynError {
    DynError::new("InnerA")
}

fn one() -> DynError {
    DynError::new("One").with_hint("Try passing --help to see available options.")
}

fn two(inner: DynError) -> DynError {
    DynError::new("Two").with_source(inner)
}

fn three(io_message: &str) -> DynError {
    DynError::new("Three")
        .with_source(DynError::new(io_message))
        .with_hint("Check that the file path exists and permissions are correct.")
}

/// A transparent wrapper around `Mid::Inner(Inner::A)`: the text and source of
/// `mid`, and the wrapper's own (empty) hint.
fn transparent_mid() -> DynError {
    DynError::new("mid").with_source(inner_a())
}

/// A transparent wrapper around `Mid::Io(io)`: the io message, no source, no hint.
fn transparent_io(message: &str) -> DynError {
    DynError::new(message)
}

fn no_hint() -> DynError {
    DynError::new("plain")
}

#[test]
fn hint_variant_renders_message() {
    assert_eq!(one().suggestion().to_string(), "Try passing --help to see available options.");
    assert_eq!(
        three("x").suggestion().to_string(),
        "Check that the file path exists and permissions are correct."
    );
}

#[test]
fn no_hint_variant_renders_empty_string() {
    assert_eq!(two(inner_a()).suggestion().to_string(), "");
    assert_eq!(transparent_mid().suggestion().to_string(), "");
}

#[test]
fn default_impl_writes_nothing() {
    assert_eq!(no_hint().suggestion().to_string(), "");
}

#[test]
fn one_line_and_suggestion_are_independent_strategies() {
    let e = one();
    assert_eq!(e.one_line().to_string(), "One");
    assert_eq!(e.suggestion().to_string(), "Try passing --help to see available options.");
    assert_eq!(
        e.formatted::<Add<Flat, Add<NewLine, Suggestion>>>().to_string(),
        "One\nTry passing --help to see available options."
    );
}

#[test]
fn suggestion_ignores_source_chain_depth() {
    let with_source = two(inner_a());
    assert_eq!(with_source.one_line().to_string(), "Two: InnerA");
    assert_eq!(with_source.suggestion().to_string(), "");

    let with_chain = transparent_mid();
    assert_eq!(with_chain.one_line().to_string(), "mid: InnerA");
    assert_eq!(with_chain.suggestion().to_string(), "");
}

#[test]
fn suggestion_fires_even_with_no_source() {
    assert!(one().source().is_none());
    assert_ne!(one().suggestion().to_string(), "");
}

#[test]
fn transparent_collapses_display_but_not_suggestion() {
    let with_inner = transparent_mid();
    let with_io = transparent_io("io error");

    assert_eq!(with_inner.to_string(), "mid");
    assert_eq!(with_io.to_string(), "io error");

    assert_eq!(with_inner.suggestion().to_string(), "");
    assert_eq!(with_io.suggestion().to_string(), "");
}

#[test]
fn double_transparent_display_collapses_suggestion_stays_at_outermost() {
    let e = transparent_io("deep io");
    assert_eq!(e.to_string(), "deep io");
    assert!(e.source().is_none());
    assert_eq!(e.suggestion().to_string(), "");
    assert_eq!(e.one_line().to_string(), "deep io");
}

#[test]
fn hint_and_no_hint_variants_coexist_in_same_type() {
    assert_ne!(one().suggestion().to_string(), "");
    assert_eq!(two(inner_a()).suggestion().to_string(), "");
    assert_ne!(three("x").suggestion().to_string(), "");
    assert_eq!(transparent_mid().suggestion().to_string(), "");
}

#[test]
fn suggest_blanket_impl_works_on_shared_ref() {
    let e = one();
    let r: &DynError = &e;
    assert_eq!(r.suggestion().to_string(), "Try passing --help to see available options.");
    let plain = no_hint();
    let no: &DynError = &plain;
    assert_eq!(no.suggestion().to_string(), "");
}

/// Only the top-level hint is rendered, even when a source has one.
#[test]
fn suggestion_does_not_reach_the_source_hint() {
    let e = DynError::new("outer").with_source(one());
    assert_eq!(e.suggestion().to_string(), "");
}
