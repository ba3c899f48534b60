use errortools::{DynError, ErrorSource, FormatError, ManyErrors, WithContext};

fn inner_a() -> DynError {
    DynError::new("InnerA")
}

fn inner_b() -> DynError {
    DynError::new("InnerB")
}

fn one() -> DynError {
    DynError::new("One").with_hint("Try passing --help to see available options.")
}

fn two(inner: DynError) -> DynError {
    DynError::new("Two").with_source(inner)
}

fn three(io_message: &str) -> DynError {
    DynError::new("Three")
        .with_source(DynError::new(io_message))
        .with_hint("Check that the file path exists and permissions are correct.")
}

/// `Error::Transparent(Mid::Inner(Inner::A))`: Mid's text and source, no hint.
fn transparent_mid() -> DynError {
    DynError::new("mid").with_source(inner_a())
}

/// `Error::Transparent(Mid::Io(io))`: the io message, no source, no hint.
fn transparent_io(message: &str) -> DynError {
    DynError::new(message)
}

#[test]
fn test_user_output() {
    assert_eq!(one().one_line().to_string(), "One");
    assert_eq!(two(inner_a()).one_line().to_string(), "Two: InnerA");
    assert_eq!(three("test").one_line().to_string(), "Three: test");
    let from_io = three("boom");
    assert_eq!(from_io.one_line().to_string(), "Three: boom");
}

#[test]
fn test_dyn_error() {
    let error = two(inner_a());

    let dyn_ref = DynError::of(&error);
    assert_eq!(dyn_ref.one_line().to_string(), "Two: InnerA");

    let boxed = DynError::of(&two(inner_b()));
    assert_eq!(boxed.one_line().to_string(), "Two: InnerB");

    let send_sync = DynError::of(&error);
    assert_eq!(send_sync.one_line().to_string(), "Two: InnerA");
}

#[test]
fn test_with_ctx_variant() {
    let e = DynError::new("WithCtx").with_source(DynError::of(&WithContext::<_, _>::new("step", inner_a())));
    assert_eq!(e.to_string(), "WithCtx");
    assert_eq!(e.one_line().to_string(), "WithCtx: step: InnerA");
}

#[test]
fn test_many_variant() {
    let mut errs = ManyErrors::<&str, DynError>::new();
    errs.push("a", inner_a());
    errs.push("b", inner_b());
    let e = DynError::new("Many").with_source(DynError::of(&errs));
    assert_eq!(e.to_string(), "Many");
    assert_eq!(e.one_line().to_string(), "Many: 2 errors: a: InnerA; b: InnerB");
}

#[test]
fn test_transparent_display_collapses_wrapper() {
    assert_eq!(transparent_mid().to_string(), "mid");
    assert_eq!(transparent_io("disk full").to_string(), "disk full");
    assert_eq!(transparent_io("deep").to_string(), "deep");
}

#[test]
fn test_transparent_source_delegates_not_wraps() {
    let e = transparent_mid();
    let src = e.source().expect("Inner::A must be the source");
    assert_eq!(src.to_string(), "InnerA");

    let e2 = transparent_io("boom");
    assert!(e2.source().is_none());

    let e3 = transparent_io("deep");
    assert!(e3.source().is_none());
}

#[test]
fn test_transparent_chain_never_shows_wrapper_name() {
    let e = transparent_mid();
    let one = e.one_line().to_string();
    let chain_out = e.chain().to_string();
    assert!(!one.contains("Transparent"), "one_line should not contain 'Transparent': {one}");
    assert!(!chain_out.contains("Transparent"), "chain should not contain 'Transparent': {chain_out}");
    assert_eq!(one, "mid: InnerA");
    assert_eq!(chain_out, "mid\n└─ InnerA");
}

#[test]
fn test_transparent_two_vs_transparent_same_source_different_display() {
    let two = two(inner_a());
    let transp = transparent_mid();

    assert_eq!(two.to_string(), "Two");
    assert_eq!(transp.to_string(), "mid");

    assert_eq!(two.one_line().to_string(), "Two: InnerA");
    assert_eq!(transp.one_line().to_string(), "mid: InnerA");

    assert_eq!(two.source().unwrap().to_string(), transp.source().unwrap().to_string());
}

#[test]
fn test_suggest_not_delegated_through_transparent() {
    let e = transparent_mid();

    assert_eq!(e.to_string(), "mid");
    assert_eq!(e.suggestion().to_string(), "");

    assert_ne!(one().suggestion().to_string(), "");
    assert_ne!(three("x").suggestion().to_string(), "");
}

/// The value-level form of an error keeps its text and its chain.
#[test]
fn dyn_error_of_keeps_the_chain() {
    let w = WithContext::<_, _>::new("ctx", DynError::new("mid").with_source(inner_a()));
    let d = DynError::of(&w);
    assert_eq!(d.to_string(), "ctx: mid");
    assert_eq!(errortools::chain(&d), vec!["ctx: mid", "InnerA"]);
}
