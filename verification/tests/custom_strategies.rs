use errortools::with_context::Colon;
use errortools::{
    chain, AsDisplay, Chain, Connectors, DisplayText, DynError, ErrorSource, Format, FormatError, Formatted,
    ManyErrors, WithContext,
};

fn inner_a() -> DynError {
    DynError::new("InnerA")
}

fn inner_b() -> DynError {
    DynError::new("InnerB")
}

fn mid(inner: DynError) -> DynError {
    DynError::new("mid").with_source(inner)
}

fn two(inner: DynError) -> DynError {
    DynError::new("Two").with_source(inner)
}

fn leaf() -> DynError {
    DynError::new("leaf error")
}

fn middle(inner: DynError) -> DynError {
    DynError::new("middle").with_source(inner)
}

/// Joins the error chain with `" -> "`.
struct Arrow;

impl<E: ErrorSource + ?Sized> Format<E> for Arrow {
    fn fmt(error: &E, out: &mut String) {
        out.push_str(&chain(error).join(" -> "));
    }
}

/// Uppercases the top-level error's text.
struct Upper;

impl<E: ErrorSource + ?Sized> Format<E> for Upper {
    fn fmt(error: &E, out: &mut String) {
        let mut text = String::new();
        error.write_text(&mut text);
        out.push_str(&text.to_uppercase());
    }
}

/// A pair as `"[ctx] err"`.
struct Bracketed;

impl<C: DisplayText, E: DisplayText, F> Format<WithContext<C, E, F>> for Bracketed {
    fn fmt(w: &WithContext<C, E, F>, out: &mut String) {
        out.push('[');
        w.context.write_text(out);
        out.push_str("] ");
        w.error.write_text(out);
    }
}

/// A pair as `"ctx -> err"`.
struct WcArrow;

impl<C: DisplayText, E: DisplayText, F> Format<WithContext<C, E, F>> for WcArrow {
    fn fmt(w: &WithContext<C, E, F>, out: &mut String) {
        w.context.write_text(out);
        out.push_str(" -> ");
        w.error.write_text(out);
    }
}

/// A group label as `"[label]"`.
struct Bracket;

impl<GC: DisplayText> Format<GC> for Bracket {
    fn fmt(label: &GC, out: &mut String) {
        out.push('[');
        label.write_text(out);
        out.push(']');
    }
}

/// Each source on its own line, two spaces deeper per level, after `"|-- "`.
struct AsciiChain;

impl<E: ErrorSource + ?Sized> Format<E> for AsciiChain {
    fn fmt(error: &E, out: &mut String) {
        for (depth, e) in chain(error).iter().enumerate() {
            if depth == 0 {
                out.push_str(e);
            } else {
                out.push('\n');
                out.push_str(&" ".repeat((depth - 1) * 2));
                out.push_str("|-- ");
                out.push_str(e);
            }
        }
    }
}

/// The number of direct children of an aggregate.
struct Count;

impl<C, E, GC, F, GF> Format<ManyErrors<C, E, GC, F, GF>> for Count {
    fn fmt(errors: &ManyErrors<C, E, GC, F, GF>, out: &mut String) {
        out.push_str(&format!("{} direct children", errors.len()));
    }
}

impl<T: ?Sized> Format<&T> for Count
where
    Count: Format<T>,
{
    fn fmt(errors: &&T, out: &mut String) {
        <Self as Format<T>>::fmt(*errors, out);
    }
}

/// `"|-> "` before each source, two spaces per level.
struct ArrowConnectors;

impl Connectors for ArrowConnectors {
    const LAST: &'static str = "|-> ";
    const GAP: &'static str = "  ";
}

fn returning_middle() -> Result<(), DynError> {
    Err(mid(inner_a()))
}

/// The caller's error: `"an error happened"`, caused by the tagged pair.
fn returning_error() -> Result<(), DynError> {
    returning_middle()
        .map_err(|e| WithContext::<_, _, Bracketed>::new("context", e))
        .map_err(|w| DynError::new("an error happened").with_source(DynError::of(&w)))?;
    Ok(())
}

fn returning_old_middle() -> Result<(), DynError> {
    Err(middle(leaf()))
}

fn returning_old_error() -> Result<(), DynError> {
    returning_old_middle()
        .map_err(|e| WithContext::<_, _, Bracketed>::new("context", e))
        .map_err(|w| DynError::new("an error happened").with_source(DynError::of(&w)))?;
    Ok(())
}

#[test]
fn test_chain_custom_connectors() {
    let error = two(inner_a());
    assert_eq!(Formatted::<_, Chain<ArrowConnectors>>::new(error).to_string(), "Two\n|-> InnerA");
}

#[test]
fn test_custom_chain_via_format() {
    let error = two(inner_a());
    assert_eq!(Formatted::<_, AsciiChain>::new(error).to_string(), "Two\n|-- InnerA");
}

#[test]
fn test_custom_tree_via_format() {
    let error = two(DynError::new("One"));
    assert_eq!(Formatted::<_, AsciiChain>::new(error).to_string(), "Two\n|-- One");
}

#[test]
fn test_custom_format() {
    assert_eq!(two(inner_a()).formatted::<Upper>().to_string(), "TWO");
}

#[test]
fn test_custom_separator_via_format() {
    let error = two(inner_a());
    assert_eq!(Formatted::<_, Arrow>::new(error).to_string(), "Two -> InnerA");
}

#[test]
fn test_formatted_non_error_value() {
    assert_eq!(Formatted::<_, AsDisplay>::new("plain text").to_string(), "plain text");
    assert_eq!(Formatted::<_, AsDisplay>::new(42).to_string(), "42");
}

#[test]
fn mod_test_custom_format_strategy() {
    let w = WithContext::<_, _, WcArrow>::new("step", inner_a());
    assert_eq!(w.to_string(), "step -> InnerA");
}

#[test]
fn mod_test_custom_format_affects_one_line() {
    let w = WithContext::<_, _, Bracketed>::new("ctx", mid(inner_a()));
    assert_eq!(w.one_line().to_string(), "[ctx] mid: InnerA");
}

#[test]
fn mod_test_propagation_via_question_mark() {
    let err = returning_error().expect_err("returning_error must error");
    assert_eq!(err.to_string(), "an error happened");
    assert_eq!(err.one_line().to_string(), "an error happened: [context] mid: InnerA");
}

#[test]
fn with_context_test_custom_format_strategy() {
    let w = WithContext::<_, _, WcArrow>::new("step", leaf());
    assert_eq!(w.to_string(), "step -> leaf error");
}

#[test]
fn with_context_test_custom_format_affects_one_line() {
    let w = WithContext::<_, _, Bracketed>::new("ctx", middle(leaf()));
    assert_eq!(w.one_line().to_string(), "[ctx] middle: leaf error");
}

#[test]
fn with_context_test_propagation_via_question_mark() {
    let err = returning_old_error().expect_err("returning_error must error");
    assert_eq!(err.to_string(), "an error happened");
    assert_eq!(err.one_line().to_string(), "an error happened: [context] middle: leaf error");
}

#[test]
fn test_with_formats_rebuilds_tree() {
    let mut inner = ManyErrors::<&str, DynError>::new();
    inner.push("x", inner_a());
    let mut outer = ManyErrors::<&str, DynError>::new();
    outer.push("leaf", inner_b());
    outer.push_group("region", inner);
    assert_eq!(outer.to_string(), "2 errors: leaf: InnerB; region (x: InnerA)");

    let swapped: ManyErrors<&str, DynError, &str, WcArrow, Bracket> = outer.with_formats();
    assert_eq!(swapped.to_string(), "2 errors: leaf -> InnerB; [region] (x -> InnerA)");
}

#[test]
fn test_user_marker_via_recipe() {
    let mut e = ManyErrors::<&str, DynError>::new();
    e.push("a", inner_a());
    e.push("b", inner_b());
    assert_eq!(e.formatted::<Count>().to_string(), "2 direct children");
}

#[test]
fn test_tree_custom_group_format() {
    let mut inner = ManyErrors::<&str, DynError, &str, Colon, Bracket>::new();
    inner.push("x", inner_a());

    let mut outer = ManyErrors::<&str, DynError, &str, Colon, Bracket>::new();
    outer.push_group("region", inner);

    assert_eq!(outer.tree().to_string(), "[region]: x: InnerA");
}

/// Switching formats there and back renders as before.
#[test]
fn with_formats_round_trip() {
    let mut outer = ManyErrors::<&str, DynError>::new();
    outer.push("leaf", mid(inner_b()));
    let before = outer.joined().to_string();
    let swapped: ManyErrors<&str, DynError, &str, WcArrow, Bracket> = outer.with_formats();
    let back: ManyErrors<&str, DynError> = swapped.with_formats();
    assert_eq!(back.joined().to_string(), before);
}
