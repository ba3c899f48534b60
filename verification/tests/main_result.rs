use errortools::separator::Space;
use errortools::{
    DisplaySwapDebug, DynError, Flat, Formatted, MainResult, MainResultWithSuggestion, WithSuggestion,
};

fn inner_a() -> DynError {
    DynError::new("InnerA")
}

fn one() -> DynError {
    DynError::new("One").with_hint("Try passing --help to see available options.")
}

fn two(inner: DynError) -> DynError {
    DynError::new("Two").with_source(inner)
}

fn test_return() -> MainResult<DynError> {
    Err(one())?;
    Ok(())
}

#[test]
fn test_main_result() {
    assert_eq!(DisplaySwapDebug::new(test_return().unwrap_err()).to_string(), "One");

    assert_eq!(
        DisplaySwapDebug::new(&DisplaySwapDebug::new(Formatted::<_, Flat>::new(one()))).to_string(),
        "One"
    );
}

#[test]
fn test_with_suggestion_renders_error_then_hint() {
    let formatted = Formatted::<_, WithSuggestion>::new(one());
    assert_eq!(formatted.to_string(), "One\nTry passing --help to see available options.");
}

#[test]
fn test_with_suggestion_empty_hint_keeps_separator() {
    let formatted = Formatted::<_, WithSuggestion>::new(two(inner_a()));
    assert_eq!(formatted.to_string(), "Two: InnerA\n");
}

#[test]
fn test_with_suggestion_custom_separator() {
    let formatted = Formatted::<_, WithSuggestion<Flat, Space>>::new(one());
    assert_eq!(formatted.to_string(), "One Try passing --help to see available options.");
}

/// What `main` prints for a returned error is the rendered chain.
fn run_two() -> MainResult<DynError> {
    Err(two(inner_a()))?;
    Ok(())
}

#[test]
fn main_prints_the_rendered_chain() {
    assert_eq!(run_two().unwrap_err().debug_string(), "Two: InnerA");
}

/// An error with no hint still gets the separator before its empty
/// suggestion.
fn run_two_with_suggestion() -> MainResultWithSuggestion<DynError> {
    Err(two(inner_a()))?;
    Ok(())
}

#[test]
fn main_result_with_suggestion_keeps_separator() {
    assert_eq!(run_two_with_suggestion().unwrap_err().debug_string(), "Two: InnerA\n");
}

fn run_one(err: bool) -> MainResultWithSuggestion<DynError> {
    if err {
        Err(one())?;
    }
    Ok(())
}

/// What `main` prints for the wrapped `Formatted` is the strategy's rendering;
/// the `Debug` rendering of the inner `Formatted` has no counterpart here.
#[test]
fn test_swap_with_formatted() {
    let inner = Formatted::<_, Flat>::new(two(inner_a()));
    let wrapped = DisplaySwapDebug::new(inner);
    assert_eq!(wrapped.debug_string(), "Two: InnerA");
}

#[test]
fn test_main_result_with_suggestion_question_mark() {
    assert!(run_one(false).is_ok());
    let wrapped = run_one(true).unwrap_err();
    assert_eq!(wrapped.debug_string(), "One\nTry passing --help to see available options.");
}
