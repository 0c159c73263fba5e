use tm20::markdown::{display, Error};
use tm20::size::{DisplaySize, TextSize};

#[test]
fn math_is_a_typed_unsupported_error() {
    let err = display(r"\frac{1}{2}", TextSize::Pt11).unwrap_err();
    assert_eq!(err.code(), "markdown.unsupported");
    assert!(err.message().contains("math renderer"), "{err:?}");
}

#[test]
fn inline_math_is_unsupported_too() {
    let err = tm20::markdown::inline("x^2", TextSize::Pt9).unwrap_err();
    assert_eq!(err.code(), "markdown.unsupported");
    assert!(matches!(err, Error::Unsupported { feature: "math", .. }));
    assert!(err.message().starts_with("unsupported math: "));
}

#[test]
fn sizes_bind_to_the_dot_grid() {
    assert_eq!(TextSize::Pt11.ppem(), 31);
    assert_eq!(TextSize::Pt8.ppem(), 23);
    assert_eq!(DisplaySize::Pt18.ppem(), 51);
}
