//! Errors of face loading, cut resolution and shaping.

use vstd::prelude::*;

use crate::face::{Cut, DisplayCut};

verus! {

/// What went wrong setting type.
#[derive(Debug)]
pub enum Error {
    /// The bytes are not a usable font.
    Font,
    /// A required text cut has no face.
    MissingText(Cut),
    /// A required display cut has no face.
    MissingDisplay(DisplayCut),
    /// The face has no glyph for part of `text` and there is no fallback.
    MissingGlyph { text: String },
    /// A 26.6 coordinate left its integer range.
    CoordinateOverflow,
    /// An allocation failed.
    Alloc,
}

} // verus!
