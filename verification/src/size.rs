//! Point sizes bound to the printer's 203 dpi dot grid.

use vstd::prelude::*;

verus! {

/// Dots per em at `pt` points on a 203 dpi head, rounded to the nearest dot.
pub open spec fn ppem_of(pt: int) -> int {
    (pt * 203 + 36) / 72
}

/// Body text sizes.
#[derive(Debug, Clone, Copy, PartialEq, Eq, Structural)]
pub enum TextSize {
    Pt8,
    Pt9,
    Pt10,
    Pt11,
    Pt12,
}

/// Points of a body size.
pub open spec fn text_points(s: TextSize) -> int {
    match s {
        TextSize::Pt8 => 8,
        TextSize::Pt9 => 9,
        TextSize::Pt10 => 10,
        TextSize::Pt11 => 11,
        TextSize::Pt12 => 12,
    }
}

impl TextSize {
    /// Dots per em.
    pub fn ppem(self) -> (r: u16)
        ensures
            r == ppem_of(text_points(self)),
    {
        let pt: u16 = match self {
            TextSize::Pt8 => 8,
            TextSize::Pt9 => 9,
            TextSize::Pt10 => 10,
            TextSize::Pt11 => 11,
            TextSize::Pt12 => 12,
        };
        (pt * 203 + 36) / 72
    }
}

/// Display (mark) sizes.
#[derive(Debug, Clone, Copy, PartialEq, Eq, Structural)]
pub enum DisplaySize {
    Pt18,
    Pt24,
    Pt36,
}

/// Points of a display size.
pub open spec fn display_points(s: DisplaySize) -> int {
    match s {
        DisplaySize::Pt18 => 18,
        DisplaySize::Pt24 => 24,
        DisplaySize::Pt36 => 36,
    }
}

impl DisplaySize {
    /// Dots per em.
    pub fn ppem(self) -> (r: u16)
        ensures
            r == ppem_of(display_points(self)),
    {
        let pt: u16 = match self {
            DisplaySize::Pt18 => 18,
            DisplaySize::Pt24 => 24,
            DisplaySize::Pt36 => 36,
        };
        (pt * 203 + 36) / 72
    }
}

} // verus!
