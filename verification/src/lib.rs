//! Verified core of a small typesetting stack for Epson TM-T20 receipt
//! printers: 26.6 geometry, packed 1-bit glyph strikes, fallback-face
//! segmentation, sfnt name-table parsing, shaped-run metrics and the typed
//! printer errors with their messages.

pub mod geometry;
pub mod printer;
pub mod strike;
pub mod text;
pub mod error;
pub mod face;
pub mod markdown;
pub mod size;
