//! Printer side: packed raster rows, symbol kinds, and the typed errors of
//! the printer crate with their messages.

pub mod error;
pub mod graphics;
pub mod symbol;
