# tm20

The verified core of a small typesetting stack for Epson TM-T20 receipt
printers, written in Verus.

- `src/` is the library. Every function in it carries a contract that Verus
  proves: 26.6 fixed-point geometry and ink rectangles, coverage masks packed
  into 1-bit strikes and the placeholder box, which stretches of a run go to
  the fallback face (missing clusters widened over emoji glue), sfnt `name`
  table parsing, HarfRust shaping scaled to run units, shaped-run metrics and
  checked translation, and the messages of the printer's typed errors.
  Calls into HarfRust and a few std functions sit behind small trusted
  wrappers whose contracts say what the outside code does.
- `app/` is ordinary Rust around the library: the parsed face with its
  fontdue rasteriser (floating point) and strike caches, and the printer
  errors that carry USB, serial and I/O errors.
- `tests/` runs the library on concrete inputs.
