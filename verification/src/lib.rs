//! A text-mode screen driver: a fixed 25-by-80 grid of character cells,
//! each pairing an ASCII byte with a 4-bit foreground / 4-bit background
//! attribute, written left to right with line-wrapping and scroll-on-overflow.
//!
//! The grid, cursor and colour state live in [`writer::Writer`]; its whole
//! behaviour is captured by the transition functions in [`screen`], and the
//! properties that follow from them are proved in [`laws`]. Presenting the
//! grid to memory-mapped display hardware is the embedder's concern.

pub mod color;
pub mod laws;
pub mod screen;
pub mod writer;
