//! Verified 2D array-transform kernel.
//!
//! The library computes, for a rectangular grid of `ny` rows and `nx`
//! columns, an output grid whose every cell holds the corresponding input
//! cell plus the sum of its column and row index:
//! `output[y][x] == input[y][x] + x + y`.
//!
//! Several access strategies implement this one contract: nested
//! double-indexing, flattened single-index arithmetic, row-cursor
//! traversal, and a variant whose bounds are discharged statically.
//! All of them are proved to produce the same grid.

pub mod cli;
pub mod crssub;
pub mod crssub1d;
pub mod crssub_elided;
pub mod crssub_iter;
pub mod harness;
pub mod laws;
pub mod model;
