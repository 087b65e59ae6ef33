//! Two-column, line-aligned rendering of a precomputed diff for a terminal.
//!
//! Given the aligned line pairs of each hunk, the novel-line sets and the
//! per-line style spans supplied by an external matcher and colorer, this
//! crate plans column widths, formats line-number cells (including
//! placeholders for absent lines), detects which lines to highlight, and
//! assembles the printed rows, wrapping long lines while keeping both
//! columns synchronized.

pub mod ansi;
pub mod dims;
pub mod lines;
pub mod novel;
pub mod numfmt;
pub mod render;
pub mod types;
pub mod wrap;
