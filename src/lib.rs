//! Deterministic structuring of semi-structured clinical notes: bundle
//! splitting, section extraction with a heuristic fallback, note assembly and
//! batch report aggregation.

pub mod text;
pub mod models;
pub mod formats;
pub mod splitter;
pub mod extractor;
pub mod assembler;
pub mod report;
pub mod cli;
