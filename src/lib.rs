//! Draws genome annotations (GFF3 records) as an interactive SVG diagram
//! embedded in an HTML page.
//!
//! The records are normalised into rows grouped by sequence, laid out per
//! sequence on a fixed-size canvas and rendered to markup.

pub mod format;
pub mod scale;
pub mod parse;
pub mod store;
pub mod layout;
pub mod render;
