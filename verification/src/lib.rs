//! A verified core for a single-cell mapping and quantification pipeline.
//!
//! The library resolves how reads are fed to a mapper (index family,
//! chemistry geometry, fragment transformation), canonicalizes barcode
//! permit lists and reconciles auxiliary barcode columns back into the
//! quantifier's row-ordered output, and sequences the external pipeline
//! stages with precondition checks and failure propagation.

pub mod chemistry;
pub mod errors;
pub mod geometry;
pub mod index;
pub mod opts;
pub mod permit_list;
pub mod pipeline;
pub mod progs;
pub mod text;
pub mod transform;
