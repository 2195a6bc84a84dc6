//! Extraction engine for the Campus Dual student portal.
//!
//! The portal renders hierarchical academic data (module -> attempt,
//! registration -> detail -> warning) as a flat list of table rows tied
//! together by a class-token naming convention.  This crate derives a typed
//! record model from that row structure: adjacency resolution, positional
//! field decoding with missing-data tolerance, status classification,
//! day-first date handling and the ordering policy of the result.
//!
//! The engine is total: any row table, however malformed, yields a valid
//! (possibly empty) record list, never a panic.  Turning markup into the
//! [`rows::RowTable`] model is the caller's concern.

pub mod api;
pub mod dates;
pub mod exams;
pub mod grades;
pub mod laws;
pub mod records;
pub mod rows;
pub mod status;
pub mod text;
pub mod timeline;
