//! Inspection of DICOM files: a flattened, depth-annotated listing of the
//! attributes, summary diagnostics, and JPEG previews of the pixel data.
//!
//! The listing and the diagnostics are computed on plain elements
//! ([`element::Element`]), which [`dataset`] reads from a decoded file;
//! [`output::inspect`] puts the parts together.

pub mod text;
pub mod tag;
pub mod element;
pub mod attribute;
pub mod dictionary;
pub mod tree;
pub mod report;
pub mod summary;
pub mod probe;
pub mod dataset;
pub mod preview;
pub mod output;
