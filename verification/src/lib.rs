//! Verified core of a PowerPoint (PPTX) editing toolkit: patch envelopes and
//! operation validation, selector targeting, media inputs, JSON view pagination,
//! text search, and the base64 codecs used by the JSON surfaces.
pub mod binary_encoding;
pub mod schemas;
pub mod text;
pub mod lexical;
pub mod agent_view;
pub mod error;
pub mod selectors;
pub mod patch;
pub mod reports;
pub mod operations;
pub mod media_inputs;
pub mod diffs;
pub mod journal;
pub mod legacy_path_map;
