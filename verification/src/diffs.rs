//! Semantic and package-level descriptions of what a patch changed.
use vstd::prelude::*;

verus! {

/// The schema name of a semantic diff.
pub const SEMANTIC_DIFF_SCHEMA: &'static str = "pptx-compose.semantic_diff.v1";

/// The version of a semantic diff.
pub const SEMANTIC_DIFF_VERSION: u32 = 1;

/// What a patch changed, by meaning and by package part.
#[derive(Debug, Clone, PartialEq)]
pub struct SemanticDiff {
    pub schema: String,
    pub version: u32,
    pub changes: Vec<DiffChange>,
    pub changed_parts: Vec<ChangedPart>,
}

/// One change by meaning.
#[derive(Debug, Clone, PartialEq)]
pub enum DiffChange {
    TextReplaced { operation_id: String, element_id: String, before: serde_json::Value, after: serde_json::Value },
    RelationshipAdded { part: String, relationship_id: String, target: String },
}

/// One changed package part with its checksums before and after.
#[derive(Debug, Clone, PartialEq, Eq)]
pub struct ChangedPart {
    pub part: String,
    pub change_kind: PartChangeKind,
    pub before_checksum: String,
    pub after_checksum: String,
}

/// How a package part changed.
#[derive(Debug, Clone, Copy, PartialEq, Eq)]
pub enum PartChangeKind {
    ModifiedXml,
    AddedPart,
    RemovedPart,
    ModifiedBinary,
    ModifiedRelationships,
    ModifiedContentTypes,
}

/// The previews of a change an agent can ask for.
#[derive(Debug, Clone, Copy, PartialEq, Eq)]
pub enum PreviewLevel {
    /// Structured semantic JSON diff.
    JsonDiff,
    /// Package part and checksum changes.
    PackageDiff,
    /// Validation status before write (on dry run).
    ValidationPreview,
    /// Optional debug preview.
    XmlExcerpt,
    /// Optional preview requiring an external renderer.
    SlideThumbnail,
}

impl PreviewLevel {
    /// Whether the preview is always available: the JSON diff, the package
    /// diff and the validation preview are; XML excerpts and thumbnails are not.
    pub fn is_always_available(self) -> (r: bool)
        ensures
            r == (self is JsonDiff || self is PackageDiff || self is ValidationPreview),
    {
        matches!(self, PreviewLevel::JsonDiff | PreviewLevel::PackageDiff | PreviewLevel::ValidationPreview)
    }
}

} // verus!
