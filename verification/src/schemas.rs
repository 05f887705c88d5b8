//! Report, error and validation envelope vocabularies.
use vstd::prelude::*;

verus! {

/// A JSON value carried through reports unchanged: finding locations and
/// operation warnings. The library never looks inside one.
#[verifier::external_type_specification]
#[verifier::external_body]
pub struct ExJsonValue(serde_json::Value);

/// `Clone` of `serde_json::Value`, which the crate derives: the copy equals
/// the original.
pub assume_specification[ <serde_json::Value as Clone>::clone ](v: &serde_json::Value) -> (r: serde_json::Value)
    ensures
        r == *v,
;

/// A validation report of a package.
#[derive(Debug, Clone, PartialEq, Eq)]
pub struct ValidationReport {
    pub schema: String,
    pub version: u32,
    pub document_id: String,
    pub revision: u32,
    pub status: ValidationStatus,
    pub summary: Summary,
    pub findings: Vec<FindingView>,
}

/// One validation finding.
#[derive(Debug, Clone, PartialEq, Eq)]
pub struct FindingView {
    pub id: String,
    pub severity: Severity,
    pub category: FindingCategory,
    pub code: FindingCode,
    pub message: String,
    pub blocking: bool,
    pub location: serde_json::Value,
    pub suggested_action: Option<String>,
}

/// The envelope of a successful result.
#[derive(Debug, Clone, PartialEq, Eq)]
pub struct ResultEnvelope {
    pub schema: String,
    pub version: u32,
    pub status: ResultStatus,
    pub result: serde_json::Value,
    pub warnings: Vec<serde_json::Value>,
    pub next_cursor: Option<String>,
}

/// The envelope of a failed request.
#[derive(Debug, Clone, PartialEq, Eq)]
pub struct ErrorEnvelope {
    pub schema: String,
    pub version: u32,
    pub status: ErrorStatus,
    pub error: ErrorView,
}

/// What an error envelope says of the error.
#[derive(Debug, Clone, PartialEq, Eq)]
pub struct ErrorView {
    pub code: ErrorCode,
    pub message: String,
    pub severity: Severity,
    pub category: String,
    pub retryable: bool,
    pub state_changed: bool,
    pub location: serde_json::Value,
    pub suggestions: Vec<String>,
}

/// Status of a successful result envelope.
#[derive(Debug, Clone, Copy, PartialEq, Eq)]
pub enum ResultStatus {
    Success,
}

/// Status of a patch application report.
#[derive(Debug, Clone, Copy, PartialEq, Eq)]
pub enum PatchStatus {
    DryRunSuccess,
    DryRunFailed,
    Applied,
    Failed,
}

/// Status of one operation inside a patch report.
#[derive(Debug, Clone, Copy, PartialEq, Eq)]
pub enum OperationStatus {
    Validated,
    Applied,
    Skipped,
    Failed,
}

/// The slide, element and part that an operation touched.
#[derive(Debug, Clone, PartialEq, Eq)]
pub struct OperationTarget {
    pub slide_id: String,
    pub element_id: String,
    pub part: String,
}

/// Validation outcome embedded in a patch report.
#[derive(Debug, Clone, PartialEq, Eq)]
pub struct PatchValidationSummary {
    pub status: ValidationStatus,
    pub errors: u32,
    pub warnings: u32,
}

/// Overall package validation verdict.
#[derive(Debug, Clone, Copy, PartialEq, Eq)]
pub enum ValidationStatus {
    Valid,
    Invalid,
}

/// Finding counts per severity.
#[derive(Debug, Clone, Copy, PartialEq, Eq)]
pub struct Summary {
    pub fatal: u32,
    pub errors: u32,
    pub warnings: u32,
    pub info: u32,
}

/// Severity of a finding or an error.
#[derive(Debug, Clone, Copy, PartialEq, Eq)]
pub enum Severity {
    Info,
    Warning,
    Error,
    Fatal,
}

/// Area of the package a finding concerns.
#[derive(Debug, Clone, Copy, PartialEq, Eq)]
pub enum FindingCategory {
    ContentType,
    Relationship,
    Presentation,
    Slide,
    Comments,
    Xml,
    Package,
    Signature,
}

/// Stable machine-readable finding codes.
#[derive(Debug, Clone, Copy, PartialEq, Eq)]
pub enum FindingCode {
    MissingContentType,
    MediaContentTypeMismatch,
    DanglingInternalRelationship,
    UnresolvedRelationshipReference,
    UnreferencedMedia,
    DuplicateRelationshipId,
    ExternalRelationshipNotChecked,
    DanglingCommentAuthorRef,
    DuplicateSlideId,
    SlideOrderMismatch,
    DuplicateDrawingId,
    InvalidBounds,
    MalformedXml,
    MissingNamespaceDeclaration,
    PartDropped,
    OrphanPart,
    SignatureInvalidatedByEdit,
}

/// Status of an error envelope.
#[derive(Debug, Clone, Copy, PartialEq, Eq)]
pub enum ErrorStatus {
    Error,
}

/// Stable machine-readable error codes.
#[derive(Debug, Clone, Copy, PartialEq, Eq)]
pub enum ErrorCode {
    InvalidInput,
    UnsafePath,
    ResourceLimitExceeded,
    UnsupportedPackage,
    UnsupportedEdit,
    UnsupportedMediaType,
    InvalidBounds,
    ParseError,
    MalformedXml,
    ValidationFailed,
    StalePatch,
    SelectorNotFound,
    SelectorAmbiguous,
    SelectorGuardFailed,
    MissingMediaRef,
    MediaChecksumMismatch,
    PermissionDenied,
    WriteFailed,
    InternalError,
}

/// Errors raised while projecting, paginating or decoding JSON payloads.
#[derive(Debug, Clone, PartialEq, Eq)]
pub enum JsonError {
    SerializeSchema(String),
    MalformedLegacyEnvelope(String),
    InvalidCursor(String),
    ResourceLimitExceeded(String),
    Projection(String),
    NotFound { kind: String, id: String },
}

} // verus!
