//! Validation reports of edited packages and their summaries in patch reports.
use vstd::prelude::*;
use crate::error::EditError;
use crate::schemas::{ErrorCode, FindingView, PatchValidationSummary, Summary, ValidationReport, ValidationStatus};
use crate::text::owned;

verus! {

/// The schema name of a validation report.
pub const VALIDATION_REPORT_SCHEMA: &'static str = "pptx-compose.validation_report.v1";

/// The version of a validation report.
pub const VALIDATION_REPORT_VERSION: u32 = 1;

/// Finding counts per severity as a validator produced them.
#[derive(Debug, Clone, Copy, PartialEq, Eq)]
pub struct FindingCounts {
    pub fatal: usize,
    pub errors: usize,
    pub warnings: usize,
    pub info: usize,
}

/// What a package validator found.
#[derive(Debug, Clone, PartialEq, Eq)]
pub struct ValidationOutcome {
    pub status: ValidationStatus,
    pub summary: FindingCounts,
    pub findings: Vec<FindingView>,
}

/// Whether all four counts fit a report.
pub open spec fn counts_fit(c: FindingCounts) -> bool {
    c.fatal <= u32::MAX && c.errors <= u32::MAX && c.warnings <= u32::MAX && c.info <= u32::MAX
}

/// A count narrowed to the report's range.
pub fn count(value: usize) -> (r: Result<u32, EditError>)
    ensures
        r matches Ok(v) ==> v == value,
        r is Err <==> value > u32::MAX,
        r matches Err(e) ==> e.code == ErrorCode::InternalError,
{
    if value > 4294967295usize {
        return Err(EditError::new(
            ErrorCode::InternalError,
            owned("Validation finding count exceeds report schema range."),
        ));
    }
    Ok(value as u32)
}

/// The report of a validation outcome for a document revision.
pub fn validation_report(outcome: ValidationOutcome, document_id: String, revision: u32) -> (r: Result<ValidationReport, EditError>)
    ensures
        r is Ok <==> counts_fit(outcome.summary),
        r matches Err(e) ==> e.code == ErrorCode::InternalError,
        r matches Ok(report) ==> {
            &&& report.schema@ == VALIDATION_REPORT_SCHEMA@
            &&& report.version == VALIDATION_REPORT_VERSION
            &&& report.document_id@ == document_id@
            &&& report.revision == revision
            &&& report.status == outcome.status
            &&& report.summary.fatal == outcome.summary.fatal
            &&& report.summary.errors == outcome.summary.errors
            &&& report.summary.warnings == outcome.summary.warnings
            &&& report.summary.info == outcome.summary.info
            &&& report.findings@ == outcome.findings@
        },
{
    let fatal = match count(outcome.summary.fatal) {
        Ok(v) => v,
        Err(e) => return Err(e),
    };
    let errors = match count(outcome.summary.errors) {
        Ok(v) => v,
        Err(e) => return Err(e),
    };
    let warnings = match count(outcome.summary.warnings) {
        Ok(v) => v,
        Err(e) => return Err(e),
    };
    let info = match count(outcome.summary.info) {
        Ok(v) => v,
        Err(e) => return Err(e),
    };
    Ok(ValidationReport {
        schema: owned(VALIDATION_REPORT_SCHEMA),
        version: VALIDATION_REPORT_VERSION,
        document_id,
        revision,
        status: outcome.status,
        summary: Summary { fatal, errors, warnings, info },
        findings: outcome.findings,
    })
}

/// The validation part of a patch report: errors count fatal findings too.
pub fn patch_validation_summary(report: &ValidationReport) -> (r: PatchValidationSummary)
    requires
        report.summary.errors + report.summary.fatal <= u32::MAX,
    ensures
        r.status == report.status,
        r.errors == report.summary.errors + report.summary.fatal,
        r.warnings == report.summary.warnings,
{
    PatchValidationSummary {
        status: report.status,
        errors: report.summary.errors + report.summary.fatal,
        warnings: report.summary.warnings,
    }
}

/// Whether some finding blocks writing the package.
pub open spec fn blocking(findings: Seq<FindingView>) -> bool {
    exists|i: int| 0 <= i < findings.len() && (#[trigger] findings[i]).blocking
}

/// Whether some finding of a report blocks writing the package.
pub fn has_blocking_findings(report: &ValidationReport) -> (r: bool)
    ensures
        r == blocking(report.findings@),
{
    let n = report.findings.len();
    let mut i: usize = 0;
    while i < n
        invariant
            i <= n,
            n == report.findings@.len(),
            forall|k: int| 0 <= k < i ==> !(#[trigger] report.findings@[k]).blocking,
        decreases n - i,
    {
        if report.findings[i].blocking {
            return true;
        }
        i = i + 1;
    }
    false
}

} // verus!
