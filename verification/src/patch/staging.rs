//! How the outcomes of a patch's operations become a patch report. Running
//! the operations and validating the edited package happen outside; these
//! functions decide, from what came back, the status of each operation and
//! of the patch, the parts reported changed, the revision reported, and
//! whether the validation blocks the write.
use vstd::prelude::*;
use crate::error::EditError;
use crate::lexical::{sorted_unique, strictly_sorted};
use crate::patch::{Operation, Patch, PatchContext, op_id, op_name_of};
use crate::reports::{blocking, has_blocking_findings, patch_validation_summary};
use crate::schemas::{ErrorCode, OperationStatus, OperationTarget, PatchStatus, PatchValidationSummary, ValidationReport};
use crate::text::{owned, sview, strings_clone, views};

verus! {

/// The schema name of a patch report.
pub const PATCH_REPORT_SCHEMA: &'static str = "pptx-compose.patch_report.v1";

/// The version of a patch report.
pub const PATCH_REPORT_VERSION: u32 = 1;

/// What executing one operation produced.
#[derive(Clone, Debug, PartialEq)]
pub struct PatchEffects {
    pub changed_parts: Vec<String>,
    pub target: Option<OperationTarget>,
    pub created_element_ids: Vec<String>,
    pub warnings: Vec<serde_json::Value>,
}

/// The report of one operation of a patch.
#[derive(Clone, Debug, PartialEq)]
pub struct OperationReport {
    pub operation_id: String,
    pub op: String,
    pub status: OperationStatus,
    pub target: OperationTarget,
    pub changed_parts: Vec<String>,
    pub created_element_ids: Vec<String>,
    pub warnings: Vec<serde_json::Value>,
    pub error: Option<EditError>,
}

/// The report of a patch run.
#[derive(Clone, Debug, PartialEq)]
pub struct PatchReport {
    pub schema: String,
    pub version: u32,
    pub client_request_id: Option<String>,
    pub request_id: Option<String>,
    pub transaction_id: Option<String>,
    pub status: PatchStatus,
    pub dry_run: bool,
    pub document_id: String,
    pub base_revision: u32,
    pub new_document_id: String,
    pub new_revision: u32,
    pub operation_reports: Vec<OperationReport>,
    pub changed_parts: Vec<String>,
    pub warnings: Vec<serde_json::Value>,
    pub validation: PatchValidationSummary,
}

/// A patch run whose edited package has not been validated yet. When
/// `failed`, the original package is the one to validate, else the staged one;
/// either at `report_revision`.
#[derive(Clone, Debug, PartialEq)]
pub struct PatchPlan {
    pub failed: bool,
    pub dry_run: bool,
    pub status: PatchStatus,
    pub operation_reports: Vec<OperationReport>,
    pub changed_parts: Vec<String>,
    pub report_revision: u32,
}

/// A target that names nothing.
pub open spec fn is_unknown_target(t: OperationTarget) -> bool {
    t.slide_id@.len() == 0 && t.element_id@.len() == 0 && t.part@.len() == 0
}

/// A target that names nothing.
pub fn unknown_target() -> (r: OperationTarget)
    ensures
        is_unknown_target(r),
{
    OperationTarget { slide_id: String::new(), element_id: String::new(), part: String::new() }
}

/// The target an error's location names; absent fields are empty.
pub open spec fn error_target(t: OperationTarget, e: EditError) -> bool {
    &&& t.slide_id@ == (match sview(e.location.slide_id) { Some(s) => s, None => Seq::<char>::empty() })
    &&& t.element_id@ == (match sview(e.location.element_id) { Some(s) => s, None => Seq::<char>::empty() })
    &&& t.part@ == (match sview(e.location.part) { Some(s) => s, None => Seq::<char>::empty() })
}

fn or_empty(o: &Option<String>) -> (r: String)
    ensures
        r@ == (match sview(*o) { Some(s) => s, None => Seq::<char>::empty() }),
{
    match o {
        Some(s) => owned(s.as_str()),
        None => String::new(),
    }
}

/// The target an error's location names.
pub fn target_from_error(error: &EditError) -> (r: OperationTarget)
    ensures
        error_target(r, *error),
{
    OperationTarget {
        slide_id: or_empty(&error.location.slide_id),
        element_id: or_empty(&error.location.element_id),
        part: or_empty(&error.location.part),
    }
}

/// Whether a report describes an operation with the given outcome.
pub open spec fn reports_outcome(r: OperationReport, op: Operation, o: Result<PatchEffects, EditError>, dry_run: bool) -> bool {
    &&& r.operation_id@ == op_id(op)
    &&& r.op@ == op_name_of(op)
    &&& match o {
        Ok(e) => {
            &&& r.status == (if dry_run { OperationStatus::Validated } else { OperationStatus::Applied })
            &&& r.changed_parts == e.changed_parts
            &&& r.created_element_ids == e.created_element_ids
            &&& r.warnings == e.warnings
            &&& r.error is None
            &&& match e.target {
                Some(t) => r.target == t,
                None => is_unknown_target(r.target),
            }
        },
        Err(err) => {
            &&& r.status == OperationStatus::Failed
            &&& r.changed_parts@.len() == 0
            &&& r.created_element_ids@.len() == 0
            &&& r.warnings@.len() == 0
            &&& r.error == Some(err)
            &&& error_target(r.target, err)
        },
    }
}

/// The report of an operation that validated (dry run) or applied.
pub fn operation_report(operation: &Operation, status: OperationStatus, effects: PatchEffects) -> (r: OperationReport)
    ensures
        r.operation_id@ == op_id(*operation),
        r.op@ == op_name_of(*operation),
        r.status == status,
        r.changed_parts == effects.changed_parts,
        r.created_element_ids == effects.created_element_ids,
        r.warnings == effects.warnings,
        r.error is None,
        match effects.target {
            Some(t) => r.target == t,
            None => is_unknown_target(r.target),
        },
{
    let target = match effects.target {
        Some(t) => t,
        None => unknown_target(),
    };
    OperationReport {
        operation_id: owned(operation.operation_id()),
        op: owned(operation.op_name()),
        status,
        target,
        changed_parts: effects.changed_parts,
        created_element_ids: effects.created_element_ids,
        warnings: effects.warnings,
        error: None,
    }
}

/// The report of an operation that failed.
pub fn failed_operation_report(operation: &Operation, error: EditError) -> (r: OperationReport)
    ensures
        r.operation_id@ == op_id(*operation),
        r.op@ == op_name_of(*operation),
        r.status == OperationStatus::Failed,
        r.changed_parts@.len() == 0,
        r.created_element_ids@.len() == 0,
        r.warnings@.len() == 0,
        error_target(r.target, error),
        r.error == Some(error),
{
    let target = target_from_error(&error);
    OperationReport {
        operation_id: owned(operation.operation_id()),
        op: owned(operation.op_name()),
        status: OperationStatus::Failed,
        target,
        changed_parts: Vec::new(),
        created_element_ids: Vec::new(),
        warnings: Vec::new(),
        error: Some(error),
    }
}

/// Whether some operation failed.
pub open spec fn some_failed(o: Seq<Result<PatchEffects, EditError>>) -> bool {
    exists|i: int| 0 <= i < o.len() && (#[trigger] o[i]) is Err
}

/// The parts that the successful operations changed, in operation order.
pub open spec fn effects_parts(o: Seq<Result<PatchEffects, EditError>>) -> Seq<Seq<char>>
    decreases o.len(),
{
    if o.len() == 0 {
        Seq::empty()
    } else {
        effects_parts(o.drop_last()) + match o.last() {
            Ok(e) => views(e.changed_parts@),
            Err(_) => Seq::empty(),
        }
    }
}

/// The status of a patch run.
pub open spec fn patch_status(failed: bool, dry_run: bool) -> PatchStatus {
    if failed {
        if dry_run { PatchStatus::DryRunFailed } else { PatchStatus::Failed }
    } else if dry_run {
        PatchStatus::DryRunSuccess
    } else {
        PatchStatus::Applied
    }
}

/// Plans the report of a patch run from the outcome of each operation, in
/// order. A run with a failed operation reports no changed part and keeps the
/// base revision; otherwise the changed parts are those of all operations,
/// sorted and without duplicates, and a run that wrote a part outside a dry
/// run reports the new revision.
pub fn plan_patch(context: &PatchContext, patch: &Patch, dry_run: bool, outcomes: Vec<Result<PatchEffects, EditError>>) -> (plan: PatchPlan)
    requires
        outcomes@.len() == patch.operations@.len(),
    ensures
        plan.failed == some_failed(outcomes@),
        plan.dry_run == dry_run,
        plan.status == patch_status(plan.failed, dry_run),
        plan.operation_reports@.len() == outcomes@.len(),
        forall|i: int| 0 <= i < outcomes@.len() ==> reports_outcome(#[trigger] plan.operation_reports@[i], patch.operations@[i], outcomes@[i], dry_run),
        plan.failed ==> plan.changed_parts@.len() == 0,
        !plan.failed ==> strictly_sorted(views(plan.changed_parts@)),
        !plan.failed ==> views(plan.changed_parts@).to_set() == effects_parts(outcomes@).to_set(),
        plan.report_revision == (if plan.failed || dry_run || plan.changed_parts@.len() == 0 {
            context.base_revision
        } else {
            context.new_revision
        }),
{
    let ghost all_outcomes = outcomes@;
    let n = outcomes.len();
    let mut rest = outcomes;
    let mut reports: Vec<OperationReport> = Vec::new();
    let mut parts: Vec<String> = Vec::new();
    let mut failed = false;
    let mut i: usize = 0;
    while i < n
        invariant
            i <= n,
            n == all_outcomes.len(),
            n == patch.operations@.len(),
            rest@ == all_outcomes.skip(i as int),
            reports@.len() == i,
            forall|k: int| 0 <= k < i ==> reports_outcome(#[trigger] reports@[k], patch.operations@[k], all_outcomes[k], dry_run),
            failed == some_failed(all_outcomes.take(i as int)),
            views(parts@) == effects_parts(all_outcomes.take(i as int)),
        decreases n - i,
    {
        let outcome = rest.remove(0);
        let operation = &patch.operations[i];
        proof {
            assert(outcome == all_outcomes[i as int]);
            assert(all_outcomes.take(i + 1).drop_last() =~= all_outcomes.take(i as int));
            assert(all_outcomes.take(i + 1).last() == all_outcomes[i as int]);
        }
        match outcome {
            Ok(effects) => {
                let copies = strings_clone(&effects.changed_parts);
                let mut j: usize = 0;
                let m = copies.len();
                let ghost before = parts@;
                while j < m
                    invariant
                        j <= m,
                        m == copies@.len(),
                        views(parts@) == views(before) + views(copies@.take(j as int)),
                    decreases m - j,
                {
                    let ghost pre = parts@;
                    let c = owned(copies[j].as_str());
                    parts.push(c);
                    proof {
                        assert(views(parts@) =~= views(pre).push(c@));
                        assert(views(copies@.take(j + 1)) =~= views(copies@.take(j as int)).push(copies@[j as int]@));
                        assert(views(parts@) =~= views(before) + views(copies@.take(j + 1)));
                    }
                    j = j + 1;
                }
                proof {
                    assert(copies@.take(m as int) =~= copies@);
                    assert(views(copies@) =~= views(effects.changed_parts@));
                }
                let status = if dry_run { OperationStatus::Validated } else { OperationStatus::Applied };
                reports.push(operation_report(operation, status, effects));
            },
            Err(error) => {
                failed = true;
                reports.push(failed_operation_report(operation, error));
            },
        }
        proof {
            assert(rest@ =~= all_outcomes.skip(i + 1));
            let t = all_outcomes.take(i + 1);
            if some_failed(all_outcomes.take(i as int)) {
                let w = choose|w: int| 0 <= w < all_outcomes.take(i as int).len() && (#[trigger] all_outcomes.take(i as int)[w]) is Err;
                assert(t[w] == all_outcomes.take(i as int)[w]);
            }
            if all_outcomes[i as int] is Err {
                assert(t[i as int] is Err);
            }
            if some_failed(t) {
                let w = choose|w: int| 0 <= w < t.len() && (#[trigger] t[w]) is Err;
                if w < i {
                    assert(all_outcomes.take(i as int)[w] == t[w]);
                }
            }
        }
        i = i + 1;
    }
    proof {
        assert(all_outcomes.take(n as int) =~= all_outcomes);
    }
    let changed_parts = if failed { Vec::new() } else { sorted_unique(&parts) };
    let wrote_part = changed_parts.len() > 0;
    let report_revision = if failed || dry_run || !wrote_part { context.base_revision } else { context.new_revision };
    let status = if failed {
        if dry_run { PatchStatus::DryRunFailed } else { PatchStatus::Failed }
    } else if dry_run {
        PatchStatus::DryRunSuccess
    } else {
        PatchStatus::Applied
    };
    PatchPlan { failed, dry_run, status, operation_reports: reports, changed_parts, report_revision }
}

/// The error of an edited package that failed validation.
pub fn validation_failed() -> (e: EditError)
    ensures
        e.code == ErrorCode::ValidationFailed,
{
    EditError::new(ErrorCode::ValidationFailed, owned("Edited package failed validation and was not made writable."))
}

/// Whether a report carries a plan, the context and the validation.
pub open spec fn report_of_plan(r: PatchReport, plan: PatchPlan, context: PatchContext, patch: Patch, validation: ValidationReport) -> bool {
    &&& r.schema@ == PATCH_REPORT_SCHEMA@
    &&& r.version == PATCH_REPORT_VERSION
    &&& sview(r.client_request_id) == Some(patch.client_request_id@)
    &&& r.request_id is None
    &&& r.transaction_id is None
    &&& r.status == plan.status
    &&& r.dry_run == plan.dry_run
    &&& r.document_id@ == context.document_id@
    &&& r.base_revision == context.base_revision
    &&& r.new_document_id@ == context.new_document_id@
    &&& r.new_revision == plan.report_revision
    &&& r.operation_reports == plan.operation_reports
    &&& r.changed_parts == plan.changed_parts
    &&& r.warnings@.len() == 0
    &&& r.validation.status == validation.status
    &&& r.validation.errors == validation.summary.errors + validation.summary.fatal
    &&& r.validation.warnings == validation.summary.warnings
}

/// Completes a planned patch report with the validation of the package the
/// plan names; a validation with a blocking finding fails the whole run.
pub fn finish_patch(plan: PatchPlan, context: &PatchContext, patch: &Patch, validation: &ValidationReport) -> (r: Result<PatchReport, EditError>)
    requires
        validation.summary.errors + validation.summary.fatal <= u32::MAX,
    ensures
        r is Err <==> blocking(validation.findings@),
        r matches Err(e) ==> e.code == ErrorCode::ValidationFailed,
        r matches Ok(report) ==> report_of_plan(report, plan, *context, *patch, *validation),
{
    if has_blocking_findings(validation) {
        return Err(validation_failed());
    }
    Ok(PatchReport {
        schema: owned(PATCH_REPORT_SCHEMA),
        version: PATCH_REPORT_VERSION,
        client_request_id: Some(owned(patch.client_request_id.as_str())),
        request_id: None,
        transaction_id: None,
        status: plan.status,
        dry_run: plan.dry_run,
        document_id: owned(context.document_id.as_str()),
        base_revision: context.base_revision,
        new_document_id: owned(context.new_document_id.as_str()),
        new_revision: plan.report_revision,
        operation_reports: plan.operation_reports,
        changed_parts: plan.changed_parts,
        warnings: Vec::new(),
        validation: patch_validation_summary(validation),
    })
}

/// The report of a single edit applied to a package outside a patch: its
/// effects are reported as they are, and a blocking finding in the
/// validation of the edited package fails it.
pub fn package_patch_report(context: &PatchContext, effects: PatchEffects, validation: &ValidationReport) -> (r: Result<PatchReport, EditError>)
    requires
        validation.summary.errors + validation.summary.fatal <= u32::MAX,
    ensures
        r is Err <==> blocking(validation.findings@),
        r matches Err(e) ==> e.code == ErrorCode::ValidationFailed,
        r matches Ok(report) ==> {
            &&& report.schema@ == PATCH_REPORT_SCHEMA@
            &&& report.version == PATCH_REPORT_VERSION
            &&& report.client_request_id is None
            &&& report.status == (if context.dry_run { PatchStatus::DryRunSuccess } else { PatchStatus::Applied })
            &&& report.dry_run == context.dry_run
            &&& report.document_id@ == context.document_id@
            &&& report.base_revision == context.base_revision
            &&& report.new_document_id@ == context.new_document_id@
            &&& report.new_revision == context.new_revision
            &&& report.operation_reports@.len() == 0
            &&& report.changed_parts == effects.changed_parts
            &&& report.validation.status == validation.status
            &&& report.validation.errors == validation.summary.errors + validation.summary.fatal
            &&& report.validation.warnings == validation.summary.warnings
        },
{
    if has_blocking_findings(validation) {
        return Err(validation_failed());
    }
    Ok(PatchReport {
        schema: owned(PATCH_REPORT_SCHEMA),
        version: PATCH_REPORT_VERSION,
        client_request_id: None,
        request_id: None,
        transaction_id: None,
        status: if context.dry_run { PatchStatus::DryRunSuccess } else { PatchStatus::Applied },
        dry_run: context.dry_run,
        document_id: owned(context.document_id.as_str()),
        base_revision: context.base_revision,
        new_document_id: owned(context.new_document_id.as_str()),
        new_revision: context.new_revision,
        operation_reports: Vec::new(),
        changed_parts: effects.changed_parts,
        warnings: Vec::new(),
        validation: patch_validation_summary(validation),
    })
}

} // verus!
