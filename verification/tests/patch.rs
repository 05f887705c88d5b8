use pptx_compose::error::EditError;
use pptx_compose::patch::staging::{finish_patch, package_patch_report, plan_patch, PatchEffects};
use pptx_compose::reports::{has_blocking_findings, validation_report, FindingCounts, ValidationOutcome};
use pptx_compose::patch::{
    AddImageOperation, AddTextBoxOperation, Bounds, DocumentMetadataFields, DocumentState, MoveResizeElementOperation,
    Operation, Patch, PatchContext, ReplaceImageOperation, ReplaceTextOperation, SetAltTextOperation,
    SetDocumentMetadataOperation, validate_envelope, ALL_OP_NAMES, PATCH_SCHEMA, PATCH_VERSION,
};
use pptx_compose::schemas::{
    ErrorCode, OperationStatus, OperationTarget, PatchStatus, Summary, ValidationReport, ValidationStatus,
};
use pptx_compose::selectors::{Guards, Selector};

fn replace_text(operation_id: &str, element_id: &str, selector: Option<Selector>) -> ReplaceTextOperation {
    ReplaceTextOperation {
        operation_id: operation_id.to_owned(),
        element_id: element_id.to_owned(),
        slide_id: String::new(),
        selector,
        cell: None,
        text: "Updated title".to_owned(),
        current_text_match: None,
        mode: None,
        format_policy: None,
        overflow_policy: None,
        allow_formatting_simplification: false,
        run_style: None,
        run: None,
    }
}

fn envelope(operations: Vec<Operation>) -> Patch {
    Patch {
        schema: PATCH_SCHEMA.to_owned(),
        version: PATCH_VERSION,
        document_id: "sha256:current".to_owned(),
        base_revision: 3,
        client_request_id: "agent-run-001".to_owned(),
        operations,
    }
}

#[test]
fn all_op_names_matches_operation_variants() {
    let bounds = Bounds { x: 1, y: 2, cx: 3, cy: 4 };
    let variants = [
        Operation::ReplaceText(ReplaceTextOperation {
            operation_id: "op-1".to_owned(),
            element_id: "slide-1:shape-1".to_owned(),
            slide_id: String::new(),
            selector: None,
            cell: None,
            text: "updated".to_owned(),
            current_text_match: None,
            mode: None,
            format_policy: None,
            overflow_policy: None,
            allow_formatting_simplification: false,
            run_style: None,
            run: None,
        }),
        Operation::AddTextBox(AddTextBoxOperation {
            operation_id: "op-2".to_owned(),
            slide_id: "slide-1".to_owned(),
            selector: None,
            text: "new".to_owned(),
            bounds: bounds.clone(),
            name: None,
            alt_text: None,
            style: None,
            insert: None,
        }),
        Operation::MoveResizeElement(MoveResizeElementOperation {
            operation_id: "op-3".to_owned(),
            element_id: "slide-1:shape-1".to_owned(),
            selector: None,
            bounds: bounds.clone(),
        }),
        Operation::SetAltText(SetAltTextOperation {
            operation_id: "op-4".to_owned(),
            element_id: "slide-1:shape-1".to_owned(),
            selector: None,
            title: None,
            description: Some("description".to_owned()),
        }),
        Operation::SetDocumentMetadata(SetDocumentMetadataOperation {
            operation_id: "op-5".to_owned(),
            selector: Selector::CoreProperties { part: "docProps/core.xml".to_owned(), guards: None },
            current_value_match: None,
            metadata: DocumentMetadataFields { title: Some("Title".to_owned()), ..DocumentMetadataFields::default() },
        }),
        Operation::AddImage(AddImageOperation {
            operation_id: "op-6".to_owned(),
            slide_id: "slide-1".to_owned(),
            selector: None,
            media_ref: "image-1".to_owned(),
            content_type: "image/png".to_owned(),
            bounds,
            name: None,
            alt_text: None,
            insert: None,
        }),
        Operation::ReplaceImage(ReplaceImageOperation {
            operation_id: "op-7".to_owned(),
            element_id: "slide-1:pic-1".to_owned(),
            selector: None,
            media_ref: "image-1".to_owned(),
            content_type: "image/png".to_owned(),
        }),
    ];
    let variant_names = variants.map(|operation| operation.op_name());

    assert_eq!(variant_names, ALL_OP_NAMES);
}

#[test]
fn envelope_and_stale() {
    let patch = envelope(vec![Operation::ReplaceText(replace_text("op-1", "slide-1:shape-4", None))]);

    let current = DocumentState::new("sha256:current".to_owned(), 3);
    validate_envelope(&patch, &current).expect("current revision patch validates");

    let stale = DocumentState::new("sha256:current".to_owned(), 4);
    let error = validate_envelope(&patch, &stale).expect_err("base_revision mismatch is stale");
    assert_eq!(error.code(), ErrorCode::StalePatch);
}

#[test]
fn envelope_rejects_schema_version_and_operation_ids() {
    let current = DocumentState::new("sha256:current".to_owned(), 3);

    let mut wrong_schema = envelope(Vec::new());
    wrong_schema.schema = "pptx-compose.patch.v2".to_owned();
    let error = validate_envelope(&wrong_schema, &current).expect_err("schema must match");
    assert_eq!(error.code(), ErrorCode::InvalidInput);
    assert_eq!(error.message(), "Patch schema must be pptx-compose.patch.v1.");

    let mut wrong_version = envelope(Vec::new());
    wrong_version.version = 2;
    let error = validate_envelope(&wrong_version, &current).expect_err("version must match");
    assert_eq!(error.message(), "Patch version must be 1.");

    let other_document = DocumentState::new("sha256:other".to_owned(), 3);
    let error = validate_envelope(&envelope(Vec::new()), &other_document).expect_err("document must match");
    assert_eq!(error.code(), ErrorCode::StalePatch);

    let empty_id = envelope(vec![Operation::ReplaceText(replace_text("", "slide-1:shape-4", None))]);
    let error = validate_envelope(&empty_id, &current).expect_err("empty operation id");
    assert_eq!(error.code(), ErrorCode::InvalidInput);
    assert_eq!(error.location.operation_id.as_deref(), Some(""));

    let duplicated = envelope(vec![
        Operation::ReplaceText(replace_text("op-1", "slide-1:shape-4", None)),
        Operation::ReplaceText(replace_text("op-2", "slide-1:shape-5", None)),
        Operation::ReplaceText(replace_text("op-1", "slide-1:shape-6", None)),
    ]);
    let error = validate_envelope(&duplicated, &current).expect_err("duplicated operation id");
    assert_eq!(error.code(), ErrorCode::InvalidInput);
    assert_eq!(error.message(), "Patch operation_id op-1 is duplicated.");
    assert_eq!(error.location.operation_id.as_deref(), Some("op-1"));
}

#[test]
fn selector_object_targets_parse_and_detect_shorthand_conflicts() {
    let guards = Guards {
        slide_id: Some("slide-1".to_owned()),
        kind: Some("text_box".to_owned()),
        part: Some("ppt/slides/slide1.xml".to_owned()),
        text_hash: Some("sha256:text".to_owned()),
        fingerprint: Some("sha256:fingerprint".to_owned()),
        part_checksum: None,
    };
    let operation = replace_text(
        "op-1",
        "",
        Some(Selector::ElementId { id: "slide-1:shape-4".to_owned(), guards: Some(guards), run: None }),
    );
    assert_eq!(operation.target_element_id(), "slide-1:shape-4");
    assert!(matches!(operation.target_selector().expect("selector resolves"), Selector::ElementId { .. }));

    let conflict = replace_text(
        "op-1",
        "slide-1:shape-4",
        Some(Selector::ElementId { id: "slide-1:shape-5".to_owned(), guards: None, run: None }),
    );
    let error = conflict.target_selector().expect_err("conflicting shorthand and selector fails");
    assert_eq!(error.code(), ErrorCode::InvalidInput);
    assert_eq!(error.location.operation_id.as_deref(), Some("op-1"));
    assert_eq!(
        error.message(),
        "Operation target conflict: element_id `slide-1:shape-4` does not match selector id `slide-1:shape-5`."
    );
}

#[test]
fn replace_text_targets_notes_or_elements_but_not_both() {
    let mut both = replace_text("op-1", "slide-1:shape-4", None);
    both.slide_id = "slide-1".to_owned();
    let error = both.target_selector().expect_err("slide and element shorthand conflict");
    assert_eq!(
        error.message(),
        "replace_text must target either slide_id notes or element_id content, not both."
    );

    let mut notes = replace_text("op-1", "", None);
    notes.slide_id = "slide-1".to_owned();
    match notes.target_selector().expect("notes target resolves") {
        Selector::SlideId { id, guards } => {
            assert_eq!(id, "slide-1");
            assert!(guards.is_none());
        }
        other => panic!("unexpected selector {other:?}"),
    }
    assert_eq!(notes.target_slide_id(), "slide-1");

    let missing = replace_text("op-1", "", None);
    let error = missing.target_selector().expect_err("a target is required");
    assert_eq!(
        error.message(),
        "Operation must include either element_id shorthand or an element_id selector."
    );

    let media = replace_text("op-1", "", Some(Selector::MediaPart { part: None, guards: None }));
    let error = media.target_selector().expect_err("media selectors are not text targets");
    assert_eq!(error.message(), "replace_text selector must have type `element_id` or `slide_id`.");
}

#[test]
fn slide_operations_use_slide_selectors() {
    let op = AddTextBoxOperation {
        operation_id: "op-2".to_owned(),
        slide_id: "slide-1".to_owned(),
        selector: Some(Selector::SlideId { id: "slide-2".to_owned(), guards: None }),
        text: "new".to_owned(),
        bounds: Bounds { x: 0, y: 0, cx: 1, cy: 1 },
        name: None,
        alt_text: None,
        style: None,
        insert: None,
    };
    let error = op.target_selector().expect_err("shorthand and selector differ");
    assert_eq!(
        error.message(),
        "Operation target conflict: slide_id `slide-1` does not match selector id `slide-2`."
    );
    assert_eq!(error.location.element_id, None);
    assert_eq!(op.target_slide_id(), "slide-1");
}

fn effects(operation_id: &str) -> PatchEffects {
    PatchEffects {
        changed_parts: vec!["ppt/slides/slide1.xml".to_owned()],
        target: Some(OperationTarget {
            slide_id: "slide-1".to_owned(),
            element_id: format!("slide-1:{operation_id}"),
            part: "ppt/slides/slide1.xml".to_owned(),
        }),
        created_element_ids: Vec::new(),
        warnings: Vec::new(),
    }
}

fn two_op_patch() -> Patch {
    let op = |id: &str, text: &str| {
        Operation::AddTextBox(AddTextBoxOperation {
            operation_id: id.to_owned(),
            slide_id: "slide-1".to_owned(),
            selector: None,
            text: text.to_owned(),
            bounds: Bounds { x: 0, y: 0, cx: 1, cy: 1 },
            name: None,
            alt_text: None,
            style: None,
            insert: None,
        })
    };
    Patch {
        schema: PATCH_SCHEMA.to_owned(),
        version: PATCH_VERSION,
        document_id: "sha256:old".to_owned(),
        base_revision: 1,
        client_request_id: "agent-run-001".to_owned(),
        operations: vec![op("op-1", "One"), op("op-2", "Two")],
    }
}

fn context() -> PatchContext {
    PatchContext::new("sha256:old".to_owned(), 1, "sha256:new".to_owned(), 2)
}

fn clean_validation() -> ValidationReport {
    ValidationReport {
        schema: "pptx-compose.validation_report.v1".to_owned(),
        version: 1,
        document_id: "sha256:new".to_owned(),
        revision: 2,
        status: ValidationStatus::Valid,
        summary: Summary { fatal: 0, errors: 0, warnings: 0, info: 0 },
        findings: Vec::new(),
    }
}

fn unsupported(message: &str) -> EditError {
    EditError::new(ErrorCode::UnsupportedEdit, message.to_owned())
}

#[test]
fn failed_patch_reports_no_changed_parts() {
    let patch = two_op_patch();
    let plan = plan_patch(&context(), &patch, false, vec![Ok(effects("op-1")), Err(unsupported("Test operation op-2 is unsupported."))]);
    assert!(plan.failed);
    let report = finish_patch(plan, &context(), &patch, &clean_validation()).expect("failure returns a report");
    assert_eq!(report.status, PatchStatus::Failed);
    assert_eq!(report.changed_parts, Vec::<String>::new());
    assert_eq!(report.new_revision, report.base_revision);

    let plan = plan_patch(&context(), &patch, false, vec![Ok(effects("op-1")), Ok(effects("op-2"))]);
    let report = finish_patch(plan, &context(), &patch, &clean_validation()).expect("all operations apply");
    assert_eq!(report.status, PatchStatus::Applied);
    assert_eq!(report.operation_reports.len(), 2);
    assert!(report.operation_reports.iter().all(|operation| operation.status == OperationStatus::Applied));
    assert_eq!(report.changed_parts, vec!["ppt/slides/slide1.xml".to_owned()]);
    assert_eq!(report.new_revision, 2);
}

#[test]
fn dry_run_reports_all_failed_operations() {
    let patch = two_op_patch();
    let plan = plan_patch(
        &context(),
        &patch,
        true,
        vec![Err(unsupported("Test operation op-1 is unsupported.")), Err(unsupported("Test operation op-2 is unsupported."))],
    );
    let report = finish_patch(plan, &context(), &patch, &clean_validation()).expect("dry-run returns a failure report");
    assert_eq!(report.status, PatchStatus::DryRunFailed);
    assert_eq!(report.operation_reports.len(), 2);
    assert!(report.operation_reports.iter().all(|operation| operation.status == OperationStatus::Failed));
    assert_eq!(
        report
            .operation_reports
            .iter()
            .filter_map(|operation| operation.error.as_ref())
            .filter(|error| error.code == ErrorCode::UnsupportedEdit)
            .count(),
        2
    );
}

#[test]
fn non_dry_run_failure_reports_each_operation() {
    let patch = two_op_patch();
    let plan = plan_patch(&context(), &patch, false, vec![Ok(effects("op-1")), Err(unsupported("Test operation op-2 is unsupported."))]);
    let report = finish_patch(plan, &context(), &patch, &clean_validation()).expect("failure returns a report");
    assert_eq!(report.status, PatchStatus::Failed);
    assert!(!report.dry_run);
    assert_eq!(report.changed_parts, Vec::<String>::new());
    assert_eq!(report.new_revision, report.base_revision);
    assert_eq!(report.operation_reports.len(), 2);
    assert_eq!(report.operation_reports[0].operation_id, "op-1");
    assert_eq!(report.operation_reports[0].status, OperationStatus::Applied);
    assert_eq!(report.operation_reports[1].operation_id, "op-2");
    assert_eq!(report.operation_reports[1].status, OperationStatus::Failed);
    assert_eq!(
        report.operation_reports[1].error.as_ref().expect("failed operation reports an error").code,
        ErrorCode::UnsupportedEdit
    );
}

#[test]
fn changed_parts_are_sorted_and_unique() {
    let patch = two_op_patch();
    let mut first = effects("op-1");
    first.changed_parts = vec!["ppt/slides/slide2.xml".to_owned(), "ppt/media/image1.png".to_owned()];
    let mut second = effects("op-2");
    second.changed_parts = vec!["ppt/media/image1.png".to_owned(), "[Content_Types].xml".to_owned()];
    let plan = plan_patch(&context(), &patch, true, vec![Ok(first), Ok(second)]);
    assert_eq!(
        plan.changed_parts,
        vec!["[Content_Types].xml".to_owned(), "ppt/media/image1.png".to_owned(), "ppt/slides/slide2.xml".to_owned()]
    );
    assert_eq!(plan.status, PatchStatus::DryRunSuccess);
    assert_eq!(plan.report_revision, 1);
    assert!(plan.operation_reports.iter().all(|operation| operation.status == OperationStatus::Validated));
}

#[test]
fn blocking_validation_fails_the_run() {
    let patch = two_op_patch();
    let plan = plan_patch(&context(), &patch, false, vec![Ok(effects("op-1")), Ok(effects("op-2"))]);
    let mut validation = clean_validation();
    validation.status = ValidationStatus::Invalid;
    validation.summary.errors = 1;
    validation.findings.push(pptx_compose::schemas::FindingView {
        id: "finding-1".to_owned(),
        severity: pptx_compose::schemas::Severity::Error,
        category: pptx_compose::schemas::FindingCategory::Relationship,
        code: pptx_compose::schemas::FindingCode::DanglingInternalRelationship,
        message: "dangling".to_owned(),
        blocking: true,
        location: serde_json::Value::Null,
        suggested_action: None,
    });
    let error = finish_patch(plan, &context(), &patch, &validation).expect_err("blocking finding stops the write");
    assert_eq!(error.code(), ErrorCode::ValidationFailed);
}

fn dangling_relationship_finding() -> pptx_compose::schemas::FindingView {
    pptx_compose::schemas::FindingView {
        id: "finding-1".to_owned(),
        severity: pptx_compose::schemas::Severity::Error,
        category: pptx_compose::schemas::FindingCategory::Relationship,
        code: pptx_compose::schemas::FindingCode::DanglingInternalRelationship,
        message: "dangling".to_owned(),
        blocking: true,
        location: serde_json::Value::Null,
        suggested_action: None,
    }
}

#[test]
fn blocks_write_on_invalid() {
    let edit = PatchEffects {
        changed_parts: vec!["ppt/slides/_rels/slide1.xml.rels".to_owned()],
        target: None,
        created_element_ids: Vec::new(),
        warnings: Vec::new(),
    };
    let mut invalid = clean_validation();
    invalid.status = ValidationStatus::Invalid;
    invalid.summary.errors = 1;
    invalid.findings.push(dangling_relationship_finding());
    let error = package_patch_report(&context(), edit.clone(), &invalid).expect_err("dangling relationship blocks writable package");
    assert_eq!(error.code(), ErrorCode::ValidationFailed);

    let clean = package_patch_report(&context(), edit, &clean_validation()).expect("valid patch returns writable package");
    assert_eq!(clean.validation.status, ValidationStatus::Valid);
    assert_eq!(clean.validation.errors, 0);
    assert_eq!(clean.status, PatchStatus::Applied);
    assert_eq!(clean.changed_parts, vec!["ppt/slides/_rels/slide1.xml.rels".to_owned()]);
}

#[test]
fn warning_only_validation_passes_through_report() {
    let mut validation = clean_validation();
    validation.summary.warnings = 1;
    validation.findings.push(pptx_compose::schemas::FindingView {
        id: "finding-1".to_owned(),
        severity: pptx_compose::schemas::Severity::Warning,
        category: pptx_compose::schemas::FindingCategory::Relationship,
        code: pptx_compose::schemas::FindingCode::ExternalRelationshipNotChecked,
        message: "external".to_owned(),
        blocking: false,
        location: serde_json::Value::Null,
        suggested_action: None,
    });
    let edit = PatchEffects { changed_parts: Vec::new(), target: None, created_element_ids: Vec::new(), warnings: Vec::new() };
    let result = package_patch_report(&context(), edit, &validation).expect("warning-only validation is writable");
    assert_eq!(result.validation.status, ValidationStatus::Valid);
    assert_eq!(result.validation.errors, 0);
    assert_eq!(result.validation.warnings, 1);
}

#[test]
fn validate_for_write_reports_blocking_findings() {
    let outcome = ValidationOutcome {
        status: ValidationStatus::Invalid,
        summary: FindingCounts { fatal: 0, errors: 1, warnings: 0, info: 0 },
        findings: vec![dangling_relationship_finding()],
    };
    let report = validation_report(outcome, "sha256:test".to_owned(), 1).expect("validation report builds");
    assert_eq!(report.status, ValidationStatus::Invalid);
    assert_eq!(report.document_id, "sha256:test");
    assert_eq!(report.revision, 1);
    assert_eq!(report.summary.errors, 1);
    assert!(report.findings.iter().any(|finding| {
        finding.code == pptx_compose::schemas::FindingCode::DanglingInternalRelationship && finding.blocking
    }));
    assert!(has_blocking_findings(&report));
}
