use pptx_compose::operations::replace_image::ReplaceImage;
use pptx_compose::operations::add_image::{extension_for_content_type, AddImage};
use pptx_compose::operations::add_text_box::{align_value, bool_value, validate_style, AddTextBox};
use pptx_compose::operations::bounds::{validate_bounds, MAX_EMU_COORDINATE};
use pptx_compose::operations::move_resize::{ordered_insertion_index, transform_order, MoveResize};
use pptx_compose::operations::part_names::{relative_target, rels_part_name_for};
use pptx_compose::operations::replace_image::part_extension;
use pptx_compose::operations::replace_text::{
    confidence, fallback_font_size_pt, is_cjk, is_complex_script, run_indices, validate_xml_text, ReplaceNotesText,
    ReplaceTableCellText, ReplaceText,
};
use pptx_compose::operations::set_document_metadata::SetDocumentMetadata;
use pptx_compose::operations::{
    normalize_line_breaks,
    back_child_index, front_child_index, insert_shape_tree_child, is_real_shape_tree_child, ShapeTreeChild,
};
use pptx_compose::patch::{
    AddImageOperation, AddTextBoxOperation, Bounds, DocumentMetadataFields, ImageDedupe, ImageFit, InsertOptions, MoveResizeElementOperation,
    FormatPolicy, ReplaceTextMode, TextAlign, TextBoxStyle, ZOrder, ZOrderKeyword,
};
use pptx_compose::schemas::ErrorCode;
use pptx_compose::selectors::{ResolvedElement, RunSelector, ShapeKind};

#[test]
fn bounds_must_be_positive_and_within_the_emu_range() {
    assert!(validate_bounds(&Bounds { x: 0, y: 0, cx: 1, cy: 1 }).is_ok());
    let e = validate_bounds(&Bounds { x: -1, y: 0, cx: 1, cy: 1 }).expect_err("negative x");
    assert_eq!(e.code(), ErrorCode::InvalidBounds);
    assert_eq!(e.message(), "Bounds require x/y >= 0 and cx/cy > 0.");
    let e = validate_bounds(&Bounds { x: 0, y: 0, cx: MAX_EMU_COORDINATE + 1, cy: 1 }).expect_err("too wide");
    assert_eq!(e.message(), "Bounds must be <= 27273042316900 EMUs.");
    let e = validate_bounds(&Bounds { x: MAX_EMU_COORDINATE, y: 0, cx: 1, cy: 1 }).expect_err("right edge too far");
    assert_eq!(e.message(), "Bounds x+cx and y+cy must be <= 27273042316900 EMUs.");
    assert!(validate_bounds(&Bounds { x: MAX_EMU_COORDINATE - 1, y: 0, cx: 1, cy: 1 }).is_ok());
}

#[test]
fn move_resize_rejects_bounds_above_emu_max_without_writing() {
    let op = MoveResizeElementOperation {
        operation_id: "op-1".to_owned(),
        element_id: "slide-1:shape-2".to_owned(),
        selector: None,
        bounds: Bounds { x: 0, y: 0, cx: MAX_EMU_COORDINATE + 1, cy: 1 },
    };
    let request = MoveResize::from(&op);
    let e = request.validate().expect_err("oversized bounds");
    assert_eq!(e.code(), ErrorCode::InvalidBounds);
    assert_eq!(e.location.element_id.as_deref(), Some("slide-1:shape-2"));
}

fn tree(names: &[&str]) -> Vec<ShapeTreeChild> {
    names
        .iter()
        .map(|n| if n.is_empty() { ShapeTreeChild::Other } else { ShapeTreeChild::Element((*n).to_owned()) })
        .collect()
}

#[test]
fn new_elements_go_to_the_front_back_or_an_ordinal() {
    let children = tree(&["nvGrpSpPr", "grpSpPr", "", "sp", "pic", "", "extLst"]);
    assert!(is_real_shape_tree_child("graphicFrame"));
    assert!(!is_real_shape_tree_child("extLst"));
    assert_eq!(back_child_index(&children), 3);
    assert_eq!(front_child_index(&children), 5);
    assert_eq!(back_child_index(&tree(&["nvGrpSpPr", "grpSpPr", "extLst"])), 2);
    assert_eq!(front_child_index(&tree(&["nvGrpSpPr", "grpSpPr", "extLst"])), 2);
    assert_eq!(back_child_index(&tree(&["", "extLst"])), 2);

    let mut front = children.clone();
    let ordinal = insert_shape_tree_child(&mut front, ShapeTreeChild::Element("sp".to_owned()), None).expect("front");
    assert_eq!(ordinal, 5);
    assert_eq!(front[5], ShapeTreeChild::Element("sp".to_owned()));

    let mut back = children.clone();
    let back_opts = InsertOptions { z_order: Some(ZOrder::Keyword(ZOrderKeyword::Back)) };
    let ordinal = insert_shape_tree_child(&mut back, ShapeTreeChild::Element("pic".to_owned()), Some(&back_opts)).expect("back");
    assert_eq!(ordinal, 3);
    assert_eq!(back[3], ShapeTreeChild::Element("pic".to_owned()));

    let mut at = children.clone();
    let index_opts = InsertOptions { z_order: Some(ZOrder::Index(4)) };
    let ordinal = insert_shape_tree_child(&mut at, ShapeTreeChild::Element("sp".to_owned()), Some(&index_opts)).expect("index");
    assert_eq!(ordinal, 4);
    assert_eq!(at[4], ShapeTreeChild::Element("sp".to_owned()));

    let mut out_of_range = children.clone();
    let far = InsertOptions { z_order: Some(ZOrder::Index(9)) };
    let e = insert_shape_tree_child(&mut out_of_range, ShapeTreeChild::Other, Some(&far)).expect_err("out of range");
    assert_eq!(e.code(), ErrorCode::InvalidInput);
    assert_eq!(e.message(), "insert.z_order index must be between 3 and 5 for this shape tree.");
    assert_eq!(out_of_range, children);
}

#[test]
fn relationship_targets_and_part_names() {
    assert_eq!(relative_target("/ppt/slides/slide1.xml", "/ppt/media/image1.png"), "../media/image1.png");
    assert_eq!(relative_target("/ppt/slides/slide1.xml", "/ppt/slides/slide2.xml"), "slide2.xml");
    assert_eq!(relative_target("/ppt/presentation.xml", "/docProps/core.xml"), "../docProps/core.xml");
    assert_eq!(rels_part_name_for("/ppt/slides/slide1.xml"), "/ppt/slides/_rels/slide1.xml.rels");
    assert_eq!(rels_part_name_for("/presentation.xml"), "/_rels/presentation.xml.rels");
    assert_eq!(rels_part_name_for("core.xml"), "/_rels/core.xml.rels");
    assert_eq!(part_extension("/ppt/media/image1.png").as_deref(), Some("png"));
    assert_eq!(part_extension("/ppt/media/image1.").as_deref(), None);
    assert_eq!(part_extension("/ppt.d/media/image").as_deref(), None);
    assert_eq!(extension_for_content_type("image/jpeg"), Some("jpg"));
    assert_eq!(extension_for_content_type("image/bmp"), None);
}

#[test]
fn add_image_supports_only_stretch_and_no_dedupe() {
    let op = AddImageOperation {
        operation_id: "op-6".to_owned(),
        slide_id: "slide-1".to_owned(),
        selector: None,
        media_ref: "image-1".to_owned(),
        content_type: "image/png".to_owned(),
        bounds: Bounds { x: 1, y: 2, cx: 3, cy: 4 },
        name: None,
        alt_text: None,
        insert: None,
    };
    let mut request = AddImage::from(&op);
    assert!(request.validate_request().is_ok());
    request.fit = ImageFit::Contain;
    let e = request.validate_request().expect_err("fit");
    assert_eq!(e.code(), ErrorCode::UnsupportedEdit);
    assert_eq!(e.message(), "add_image supports only fit: stretch in V1.");
    request.fit = ImageFit::Stretch;
    request.dedupe = ImageDedupe::Checksum;
    assert_eq!(request.validate_request().expect_err("dedupe").message(), "add_image supports only dedupe: never in V1.");
}

#[test]
fn text_box_style_and_values() {
    let style = |c: &str| TextBoxStyle {
        font_size_pt: None,
        bold: None,
        italic: None,
        font_family: None,
        color_hex: Some(c.to_owned()),
        align: None,
    };
    assert!(validate_style(Some(&style("00aaFF"))).is_ok());
    assert!(validate_style(None).is_ok());
    assert_eq!(
        validate_style(Some(&style("00aaF"))).expect_err("short").message(),
        "add_text_box.style.color_hex must be RRGGBB."
    );
    assert!(validate_style(Some(&style("00aaFG"))).is_err());
    assert_eq!(align_value(TextAlign::Center), "ctr");
    assert_eq!(bool_value(true), "1");
    assert_eq!(bool_value(false), "0");
}

#[test]
fn transform_children_keep_their_order() {
    assert_eq!(transform_order("off"), Some(0));
    assert_eq!(transform_order("chExt"), Some(3));
    assert_eq!(transform_order("prstGeom"), None);
    let children = vec![Some("off".to_owned()), None, Some("chOff".to_owned())];
    assert_eq!(ordered_insertion_index(&children, "ext"), 2);
    assert_eq!(ordered_insertion_index(&children, "spPr"), 3);
    assert_eq!(ordered_insertion_index(&children, "chExt"), 3);
}

#[test]
fn mismatched_current_value_guard_fails() {
    let request = SetDocumentMetadata {
        operation_id: "op-1".to_owned(),
        current_value_match: Some(DocumentMetadataFields {
            title: Some("Old Title".to_owned()),
            ..DocumentMetadataFields::default()
        }),
        metadata: DocumentMetadataFields { title: Some("New".to_owned()), ..DocumentMetadataFields::default() },
    };
    let current = DocumentMetadataFields { title: Some("Different".to_owned()), ..DocumentMetadataFields::default() };
    let e = request.validate_fields(Some(&current)).expect_err("guard differs");
    assert_eq!(e.code(), ErrorCode::SelectorGuardFailed);
    assert_eq!(e.message(), "Metadata match guard title did not match the current value.");
    assert_eq!(e.location.expected.as_deref(), Some("Old Title"));
    assert_eq!(e.location.actual.as_deref(), Some("Different"));

    let same = DocumentMetadataFields { title: Some("Old Title".to_owned()), ..DocumentMetadataFields::default() };
    assert!(request.validate_fields(Some(&same)).is_ok());
    assert!(request.validate_fields(None).is_ok());

    let empty = SetDocumentMetadata {
        operation_id: "op-1".to_owned(),
        current_value_match: None,
        metadata: DocumentMetadataFields::default(),
    };
    assert_eq!(empty.validate_fields(None).expect_err("no field").code(), ErrorCode::InvalidInput);
}

#[test]
fn replacement_text_and_scripts() {
    assert!(validate_xml_text("tab\tok\nline", false).is_ok());
    let e = validate_xml_text("bad\u{1}", false).expect_err("control character");
    assert_eq!(e.message(), "replace_text text contains XML 1.0 illegal character U+0001.");
    assert!(validate_xml_text("soft\u{b}break", true).is_ok());
    assert!(validate_xml_text("soft\u{b}break", false).is_err());
    assert!(is_cjk('漢'));
    assert!(!is_cjk('a'));
    assert!(is_complex_script('ש'));
    assert_eq!(confidence("plain", true), "medium");
    assert_eq!(confidence("שלום", true), "low");
    assert_eq!(confidence("plain", false), "low");
    assert_eq!(fallback_font_size_pt(Some("ctrTitle")), 32);
    assert_eq!(fallback_font_size_pt(Some("sldNum")), 12);
    assert_eq!(fallback_font_size_pt(None), 18);
}

#[test]
fn run_selection_picks_runs_in_order() {
    let children = vec![Some("pPr".to_owned()), Some("r".to_owned()), None, Some("br".to_owned()), Some("r".to_owned()), Some("r".to_owned())];
    let sel = |start: u32, end: Option<u32>| RunSelector { paragraph_index: 0, run_index: start, run_end_index: end, text_hash: None };
    assert_eq!(run_indices(&children, &sel(0, None)).expect("first run"), vec![1]);
    assert_eq!(run_indices(&children, &sel(1, Some(2))).expect("two runs"), vec![4, 5]);
    assert_eq!(run_indices(&children, &sel(2, Some(1))).expect_err("reversed").code(), ErrorCode::InvalidInput);
    assert_eq!(run_indices(&children, &sel(0, Some(3))).expect_err("missing").code(), ErrorCode::SelectorNotFound);
}

#[test]
fn add_text_box_rejects_bounds_above_emu_max_without_writing() {
    let op = AddTextBoxOperation {
        operation_id: "op-bounds".to_owned(),
        slide_id: "slide-1".to_owned(),
        selector: None,
        text: "Hello".to_owned(),
        bounds: Bounds { x: 0, y: 0, cx: MAX_EMU_COORDINATE + 1, cy: 1 },
        name: None,
        alt_text: None,
        style: None,
        insert: None,
    };
    let request = AddTextBox::from(&op);
    let e = request.validate().expect_err("out-of-range width is invalid");
    assert_eq!(e.code(), ErrorCode::InvalidBounds);
    assert_eq!(e.location.slide_id.as_deref(), Some("slide-1"));
    assert_eq!(e.location.operation_id.as_deref(), Some("op-bounds"));
}

fn text_box_target() -> ResolvedElement {
    ResolvedElement {
        slide_id: "slide-1".to_owned(),
        element_id: "slide-1:shape-9".to_owned(),
        kind: ShapeKind::TextBox,
        part: "ppt/slides/slide1.xml".to_owned(),
        sp_tree_path: vec![2],
        group_path: Vec::new(),
        cnvpr_id: Some(9),
        text_hash: None,
        fingerprint: "sha256:fingerprint".to_owned(),
    }
}

fn first_run_selector() -> RunSelector {
    RunSelector { paragraph_index: 0, run_index: 0, run_end_index: None, text_hash: None }
}

fn run_scoped(text: &str, run_style: Option<TextBoxStyle>) -> ReplaceText {
    ReplaceText {
        operation_id: "op-replace-text".to_owned(),
        element_id: "slide-1:shape-9".to_owned(),
        text: text.to_owned(),
        current_text_match: Some("First".to_owned()),
        mode: ReplaceTextMode::RunScoped,
        format_policy: FormatPolicy::PreserveExistingRuns,
        allow_formatting_simplification: false,
        run: Some(first_run_selector()),
        run_style,
    }
}

fn font_size_style(font_size_pt: u32) -> TextBoxStyle {
    TextBoxStyle { font_size_pt: Some(font_size_pt), bold: None, italic: None, font_family: None, color_hex: None, align: None }
}

#[test]
fn replace_text_run_scoped_rejects_carriage_return() {
    let target = text_box_target();
    let operation = run_scoped("Line 1\rLine 2", None);
    let error = operation.validate_text(&target, false, false).expect_err("carriage returns are rejected for run-scoped text");
    assert_eq!(error.code(), ErrorCode::InvalidInput);
    assert!(error.message().contains("line-break characters"));
    assert_eq!(error.location.element_id.as_deref(), Some("slide-1:shape-9"));
    assert_eq!(error.location.part.as_deref(), Some("ppt/slides/slide1.xml"));
}

#[test]
fn replace_text_run_scoped_rejects_invalid_font_size_points() {
    let target = text_box_target();
    let operation = run_scoped("Updated", Some(font_size_style(4_000_000_000)));
    let run = operation.validate_text(&target, false, false).expect("text is fine").expect("run-scoped run");
    assert_eq!(run, first_run_selector());
    let error = operation
        .check_current_run(&target, &run, "First", "sha256:first")
        .expect_err("font size outside DrawingML ST_TextFontSize is invalid");
    assert_eq!(error.code(), ErrorCode::InvalidInput);
    assert_eq!(error.message(), "replace_text.run_style.font_size_pt must be between 1 and 4000 points.");

    let fine = run_scoped("Updated", Some(font_size_style(20)));
    assert!(fine.check_current_run(&target, &run, "First", "sha256:first").is_ok());
    let error = fine.check_current_run(&target, &run, "Second", "sha256:second").expect_err("match guard");
    assert_eq!(error.code(), ErrorCode::SelectorGuardFailed);
    assert_eq!(error.message(), "replace_text match guard did not match current run text.");

    let mut hashed = first_run_selector();
    hashed.text_hash = Some("sha256:other".to_owned());
    let error = fine.check_current_run(&target, &hashed, "First", "sha256:first").expect_err("hash guard");
    assert_eq!(error.message(), "selector.run text_hash guard did not match current run text.");
}

#[test]
fn replace_text_whole_element_rejects_run_style() {
    let target = text_box_target();
    let operation = ReplaceText {
        operation_id: "op-replace-text".to_owned(),
        element_id: "slide-1:shape-9".to_owned(),
        text: "Updated".to_owned(),
        current_text_match: None,
        mode: ReplaceTextMode::WholeElement,
        format_policy: FormatPolicy::PreserveExistingRuns,
        allow_formatting_simplification: true,
        run: None,
        run_style: Some(font_size_style(20)),
    };
    let error = operation.validate_text(&target, false, false).expect_err("whole-element mode rejects run_style");
    assert_eq!(error.code(), ErrorCode::UnsupportedEdit);
}

#[test]
fn whole_element_text_checks_run_in_order() {
    let target = text_box_target();
    let mut operation = ReplaceText {
        operation_id: "op-replace-text".to_owned(),
        element_id: "slide-1:shape-9".to_owned(),
        text: "Line 1\nLine 2".to_owned(),
        current_text_match: Some("Old copy".to_owned()),
        mode: ReplaceTextMode::WholeElement,
        format_policy: FormatPolicy::PreserveExistingRuns,
        allow_formatting_simplification: false,
        run: None,
        run_style: None,
    };
    assert_eq!(operation.validate_text(&target, false, false).expect("plain text"), None);
    let error = operation.validate_text(&target, false, true).expect_err("rich text needs confirmation");
    assert_eq!(error.code(), ErrorCode::UnsupportedEdit);
    assert!(error.message().starts_with("Whole-element replace_text would simplify rich text"));
    let error = operation.validate_text(&target, true, false).expect_err("charts need run_scoped");
    assert_eq!(error.message(), "Chart and diagram text replacement requires mode run_scoped.");
    assert!(operation.check_current_element_text(&target, "Old copy").is_ok());
    let error = operation.check_current_element_text(&target, "New copy").expect_err("match guard");
    assert_eq!(error.message(), "replace_text match guard did not match current element text.");
    operation.run = Some(first_run_selector());
    let error = operation.validate_text(&target, false, false).expect_err("run needs run_scoped");
    assert_eq!(error.code(), ErrorCode::InvalidInput);
    operation.text = "bad\u{1}".to_owned();
    let error = operation.validate_text(&target, false, false).expect_err("illegal character comes first");
    assert_eq!(error.message(), "replace_text text contains XML 1.0 illegal character U+0001.");
}

#[test]
fn notes_and_cells_pick_their_runs() {
    let target = text_box_target();
    let notes = ReplaceNotesText {
        operation_id: "op-notes".to_owned(),
        slide_id: "slide-1".to_owned(),
        text: "Updated notes".to_owned(),
        current_text_match: None,
        run: None,
    };
    let error = notes.validate_text(&target).expect_err("notes need a run");
    assert_eq!(error.message(), "replace_text notes target requires run.");

    let cell = ReplaceTableCellText {
        operation_id: "op-cell".to_owned(),
        element_id: "slide-1:graphic-11".to_owned(),
        row: 0,
        col: 1,
        text: "Cell".to_owned(),
        current_text_match: Some("Old".to_owned()),
        run: None,
    };
    assert_eq!(cell.validate_text(&target).expect("first run by default"), first_run_selector());
    let error = cell.check_current_run(&target, &first_run_selector(), "Other", "").expect_err("match guard");
    assert_eq!(error.message(), "replace_text table cell target match guard did not match current run text.");
    let soft = ReplaceTableCellText { text: "soft\u{b}break".to_owned(), ..cell.clone() };
    assert!(soft.validate_text(&target).is_ok());
}

#[test]
fn carriage_returns_become_line_feeds() {
    assert_eq!(normalize_line_breaks("Line 1\r\nLine 2\rLine 3"), ("Line 1\nLine 2\nLine 3".to_owned(), true));
    assert_eq!(normalize_line_breaks("\r\r\n"), ("\n\n".to_owned(), true));
    assert_eq!(normalize_line_breaks("plain\ntext"), ("plain\ntext".to_owned(), false));
}

#[test]
fn linked_pictures_are_refused_with_their_relationship() {
    let op = pptx_compose::patch::ReplaceImageOperation {
        operation_id: "op-replace-image".to_owned(),
        element_id: "slide-1:shape-9".to_owned(),
        selector: None,
        media_ref: "image-1".to_owned(),
        content_type: "image/png".to_owned(),
    };
    let request = ReplaceImage::from(&op);
    let target = text_box_target();
    let e = request.validate_picture(&target, Some("rEmbed"), Some("rLink")).expect_err("linked picture");
    assert_eq!(e.code(), ErrorCode::UnsupportedEdit);
    assert_eq!(e.location.relationship_id.as_deref(), Some("rLink"));
    let e = request.validate_picture(&target, None, None).expect_err("no embed");
    assert_eq!(e.location.relationship_id, None);
    assert!(request.validate_picture(&target, Some("rEmbed"), None).is_ok());
}
