use pptx_compose::agent_view::pagination::cursor_offset;
use pptx_compose::agent_view::pagination::{bounded_limit, default_limit, paginate, Cursor, CursorScope};
use pptx_compose::agent_view::search::{find_query_spans, run_selector_for_span, search_plain_text, substring_by_char_span, truncate_text};
use pptx_compose::agent_view::views::{
    bounds_edit_support, cap_embedded_slide_elements, editable, paginate_slide_elements, view_target, ViewRequest, ViewTarget, find_text_cursor_collection, parse_i64, parse_u32, project_text_body, trim_part,
    ImageEditSupport, TextBody, TextBodyParagraph, TextBodyRun, ViewMode, PARAGRAPH_PREVIEW_CHARS,
    EMBEDDED_SLIDE_ELEMENT_LIMIT, PLAIN_TRUNCATION_DETAIL, RUN_PREVIEW_CHARS, TEXT_PREVIEW_CHARS,
};
use pptx_compose::agent_view::{
    Bounds, ElementKind, ElementView, SlideView, XmlLocation, Editable, EditableSupport, FindTextScope, Paragraph, Run,
    StyleSummary, TextSpan, TextView,
};
use pptx_compose::schemas::JsonError;
use pptx_compose::selectors::ShapeKind;

fn scope() -> CursorScope<'static> {
    CursorScope {
        document_id: "sha256:0123456789abcdef0123456789abcdef0123456789abcdef0123456789abcdef",
        revision: 7,
        mode: "slide_page",
        collection: None,
    }
}

#[test]
fn cursor_roundtrip_and_truncation() {
    let items = (0_u32..42).collect::<Vec<_>>();
    let scope = scope();

    let (page, meta, omitted_count) = paginate(&items, 20, None, scope).expect("first page paginates");

    assert_eq!(page.len(), 20);
    assert_eq!(*page[0], 0);
    assert_eq!(*page[19], 19);
    assert_eq!(meta.mode, "slide_page");
    assert_eq!(meta.limit, 20);
    assert!(meta.truncated);
    assert_eq!(omitted_count, 22);

    let next_cursor = meta.next_cursor.expect("truncated page has next cursor");
    let decoded = Cursor::decode(&next_cursor, scope).expect("cursor decodes in same scope");
    assert_eq!(decoded.offset, 20);

    let foreign_scope = CursorScope {
        document_id: scope.document_id,
        revision: scope.revision + 1,
        mode: scope.mode,
        collection: scope.collection,
    };
    let error = Cursor::decode(&next_cursor, foreign_scope).expect_err("foreign cursor must be rejected");
    assert!(matches!(error, JsonError::InvalidCursor(_)));

    assert_eq!(default_limit("slide_page"), Some(20));
}

#[test]
fn second_page_continues_where_the_first_ended() {
    let items = (0_u32..42).collect::<Vec<_>>();
    let (_, meta, _) = paginate(&items, 20, None, scope()).expect("first page");
    let cursor = meta.next_cursor.expect("cursor");
    let (page, meta, omitted) = paginate(&items, 30, Some(&cursor), scope()).expect("second page");
    assert_eq!(page.len(), 22);
    assert_eq!(*page[0], 20);
    assert!(!meta.truncated);
    assert!(meta.next_cursor.is_none());
    assert_eq!(omitted, 0);
    assert!(matches!(paginate(&items, 20, Some("not a cursor"), scope()), Err(JsonError::InvalidCursor(_))));
}

#[test]
fn limits_are_bounded_per_mode() {
    assert_eq!(bounded_limit("slide_page", None).expect("default"), 20);
    assert!(bounded_limit("slide_page", Some(0)).is_err());
    assert!(default_limit("no_such_mode").is_none());
}

fn empty_style_summary() -> StyleSummary {
    StyleSummary {
        font_size_pt: None,
        bold: None,
        italic: None,
        underline: None,
        font_color_rgb: None,
        latin_typeface: None,
        language: None,
    }
}

fn test_text_view(paragraph_runs: Vec<Vec<&str>>) -> TextView {
    let paragraphs = paragraph_runs
        .into_iter()
        .map(|runs| {
            let text = runs.concat();
            Paragraph {
                full_text: text.clone(),
                text,
                runs: runs
                    .into_iter()
                    .map(|text| Run {
                        text: text.to_owned(),
                        full_text: text.to_owned(),
                        style_summary: empty_style_summary(),
                        truncation: None,
                    })
                    .collect(),
                truncation: None,
            }
        })
        .collect::<Vec<_>>();
    let plain = paragraphs.iter().map(|paragraph| paragraph.text.as_str()).collect::<Vec<_>>().join("\n");
    TextView {
        normalized: plain.clone(),
        full_plain: plain.clone(),
        full_normalized: plain.clone(),
        text_hash: String::new(),
        plain,
        paragraphs,
        truncation: None,
    }
}

fn one_paragraph_body(runs: Vec<String>) -> TextBody {
    let text = runs.concat();
    TextBody {
        plain: text.clone(),
        normalized: text.clone(),
        paragraphs: vec![TextBodyParagraph {
            text,
            runs: runs
                .into_iter()
                .map(|text| TextBodyRun { text, style_summary: empty_style_summary() })
                .collect(),
        }],
    }
}

#[test]
fn long_text_payloads_are_truncated_with_markers() {
    let long = "x".repeat(TEXT_PREVIEW_CHARS + 50);
    let text = project_text_body(&one_paragraph_body(vec![long.clone()]), "hash".to_owned());

    assert_eq!(text.plain.chars().count(), TEXT_PREVIEW_CHARS);
    let truncation = text.truncation.expect("text truncation marker");
    assert_eq!(truncation.original_chars, (TEXT_PREVIEW_CHARS + 50) as u32);
    assert_eq!(truncation.shown_chars, TEXT_PREVIEW_CHARS as u32);
    assert_eq!(truncation.detail, PLAIN_TRUNCATION_DETAIL);
    assert_eq!(
        text.paragraphs[0].truncation.as_ref().expect("paragraph truncation").shown_chars,
        PARAGRAPH_PREVIEW_CHARS as u32
    );
    assert_eq!(
        text.paragraphs[0].runs[0].truncation.as_ref().expect("run truncation").shown_chars,
        RUN_PREVIEW_CHARS as u32
    );
    assert_eq!(text.full_plain, long);
    assert_eq!(text.paragraphs[0].runs[0].full_text, long);
    assert_eq!(text.text_hash, "hash");
}

#[test]
fn short_text_is_projected_unmarked() {
    let text = project_text_body(&one_paragraph_body(vec!["Hello".to_owned(), " world".to_owned()]), String::new());
    assert_eq!(text.plain, "Hello world");
    assert!(text.truncation.is_none());
    assert_eq!(text.paragraphs.len(), 1);
    assert_eq!(text.paragraphs[0].runs.len(), 2);
    assert_eq!(text.paragraphs[0].runs[1].text, " world");
    assert!(text.paragraphs[0].runs[1].truncation.is_none());
}

#[test]
fn find_text_searches_full_text_beyond_preview_truncation() {
    let prefix = "x".repeat(TEXT_PREVIEW_CHARS + 25);
    let query = "needle";
    let suffix = "y".repeat(32);
    let text = project_text_body(
        &one_paragraph_body(vec![prefix, query.to_owned(), suffix]),
        String::new(),
    );

    assert!(text.truncation.is_some());
    assert!(!text.plain.contains(query));

    let spans = find_query_spans(search_plain_text(&text), query).expect("query search succeeds");
    assert_eq!(spans, vec![TextSpan { start: 4121, end: 4127 }]);
    assert_eq!(substring_by_char_span(search_plain_text(&text), spans[0]), query);

    let (selector, selected) = run_selector_for_span(&text, spans[0]).expect("full run selector resolves");
    assert_eq!(selector.paragraph_index, 0);
    assert_eq!(selector.run_index, 1);
    assert_eq!(selector.run_end_index, None);
    assert_eq!(selected, query);
}

#[test]
fn run_selector_for_span_accounts_for_inter_paragraph_separators() {
    let text = test_text_view(vec![vec!["Intro"], vec!["Second paragraph", " suffix"], vec!["Tail"]]);
    assert_eq!(text.plain, "Intro\nSecond paragraph suffix\nTail");

    let (selector, selected) =
        run_selector_for_span(&text, TextSpan { start: 6, end: 22 }).expect("second paragraph run resolves");

    assert_eq!(selector.paragraph_index, 1);
    assert_eq!(selector.run_index, 0);
    assert_eq!(selector.run_end_index, None);
    assert_eq!(selected, "Second paragraph");
}

#[test]
fn run_selector_for_span_does_not_shift_to_later_run_after_newline() {
    let text = test_text_view(vec![vec!["X"], vec!["A", "B"]]);
    assert_eq!(text.plain, "X\nAB");

    let (selector, selected) =
        run_selector_for_span(&text, TextSpan { start: 2, end: 3 }).expect("first run after separator resolves");

    assert_eq!(selector.paragraph_index, 1);
    assert_eq!(selector.run_index, 0);
    assert_eq!(selector.run_end_index, None);
    assert_eq!(selected, "A");
}

#[test]
fn run_selector_spans_several_runs_or_none() {
    let text = test_text_view(vec![vec!["X"], vec!["A", "B", "C"]]);
    let (selector, selected) = run_selector_for_span(&text, TextSpan { start: 2, end: 5 }).expect("three runs");
    assert_eq!(selector.run_index, 0);
    assert_eq!(selector.run_end_index, Some(2));
    assert_eq!(selected, "ABC");
    assert!(run_selector_for_span(&text, TextSpan { start: 3, end: 3 }).is_none());
    assert!(run_selector_for_span(&text, TextSpan { start: 0, end: 3 }).is_none());
}

#[test]
fn query_spans_are_character_offsets() {
    let spans = find_query_spans("ab ab éab", "ab").expect("query search succeeds");
    assert_eq!(
        spans,
        vec![TextSpan { start: 0, end: 2 }, TextSpan { start: 3, end: 5 }, TextSpan { start: 7, end: 9 }]
    );
    assert_eq!(substring_by_char_span("ab ab éab", TextSpan { start: 6, end: 9 }), "éab");
    assert_eq!(find_query_spans("aaaa", "aa").expect("no overlap"), vec![TextSpan { start: 0, end: 2 }, TextSpan { start: 2, end: 4 }]);
}

#[test]
fn long_text_is_truncated_with_a_marker() {
    let (shown, marker) = truncate_text("abcdef".to_owned(), 4, "cut");
    assert_eq!(shown, "abcd");
    let marker = marker.expect("marker");
    assert_eq!(marker.original_chars, 6);
    assert_eq!(marker.shown_chars, 4);
    assert_eq!(marker.detail, "cut");
    let (kept, none) = truncate_text("abc".to_owned(), 4, "cut");
    assert_eq!(kept, "abc");
    assert!(none.is_none());
}

#[test]
fn bounds_editability_matches_move_resize_supported_kinds() {
    assert_eq!(bounds_edit_support(ShapeKind::Other, false), (false, Some("unbounded")));
    assert_eq!(bounds_edit_support(ShapeKind::Group, false), (false, Some("group")));
    assert_eq!(bounds_edit_support(ShapeKind::Connector, false), (false, Some("connector")));
    assert_eq!(bounds_edit_support(ShapeKind::Shape, true), (true, None));
}

#[test]
fn editable_maps_follow_kind_and_properties() {
    let picture = editable(ShapeKind::Picture, false, true, false, true, ImageEditSupport::ExternalLink, None);
    assert!(picture.text.is_none());
    assert!(picture.bounds.as_ref().expect("bounds").supported);
    assert!(picture.alt_text.as_ref().expect("alt text").supported);
    let image = picture.image.expect("image support");
    assert!(!image.supported);
    assert_eq!(image.reason.as_deref(), Some("external_link"));

    let table = editable(ShapeKind::GraphicFrameTable, false, true, true, false, ImageEditSupport::Embedded, None);
    let text = table.text.expect("table text");
    assert!(text.supported);
    assert_eq!(text.reason.as_deref(), Some("table_cell_coordinates_required"));
    assert!(table.bounds.is_none());
    assert!(table.alt_text.is_none());
    assert!(table.image.is_none());

    let chart = editable(ShapeKind::GraphicFrameChart, false, true, true, true, ImageEditSupport::Embedded, None);
    assert_eq!(chart.text.expect("chart text").reason.as_deref(), Some("unsupported_kind"));
}

#[test]
fn view_helpers() {
    assert_eq!(ViewMode::ValidationReport.as_token(), "validation_report");
    assert_eq!(ViewMode::DeckSummary.as_token(), "deck_summary");
    assert_eq!(trim_part("//ppt/slides/slide1.xml"), "ppt/slides/slide1.xml");
    assert_eq!(parse_u32("+42"), Some(42));
    assert_eq!(parse_u32("4294967296"), None);
    assert_eq!(parse_u32("-1"), None);
    assert_eq!(parse_u32(""), None);
    assert_eq!(parse_i64("-9223372036854775808"), Some(i64::MIN));
    assert_eq!(parse_i64("9223372036854775807"), Some(i64::MAX));
    assert_eq!(parse_i64("9223372036854775808"), None);
    assert_eq!(parse_i64("1x"), None);
    assert_eq!(
        find_text_cursor_collection("né", &FindTextScope::Slide { slide_id: "slide-2".to_owned() }),
        "query:3:né\0scope:slide:slide-2"
    );
    assert_eq!(find_text_cursor_collection("q", &FindTextScope::Deck), "query:1:q\0scope:deck");
}

fn support(supported: bool, reason: Option<&str>) -> EditableSupport {
    EditableSupport { supported, reason: reason.map(str::to_owned) }
}

#[test]
fn editable_maps_are_kind_appropriate_for_text_and_picture_elements() {
    let text_box = editable(ShapeKind::Shape, true, true, true, true, ImageEditSupport::Embedded, None);
    assert_eq!(
        text_box,
        Editable {
            text: Some(support(true, None)),
            bounds: Some(support(true, None)),
            alt_text: Some(support(true, None)),
            image: None,
        }
    );

    let picture = editable(ShapeKind::Picture, false, true, false, true, ImageEditSupport::Embedded, None);
    assert_eq!(
        picture,
        Editable {
            text: None,
            bounds: Some(support(true, None)),
            alt_text: Some(support(true, None)),
            image: Some(support(true, None)),
        }
    );
}

#[test]
fn image_editability_matches_embedded_and_external_picture_support() {
    let embedded = editable(ShapeKind::Picture, false, true, false, true, ImageEditSupport::Embedded, None);
    let image = embedded.image.expect("embedded image support");
    assert!(image.supported);
    assert_eq!(image.reason, None);
    assert!(embedded.text.is_none());

    let linked = editable(ShapeKind::Picture, false, true, false, true, ImageEditSupport::ExternalLink, None);
    let image = linked.image.expect("linked image support");
    assert!(!image.supported);
    assert_eq!(image.reason.as_deref(), Some("external_link"));
    assert!(linked.text.is_none());
}

#[test]
fn unresolved_picture_projection_reports_stable_image_reason() {
    let picture = editable(ShapeKind::Picture, false, true, false, true, ImageEditSupport::UnresolvedRelationship, None);
    let image = picture.image.expect("image support");
    assert!(!image.supported);
    assert_eq!(image.reason.as_deref(), Some("unresolved_relationship"));

    let picture = editable(ShapeKind::Picture, false, true, false, true, ImageEditSupport::UnresolvedPicture, None);
    assert_eq!(picture.image.expect("image support").reason.as_deref(), Some("unresolved_picture"));
}

#[test]
fn alt_text_editability_matches_cnvpr_presence() {
    let supported = editable(ShapeKind::Shape, true, true, false, true, ImageEditSupport::Embedded, None);
    let alt_text = supported.alt_text.expect("alt text support");
    assert!(alt_text.supported);
    assert_eq!(alt_text.reason, None);

    let unsupported = editable(ShapeKind::Shape, true, true, false, false, ImageEditSupport::Embedded, None);
    assert!(unsupported.alt_text.is_none());
}

fn test_slide() -> SlideView {
    SlideView {
        id: "slide-1".to_owned(),
        index: 0,
        ppt_slide_id: Some(256),
        part: "ppt/slides/slide1.xml".to_owned(),
        relationship_id: "rId1".to_owned(),
        layout_part: "ppt/slideLayouts/slideLayout1.xml".to_owned(),
        part_checksum: "sha256:0123456789abcdef0123456789abcdef0123456789abcdef0123456789abcdef".to_owned(),
        elements: Vec::new(),
        elements_page: None,
    }
}

fn test_element(index: u32) -> ElementView {
    ElementView {
        id: format!("slide-1:shape-{index}"),
        kind: ElementKind::Shape,
        slide_id: "slide-1".to_owned(),
        part: "ppt/slides/slide1.xml".to_owned(),
        xml_location: XmlLocation {
            sp_tree_path: vec![index],
            group_path: Vec::new(),
            element_tag: "p:sp".to_owned(),
            cnvpr_id: index + 1,
            cnvpr_name: format!("Shape {index}"),
        },
        z_order: index,
        bounds: Bounds { x: 0, y: 0, cx: 1000, cy: 1000 },
        editable: Editable {
            text: None,
            bounds: Some(EditableSupport { supported: true, reason: None }),
            alt_text: Some(EditableSupport { supported: true, reason: None }),
            image: None,
        },
        fingerprint: "sha256:0123456789abcdef0123456789abcdef0123456789abcdef0123456789abcdef".to_owned(),
        text: None,
        image: None,
    }
}

#[test]
fn slide_page_embedded_elements_are_capped_with_marker() {
    let elements = (0..EMBEDDED_SLIDE_ELEMENT_LIMIT + 3).map(test_element).collect::<Vec<_>>();
    let document_id = "sha256:0123456789abcdef0123456789abcdef0123456789abcdef0123456789abcdef";

    let page_slide =
        cap_embedded_slide_elements(test_slide(), elements, document_id, 1).expect("embedded elements are capped");

    assert_eq!(page_slide.elements.len(), EMBEDDED_SLIDE_ELEMENT_LIMIT as usize);
    assert_eq!(page_slide.elements[0].id, "slide-1:shape-0");
    let elements_page = page_slide.elements_page.expect("capped element list has pagination marker");
    assert_eq!(elements_page.mode, "slide_detail");
    assert_eq!(elements_page.limit, EMBEDDED_SLIDE_ELEMENT_LIMIT);
    assert!(elements_page.truncated);
    assert_eq!(elements_page.omitted_count, 3);
    assert!(elements_page.next_cursor.is_some());
    assert!(elements_page.detail.contains("slide_detail"));
    assert!(elements_page.detail.contains("slide-1"));

    let next = elements_page.next_cursor.expect("cursor");
    let scope = CursorScope { document_id, revision: 1, mode: "slide_detail", collection: Some("slide-1") };
    let rest = (0..EMBEDDED_SLIDE_ELEMENT_LIMIT + 3).map(test_element).collect::<Vec<_>>();
    let (page, _, omitted) = paginate(&rest, EMBEDDED_SLIDE_ELEMENT_LIMIT, Some(&next), scope).expect("cursor continues");
    assert_eq!(page.len(), 3);
    assert_eq!(omitted, 0);
    assert_eq!(page[0].id, format!("slide-1:shape-{EMBEDDED_SLIDE_ELEMENT_LIMIT}"));
}

#[test]
fn short_element_lists_are_embedded_whole() {
    let elements = (0..3).map(test_element).collect::<Vec<_>>();
    let slide = cap_embedded_slide_elements(test_slide(), elements, "sha256:doc", 1).expect("fits");
    assert_eq!(slide.elements.len(), 3);
    assert!(slide.elements_page.is_none());
}

#[test]
fn slide_detail_paginates_elements_with_working_cursor() {
    let elements = || (0..3).map(test_element).collect::<Vec<_>>();
    let document_id = "sha256:0123456789abcdef0123456789abcdef0123456789abcdef0123456789abcdef";

    let (first_page, meta, omitted_count) =
        paginate_slide_elements(test_slide(), elements(), document_id, 1, ViewMode::SlideDetail.as_token(), "slide-1", 2, None)
            .expect("first element page builds");

    assert_eq!(first_page.elements.len(), 2);
    assert_eq!(first_page.elements[0].id, "slide-1:shape-0");
    assert_eq!(first_page.elements[1].id, "slide-1:shape-1");
    assert_eq!(meta.mode, "slide_detail");
    assert_eq!(meta.limit, 2);
    assert!(meta.truncated);
    assert_eq!(omitted_count, 1);

    let next_cursor = meta.next_cursor.expect("first page has a cursor");
    let (second_page, meta, omitted_count) = paginate_slide_elements(
        test_slide(),
        elements(),
        document_id,
        1,
        ViewMode::SlideDetail.as_token(),
        "slide-1",
        2,
        Some(&next_cursor),
    )
    .expect("cursor retrieves second element page");

    assert_eq!(second_page.elements.len(), 1);
    assert_eq!(second_page.elements[0].id, "slide-1:shape-2");
    assert!(!meta.truncated);
    assert_eq!(meta.next_cursor, None);
    assert_eq!(omitted_count, 0);

    let err = paginate_slide_elements(
        test_slide(),
        elements(),
        document_id,
        1,
        ViewMode::SlideDetail.as_token(),
        "slide-2",
        2,
        Some(&next_cursor),
    )
    .expect_err("element cursor is scoped to its slide");
    assert!(matches!(err, JsonError::InvalidCursor(_)));
}

#[test]
fn cursor_salt_is_the_sha256_of_the_scope() {
    let scope = CursorScope { document_id: "d", revision: 1, mode: "m", collection: None };
    let token = Cursor::encode(5, scope).expect("cursor encodes");
    let cursor = Cursor::decode(&token, scope).expect("cursor decodes");
    assert_eq!(cursor.offset, 5);
    assert_eq!(cursor.salt, "46240b561aed79e00758e3f930ae028b9edca03467992e1b463dae67fa3cb0d2");

    let scoped = CursorScope { collection: Some("c"), ..scope };
    let token = Cursor::encode(5, scoped).expect("cursor encodes");
    assert_eq!(
        Cursor::decode(&token, scoped).expect("cursor decodes").salt,
        "fdacba4a6b91f46499dddb3b504058de48c80e9ed9132ae17ebd7faf1ad35c70"
    );
}

#[test]
fn rejected_cursors_carry_the_decode_error() {
    let scope = scope();
    let message = |r: Result<u32, JsonError>| match r {
        Err(JsonError::InvalidCursor(m)) => m,
        other => panic!("expected an invalid cursor, got {other:?}"),
    };
    assert_eq!(cursor_offset(None, scope).expect("no cursor"), 0);
    assert_eq!(message(cursor_offset(Some("abc"), scope)), "Cursor is not valid base64.");
    assert_eq!(message(cursor_offset(Some("ab!d"), scope)), "Cursor contains invalid base64 characters.");
    assert_eq!(message(cursor_offset(Some("ab=d"), scope)), "Cursor has invalid base64 padding.");
    assert_eq!(
        message(cursor_offset(Some("e30="), scope)),
        "Cursor does not match the requested document, revision, or view mode."
    );
    let foreign = Cursor::encode(3, CursorScope { revision: 8, ..scope }).expect("encodes");
    assert_eq!(
        message(cursor_offset(Some(&foreign), scope)),
        "Cursor does not match the requested document, revision, or view mode."
    );
}

#[test]
fn walking_pages_returns_every_item_once() {
    let items = (0_u32..45).collect::<Vec<_>>();
    let mut seen = Vec::new();
    let mut cursor: Option<String> = None;
    let mut calls = 0;
    loop {
        let (page, meta, _) = paginate(&items, 20, cursor.as_deref(), scope()).expect("page");
        calls += 1;
        if meta.next_cursor.is_some() {
            assert_eq!(page.len(), 20);
        }
        seen.extend(page.into_iter().copied());
        match meta.next_cursor {
            Some(next) => cursor = Some(next),
            None => break,
        }
    }
    assert_eq!(seen, items);
    assert_eq!(calls, 3);
}

fn request(mode: ViewMode) -> ViewRequest {
    ViewRequest {
        mode,
        include_elements: false,
        slide_id: None,
        slide_ids: Vec::new(),
        element_id: None,
        cursor: None,
        limit: None,
    }
}

#[test]
fn view_requests_name_their_targets() {
    assert_eq!(view_target(&request(ViewMode::SlidePage)).expect("slide page"), (20, ViewTarget::SlidePage));
    let mut detail = request(ViewMode::SlideDetail);
    assert!(matches!(view_target(&detail), Err(JsonError::Projection(m)) if m == "slide_detail requires slide_id."));
    detail.slide_id = Some("slide-2".to_owned());
    assert!(matches!(view_target(&detail), Ok((_, ViewTarget::Slide { slide_id })) if slide_id == "slide-2"));

    let mut element = request(ViewMode::ElementDetail);
    element.element_id = Some("shape-4".to_owned());
    assert!(matches!(
        view_target(&element),
        Err(JsonError::Projection(m)) if m == "element_detail requires a slide-scoped element_id."
    ));
    element.element_id = Some("slide-1:shape-4".to_owned());
    assert!(matches!(
        view_target(&element),
        Ok((_, ViewTarget::Element { slide_id, element_id })) if slide_id == "slide-1" && element_id == "slide-1:shape-4"
    ));
    let mut too_many = request(ViewMode::SlidePage);
    too_many.limit = Some(1000);
    assert!(matches!(view_target(&too_many), Err(JsonError::ResourceLimitExceeded(_))));
}
