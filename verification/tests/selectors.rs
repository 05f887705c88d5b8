use pptx_compose::schemas::ErrorCode;
use pptx_compose::selectors::{
    check_element_guards, check_slide_guards, exactly_one, guard_kind, kind_guard_matches, resolve_media_part,
    resolve_slide, resolve_element, resolve_notes_slide, resolve_core_properties, Guards, PartRelationship, ResolvedTarget, ResolvedElement, ResolvedMediaPart, ResolvedSlide, ShapeKind,
};

fn element(kind: ShapeKind) -> ResolvedElement {
    ResolvedElement {
        slide_id: "slide-1".to_owned(),
        element_id: "slide-1:shape-4".to_owned(),
        kind,
        part: "ppt/slides/slide1.xml".to_owned(),
        sp_tree_path: vec![4],
        group_path: Vec::new(),
        cnvpr_id: Some(4),
        text_hash: Some("sha256:text".to_owned()),
        fingerprint: "sha256:fingerprint".to_owned(),
    }
}

fn no_guards() -> Guards {
    Guards { slide_id: None, kind: None, part: None, text_hash: None, fingerprint: None, part_checksum: None }
}

#[test]
fn element_view_kind_guards_resolve_for_each_emitted_kind() {
    for (kind, name) in [
        (ShapeKind::TextBox, "text_box"),
        (ShapeKind::Shape, "shape"),
        (ShapeKind::Picture, "image"),
        (ShapeKind::Group, "group"),
        (ShapeKind::GraphicFrameChart, "chart"),
        (ShapeKind::GraphicFrameTable, "table"),
        (ShapeKind::GraphicFrameDiagram, "diagram"),
        (ShapeKind::GraphicFrameOle, "ole"),
        (ShapeKind::GraphicFrameOther, "shape"),
        (ShapeKind::Connector, "shape"),
        (ShapeKind::Other, "shape"),
    ] {
        assert!(kind_guard_matches(name, kind), "{name} should match");
        let mut guards = no_guards();
        guards.kind = Some(name.to_owned());
        assert!(check_element_guards(Some(&guards), &element(kind)).is_ok(), "{name} should resolve");
    }
}

#[test]
fn legacy_kind_guard_aliases_still_resolve() {
    for (kind, name) in [
        (ShapeKind::GraphicFrameChart, "graphic_frame"),
        (ShapeKind::GraphicFrameTable, "graphic_frame"),
        (ShapeKind::GraphicFrameDiagram, "graphic_frame"),
        (ShapeKind::GraphicFrameOle, "graphic_frame"),
        (ShapeKind::GraphicFrameOther, "graphic_frame"),
        (ShapeKind::Connector, "connector"),
    ] {
        let mut guards = no_guards();
        guards.kind = Some(name.to_owned());
        assert!(check_element_guards(Some(&guards), &element(kind)).is_ok(), "{name} should resolve");
    }
    assert!(kind_guard_matches("graphic_frame", ShapeKind::GraphicFrameChart));
    assert!(kind_guard_matches("graphic_frame", ShapeKind::GraphicFrameOther));
    assert!(kind_guard_matches("connector", ShapeKind::Connector));
    assert!(kind_guard_matches("other", ShapeKind::Other));
    assert!(!kind_guard_matches("graphic_frame", ShapeKind::TextBox));
    let error = guard_kind("kind", Some("image"), ShapeKind::TextBox, Some("slide-1:shape-4")).expect_err("kind differs");
    assert_eq!(error.code(), ErrorCode::SelectorGuardFailed);
    assert_eq!(
        error.message(),
        "Selector guard kind did not match the current target: expected image, actual text_box."
    );
    assert_eq!(error.location.expected.as_deref(), Some("image"));
    assert_eq!(error.location.actual.as_deref(), Some("text_box"));
}

#[test]
fn element_guards_check_in_order() {
    let target = element(ShapeKind::TextBox);
    assert!(check_element_guards(None, &target).is_ok());
    let mut guards = no_guards();
    guards.slide_id = Some("slide-1".to_owned());
    guards.kind = Some("text_box".to_owned());
    guards.text_hash = Some("sha256:text".to_owned());
    assert!(check_element_guards(Some(&guards), &target).is_ok());

    guards.fingerprint = Some("sha256:other".to_owned());
    guards.part = Some("ppt/slides/slide2.xml".to_owned());
    let error = check_element_guards(Some(&guards), &target).expect_err("part differs first");
    assert_eq!(error.location.expected.as_deref(), Some("ppt/slides/slide2.xml"));
    assert_eq!(error.location.element_id.as_deref(), Some("slide-1:shape-4"));

    let mut checksum = no_guards();
    checksum.part_checksum = Some("sha256:x".to_owned());
    let error = check_element_guards(Some(&checksum), &target).expect_err("checksum does not apply");
    assert_eq!(error.message(), "Selector guard part_checksum is not applicable to this target type.");

    let mut missing_hash = element(ShapeKind::TextBox);
    missing_hash.text_hash = None;
    let mut hash = no_guards();
    hash.text_hash = Some("sha256:text".to_owned());
    let error = check_element_guards(Some(&hash), &missing_hash).expect_err("no text hash");
    assert_eq!(error.location.actual.as_deref(), Some("<none>"));
}

#[test]
fn slide_guards_reject_element_facts() {
    let slide = ResolvedSlide { slide_id: "slide-1".to_owned(), part: "ppt/slides/slide1.xml".to_owned() };
    let mut guards = no_guards();
    guards.slide_id = Some("slide-1".to_owned());
    assert!(check_slide_guards(Some(&guards), &slide).is_ok());
    guards.kind = Some("shape".to_owned());
    let error = check_slide_guards(Some(&guards), &slide).expect_err("kind is for elements");
    assert_eq!(error.code(), ErrorCode::SelectorGuardFailed);
    assert_eq!(error.location.expected.as_deref(), Some("<not applicable>"));
}

#[test]
fn exactly_one_reports_zero_and_many() {
    let one = exactly_one(vec!["a".to_owned()], "slide", "slide-1", None, |s: &String| s.clone()).expect("one");
    assert_eq!(one, "a");
    let none = exactly_one(Vec::<String>::new(), "slide", "slide-9", None, |s: &String| s.clone()).expect_err("none");
    assert_eq!(none.code(), ErrorCode::SelectorNotFound);
    assert_eq!(none.message(), "Selector for slide slide-9 resolved to 0 targets.");
    let many = exactly_one(vec!["a".to_owned(), "b".to_owned()], "element", "x", Some("x"), |s: &String| s.clone())
        .expect_err("many");
    assert_eq!(many.code(), ErrorCode::SelectorAmbiguous);
    assert_eq!(
        many.message(),
        "Selector for element x resolved to 2 targets; expected exactly one. Candidates: a, b."
    );
    assert_eq!(many.location.candidates, vec!["a".to_owned(), "b".to_owned()]);
}

fn slides() -> Vec<ResolvedSlide> {
    vec![
        ResolvedSlide { slide_id: "slide-1".to_owned(), part: "ppt/slides/slide1.xml".to_owned() },
        ResolvedSlide { slide_id: "slide-2".to_owned(), part: "ppt/slides/slide2.xml".to_owned() },
    ]
}

fn package_parts() -> Vec<(String, String)> {
    ["ppt/presentation.xml", "ppt/media/image1.png", "ppt/slides/slide1.xml", "ppt/media/image2.png"]
        .into_iter()
        .map(|name| (name.to_owned(), format!("/{name}")))
        .collect()
}

#[test]
fn slide_selectors_resolve_by_agent_id() {
    let slide = resolve_slide(slides(), "slide-2", None).expect("slide resolves");
    assert_eq!(slide.part, "ppt/slides/slide2.xml");

    let mut guards = no_guards();
    guards.part = Some("ppt/slides/slide2.xml".to_owned());
    assert!(resolve_slide(slides(), "slide-2", Some(&guards)).is_ok());
    guards.part = Some("ppt/slides/slide1.xml".to_owned());
    let error = resolve_slide(slides(), "slide-2", Some(&guards)).expect_err("part guard fails");
    assert_eq!(error.code(), ErrorCode::SelectorGuardFailed);
    assert_eq!(error.location.actual.as_deref(), Some("ppt/slides/slide2.xml"));

    let missing = resolve_slide(slides(), "slide-9", None).expect_err("no such slide");
    assert_eq!(missing.code(), ErrorCode::SelectorNotFound);
    assert_eq!(missing.message(), "Selector for slide slide-9 resolved to 0 targets.");
}

#[test]
fn media_part_selectors_need_exactly_one_match() {
    let ambiguous = resolve_media_part(package_parts(), None, None).expect_err("ambiguous media selector fails");
    assert_eq!(ambiguous.code(), ErrorCode::SelectorAmbiguous);
    assert_eq!(ambiguous.location.candidates, vec!["ppt/media/image1.png", "ppt/media/image2.png"]);
    assert!(ambiguous.message().contains("ppt/media/image1.png"));

    let by_zip = resolve_media_part(package_parts(), Some("ppt/media/image2.png"), None).expect("zip name resolves");
    assert_eq!(by_zip, ResolvedMediaPart { part: "ppt/media/image2.png".to_owned() });
    let by_part_name = resolve_media_part(package_parts(), Some("/ppt/media/image1.png"), None).expect("part name resolves");
    assert_eq!(by_part_name.part, "ppt/media/image1.png");

    let not_media = resolve_media_part(package_parts(), Some("ppt/slides/slide1.xml"), None).expect_err("not a media part");
    assert_eq!(not_media.code(), ErrorCode::SelectorNotFound);

    let mut guards = no_guards();
    guards.slide_id = Some("slide-1".to_owned());
    let error = resolve_media_part(package_parts(), Some("ppt/media/image1.png"), Some(&guards)).expect_err("slide guard");
    assert_eq!(error.message(), "Selector guard slide_id is not applicable to this target type.");
}

#[test]
fn resolves_notes_slide_through_slide_relationship() {
    let slide = resolve_slide(slides(), "slide-1", None).expect("slide resolves");
    let notes = PartRelationship {
        internal: true,
        target_part: "ppt/notesSlides/notesSlide1.xml".to_owned(),
        part_exists: true,
    };
    let target = resolve_notes_slide(ResolvedTarget::Slide(slide.clone()), Some(notes.clone())).expect("notes slide resolves");
    assert_eq!(target.slide_id, "slide-1");
    assert_eq!(target.slide_part, "ppt/slides/slide1.xml");
    assert_eq!(target.notes_part, "ppt/notesSlides/notesSlide1.xml");
    assert_eq!(target.element_id, "slide-1:notes");

    let missing = resolve_notes_slide(ResolvedTarget::Slide(slide.clone()), None).expect_err("missing notes relationship is unsupported");
    assert_eq!(missing.code(), ErrorCode::UnsupportedEdit);
    assert_eq!(missing.location.part.as_deref(), Some("ppt/slides/slide1.xml"));

    let external = PartRelationship { internal: false, ..notes.clone() };
    assert_eq!(
        resolve_notes_slide(ResolvedTarget::Slide(slide.clone()), Some(external)).expect_err("external").message(),
        "Speaker-notes relationship must target an internal notes slide part."
    );
    let absent = PartRelationship { part_exists: false, ..notes };
    let error = resolve_notes_slide(ResolvedTarget::Slide(slide), Some(absent)).expect_err("absent part");
    assert_eq!(error.message(), "Speaker-notes part ppt/notesSlides/notesSlide1.xml was not found.");
    assert_eq!(error.location.part.as_deref(), Some("ppt/notesSlides/notesSlide1.xml"));

    let element = resolve_notes_slide(ResolvedTarget::Element(element(ShapeKind::TextBox)), None).expect_err("not a slide");
    assert_eq!(element.code(), ErrorCode::SelectorGuardFailed);
    assert_eq!(element.message(), "Selector did not resolve to a slide.");
}

#[test]
fn resolves_core_properties_from_package_relationship() {
    let core = PartRelationship { internal: true, target_part: "docProps/core.xml".to_owned(), part_exists: true };
    let target = resolve_core_properties("docProps/core.xml", None, Some(core.clone()), "sha256:core").expect("core properties resolve");
    assert_eq!(target.part, "docProps/core.xml");

    let mut guards = no_guards();
    guards.part_checksum = Some("sha256:core".to_owned());
    assert!(resolve_core_properties("docProps/core.xml", Some(&guards), Some(core.clone()), "sha256:core").is_ok());
    guards.part_checksum = Some("sha256:stale".to_owned());
    let stale = resolve_core_properties("docProps/core.xml", Some(&guards), Some(core.clone()), "sha256:core").expect_err("stale checksum");
    assert_eq!(stale.code(), ErrorCode::SelectorGuardFailed);
    assert_eq!(stale.location.actual.as_deref(), Some("sha256:core"));

    let wrong_part = resolve_core_properties("docProps/app.xml", None, Some(core.clone()), "sha256:core").expect_err("other part");
    assert_eq!(wrong_part.code(), ErrorCode::SelectorGuardFailed);

    let missing = resolve_core_properties("docProps/core.xml", None, None, "").expect_err("no relationship");
    assert_eq!(missing.code(), ErrorCode::SelectorNotFound);
    let absent = PartRelationship { part_exists: false, ..core };
    assert_eq!(
        resolve_core_properties("docProps/core.xml", None, Some(absent), "").expect_err("absent").message(),
        "Core-properties part docProps/core.xml was not found."
    );
}

#[test]
fn element_selectors_resolve_among_candidates() {
    let mut other = element(ShapeKind::Picture);
    other.element_id = "slide-1:pic-5".to_owned();
    let candidates = || vec![element(ShapeKind::TextBox), other.clone()];
    let found = resolve_element(candidates(), "slide-1:pic-5", None).expect("picture resolves");
    assert_eq!(found.kind, ShapeKind::Picture);

    let mut guards = no_guards();
    guards.fingerprint = Some("sha256:ffff".to_owned());
    let stale = resolve_element(candidates(), "slide-1:shape-4", Some(&guards)).expect_err("stale fingerprint");
    assert_eq!(stale.code(), ErrorCode::SelectorGuardFailed);
    assert_eq!(stale.location.expected.as_deref(), Some("sha256:ffff"));
    assert_eq!(stale.location.actual.as_deref(), Some("sha256:fingerprint"));

    let missing = resolve_element(candidates(), "slide-1:shape-9", None).expect_err("missing");
    assert_eq!(missing.code(), ErrorCode::SelectorNotFound);
    assert_eq!(missing.location.element_id.as_deref(), Some("slide-1:shape-9"));

    let twice = resolve_element(vec![element(ShapeKind::TextBox), element(ShapeKind::TextBox)], "slide-1:shape-4", None)
        .expect_err("ambiguous");
    assert_eq!(twice.code(), ErrorCode::SelectorAmbiguous);
    assert_eq!(twice.location.candidates, vec!["slide-1:shape-4", "slide-1:shape-4"]);
}
