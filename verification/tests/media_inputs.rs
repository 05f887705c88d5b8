use pptx_compose::patch::Bounds;
use pptx_compose::error::EditError;
use pptx_compose::media_inputs::inline::decode_inline_base64;
use pptx_compose::media_inputs::limits::{check_size, MediaLimits, DEFAULT_MAX_MEDIA_BYTES};
use pptx_compose::media_inputs::manifest::{InlineMedia, ManifestMediaBinding, MediaManifest, MediaManifestEntry};
use pptx_compose::media_inputs::{resolve_media_path, ExtraBindingPolicy, MediaBinding, MediaInputs, MediaSource};
use pptx_compose::schemas::ErrorCode;

fn no_files(path: &str) -> Result<Vec<u8>, EditError> {
    Err(EditError::new(ErrorCode::InvalidInput, format!("Could not read media input `{path}`.")))
}

fn inputs_with_limits(media_ref: &str, source: MediaSource, limits: MediaLimits) -> MediaInputs {
    MediaInputs::with_limits(
        vec![(
            media_ref.to_owned(),
            MediaBinding { content_type: "image/png".to_owned(), declared_sha256: None, declared_byte_length: None, source },
        )],
        limits,
    )
}

fn png_bytes(byte_length: u64) -> Vec<u8> {
    let len = usize::try_from(byte_length).expect("test size fits usize");
    let mut bytes = vec![0_u8; len];
    bytes[..8].copy_from_slice(b"\x89PNG\r\n\x1a\n");
    bytes
}

#[test]
fn rejects_default_limit_allows_raised_limit_and_checks_decoded_inline_length() {
    let oversized_len = DEFAULT_MAX_MEDIA_BYTES + 1;
    let oversized_png = png_bytes(oversized_len);
    let default_inputs = inputs_with_limits("oversized", MediaSource::Bytes(oversized_png.clone()), MediaLimits::default());

    let err = default_inputs.resolve("oversized", no_files).expect_err("default media limit rejects limit plus one byte");
    assert_eq!(err.code(), ErrorCode::ResourceLimitExceeded);
    assert!(err.message().contains("oversized"));
    assert!(err.message().contains("67108865"));
    assert!(err.message().contains("67108864"));

    let raised_inputs = inputs_with_limits(
        "oversized",
        MediaSource::Bytes(oversized_png.clone()),
        MediaLimits { max_media_bytes: oversized_len },
    );
    let resolved = raised_inputs.resolve("oversized", no_files).expect("raised media limit allows the same bytes");
    assert_eq!(resolved.bytes.len(), oversized_png.len());

    let inline_inputs = inputs_with_limits(
        "inline",
        MediaSource::InlineBase64("iVBORw0KGgppbmxpbmU=".to_owned()),
        MediaLimits { max_media_bytes: 8 },
    );
    let inline_err = inline_inputs.resolve("inline", no_files).expect_err("inline media limit checks decoded bytes");
    assert_eq!(inline_err.code(), ErrorCode::ResourceLimitExceeded);
    assert!(inline_err.message().contains("inline"));
    assert!(inline_err.message().contains("14"));
    assert!(inline_err.message().contains("8"));
}

fn path_entry(media_ref: &str, path: &str, content_type: &str) -> MediaManifestEntry {
    MediaManifestEntry {
        media_ref: media_ref.to_owned(),
        binding: ManifestMediaBinding {
            path: Some(path.to_owned()),
            content_type: Some(content_type.to_owned()),
            inline: None,
            sha256: None,
            byte_length: None,
        },
    }
}

#[test]
fn rejects_paths_that_escape_media_root() {
    let manifest = MediaManifest {
        schema: "pptx-compose.media_manifest.v1".to_owned(),
        version: 1,
        media: vec![path_entry("escape", "../secret.png", "image/png")],
    };

    let err = MediaInputs::from_manifest(&manifest, "media").expect_err("escaping path fails");
    assert_eq!(err.code(), ErrorCode::UnsafePath);
}

#[test]
fn resolves_inline_base64() {
    let manifest = MediaManifest {
        schema: "pptx-compose.media_manifest.v1".to_owned(),
        version: 1,
        media: vec![MediaManifestEntry {
            media_ref: "inline".to_owned(),
            binding: ManifestMediaBinding {
                path: None,
                content_type: None,
                inline: Some(InlineMedia {
                    encoding: "base64".to_owned(),
                    content_type: "image/png".to_owned(),
                    data: "iVBORw0KGgppbmxpbmUgYnl0ZXM=".to_owned(),
                }),
                sha256: None,
                byte_length: Some(12),
            },
        }],
    };

    let inputs = MediaInputs::from_manifest(&manifest, "media").expect("inline manifest binds");
    let resolved = inputs.resolve("inline", no_files).expect("inline media resolves");
    assert_eq!(resolved.content_type, "image/png");
    assert_eq!(resolved.bytes, b"\x89PNG\r\n\x1a\ninline bytes");
}

#[test]
fn binds_and_reports_missing() {
    let manifest = MediaManifest {
        schema: "pptx-compose.media_manifest.v1".to_owned(),
        version: 1,
        media: vec![
            path_entry("input-image-1", "image-one.png", "image/png"),
            path_entry("input-image-2", "image-two.jpg", "image/jpeg"),
        ],
    };
    let inputs = MediaInputs::from_manifest(&manifest, "/tmp/media").expect("manifest binds");
    let read = |path: &str| -> Result<Vec<u8>, EditError> {
        match path {
            "/tmp/media/image-one.png" => Ok(b"\x89PNG\r\n\x1a\npng bytes".to_vec()),
            "/tmp/media/image-two.jpg" => Ok(b"\xff\xd8\xffjpg bytes".to_vec()),
            other => no_files(other),
        }
    };

    let first = inputs.resolve("input-image-1", read).expect("first media resolves");
    assert_eq!(first.content_type, "image/png");
    assert_eq!(first.bytes, b"\x89PNG\r\n\x1a\npng bytes");

    let second = inputs.resolve("input-image-2", read).expect("second media resolves");
    assert_eq!(second.content_type, "image/jpeg");
    assert_eq!(second.bytes, b"\xff\xd8\xffjpg bytes");

    let missing = inputs.resolve("unknown-image", read).expect_err("unknown media_ref fails");
    assert_eq!(missing.code(), ErrorCode::MissingMediaRef);

    let duplicate_manifest = MediaManifest {
        schema: "pptx-compose.media_manifest.v1".to_owned(),
        version: 1,
        media: vec![path_entry("dup", "image-one.png", "image/png"), path_entry("dup", "image-two.jpg", "image/jpeg")],
    };
    let duplicate = MediaInputs::from_manifest(&duplicate_manifest, "/tmp/media").expect_err("duplicate media_ref fails");
    assert_eq!(duplicate.code(), ErrorCode::InvalidInput);
    assert_eq!(duplicate.message(), "Media manifest contains duplicate media_ref `dup`.");
}

#[test]
fn media_paths_stay_under_the_root() {
    assert_eq!(resolve_media_path("media", "a/./b//c.png").expect("safe path"), "media/a/b/c.png");
    assert_eq!(resolve_media_path("media/", "c.png").expect("safe path"), "media/c.png");
    assert_eq!(resolve_media_path("", "c.png").expect("safe path"), "c.png");
    assert_eq!(
        resolve_media_path("media", "/etc/passwd").expect_err("absolute").message(),
        "Manifest media paths must be relative to media_root."
    );
    assert_eq!(
        resolve_media_path("media", "a/../../b").expect_err("climbs").message(),
        "Manifest media paths must not escape media_root."
    );
    assert_eq!(resolve_media_path("media", "a/..").expect_err("climbs at end").code(), ErrorCode::UnsafePath);
}

#[test]
fn inline_base64_skips_whitespace_and_checks_padding() {
    assert_eq!(decode_inline_base64(" Zm9v\nYmFy\t").expect("whitespace is skipped"), b"foobar");
    assert_eq!(decode_inline_base64("Zg==").expect("padded"), b"f");
    assert_eq!(decode_inline_base64("").expect("empty"), b"");
    assert_eq!(decode_inline_base64("Zg=x").expect_err("data after padding").code(), ErrorCode::InvalidInput);
    assert!(decode_inline_base64("Zg==Zm9v").is_err());
    assert!(decode_inline_base64("====").is_err());
    assert!(decode_inline_base64("Zm9").is_err());
    assert!(decode_inline_base64("Zm9v!").is_err());
}

#[test]
fn check_size_reports_limit() {
    let limits = MediaLimits { max_media_bytes: 10 };
    assert!(check_size("a", 10, &limits).is_ok());
    let err = check_size("a", 11, &limits).expect_err("over the limit");
    assert_eq!(err.message(), "Media input `a` is 11 bytes, exceeding max_media_bytes 10.");
}

#[test]
fn references_must_be_bound_and_extras_are_reported() {
    let binding = |ct: &str| MediaBinding {
        content_type: ct.to_owned(),
        declared_sha256: None,
        declared_byte_length: None,
        source: MediaSource::Bytes(Vec::new()),
    };
    let inputs = MediaInputs::new(vec![("a".to_owned(), binding("image/png")), ("b".to_owned(), binding("image/gif"))]);

    let report = inputs.check_references(&["a"], ExtraBindingPolicy::Warn).expect("extra binding warns");
    assert_eq!(report.warnings.len(), 1);
    assert_eq!(report.warnings[0].media_ref, "b");
    assert_eq!(report.warnings[0].message, "Media input `b` is bound but not referenced.");

    let strict = inputs.check_references(&["a"], ExtraBindingPolicy::Strict).expect_err("extra binding is strict");
    assert_eq!(strict.code(), ErrorCode::InvalidInput);

    let missing = inputs.check_references(&["a", "c"], ExtraBindingPolicy::Warn).expect_err("unbound reference");
    assert_eq!(missing.code(), ErrorCode::MissingMediaRef);
    assert_eq!(missing.message(), "No media input is bound for media_ref `c`.");

    let all = inputs.check_references(&["b", "a", "a"], ExtraBindingPolicy::Strict).expect("all used");
    assert!(all.warnings.is_empty());
}

fn png_inputs() -> MediaInputs {
    MediaInputs::new(vec![(
        "image-1".to_owned(),
        MediaBinding { content_type: "image/png".to_owned(), declared_sha256: None, declared_byte_length: None, source: MediaSource::Bytes(png_bytes(16)) },
    )])
}

fn add_image_request(bounds: pptx_compose::patch::Bounds, content_type: &str) -> pptx_compose::operations::add_image::AddImage {
    let op = pptx_compose::patch::AddImageOperation {
        operation_id: "op-image".to_owned(),
        slide_id: "slide-1".to_owned(),
        selector: None,
        media_ref: "image-1".to_owned(),
        content_type: content_type.to_owned(),
        bounds,
        name: None,
        alt_text: None,
        insert: None,
    };
    pptx_compose::operations::add_image::AddImage::from(&op)
}

#[test]
fn add_image_validates_bound_bytes() {
    let ok = add_image_request(Bounds { x: 1, y: 2, cx: 3, cy: 4 }, "image/png");
    assert!(ok.validate(&png_inputs(), no_files).is_ok());

    let far = add_image_request(Bounds { x: 27_273_042_316_900, y: 0, cx: 1, cy: 1 }, "image/png");
    let e = far.validate(&png_inputs(), no_files).expect_err("far edge past the largest coordinate");
    assert_eq!(e.code(), ErrorCode::InvalidBounds);
    assert_eq!(e.message(), "Bounds x+cx and y+cy must be <= 27273042316900 EMUs.");
    assert_eq!(e.location.operation_id.as_deref(), Some("op-image"));

    let jpeg = add_image_request(Bounds { x: 1, y: 2, cx: 3, cy: 4 }, "image/jpeg");
    assert_eq!(jpeg.validate(&png_inputs(), no_files).expect_err("type differs").code(), ErrorCode::UnsupportedMediaType);

    let missing = MediaInputs::new(Vec::new());
    assert_eq!(ok.validate(&missing, no_files).expect_err("unbound").code(), ErrorCode::MissingMediaRef);
}

#[test]
fn manifest_errors_come_from_the_first_offending_entry() {
    let manifest = MediaManifest {
        schema: "pptx-compose.media_manifest.v1".to_owned(),
        version: 1,
        media: vec![
            path_entry("image", "one.png", "image/png"),
            path_entry("image", "two.png", "image/png"),
            path_entry("escape", "../secret.png", "image/png"),
        ],
    };
    let err = MediaInputs::from_manifest(&manifest, "media").expect_err("duplicate comes first");
    assert_eq!(err.code(), ErrorCode::InvalidInput);
    assert_eq!(err.message(), "Media manifest contains duplicate media_ref `image`.");

    let manifest = MediaManifest {
        media: vec![
            path_entry("escape", "/abs.png", "image/png"),
            path_entry("escape", "two.png", "image/png"),
        ],
        ..manifest
    };
    let err = MediaInputs::from_manifest(&manifest, "media").expect_err("absolute path comes first");
    assert_eq!(err.code(), ErrorCode::UnsafePath);
}
