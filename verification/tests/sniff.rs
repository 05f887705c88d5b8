use pptx_compose::media_inputs::sniff::{sniff_content_type, verify_declared};
use pptx_compose::schemas::ErrorCode;

#[test]
fn detects_supported_signatures() {
    assert_eq!(sniff_content_type(b"\x89PNG\r\n\x1a\npayload"), Some("image/png"));
    assert_eq!(sniff_content_type(b"\xff\xd8\xff\xe0payload"), Some("image/jpeg"));
    assert_eq!(sniff_content_type(b"GIF89a payload"), Some("image/gif"));
}

#[test]
fn rejects_mismatched_and_unknown_signatures() {
    let mismatch = verify_declared("image/png", b"\xff\xd8\xff\xe0payload")
        .expect_err("declared PNG over JPEG bytes fails");
    assert_eq!(mismatch.code(), ErrorCode::UnsupportedMediaType);
    assert!(
        mismatch.message().contains("media_content_type_mismatch"),
        "mismatch should carry the canonical finding code"
    );

    let unsupported = verify_declared("image/bmp", b"BMpayload").expect_err("BMP bytes are unsupported");
    assert_eq!(unsupported.code(), ErrorCode::UnsupportedMediaType);

    let unknown = verify_declared("unknown", b"not an image").expect_err("unknown bytes are unsupported");
    assert_eq!(unknown.code(), ErrorCode::UnsupportedMediaType);
}

#[test]
fn sniffing_needs_the_whole_signature() {
    assert_eq!(sniff_content_type(b"\x89PNG\r\n\x1a"), None);
    assert_eq!(sniff_content_type(b"\xff\xd8"), None);
    assert_eq!(sniff_content_type(b"GIF"), None);
    assert_eq!(sniff_content_type(b""), None);
    assert!(verify_declared("image/gif", b"GIF87a").is_ok());
    let m = verify_declared("image/png", b"GIF87a").expect_err("gif declared as png");
    assert_eq!(
        m.message(),
        "media_content_type_mismatch: declared content type `image/png` does not match sniffed content type `image/gif`."
    );
}
