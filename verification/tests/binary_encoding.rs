use pptx_compose::binary_encoding::{decode_base64, encode_base64, inline_payload, InlineBinaryPolicy};

#[test]
fn by_reference_is_default() {
    assert_eq!(InlineBinaryPolicy::default(), InlineBinaryPolicy::ByReference);
    assert_eq!(inline_payload(InlineBinaryPolicy::ByReference, "image/png", b"abc"), None);
}

#[test]
fn inline_base64_encodes_payload() {
    let payload = inline_payload(InlineBinaryPolicy::InlineBase64, "image/png", b"abc123")
        .expect("inline policy returns a payload");

    assert_eq!(payload.encoding, "base64");
    assert_eq!(payload.content_type, "image/png");
    assert_eq!(payload.data, "YWJjMTIz");
}

#[test]
fn base64_decode_rejects_malformed_input() {
    assert_eq!(decode_base64("YWJjMTIz").expect("valid base64"), b"abc123");
    assert!(decode_base64("abc").is_err());
    assert!(decode_base64("ab=c").is_err());
    assert!(decode_base64("!!!!").is_err());
}

#[test]
fn base64_encodes_padding_cases() {
    assert_eq!(encode_base64(b""), "");
    assert_eq!(encode_base64(b"f"), "Zg==");
    assert_eq!(encode_base64(b"fo"), "Zm8=");
    assert_eq!(encode_base64(b"foo"), "Zm9v");
    assert_eq!(encode_base64(b"foobar"), "Zm9vYmFy");
    assert_eq!(encode_base64(&[0xff, 0xfe, 0x00]), "//4A");
}

#[test]
fn base64_roundtrips_bytes() {
    let bytes: Vec<u8> = (0u8..=255).collect();
    let text = encode_base64(&bytes);
    assert_eq!(text.len(), 4 * ((bytes.len() + 2) / 3));
    assert_eq!(decode_base64(&text).expect("own encoding decodes"), bytes);
}

#[test]
fn base64_decode_rejects_bad_padding_and_length() {
    assert!(decode_base64("Zg=").is_err());
    assert!(decode_base64("Z===").is_err());
    assert!(decode_base64("Zg==Zg==").is_err());
    assert!(decode_base64("Zg").is_err());
    assert_eq!(decode_base64("Zg==").expect("padded quartet"), b"f");
    assert_eq!(decode_base64("").expect("empty"), b"");
}

#[test]
fn json_crate_compiles() {
    let payload = inline_payload(InlineBinaryPolicy::InlineBase64, "image/gif", b"");
    assert!(payload.is_some());
}
