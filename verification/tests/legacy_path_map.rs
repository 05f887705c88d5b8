use pptx_compose::binary_encoding::InlineBinaryPayload;
use pptx_compose::legacy_path_map::{check_legacy_key, decode_envelope, is_xml_part, part_envelope, LegacyEnvelope};
use pptx_compose::schemas::JsonError;

#[test]
fn roundtrip_envelopes() {
    let slide_path = "ppt/slides/slide1.xml";
    let image_path = "ppt/media/image1.png";
    let slide_bytes = br#"<?xml version="1.0"?><p:sld><p:cSld/></p:sld>"#.to_vec();
    let image_bytes = vec![0x89, b'P', b'N', b'G', 0x0d, 0x0a, 0x1a, 0x0a, 1, 2, 3];

    let slide = part_envelope(
        Some("application/vnd.openxmlformats-officedocument.presentationml.slide+xml"),
        slide_path,
        &slide_bytes,
    )
    .expect("slide envelope");
    assert_eq!(slide, LegacyEnvelope::Xml(String::from_utf8(slide_bytes.clone()).expect("xml utf8")));

    let image = part_envelope(Some("image/png"), image_path, &image_bytes).expect("image envelope");
    assert_eq!(
        image,
        LegacyEnvelope::Binary(InlineBinaryPayload {
            encoding: "base64".to_owned(),
            content_type: "image/png".to_owned(),
            data: "iVBORw0KGgoBAgM=".to_owned(),
        })
    );

    assert_eq!(decode_envelope(&slide).expect("slide decodes"), (slide_bytes, None));
    assert_eq!(decode_envelope(&image).expect("image decodes"), (image_bytes, Some("image/png".to_owned())));
}

#[test]
fn rejects_malformed_envelopes() {
    let malformed = LegacyEnvelope::Binary(InlineBinaryPayload {
        encoding: "hex".to_owned(),
        content_type: "image/png".to_owned(),
        data: "00".to_owned(),
    });
    assert!(matches!(decode_envelope(&malformed), Err(JsonError::MalformedLegacyEnvelope(_))));

    let truncated = LegacyEnvelope::Binary(InlineBinaryPayload {
        encoding: "base64".to_owned(),
        content_type: "image/png".to_owned(),
        data: "iVBORw0KGgoBAg".to_owned(),
    });
    assert!(decode_envelope(&truncated).is_err());
}

#[test]
fn xml_parts_and_reserved_keys() {
    assert!(is_xml_part(None, "ppt/_rels/presentation.xml.rels"));
    assert!(is_xml_part(Some("application/xml"), "docProps/custom"));
    assert!(!is_xml_part(Some("image/png"), "ppt/media/image1.png"));
    assert!(matches!(
        part_envelope(None, "ppt/media/image1.png", &[1, 2, 3]),
        Err(JsonError::MalformedLegacyEnvelope(_))
    ));
    assert!(matches!(part_envelope(Some("text/xml"), "a.xml", &[0xff]), Err(JsonError::MalformedLegacyEnvelope(_))));
    assert!(check_legacy_key("ppt/slides/slide1.xml").is_ok());
    assert!(check_legacy_key("$schema").is_err());
}
