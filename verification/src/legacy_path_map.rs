//! The path-keyed legacy export of a package: each part as an `$xml` text
//! envelope or a `$binary` base64 envelope. The export is for durable file
//! dumps only; it is not the agent edit surface.
use vstd::prelude::*;
use vstd::string::StringSliceAdditionalSpecFns;
use crate::binary_encoding::{decode_base64, encode_base64, spec_decode_base64, spec_encode_base64, ascii_bytes, InlineBinaryPayload};
use crate::schemas::JsonError;
use crate::text::{owned, push_str};

verus! {

/// The envelope of one part.
#[derive(Debug, Clone, PartialEq, Eq)]
pub enum LegacyEnvelope {
    Xml(String),
    Binary(InlineBinaryPayload),
}

/// Whether `s` ends with `suffix`.
pub open spec fn ends_with(s: Seq<char>, suffix: Seq<char>) -> bool {
    s.len() >= suffix.len() && s.skip(s.len() - suffix.len()) == suffix
}

/// Whether a content type names XML.
pub open spec fn xml_content_type(ct: Seq<char>) -> bool {
    ct == "application/xml"@ || ct == "text/xml"@ || ends_with(ct, "+xml"@) || ends_with(ct, ".relationships+xml"@)
}

fn str_ends_with(s: &str, suffix: &str) -> (r: bool)
    ensures
        r == ends_with(s@, suffix@),
{
    let a = crate::text::chars_of(s);
    let b = crate::text::chars_of(suffix);
    if a.len() < b.len() {
        return false;
    }
    let alen = a.len();
    let off = alen - b.len();
    let n = b.len();
    let mut i: usize = 0;
    while i < n
        invariant
            i <= n,
            n == b@.len(),
            off + n == a@.len(),
            off + n == alen,
            a@ == s@,
            b@ == suffix@,
            forall|k: int| 0 <= k < i ==> a@[off + k] == b@[k],
        decreases n - i,
    {
        if a[off + i] != b[i] {
            assert(s@.skip(off as int)[i as int] != suffix@[i as int]);
            return false;
        }
        i = i + 1;
    }
    assert(s@.skip(off as int) =~= suffix@);
    true
}

/// Whether a content type names XML.
pub fn is_xml_content_type(content_type: &str) -> (r: bool)
    ensures
        r == xml_content_type(content_type@),
{
    crate::text::str_eq(content_type, "application/xml") || crate::text::str_eq(content_type, "text/xml")
        || str_ends_with(content_type, "+xml") || str_ends_with(content_type, ".relationships+xml")
}

/// Whether a part is exported as XML text: its content type is XML, or its
/// name ends in `.xml` or `.rels`.
pub open spec fn xml_part(content_type: Option<Seq<char>>, zip_entry_name: Seq<char>) -> bool {
    (content_type matches Some(ct) && xml_content_type(ct)) || ends_with(zip_entry_name, ".xml"@)
        || ends_with(zip_entry_name, ".rels"@)
}

/// Whether a part is exported as XML text.
pub fn is_xml_part(content_type: Option<&str>, zip_entry_name: &str) -> (r: bool)
    ensures
        r == xml_part(crate::text::rview(content_type), zip_entry_name@),
{
    let typed = match content_type {
        Some(ct) => is_xml_content_type(ct),
        None => false,
    };
    typed || str_ends_with(zip_entry_name, ".xml") || str_ends_with(zip_entry_name, ".rels")
}

/// Reads bytes as UTF-8 text.
///
/// Trusted: calls `std::str::from_utf8`, which the standard library documents
/// as returning the string slice of the same bytes when they are valid UTF-8
/// and an error otherwise.
#[verifier::external_body]
fn utf8_text(bytes: &[u8]) -> (r: Option<&str>)
    ensures
        r is Some <==> vstd::utf8::valid_utf8(bytes@),
        r matches Some(s) ==> s.spec_bytes() == bytes@,
{
    std::str::from_utf8(bytes).ok()
}

fn malformed(message: String) -> (e: JsonError)
    ensures
        e matches JsonError::MalformedLegacyEnvelope(m) && m@ == message@,
{
    JsonError::MalformedLegacyEnvelope(message)
}

/// The envelope of a part: XML parts as their UTF-8 text, other parts as
/// base64 with their content type, which they must have.
pub fn part_envelope(content_type: Option<&str>, zip_entry_name: &str, bytes: &[u8]) -> (r: Result<LegacyEnvelope, JsonError>)
    ensures
        xml_part(crate::text::rview(content_type), zip_entry_name@) ==> (if vstd::utf8::valid_utf8(bytes@) {
            r matches Ok(LegacyEnvelope::Xml(text)) && text@ == vstd::utf8::decode_utf8(bytes@)
        } else {
            r matches Err(e) && e is MalformedLegacyEnvelope
        }),
        !xml_part(crate::text::rview(content_type), zip_entry_name@) ==> match content_type {
            None => r matches Err(e) && e is MalformedLegacyEnvelope,
            Some(ct) => r matches Ok(LegacyEnvelope::Binary(p)) && p.encoding@ == "base64"@ && p.content_type@ == ct@
                && p.data@ == spec_encode_base64(bytes@),
        },
{
    if is_xml_part(content_type, zip_entry_name) {
        return match utf8_text(bytes) {
            Some(text) => {
                proof {
                    vstd::utf8::encode_utf8_decode_utf8(text@);
                }
                Ok(LegacyEnvelope::Xml(owned(text)))
            },
            None => Err(malformed(owned("XML legacy envelope requires UTF-8 bytes."))),
        };
    }
    match content_type {
        None => {
            let mut m = owned("Binary legacy envelope requires a content type for ");
            push_str(&mut m, zip_entry_name);
            push_str(&mut m, ".");
            Err(malformed(m))
        },
        Some(ct) => Ok(LegacyEnvelope::Binary(InlineBinaryPayload {
            encoding: owned("base64"),
            content_type: owned(ct),
            data: encode_base64(bytes),
        })),
    }
}

/// The bytes an envelope holds, with the content type of a binary one.
pub open spec fn envelope_contents(e: LegacyEnvelope) -> Option<(Seq<u8>, Option<Seq<char>>)> {
    match e {
        LegacyEnvelope::Xml(text) => Some((vstd::utf8::encode_utf8(text@), None)),
        LegacyEnvelope::Binary(p) => if p.encoding@ != "base64"@ {
            None
        } else {
            match spec_decode_base64(ascii_bytes_of(p.data@)) {
                Some(b) => Some((b, Some(p.content_type@))),
                None => None,
            }
        },
    }
}

/// The UTF-8 bytes of a text.
pub open spec fn ascii_bytes_of(s: Seq<char>) -> Seq<u8> {
    vstd::utf8::encode_utf8(s)
}

/// The bytes and content type an envelope holds; a binary envelope must be
/// base64 and well formed.
pub fn decode_envelope(envelope: &LegacyEnvelope) -> (r: Result<(Vec<u8>, Option<String>), JsonError>)
    ensures
        match envelope_contents(*envelope) {
            Some((bytes, ct)) => r matches Ok((b, c)) && b@ == bytes && crate::text::sview(c) == ct,
            None => r matches Err(e) && e is MalformedLegacyEnvelope,
        },
{
    match envelope {
        LegacyEnvelope::Xml(text) => {
            let b = crate::text::bytes_of(text.as_str());
            Ok((b, None))
        },
        LegacyEnvelope::Binary(payload) => {
            if !crate::text::str_eq(payload.encoding.as_str(), "base64") {
                let mut m = owned("Unsupported $binary encoding ");
                push_str(&mut m, payload.encoding.as_str());
                push_str(&mut m, ".");
                return Err(malformed(m));
            }
            match decode_base64(payload.data.as_str()) {
                Ok(b) => Ok((b, Some(owned(payload.content_type.as_str())))),
                Err(e) => Err(e),
            }
        },
    }
}

/// What an export wrote, an import reads back: the text of an XML envelope
/// made from valid UTF-8 bytes gives those bytes, and a base64 envelope made
/// from bytes gives the bytes and its content type.
pub proof fn lemma_envelope_roundtrip(e: LegacyEnvelope, bytes: Seq<u8>)
    requires
        match e {
            LegacyEnvelope::Xml(text) => vstd::utf8::valid_utf8(bytes) && text@ == vstd::utf8::decode_utf8(bytes),
            LegacyEnvelope::Binary(p) => p.encoding@ == "base64"@ && p.data@ == spec_encode_base64(bytes),
        },
    ensures
        envelope_contents(e) == Some((bytes, match e {
            LegacyEnvelope::Xml(_) => None,
            LegacyEnvelope::Binary(p) => Some(p.content_type@),
        })),
{
    match e {
        LegacyEnvelope::Xml(text) => {
            vstd::utf8::decode_utf8_encode_utf8(bytes);
        },
        LegacyEnvelope::Binary(p) => {
            crate::binary_encoding::lemma_encode_shape(bytes);
            let chars = spec_encode_base64(bytes);
            vstd::utf8::is_ascii_chars_encode_utf8(chars);
            assert(vstd::utf8::encode_utf8(chars) =~= ascii_bytes(chars));
            crate::binary_encoding::lemma_base64_roundtrip(bytes);
        },
    }
}

/// Whether a key of the legacy map may name a part: keys starting with `$`
/// are reserved.
pub fn check_legacy_key(path: &str) -> (r: Result<(), JsonError>)
    ensures
        r is Ok <==> !(path@.len() > 0 && path@[0] == '$'),
        r matches Err(e) ==> e is MalformedLegacyEnvelope,
{
    let chars = crate::text::chars_of(path);
    if chars.len() > 0 && chars[0] == '$' {
        let mut m = owned("Legacy path map contains reserved non-part key ");
        push_str(&mut m, path);
        push_str(&mut m, ".");
        return Err(malformed(m));
    }
    Ok(())
}

} // verus!
