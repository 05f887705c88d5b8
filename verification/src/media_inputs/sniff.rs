//! Content types recognised from the leading bytes of media inputs.
use vstd::prelude::*;
use crate::error::EditError;
use crate::schemas::ErrorCode;
use crate::text::{owned, push_str};

verus! {

/// The PNG signature.
pub open spec fn png_signature() -> Seq<u8> {
    seq![0x89u8, 0x50u8, 0x4eu8, 0x47u8, 0x0du8, 0x0au8, 0x1au8, 0x0au8]
}

/// The JPEG signature.
pub open spec fn jpeg_signature() -> Seq<u8> {
    seq![0xffu8, 0xd8u8, 0xffu8]
}

/// The GIF signature, `GIF8`.
pub open spec fn gif_signature() -> Seq<u8> {
    seq![0x47u8, 0x49u8, 0x46u8, 0x38u8]
}

/// Whether `b` begins with `p`.
pub open spec fn starts_with(b: Seq<u8>, p: Seq<u8>) -> bool {
    b.len() >= p.len() && b.take(p.len() as int) == p
}

/// The content type that the signature of the bytes shows, if any.
pub open spec fn sniffed(b: Seq<u8>) -> Option<Seq<char>> {
    if starts_with(b, png_signature()) {
        Some("image/png"@)
    } else if starts_with(b, jpeg_signature()) {
        Some("image/jpeg"@)
    } else if starts_with(b, gif_signature()) {
        Some("image/gif"@)
    } else {
        None
    }
}

fn has_prefix(bytes: &[u8], prefix: &[u8]) -> (r: bool)
    ensures
        r == starts_with(bytes@, prefix@),
{
    if bytes.len() < prefix.len() {
        return false;
    }
    let n = prefix.len();
    let mut i: usize = 0;
    while i < n
        invariant
            i <= n,
            n == prefix@.len(),
            n <= bytes@.len(),
            forall|k: int| 0 <= k < i ==> bytes@[k] == prefix@[k],
        decreases n - i,
    {
        if bytes[i] != prefix[i] {
            assert(bytes@.take(n as int)[i as int] != prefix@[i as int]);
            return false;
        }
        i = i + 1;
    }
    assert(bytes@.take(n as int) =~= prefix@);
    true
}

/// The content type that the signature of media bytes shows: PNG, JPEG or
/// GIF, else none.
pub fn sniff_content_type(bytes: &[u8]) -> (r: Option<&'static str>)
    ensures
        crate::text::rview(r) == sniffed(bytes@),
{
    let png: [u8; 8] = [0x89u8, 0x50u8, 0x4eu8, 0x47u8, 0x0du8, 0x0au8, 0x1au8, 0x0au8];
    let jpeg: [u8; 3] = [0xffu8, 0xd8u8, 0xffu8];
    let gif: [u8; 4] = [0x47u8, 0x49u8, 0x46u8, 0x38u8];
    assert(png@ =~= png_signature());
    assert(jpeg@ =~= jpeg_signature());
    assert(gif@ =~= gif_signature());
    if has_prefix(bytes, png.as_slice()) {
        Some("image/png")
    } else if has_prefix(bytes, jpeg.as_slice()) {
        Some("image/jpeg")
    } else if has_prefix(bytes, gif.as_slice()) {
        Some("image/gif")
    } else {
        None
    }
}

/// The message when declared and sniffed content types differ.
pub open spec fn mismatch_message(declared: Seq<char>, sniffed: Seq<char>) -> Seq<char> {
    "media_content_type_mismatch: declared content type `"@ + declared
        + "` does not match sniffed content type `"@ + sniffed + "`."@
}

/// Checks that media bytes are a supported raster image of the declared
/// content type.
pub fn verify_declared(declared: &str, bytes: &[u8]) -> (r: Result<(), EditError>)
    ensures
        r is Ok <==> sniffed(bytes@) == Some(declared@),
        r matches Err(e) ==> e.code == ErrorCode::UnsupportedMediaType,
        r matches Err(e) ==> (match sniffed(bytes@) {
            None => e.message@ == "Media input bytes are not a supported V1 raster image type."@,
            Some(s) => e.message@ == mismatch_message(declared@, s),
        }),
{
    let sniffed = match sniff_content_type(bytes) {
        Some(s) => s,
        None => {
            return Err(EditError::new(
                ErrorCode::UnsupportedMediaType,
                owned("Media input bytes are not a supported V1 raster image type."),
            ));
        },
    };
    if !crate::text::str_eq(sniffed, declared) {
        let mut m = owned("media_content_type_mismatch: declared content type `");
        push_str(&mut m, declared);
        push_str(&mut m, "` does not match sniffed content type `");
        push_str(&mut m, sniffed);
        push_str(&mut m, "`.");
        return Err(EditError::new(ErrorCode::UnsupportedMediaType, m));
    }
    Ok(())
}

} // verus!
