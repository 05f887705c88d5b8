//! The size limit on media inputs.
use vstd::prelude::*;
use crate::error::EditError;
use crate::schemas::ErrorCode;
use crate::text::{decimal_text, owned, push_str};

verus! {

/// The default largest media input, in bytes (64 MiB).
pub const DEFAULT_MAX_MEDIA_BYTES: u64 = 67_108_864;

/// Limits on media inputs.
#[derive(Clone, Copy, Debug, Eq, PartialEq)]
pub struct MediaLimits {
    pub max_media_bytes: u64,
}

impl Default for MediaLimits {
    fn default() -> (r: Self)
        ensures
            r.max_media_bytes == DEFAULT_MAX_MEDIA_BYTES,
    {
        MediaLimits { max_media_bytes: DEFAULT_MAX_MEDIA_BYTES }
    }
}

/// The message for a media input over the limit.
pub open spec fn oversize_message(media_ref: Seq<char>, byte_length: nat, max: nat) -> Seq<char> {
    "Media input `"@ + media_ref + "` is "@ + decimal_text(byte_length) + " bytes, exceeding max_media_bytes "@
        + decimal_text(max) + "."@
}

/// Checks a media input's length against the limit.
pub fn check_size(media_ref: &str, byte_length: u64, limits: &MediaLimits) -> (r: Result<(), EditError>)
    ensures
        r is Ok <==> byte_length <= limits.max_media_bytes,
        r matches Err(e) ==> e.code == ErrorCode::ResourceLimitExceeded
            && e.message@ == oversize_message(media_ref@, byte_length as nat, limits.max_media_bytes as nat),
{
    if byte_length > limits.max_media_bytes {
        let mut m = owned("Media input `");
        push_str(&mut m, media_ref);
        push_str(&mut m, "` is ");
        crate::text::push_decimal(&mut m, byte_length);
        push_str(&mut m, " bytes, exceeding max_media_bytes ");
        crate::text::push_decimal(&mut m, limits.max_media_bytes);
        push_str(&mut m, ".");
        return Err(EditError::new(ErrorCode::ResourceLimitExceeded, m));
    }
    Ok(())
}

} // verus!
