//! The `add_image` operation: the checks made before a picture is added.
use vstd::prelude::*;
use crate::error::{EditError, ErrorLocation};
use crate::media_inputs::{binding_index, MediaBinding, MediaInputs, MediaSource, ResolvedMedia};
use crate::media_inputs::inline::spec_decode_inline;
use crate::media_inputs::limits::MediaLimits;
use crate::media_inputs::sniff::sniffed;
use crate::operations::bounds::{bounds_fault, bounds_message, validate_bounds};
use crate::patch::{AddImageOperation, Bounds, ImageDedupe, ImageFit};
use crate::schemas::ErrorCode;
use crate::text::{owned, opt_clone, push_str, sview};

verus! {

/// An `add_image` request as the operation runs it.
#[derive(Clone, Debug, Eq, PartialEq)]
pub struct AddImage {
    pub operation_id: String,
    pub slide_id: String,
    pub media_ref: String,
    pub content_type: String,
    pub bounds: Bounds,
    pub name: Option<String>,
    pub alt_text: Option<String>,
    pub fit: ImageFit,
    pub dedupe: ImageDedupe,
}

/// The file extension of a supported image content type.
pub open spec fn image_extension(content_type: Seq<char>) -> Option<Seq<char>> {
    if content_type == "image/png"@ {
        Some("png"@)
    } else if content_type == "image/jpeg"@ {
        Some("jpg"@)
    } else if content_type == "image/gif"@ {
        Some("gif"@)
    } else {
        None
    }
}

/// The file extension of a supported image content type.
pub fn extension_for_content_type(content_type: &str) -> (r: Option<&'static str>)
    ensures
        crate::text::rview(r) == image_extension(content_type@),
{
    if crate::text::str_eq(content_type, "image/png") {
        Some("png")
    } else if crate::text::str_eq(content_type, "image/jpeg") {
        Some("jpg")
    } else if crate::text::str_eq(content_type, "image/gif") {
        Some("gif")
    } else {
        None
    }
}

/// Whether a location names an operation of a slide, optionally an element.
pub open spec fn operation_location(l: ErrorLocation, operation_id: Seq<char>, operation: Seq<char>, slide_id: Option<Seq<char>>, element_id: Option<Seq<char>>) -> bool {
    &&& sview(l.operation_id) == Some(operation_id)
    &&& sview(l.operation) == Some(operation)
    &&& sview(l.slide_id) == slide_id
    &&& sview(l.element_id) == element_id
}

/// The message when the declared content type differs from the bound media;
/// `prefix` names the operation and opens the quote.
pub open spec fn content_type_mismatch(prefix: Seq<char>, declared: Seq<char>, media_ref: Seq<char>, bound: Seq<char>) -> Seq<char> {
    prefix + declared + "` does not match bound media_ref `"@ + media_ref + "` content type `"@ + bound + "`."@
}

/// The message of a content type that cannot be added.
pub open spec fn unsupported_type_message(content_type: Seq<char>) -> Seq<char> {
    "add_image content_type `"@ + content_type + "` is not supported in V1."@
}

/// Why an `add_image` request fails before its media is read, if it does:
/// bounds `validate_bounds` refuses, then a fit other than stretch, then a
/// dedupe other than never.
pub open spec fn request_error(a: AddImage) -> Option<(ErrorCode, Seq<char>)> {
    if bounds_fault(a.bounds) != 0 {
        Some((ErrorCode::InvalidBounds, bounds_message(bounds_fault(a.bounds))))
    } else if a.fit != ImageFit::Stretch {
        Some((ErrorCode::UnsupportedEdit, "add_image supports only fit: stretch in V1."@))
    } else if a.dedupe != ImageDedupe::Never {
        Some((ErrorCode::UnsupportedEdit, "add_image supports only dedupe: never in V1."@))
    } else {
        None
    }
}

/// The bytes a binding holds when they need no read from disk: its own bytes,
/// or its inline base64 decoded (`None` inside when that text is not valid).
pub open spec fn held_bytes(b: MediaBinding) -> Option<Option<Seq<u8>>> {
    match b.source {
        MediaSource::Bytes(v) => Some(Some(v@)),
        MediaSource::InlineBase64(text) => Some(spec_decode_inline(vstd::utf8::encode_utf8(text@))),
        MediaSource::Path(_) => None,
    }
}

/// Whether bytes resolved for a binding pass its checks: within the size
/// limit and sniffed as the bound content type.
pub open spec fn bytes_accepted(b: MediaBinding, bytes: Seq<u8>, limits: MediaLimits) -> bool {
    bytes.len() <= limits.max_media_bytes && sniffed(bytes) == Some(b.content_type@)
}

impl AddImage {
    /// The request an `add_image` operation makes; the operation names no
    /// fit or dedupe, so the defaults apply.
    pub fn from(operation: &AddImageOperation) -> (r: AddImage)
        ensures
            r.operation_id@ == operation.operation_id@,
            r.slide_id@ == operation.slide_id@,
            r.media_ref@ == operation.media_ref@,
            r.content_type@ == operation.content_type@,
            r.bounds == operation.bounds,
            sview(r.name) == sview(operation.name),
            sview(r.alt_text) == sview(operation.alt_text),
            r.fit == ImageFit::Stretch,
            r.dedupe == ImageDedupe::Never,
    {
        AddImage {
            operation_id: owned(operation.operation_id.as_str()),
            slide_id: owned(operation.slide_id.as_str()),
            media_ref: owned(operation.media_ref.as_str()),
            content_type: owned(operation.content_type.as_str()),
            bounds: Bounds { x: operation.bounds.x, y: operation.bounds.y, cx: operation.bounds.cx, cy: operation.bounds.cy },
            name: opt_clone(&operation.name),
            alt_text: opt_clone(&operation.alt_text),
            fit: ImageFit::Stretch,
            dedupe: ImageDedupe::Never,
        }
    }

    /// Where an error of this operation arose.
    pub fn location(&self, element_id: Option<String>) -> (l: ErrorLocation)
        ensures
            operation_location(l, self.operation_id@, "add_image"@, Some(self.slide_id@), sview(element_id)),
    {
        let mut l = ErrorLocation::blank();
        l.slide_id = Some(owned(self.slide_id.as_str()));
        l.element_id = element_id;
        l.operation_id = Some(owned(self.operation_id.as_str()));
        l.operation = Some(owned("add_image"));
        l
    }

    /// The checks that need no media: bounds that `validate_bounds` accepts,
    /// and only the stretch fit and no dedupe.
    pub fn validate_request(&self) -> (r: Result<(), EditError>)
        ensures
            match request_error(*self) {
                None => r is Ok,
                Some((code, message)) => r matches Err(e) && e.code == code && e.message@ == message
                    && operation_location(e.location, self.operation_id@, "add_image"@, Some(self.slide_id@), None),
            },
    {
        if let Err(e) = validate_bounds(&self.bounds) {
            return Err(e.with_location(self.location(None)));
        }
        if !matches!(self.fit, ImageFit::Stretch) {
            return Err(EditError::new(ErrorCode::UnsupportedEdit, owned("add_image supports only fit: stretch in V1."))
                .with_location(self.location(None)));
        }
        if !matches!(self.dedupe, ImageDedupe::Never) {
            return Err(EditError::new(ErrorCode::UnsupportedEdit, owned("add_image supports only dedupe: never in V1."))
                .with_location(self.location(None)));
        }
        Ok(())
    }

    /// The checks on the bound media: its content type must be the declared
    /// one, and a type that can be added.
    pub fn validate_media(&self, media: &ResolvedMedia) -> (r: Result<(), EditError>)
        ensures
            r is Ok <==> (media.content_type@ == self.content_type@ && image_extension(self.content_type@) is Some),
            r matches Err(e) ==> e.code == ErrorCode::UnsupportedMediaType
                && operation_location(e.location, self.operation_id@, "add_image"@, Some(self.slide_id@), None),
            r matches Err(e) ==> e.message@ == (if media.content_type@ != self.content_type@ {
                content_type_mismatch("add_image content_type `"@, self.content_type@, self.media_ref@, media.content_type@)
            } else {
                unsupported_type_message(self.content_type@)
            }),
    {
        if !crate::text::str_eq(media.content_type.as_str(), self.content_type.as_str()) {
            let mut m = owned("add_image content_type `");
            push_str(&mut m, self.content_type.as_str());
            push_str(&mut m, "` does not match bound media_ref `");
            push_str(&mut m, self.media_ref.as_str());
            push_str(&mut m, "` content type `");
            push_str(&mut m, media.content_type.as_str());
            push_str(&mut m, "`.");
            return Err(EditError::new(ErrorCode::UnsupportedMediaType, m).with_location(self.location(None)));
        }
        match extension_for_content_type(self.content_type.as_str()) {
            Some(_) => Ok(()),
            None => {
                let mut m = owned("add_image content_type `");
                push_str(&mut m, self.content_type.as_str());
                push_str(&mut m, "` is not supported in V1.");
                Err(EditError::new(ErrorCode::UnsupportedMediaType, m).with_location(self.location(None)))
            },
        }
    }

    /// All checks before the picture is added: the request, then the bound
    /// media (read by `read_path` when it is a file), then its content type.
    pub fn validate<F: Fn(&str) -> Result<Vec<u8>, EditError>>(&self, media_inputs: &MediaInputs, read_path: F) -> (r: Result<(), EditError>)
        requires
            crate::media_inputs::refs_distinct(media_inputs.bindings@),
            forall|p: &str| #[trigger] read_path.requires((p,)),
        ensures
            r matches Err(e) ==> operation_location(e.location, self.operation_id@, "add_image"@, Some(self.slide_id@), None),
            request_error(*self) matches Some((code, message)) ==> (r matches Err(e) && e.code == code && e.message@ == message),
            r is Ok ==> request_error(*self) is None && image_extension(self.content_type@) is Some,
            request_error(*self) is None ==> match binding_index(media_inputs.bindings@, self.media_ref@) {
                None => r matches Err(e) && e.code == ErrorCode::MissingMediaRef,
                Some(i) => {
                    let b = media_inputs.bindings@[i].1;
                    match held_bytes(b) {
                        Some(Some(bytes)) => (r is Ok <==> (bytes_accepted(b, bytes, media_inputs.limits)
                            && b.content_type@ == self.content_type@ && image_extension(self.content_type@) is Some)),
                        Some(None) => r matches Err(e) && e.code == ErrorCode::InvalidInput,
                        None => r is Ok ==> b.content_type@ == self.content_type@,
                    }
                },
            },
    {
        if let Err(e) = self.validate_request() {
            return Err(e);
        }
        let media = match media_inputs.resolve(self.media_ref.as_str(), read_path) {
            Ok(m) => m,
            Err(e) => return Err(e.with_location(self.location(None))),
        };
        self.validate_media(&media)
    }
}


/// Every image type that sniffing recognises in media bytes can be added:
/// it has a file extension.
pub proof fn lemma_sniffed_types_have_extensions(bytes: Seq<u8>)
    ensures
        sniffed(bytes) matches Some(t) ==> image_extension(t) is Some,
{
    reveal_strlit("image/png");
    reveal_strlit("image/jpeg");
    reveal_strlit("image/gif");
}

/// A content type's file extension names its subtype (`jpg` standing for
/// `jpeg`): the type is `image/` followed by the extension, or `image/jpeg`
/// for `jpg`.
pub proof fn lemma_extension_names_subtype(content_type: Seq<char>)
    ensures
        image_extension(content_type) matches Some(e) ==> (content_type == "image/"@ + e
            || (e == "jpg"@ && content_type == "image/jpeg"@)),
{
    reveal_strlit("image/png");
    reveal_strlit("image/jpeg");
    reveal_strlit("image/gif");
    reveal_strlit("image/");
    reveal_strlit("png");
    reveal_strlit("jpg");
    reveal_strlit("gif");
    assert("image/"@ + "png"@ =~= "image/png"@);
    assert("image/"@ + "gif"@ =~= "image/gif"@);
}
} // verus!
