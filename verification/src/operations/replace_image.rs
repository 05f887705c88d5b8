//! The `replace_image` operation: the checks made before a picture's image is
//! replaced, and the part-name rules it relies on.
use vstd::prelude::*;
use crate::error::{EditError, ErrorLocation};
use crate::media_inputs::ResolvedMedia;
use crate::patch::ReplaceImageOperation;
use crate::schemas::ErrorCode;
use crate::selectors::{ResolvedElement, ShapeKind};
use crate::text::{owned, push_str, sview};

verus! {

/// A `replace_image` request as the operation runs it.
#[derive(Clone, Debug, Eq, PartialEq)]
pub struct ReplaceImage {
    pub operation_id: String,
    pub element_id: String,
    pub media_ref: String,
    pub content_type: String,
    pub allow_shared_mutation: bool,
}

/// The position of the last occurrence of a character.
pub open spec fn last_index_of(s: Seq<char>, c: char) -> Option<int>
    decreases s.len(),
{
    if s.len() == 0 {
        None
    } else if s.last() == c {
        Some(s.len() - 1)
    } else {
        last_index_of(s.drop_last(), c)
    }
}

proof fn lemma_last_index_range(s: Seq<char>, c: char)
    ensures
        last_index_of(s, c) matches Some(k) ==> 0 <= k < s.len() && s[k] == c,
    decreases s.len(),
{
    if s.len() > 0 && s.last() != c {
        lemma_last_index_range(s.drop_last(), c);
    }
}

/// The extension of a part name: what follows the last `.` of its file
/// name, if that is not empty.
pub open spec fn extension_of(part: Seq<char>) -> Option<Seq<char>> {
    let file_name = match last_index_of(part, '/') {
        Some(k) => part.skip(k + 1),
        None => part,
    };
    match last_index_of(file_name, '.') {
        None => None,
        Some(d) => if d + 1 == file_name.len() {
            None
        } else {
            Some(file_name.skip(d + 1))
        },
    }
}

fn last_index(chars: &Vec<char>, c: char) -> (r: Option<usize>)
    ensures
        match last_index_of(chars@, c) {
            Some(k) => r == Some(k as usize),
            None => r is None,
        },
{
    let mut k = chars.len();
    assert(chars@.take(k as int) =~= chars@);
    while k > 0
        invariant
            k <= chars@.len(),
            last_index_of(chars@, c) == last_index_of(chars@.take(k as int), c),
        decreases k,
    {
        if chars[k - 1] == c {
            assert(chars@.take(k as int).last() == c);
            return Some(k - 1);
        }
        assert(chars@.take(k as int).drop_last() =~= chars@.take(k - 1));
        k = k - 1;
    }
    assert(chars@.take(0) =~= Seq::<char>::empty());
    None
}

/// The extension of a part name.
pub fn part_extension(part_name: &str) -> (r: Option<String>)
    ensures
        sview(r) == extension_of(part_name@),
{
    let chars = crate::text::chars_of(part_name);
    let n = chars.len();
    proof {
        lemma_last_index_range(chars@, '/');
    }
    let start = match last_index(&chars, '/') {
        Some(k) => k + 1,
        None => 0,
    };
    let file = crate::text::string_from_chars(&chars.as_slice()[start..n]);
    proof {
        assert(file@ =~= chars@.skip(start as int));
        if start == 0 {
            assert(chars@.skip(0) =~= chars@);
        }
    }
    let fchars = crate::text::chars_of(file.as_str());
    let m = fchars.len();
    proof {
        lemma_last_index_range(fchars@, '.');
    }
    match last_index(&fchars, '.') {
        None => None,
        Some(d) => {
            if d + 1 == m {
                None
            } else {
                let ext = crate::text::string_from_chars(&fchars.as_slice()[d + 1..m]);
                proof {
                    assert(ext@ =~= fchars@.skip(d + 1));
                }
                Some(ext)
            }
        },
    }
}

impl ReplaceImage {
    /// The request a `replace_image` operation makes, on the element it
    /// names; shared media is never mutated.
    pub fn from(operation: &ReplaceImageOperation) -> (r: ReplaceImage)
        ensures
            r.operation_id@ == operation.operation_id@,
            r.element_id@ == (match crate::patch::targets::element_id_of(operation.element_id@, operation.selector) {
                Some(x) => x,
                None => operation.element_id@,
            }),
            r.media_ref@ == operation.media_ref@,
            r.content_type@ == operation.content_type@,
            !r.allow_shared_mutation,
    {
        ReplaceImage {
            operation_id: owned(operation.operation_id.as_str()),
            element_id: owned(operation.target_element_id()),
            media_ref: owned(operation.media_ref.as_str()),
            content_type: owned(operation.content_type.as_str()),
            allow_shared_mutation: false,
        }
    }

    /// Where an error of this operation arose.
    pub fn location(&self, target: Option<&ResolvedElement>) -> (l: ErrorLocation)
        ensures
            sview(l.operation_id) == Some(self.operation_id@),
            sview(l.operation) == Some("replace_image"@),
            l.relationship_id is None,
            match target {
                Some(t) => sview(l.element_id) == Some(t.element_id@) && sview(l.part) == Some(t.part@)
                    && sview(l.slide_id) == Some(t.slide_id@),
                None => sview(l.element_id) == Some(self.element_id@) && l.part is None && l.slide_id is None,
            },
    {
        let mut l = ErrorLocation::blank();
        match target {
            Some(t) => {
                l.part = Some(owned(t.part.as_str()));
                l.slide_id = Some(owned(t.slide_id.as_str()));
                l.element_id = Some(owned(t.element_id.as_str()));
            },
            None => {
                l.element_id = Some(owned(self.element_id.as_str()));
            },
        }
        l.operation_id = Some(owned(self.operation_id.as_str()));
        l.operation = Some(owned("replace_image"));
        l
    }

    /// The resolved element must be the one the request names, and a picture.
    pub fn validate_target(&self, target: &ResolvedElement) -> (r: Result<(), EditError>)
        ensures
            r is Ok <==> target.element_id@ == self.element_id@ && target.kind == ShapeKind::Picture,
            r matches Err(e) ==> (if target.element_id@ != self.element_id@ {
                e.code == ErrorCode::SelectorGuardFailed
            } else {
                e.code == ErrorCode::UnsupportedEdit
            }),
    {
        if !crate::text::str_eq(target.element_id.as_str(), self.element_id.as_str()) {
            return Err(EditError::new(
                ErrorCode::SelectorGuardFailed,
                owned("Resolved element does not match replace_image element_id."),
            ).with_location(self.location(Some(target))));
        }
        if !matches!(target.kind, ShapeKind::Picture) {
            return Err(EditError::new(ErrorCode::UnsupportedEdit, owned("replace_image target must be a picture element."))
                .with_location(self.location(Some(target))));
        }
        Ok(())
    }

    /// The bound media must have the declared content type.
    pub fn validate_media(&self, media: &ResolvedMedia, target: &ResolvedElement) -> (r: Result<(), EditError>)
        ensures
            r is Ok <==> media.content_type@ == self.content_type@,
            r matches Err(e) ==> e.code == ErrorCode::UnsupportedMediaType
                && e.message@ == crate::operations::add_image::content_type_mismatch("replace_image content_type `"@,
                    self.content_type@, self.media_ref@, media.content_type@),
    {
        if !crate::text::str_eq(media.content_type.as_str(), self.content_type.as_str()) {
            let mut m = owned("replace_image content_type `");
            push_str(&mut m, self.content_type.as_str());
            push_str(&mut m, "` does not match bound media_ref `");
            push_str(&mut m, self.media_ref.as_str());
            push_str(&mut m, "` content type `");
            push_str(&mut m, media.content_type.as_str());
            push_str(&mut m, "`.");
            return Err(EditError::new(ErrorCode::UnsupportedMediaType, m).with_location(self.location(Some(target))));
        }
        Ok(())
    }

    /// The picture must embed its image: a linked picture is refused, and so
    /// is one without an embedded image relationship.
    pub fn validate_picture(&self, target: &ResolvedElement, embed_rel_id: Option<&str>, link_rel_id: Option<&str>) -> (r: Result<(), EditError>)
        ensures
            r is Ok <==> link_rel_id is None && embed_rel_id is Some,
            r matches Err(e) ==> e.code == ErrorCode::UnsupportedEdit,
            link_rel_id matches Some(link) ==> (r matches Err(e)
                && e.message@ == "replace_image does not support externally linked r:link pictures in V1."@
                && sview(e.location.relationship_id) == Some(link@)),
            link_rel_id is None && embed_rel_id is None ==> (r matches Err(e)
                && e.message@ == "replace_image target picture has no r:embed media relationship."@
                && e.location.relationship_id is None),
    {
        if let Some(link) = link_rel_id {
            let mut l = self.location(Some(target));
            l.relationship_id = Some(owned(link));
            return Err(EditError::new(
                ErrorCode::UnsupportedEdit,
                owned("replace_image does not support externally linked r:link pictures in V1."),
            ).with_location(l));
        }
        if embed_rel_id.is_none() {
            return Err(EditError::new(
                ErrorCode::UnsupportedEdit,
                owned("replace_image target picture has no r:embed media relationship."),
            ).with_location(self.location(Some(target))));
        }
        Ok(())
    }
}

} // verus!
