//! The `set_alt_text` operation: the checks made before an element's
//! accessibility title and description are rewritten.
use vstd::prelude::*;
use crate::error::{EditError, ErrorLocation};
use crate::patch::SetAltTextOperation;
use crate::schemas::ErrorCode;
use crate::selectors::ResolvedElement;
use crate::text::{owned, opt_clone, sview};

verus! {

/// A `set_alt_text` request as the operation runs it.
#[derive(Clone, Debug, Eq, PartialEq)]
pub struct SetAltText {
    pub operation_id: String,
    pub element_id: String,
    pub title: Option<String>,
    pub description: Option<String>,
    pub alt_text: Option<String>,
}

impl SetAltText {
    /// The request a `set_alt_text` operation makes, on the element it names.
    pub fn from(operation: &SetAltTextOperation) -> (r: SetAltText)
        ensures
            r.operation_id@ == operation.operation_id@,
            r.element_id@ == (match crate::patch::targets::element_id_of(operation.element_id@, operation.selector) {
                Some(x) => x,
                None => operation.element_id@,
            }),
            sview(r.title) == sview(operation.title),
            sview(r.description) == sview(operation.description),
            r.alt_text is None,
    {
        SetAltText {
            operation_id: owned(operation.operation_id.as_str()),
            element_id: owned(operation.target_element_id()),
            title: opt_clone(&operation.title),
            description: opt_clone(&operation.description),
            alt_text: None,
        }
    }

    /// Where an error of this operation arose: the resolved element when
    /// there is one, else the element the request names.
    pub fn location(&self, target: Option<&ResolvedElement>) -> (l: ErrorLocation)
        ensures
            sview(l.operation_id) == Some(self.operation_id@),
            sview(l.operation) == Some("set_alt_text"@),
            match target {
                Some(t) => sview(l.element_id) == Some(t.element_id@) && sview(l.part) == Some(t.part@)
                    && sview(l.slide_id) == Some(t.slide_id@),
                None => sview(l.element_id) == Some(self.element_id@) && l.part is None && l.slide_id is None,
            },
    {
        let mut l = ErrorLocation::blank();
        match target {
            Some(t) => {
                l.part = Some(owned(t.part.as_str()));
                l.slide_id = Some(owned(t.slide_id.as_str()));
                l.element_id = Some(owned(t.element_id.as_str()));
            },
            None => {
                l.element_id = Some(owned(self.element_id.as_str()));
            },
        }
        l.operation_id = Some(owned(self.operation_id.as_str()));
        l.operation = Some(owned("set_alt_text"));
        l
    }

    /// At least one of title, description or alt text must be given.
    pub fn validate_fields(&self) -> (r: Result<(), EditError>)
        ensures
            r is Ok <==> !(self.title is None && self.description is None && self.alt_text is None),
            r matches Err(e) ==> e.code == ErrorCode::InvalidInput && sview(e.location.element_id) == Some(self.element_id@),
    {
        if self.title.is_none() && self.description.is_none() && self.alt_text.is_none() {
            return Err(EditError::new(
                ErrorCode::InvalidInput,
                owned("set_alt_text requires at least one of title, description, or alt_text."),
            ).with_location(self.location(None)));
        }
        Ok(())
    }

    /// The resolved element must be the one the request names.
    pub fn validate_target(&self, target: &ResolvedElement) -> (r: Result<(), EditError>)
        ensures
            r is Ok <==> target.element_id@ == self.element_id@,
            r matches Err(e) ==> e.code == ErrorCode::SelectorGuardFailed,
    {
        if !crate::text::str_eq(target.element_id.as_str(), self.element_id.as_str()) {
            return Err(EditError::new(
                ErrorCode::SelectorGuardFailed,
                owned("Resolved element does not match set_alt_text element_id."),
            ).with_location(self.location(Some(target))));
        }
        Ok(())
    }
}

} // verus!
