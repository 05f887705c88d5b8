//! Errors raised while validating patches, resolving selectors and binding media.
use vstd::prelude::*;
use crate::schemas::ErrorCode;

verus! {

/// Where in a patch or a document an error arose.
#[derive(Debug, Clone, PartialEq, Eq)]
pub struct ErrorLocation {
    pub operation_id: Option<String>,
    pub operation: Option<String>,
    pub slide_id: Option<String>,
    pub element_id: Option<String>,
    pub part: Option<String>,
    pub relationship_id: Option<String>,
    pub expected: Option<String>,
    pub actual: Option<String>,
    pub candidates: Vec<String>,
}

/// A location that names nothing.
pub open spec fn is_blank(l: ErrorLocation) -> bool {
    &&& l.operation_id is None
    &&& l.operation is None
    &&& l.slide_id is None
    &&& l.element_id is None
    &&& l.part is None
    &&& l.relationship_id is None
    &&& l.expected is None
    &&& l.actual is None
    &&& l.candidates@.len() == 0
}

impl ErrorLocation {
    /// A location that names nothing.
    pub fn blank() -> (r: ErrorLocation)
        ensures
            is_blank(r),
    {
        ErrorLocation {
            operation_id: None,
            operation: None,
            slide_id: None,
            element_id: None,
            part: None,
            relationship_id: None,
            expected: None,
            actual: None,
            candidates: Vec::new(),
        }
    }
}

/// An error of the editing surface: a stable code, a human-readable
/// message, and where it arose.
#[derive(Debug, Clone, PartialEq, Eq)]
pub struct EditError {
    pub code: ErrorCode,
    pub message: String,
    pub location: ErrorLocation,
}

impl EditError {
    /// An error with a code and a message and a blank location.
    pub fn new(code: ErrorCode, message: String) -> (r: EditError)
        ensures
            r.code == code,
            r.message@ == message@,
            is_blank(r.location),
    {
        EditError { code, message, location: ErrorLocation::blank() }
    }

    /// The same error at another location.
    pub fn with_location(self, location: ErrorLocation) -> (r: EditError)
        ensures
            r.code == self.code,
            r.message@ == self.message@,
            r.location == location,
    {
        EditError { code: self.code, message: self.message, location }
    }

    /// The stable error code.
    pub fn code(&self) -> (r: ErrorCode)
        ensures
            r == self.code,
    {
        self.code
    }

    /// The human-readable message.
    pub fn message(&self) -> (r: &str)
        ensures
            r@ == self.message@,
    {
        self.message.as_str()
    }
}

} // verus!
