//! The `set_document_metadata` operation: the checks made before document
//! core properties are rewritten.
use vstd::prelude::*;
use crate::error::{EditError, ErrorLocation};
use crate::patch::{DocumentMetadataFields, SetDocumentMetadataOperation};
use crate::schemas::ErrorCode;
use crate::text::{owned, push_str, sview};

verus! {

/// A `set_document_metadata` request as the operation runs it.
#[derive(Clone, Debug, Eq, PartialEq)]
pub struct SetDocumentMetadata {
    pub operation_id: String,
    pub current_value_match: Option<DocumentMetadataFields>,
    pub metadata: DocumentMetadataFields,
}

/// How one core-properties field is written.
#[derive(Clone, Debug, Eq, PartialEq)]
pub struct FieldSpec {
    pub name: &'static str,
    pub namespace: &'static str,
    pub preferred_prefix: &'static str,
    pub local_name: &'static str,
}

/// The Dublin Core elements namespace.
pub const DC_NS: &'static str = "http://purl.org/dc/elements/1.1/";

/// The core-properties namespace.
pub const CP_NS: &'static str = "http://schemas.openxmlformats.org/package/2006/metadata/core-properties";

/// The fields of the core properties this operation writes, in order: title,
/// subject and creator in Dublin Core, keywords in the core-properties
/// namespace.
pub fn field_specs() -> (r: Vec<FieldSpec>)
    ensures
        r@.len() == 4,
        r@[0].name@ == "title"@ && r@[0].local_name@ == "title"@ && r@[0].namespace@ == DC_NS@ && r@[0].preferred_prefix@ == "dc"@,
        r@[1].name@ == "subject"@ && r@[1].local_name@ == "subject"@ && r@[1].namespace@ == DC_NS@ && r@[1].preferred_prefix@ == "dc"@,
        r@[2].name@ == "creator"@ && r@[2].local_name@ == "creator"@ && r@[2].namespace@ == DC_NS@ && r@[2].preferred_prefix@ == "dc"@,
        r@[3].name@ == "keywords"@ && r@[3].local_name@ == "keywords"@ && r@[3].namespace@ == CP_NS@ && r@[3].preferred_prefix@ == "cp"@,
{
    let mut v: Vec<FieldSpec> = Vec::new();
    v.push(FieldSpec { name: "title", namespace: DC_NS, preferred_prefix: "dc", local_name: "title" });
    v.push(FieldSpec { name: "subject", namespace: DC_NS, preferred_prefix: "dc", local_name: "subject" });
    v.push(FieldSpec { name: "creator", namespace: DC_NS, preferred_prefix: "dc", local_name: "creator" });
    v.push(FieldSpec { name: "keywords", namespace: CP_NS, preferred_prefix: "cp", local_name: "keywords" });
    v
}

/// The four fields of metadata, in the order they are checked.
pub open spec fn field_values(m: DocumentMetadataFields) -> Seq<Option<Seq<char>>> {
    seq![sview(m.title), sview(m.subject), sview(m.creator), sview(m.keywords)]
}

/// The names of the four fields, in the order they are checked.
pub open spec fn field_names() -> Seq<Seq<char>> {
    seq!["title"@, "subject"@, "creator"@, "keywords"@]
}

/// The first field whose expected value differs from the current value.
pub open spec fn first_mismatch(expected: Seq<Option<Seq<char>>>, actual: Seq<Option<Seq<char>>>, k: int) -> Option<int>
    decreases 4 - k,
{
    if k < 0 || k >= 4 {
        None
    } else if (expected[k] matches Some(x) && actual[k] != Some(x)) {
        Some(k)
    } else {
        first_mismatch(expected, actual, k + 1)
    }
}

fn field_of(m: &DocumentMetadataFields, k: usize) -> (r: Option<&str>)
    requires
        k < 4,
    ensures
        crate::text::rview(r) == field_values(*m)[k as int],
{
    let f = if k == 0 { &m.title } else if k == 1 { &m.subject } else if k == 2 { &m.creator } else { &m.keywords };
    crate::text::opt_as_str(f)
}

impl SetDocumentMetadata {
    /// The request a `set_document_metadata` operation makes.
    pub fn from(operation: &SetDocumentMetadataOperation) -> (r: SetDocumentMetadata)
        ensures
            r.operation_id@ == operation.operation_id@,
            r.current_value_match == operation.current_value_match,
            r.metadata == operation.metadata,
    {
        SetDocumentMetadata {
            operation_id: owned(operation.operation_id.as_str()),
            current_value_match: match &operation.current_value_match {
                Some(m) => Some(clone_fields(m)),
                None => None,
            },
            metadata: clone_fields(&operation.metadata),
        }
    }

    /// Where an error of this operation arose.
    pub fn location(&self, part: Option<&str>) -> (l: ErrorLocation)
        ensures
            sview(l.operation_id) == Some(self.operation_id@),
            sview(l.operation) == Some("set_document_metadata"@),
            sview(l.part) == crate::text::rview(part),
    {
        let mut l = ErrorLocation::blank();
        l.part = crate::text::opt_owned(part);
        l.operation_id = Some(owned(self.operation_id.as_str()));
        l.operation = Some(owned("set_document_metadata"));
        l
    }

    /// Checks the request: some field must be set, and where the current
    /// values of the core properties are given, every field the match guard
    /// names must currently have the expected value.
    pub fn validate_fields(&self, current: Option<&DocumentMetadataFields>) -> (r: Result<(), EditError>)
        ensures
            self.metadata.title is None && self.metadata.subject is None && self.metadata.creator is None
                && self.metadata.keywords is None ==> (r matches Err(e) && e.code == ErrorCode::InvalidInput),
            !(self.metadata.title is None && self.metadata.subject is None && self.metadata.creator is None
                && self.metadata.keywords is None) ==> match (current, self.current_value_match) {
                (Some(c), Some(expected)) => match first_mismatch(field_values(expected), field_values(*c), 0) {
                    None => r is Ok,
                    Some(k) => r matches Err(e) && e.code == ErrorCode::SelectorGuardFailed
                        && e.message@ == "Metadata match guard "@ + field_names()[k] + " did not match the current value."@
                        && sview(e.location.expected) == field_values(expected)[k]
                        && sview(e.location.actual) == field_values(*c)[k],
                },
                _ => r is Ok,
            },
    {
        if self.metadata.is_empty() {
            return Err(EditError::new(
                ErrorCode::InvalidInput,
                owned("set_document_metadata requires at least one metadata field."),
            ).with_location(self.location(None)));
        }
        let c = match current {
            None => return Ok(()),
            Some(c) => c,
        };
        let expected = match &self.current_value_match {
            None => return Ok(()),
            Some(e) => e,
        };
        let specs = field_specs();
        let mut k: usize = 0;
        while k < 4
            invariant
                k <= 4,
                !(self.metadata.title is None && self.metadata.subject is None && self.metadata.creator is None
                    && self.metadata.keywords is None),
                self.current_value_match == Some(*expected),
                current == Some(c),
                specs@.len() == 4,
                specs@[0].name@ == "title"@,
                specs@[1].name@ == "subject"@,
                specs@[2].name@ == "creator"@,
                specs@[3].name@ == "keywords"@,
                first_mismatch(field_values(*expected), field_values(*c), 0) == first_mismatch(field_values(*expected), field_values(*c), k as int),
            decreases 4 - k,
        {
            let want = field_of(expected, k);
            let have = field_of(c, k);
            let differs = match want {
                None => false,
                Some(x) => match have {
                    Some(a) => !crate::text::str_eq(a, x),
                    None => true,
                },
            };
            if differs {
                let mut m = owned("Metadata match guard ");
                push_str(&mut m, specs[k].name);
                push_str(&mut m, " did not match the current value.");
                let mut l = ErrorLocation::blank();
                l.operation_id = Some(owned(self.operation_id.as_str()));
                l.operation = Some(owned("set_document_metadata"));
                l.expected = crate::text::opt_owned(want);
                l.actual = crate::text::opt_owned(have);
                proof {
                    assert(field_names()[k as int] == specs@[k as int].name@);
                }
                return Err(EditError::new(ErrorCode::SelectorGuardFailed, m).with_location(l));
            }
            k = k + 1;
        }
        Ok(())
    }
}

/// An equal copy of metadata fields.
pub fn clone_fields(m: &DocumentMetadataFields) -> (r: DocumentMetadataFields)
    ensures
        r == *m,
{
    DocumentMetadataFields {
        title: crate::selectors::clone_opt_string(&m.title),
        subject: crate::selectors::clone_opt_string(&m.subject),
        creator: crate::selectors::clone_opt_string(&m.creator),
        keywords: crate::selectors::clone_opt_string(&m.keywords),
    }
}

} // verus!
