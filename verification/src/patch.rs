//! Patch envelopes: the operations an agent asks for, how each operation's
//! target is named, and the checks on the envelope as a whole.
use vstd::prelude::*;
use crate::error::{EditError, ErrorLocation};
use crate::schemas::ErrorCode;
use crate::selectors::{RunSelector, Selector};
use crate::text::{owned, push_str, sview};

pub mod targets;
pub mod staging;

verus! {

/// The schema name a patch envelope must carry.
pub const PATCH_SCHEMA: &'static str = "pptx-compose.patch.v1";

/// The version a patch envelope must carry.
pub const PATCH_VERSION: u32 = 1;

/// The operation names, in the order of [`Operation`]'s variants.
pub const ALL_OP_NAMES: [&'static str; 7] = [
    "replace_text",
    "add_text_box",
    "move_resize_element",
    "set_alt_text",
    "set_document_metadata",
    "add_image",
    "replace_image",
];

/// A patch envelope: the operations to apply to one revision of a document.
#[derive(Clone, Debug, Eq, PartialEq)]
pub struct Patch {
    pub schema: String,
    pub version: u32,
    pub document_id: String,
    pub base_revision: u32,
    pub client_request_id: String,
    pub operations: Vec<Operation>,
}

/// One edit of a patch.
#[derive(Clone, Debug, Eq, PartialEq)]
pub enum Operation {
    ReplaceText(ReplaceTextOperation),
    AddTextBox(AddTextBoxOperation),
    MoveResizeElement(MoveResizeElementOperation),
    SetAltText(SetAltTextOperation),
    SetDocumentMetadata(SetDocumentMetadataOperation),
    AddImage(AddImageOperation),
    ReplaceImage(ReplaceImageOperation),
}

/// Replaces the text of an element, a table cell, or a slide's speaker notes.
#[derive(Clone, Debug, Eq, PartialEq)]
pub struct ReplaceTextOperation {
    pub operation_id: String,
    pub element_id: String,
    pub slide_id: String,
    pub selector: Option<Selector>,
    pub cell: Option<TableCellSelector>,
    pub text: String,
    pub current_text_match: Option<String>,
    pub mode: Option<ReplaceTextMode>,
    pub format_policy: Option<FormatPolicy>,
    pub overflow_policy: Option<OverflowPolicy>,
    pub allow_formatting_simplification: bool,
    pub run_style: Option<TextBoxStyle>,
    pub run: Option<RunSelector>,
}

/// A cell of a table, by row and column.
#[derive(Clone, Copy, Debug, Default, Eq, PartialEq)]
pub struct TableCellSelector {
    pub row: u32,
    pub col: u32,
}

/// Whether a replacement rewrites the whole text body or selected runs.
#[derive(Clone, Copy, Debug, Eq, PartialEq)]
pub enum ReplaceTextMode {
    WholeElement,
    RunScoped,
}

/// How formatting of replaced runs is kept.
#[derive(Clone, Copy, Debug, Eq, PartialEq)]
pub enum FormatPolicy {
    PreserveExistingRuns,
    PreserveFirstRun,
    SingleRunDefaultStyle,
}

/// What happens when replacement text may overflow its box.
#[derive(Clone, Copy, Debug, Eq, PartialEq)]
pub enum OverflowPolicy {
    Allow,
}

/// Adds a text box to a slide.
#[derive(Clone, Debug, Eq, PartialEq)]
pub struct AddTextBoxOperation {
    pub operation_id: String,
    pub slide_id: String,
    pub selector: Option<Selector>,
    pub text: String,
    pub bounds: Bounds,
    pub name: Option<String>,
    pub alt_text: Option<String>,
    pub style: Option<TextBoxStyle>,
    pub insert: Option<InsertOptions>,
}

/// Moves and resizes an element.
#[derive(Clone, Debug, Eq, PartialEq)]
pub struct MoveResizeElementOperation {
    pub operation_id: String,
    pub element_id: String,
    pub selector: Option<Selector>,
    pub bounds: Bounds,
}

/// Sets an element's accessibility title and description.
#[derive(Clone, Debug, Eq, PartialEq)]
pub struct SetAltTextOperation {
    pub operation_id: String,
    pub element_id: String,
    pub selector: Option<Selector>,
    pub title: Option<String>,
    pub description: Option<String>,
}

/// Sets document core properties.
#[derive(Clone, Debug, Eq, PartialEq)]
pub struct SetDocumentMetadataOperation {
    pub operation_id: String,
    pub selector: Selector,
    pub current_value_match: Option<DocumentMetadataFields>,
    pub metadata: DocumentMetadataFields,
}

/// Core-properties fields; an absent field is left alone.
#[derive(Clone, Debug, Default, Eq, PartialEq)]
pub struct DocumentMetadataFields {
    pub title: Option<String>,
    pub subject: Option<String>,
    pub creator: Option<String>,
    pub keywords: Option<String>,
}

impl DocumentMetadataFields {
    /// Whether no field is given.
    pub fn is_empty(&self) -> (r: bool)
        ensures
            r == (self.title is None && self.subject is None && self.creator is None && self.keywords is None),
    {
        self.title.is_none() && self.subject.is_none() && self.creator.is_none() && self.keywords.is_none()
    }
}

/// Adds a picture to a slide from a bound media input.
#[derive(Clone, Debug, Eq, PartialEq)]
pub struct AddImageOperation {
    pub operation_id: String,
    pub slide_id: String,
    pub selector: Option<Selector>,
    pub media_ref: String,
    pub content_type: String,
    pub bounds: Bounds,
    pub name: Option<String>,
    pub alt_text: Option<String>,
    pub insert: Option<InsertOptions>,
}

/// Replaces the image bytes of a picture from a bound media input.
#[derive(Clone, Debug, Eq, PartialEq)]
pub struct ReplaceImageOperation {
    pub operation_id: String,
    pub element_id: String,
    pub selector: Option<Selector>,
    pub media_ref: String,
    pub content_type: String,
}

/// Position and size in EMUs.
#[derive(Clone, Debug, Eq, PartialEq)]
pub struct Bounds {
    pub x: i64,
    pub y: i64,
    pub cx: i64,
    pub cy: i64,
}

/// Run formatting for new or replaced text.
#[derive(Clone, Debug, Eq, PartialEq)]
pub struct TextBoxStyle {
    pub font_size_pt: Option<u32>,
    pub bold: Option<bool>,
    pub italic: Option<bool>,
    pub font_family: Option<String>,
    pub color_hex: Option<String>,
    pub align: Option<TextAlign>,
}

/// Paragraph alignment.
#[derive(Clone, Copy, Debug, Eq, PartialEq)]
pub enum TextAlign {
    Left,
    Center,
    Right,
}

/// Where in the shape tree a new element goes.
#[derive(Clone, Debug, Eq, PartialEq)]
pub struct InsertOptions {
    pub z_order: Option<ZOrder>,
}

/// The front or the back of the shape tree.
#[derive(Clone, Copy, Debug, Eq, PartialEq)]
pub enum ZOrderKeyword {
    Front,
    Back,
}

/// A z-order position: a keyword, or a one-based element ordinal.
#[derive(Clone, Copy, Debug, Eq, PartialEq)]
pub enum ZOrder {
    Keyword(ZOrderKeyword),
    Index(u32),
}

/// How an image fills its bounds.
#[derive(Clone, Copy, Debug, Eq, PartialEq)]
pub enum ImageFit {
    Stretch,
    Contain,
    Cover,
    OriginalSize,
}

/// Whether identical media bytes share one part.
#[derive(Clone, Copy, Debug, Eq, PartialEq)]
pub enum ImageDedupe {
    Never,
    Checksum,
}

/// The document and revision a patch is checked against.
#[derive(Clone, Debug, Eq, PartialEq)]
pub struct DocumentState {
    pub document_id: String,
    pub revision: u32,
}

impl DocumentState {
    /// The state of a document at a revision.
    pub fn new(document_id: String, revision: u32) -> (r: DocumentState)
        ensures
            r.document_id@ == document_id@,
            r.revision == revision,
    {
        DocumentState { document_id, revision }
    }
}

/// Identity of the document before and after a patch run.
#[derive(Clone, Debug, Eq, PartialEq)]
pub struct PatchContext {
    pub document_id: String,
    pub base_revision: u32,
    pub new_document_id: String,
    pub new_revision: u32,
    pub dry_run: bool,
}

impl PatchContext {
    /// A context for a patch that is applied, not dry-run.
    pub fn new(document_id: String, base_revision: u32, new_document_id: String, new_revision: u32) -> (r: PatchContext)
        ensures
            r.document_id@ == document_id@,
            r.base_revision == base_revision,
            r.new_document_id@ == new_document_id@,
            r.new_revision == new_revision,
            !r.dry_run,
    {
        PatchContext { document_id, base_revision, new_document_id, new_revision, dry_run: false }
    }
}

/// The operation id of an operation.
pub open spec fn op_id(op: Operation) -> Seq<char> {
    match op {
        Operation::ReplaceText(o) => o.operation_id@,
        Operation::AddTextBox(o) => o.operation_id@,
        Operation::MoveResizeElement(o) => o.operation_id@,
        Operation::SetAltText(o) => o.operation_id@,
        Operation::SetDocumentMetadata(o) => o.operation_id@,
        Operation::AddImage(o) => o.operation_id@,
        Operation::ReplaceImage(o) => o.operation_id@,
    }
}

/// The wire name of an operation.
pub open spec fn op_name_of(op: Operation) -> Seq<char> {
    match op {
        Operation::ReplaceText(_) => "replace_text"@,
        Operation::AddTextBox(_) => "add_text_box"@,
        Operation::MoveResizeElement(_) => "move_resize_element"@,
        Operation::SetAltText(_) => "set_alt_text"@,
        Operation::SetDocumentMetadata(_) => "set_document_metadata"@,
        Operation::AddImage(_) => "add_image"@,
        Operation::ReplaceImage(_) => "replace_image"@,
    }
}

impl Operation {
    /// The operation id.
    pub fn operation_id(&self) -> (r: &str)
        ensures
            r@ == op_id(*self),
    {
        match self {
            Operation::ReplaceText(o) => o.operation_id.as_str(),
            Operation::AddTextBox(o) => o.operation_id.as_str(),
            Operation::MoveResizeElement(o) => o.operation_id.as_str(),
            Operation::SetAltText(o) => o.operation_id.as_str(),
            Operation::SetDocumentMetadata(o) => o.operation_id.as_str(),
            Operation::AddImage(o) => o.operation_id.as_str(),
            Operation::ReplaceImage(o) => o.operation_id.as_str(),
        }
    }

    /// The wire name of the operation.
    pub fn op_name(&self) -> (r: &'static str)
        ensures
            r@ == op_name_of(*self),
    {
        match self {
            Operation::ReplaceText(_) => "replace_text",
            Operation::AddTextBox(_) => "add_text_box",
            Operation::MoveResizeElement(_) => "move_resize_element",
            Operation::SetAltText(_) => "set_alt_text",
            Operation::SetDocumentMetadata(_) => "set_document_metadata",
            Operation::AddImage(_) => "add_image",
            Operation::ReplaceImage(_) => "replace_image",
        }
    }
}

// ---------------------------------------------------------------------------
// Envelope checks
// ---------------------------------------------------------------------------

/// Whether the operation ids are all non-empty and pairwise distinct.
pub open spec fn ids_ok(ops: Seq<Operation>) -> bool {
    &&& forall|i: int| 0 <= i < ops.len() ==> op_id(#[trigger] ops[i]).len() > 0
    &&& forall|i: int, j: int| 0 <= i < j < ops.len() ==> op_id(#[trigger] ops[i]) != op_id(#[trigger] ops[j])
}

/// Whether the envelope names the schema and version this library reads.
pub open spec fn envelope_header_ok(patch: Patch) -> bool {
    patch.schema@ == PATCH_SCHEMA@ && patch.version == PATCH_VERSION
}

/// Whether the envelope was written against the given document revision.
pub open spec fn envelope_current(patch: Patch, doc: DocumentState) -> bool {
    patch.document_id@ == doc.document_id@ && patch.base_revision == doc.revision
}

/// The position of the first operation whose id is empty or repeats an
/// earlier one.
pub open spec fn first_bad_id(ops: Seq<Operation>) -> int
    recommends
        !ids_ok(ops),
{
    choose|j: int| bad_at(ops, j)
}

/// Whether position `j` is the first whose id is empty or repeats an earlier one.
pub open spec fn bad_at(ops: Seq<Operation>, j: int) -> bool {
    &&& 0 <= j < ops.len()
    &&& (op_id(ops[j]).len() == 0 || exists|i: int| 0 <= i < j && op_id(ops[i]) == op_id(ops[j]))
    &&& ids_ok(ops.take(j))
}

fn invalid_operation_id(message: String, operation_id: &str) -> (e: EditError)
    ensures
        e.code == ErrorCode::InvalidInput,
        e.message@ == message@,
        sview(e.location.operation_id) == Some(operation_id@),
{
    let mut location = ErrorLocation::blank();
    location.operation_id = Some(owned(operation_id));
    EditError::new(ErrorCode::InvalidInput, message).with_location(location)
}

/// Checks a patch envelope against the current document: schema and version
/// first, then the document identity and revision (stale otherwise), then
/// the operation ids, which must be non-empty and distinct.
pub fn validate_envelope(patch: &Patch, doc: &DocumentState) -> (r: Result<(), EditError>)
    ensures
        r is Ok <==> (envelope_header_ok(*patch) && envelope_current(*patch, *doc) && ids_ok(patch.operations@)),
        !envelope_header_ok(*patch) ==> (r matches Err(e) && e.code == ErrorCode::InvalidInput),
        envelope_header_ok(*patch) && !envelope_current(*patch, *doc) ==> (r matches Err(e) && e.code == ErrorCode::StalePatch),
        envelope_header_ok(*patch) && envelope_current(*patch, *doc) && !ids_ok(patch.operations@) ==> (r matches Err(e) && {
            let j = first_bad_id(patch.operations@);
            &&& 0 <= j < patch.operations@.len()
            &&& e.code == ErrorCode::InvalidInput
            &&& sview(e.location.operation_id) == Some(op_id(patch.operations@[j]))
        }),
{
    if !crate::text::str_eq(patch.schema.as_str(), PATCH_SCHEMA) {
        let mut m = owned("Patch schema must be ");
        push_str(&mut m, PATCH_SCHEMA);
        push_str(&mut m, ".");
        return Err(EditError::new(ErrorCode::InvalidInput, m));
    }
    if patch.version != PATCH_VERSION {
        let mut m = owned("Patch version must be ");
        crate::text::push_decimal(&mut m, PATCH_VERSION as u64);
        push_str(&mut m, ".");
        return Err(EditError::new(ErrorCode::InvalidInput, m));
    }
    if !crate::text::str_eq(patch.document_id.as_str(), doc.document_id.as_str()) || patch.base_revision != doc.revision {
        return Err(EditError::new(
            ErrorCode::StalePatch,
            owned("Patch document_id or base_revision does not match the current document."),
        ));
    }
    let ops = &patch.operations;
    let n = ops.len();
    let mut j: usize = 0;
    while j < n
        invariant
            j <= n,
            n == ops@.len(),
            ops@ == patch.operations@,
            envelope_header_ok(*patch),
            envelope_current(*patch, *doc),
            ids_ok(ops@.take(j as int)),
        decreases n - j,
    {
        let id = ops[j].operation_id();
        if id.is_empty() {
            proof {
                assert(ops@.take(j as int).len() == j);
                lemma_first_bad_id(ops@, j as int);
            }
            return Err(invalid_operation_id(owned("Patch operations must include a non-empty operation_id."), id));
        }
        let mut i: usize = 0;
        while i < j
            invariant
                i <= j < n,
                n == ops@.len(),
                ops@ == patch.operations@,
                envelope_header_ok(*patch),
                envelope_current(*patch, *doc),
                id@ == op_id(ops@[j as int]),
                id@.len() > 0,
                ids_ok(ops@.take(j as int)),
                forall|k: int| 0 <= k < i ==> op_id(ops@[k]) != op_id(ops@[j as int]),
            decreases j - i,
        {
            if crate::text::str_eq(ops[i].operation_id(), id) {
                proof {
                    assert(op_id(ops@[i as int]) == op_id(ops@[j as int]));
                    lemma_first_bad_id(ops@, j as int);
                }
                let mut m = owned("Patch operation_id ");
                push_str(&mut m, id);
                push_str(&mut m, " is duplicated.");
                return Err(invalid_operation_id(m, id));
            }
            i = i + 1;
        }
        proof {
            let t = ops@.take(j + 1);
            assert forall|a: int| 0 <= a < t.len() implies op_id(#[trigger] t[a]).len() > 0 by {
                if a < j {
                    assert(t[a] == ops@.take(j as int)[a]);
                }
            }
            assert forall|a: int, b: int| 0 <= a < b < t.len() implies op_id(#[trigger] t[a]) != op_id(#[trigger] t[b]) by {
                if b < j {
                    assert(t[a] == ops@.take(j as int)[a]);
                    assert(t[b] == ops@.take(j as int)[b]);
                }
            }
        }
        j = j + 1;
    }
    assert(ops@.take(n as int) =~= ops@);
    Ok(())
}

/// The first offending operation is the one the check reports: when the ids
/// before `j` are fine and `j`'s id is empty or repeats an earlier one, `j`
/// is the first bad position.
proof fn lemma_first_bad_id(ops: Seq<Operation>, j: int)
    requires
        0 <= j < ops.len(),
        ids_ok(ops.take(j)),
        op_id(ops[j]).len() == 0 || exists|i: int| 0 <= i < j && op_id(ops[i]) == op_id(ops[j]),
    ensures
        !ids_ok(ops),
        first_bad_id(ops) == j,
{
    if op_id(ops[j]).len() == 0 {
        assert(!ids_ok(ops));
    } else {
        let i = choose|i: int| 0 <= i < j && op_id(ops[i]) == op_id(ops[j]);
        assert(op_id(ops[i]) == op_id(ops[j]));
        assert(!ids_ok(ops));
    }
    assert(bad_at(ops, j));
    let k = first_bad_id(ops);
    assert(bad_at(ops, k));
    if k < j {
        let tj = ops.take(j);
        assert(tj[k] == ops[k]);
        if op_id(ops[k]).len() == 0 {
            assert(op_id(tj[k]).len() == 0);
        } else {
            let i = choose|i: int| 0 <= i < k && op_id(ops[i]) == op_id(ops[k]);
            assert(tj[i] == ops[i]);
            assert(op_id(tj[i]) == op_id(tj[k]));
        }
        assert(false);
    }
    if k > j {
        let tk = ops.take(k);
        assert(tk[j] == ops[j]);
        if op_id(ops[j]).len() == 0 {
            assert(op_id(tk[j]).len() == 0);
        } else {
            let i = choose|i: int| 0 <= i < j && op_id(ops[i]) == op_id(ops[j]);
            assert(tk[i] == ops[i]);
            assert(op_id(tk[i]) == op_id(tk[j]));
        }
        assert(false);
    }
}


/// The id an operation is reported and checked for uniqueness under is the
/// operation's own `operation_id`, whatever its kind, and never another of
/// its fields.
pub proof fn lemma_op_id_is_own_field(op: Operation)
    ensures
        op matches Operation::ReplaceText(o) ==> op_id(op) == o.operation_id@,
        op matches Operation::AddTextBox(o) ==> op_id(op) == o.operation_id@,
        op matches Operation::MoveResizeElement(o) ==> op_id(op) == o.operation_id@,
        op matches Operation::SetAltText(o) ==> op_id(op) == o.operation_id@,
        op matches Operation::SetDocumentMetadata(o) ==> op_id(op) == o.operation_id@,
        op matches Operation::AddImage(o) ==> op_id(op) == o.operation_id@,
        op matches Operation::ReplaceImage(o) ==> op_id(op) == o.operation_id@,
{
}
} // verus!
