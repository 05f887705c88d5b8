//! The agent-facing JSON view model.
use vstd::prelude::*;



pub mod pagination;
pub mod search;
pub mod views;


verus! {

/// A projected view of a presentation for an agent.
#[derive(Debug, Clone, PartialEq, Eq)]
pub struct AgentView {
    pub schema: String,
    pub version: u32,
    pub document_id: String,
    pub revision: u32,
    pub view_id: String,
    pub capabilities: Capabilities,
    pub presentation: PresentationView,
    pub slides: Vec<SlideView>,
}

/// What the editing surface supports.
#[derive(Debug, Clone, PartialEq, Eq)]
pub struct Capabilities {
    pub operations: Vec<String>,
    pub media_content_types: Vec<String>,
    pub units: String,
}

/// The presentation part and its slide count.
#[derive(Debug, Clone, PartialEq, Eq)]
pub struct PresentationView {
    pub part: String,
    pub slide_count: u32,
}

/// One slide and its projected elements.
#[derive(Debug, Clone, PartialEq, Eq)]
pub struct SlideView {
    pub id: String,
    pub index: u32,
    pub ppt_slide_id: Option<u32>,
    pub part: String,
    pub relationship_id: String,
    pub layout_part: String,
    pub part_checksum: String,
    pub elements: Vec<ElementView>,
    pub elements_page: Option<ElementPageView>,
}

/// Marks an embedded element list that was cut to a page, with the cursor
/// that continues it.
#[derive(Debug, Clone, PartialEq, Eq)]
pub struct ElementPageView {
    pub mode: String,
    pub limit: u32,
    pub next_cursor: Option<String>,
    pub truncated: bool,
    pub omitted_count: u32,
    pub detail: String,
}

/// One drawable element of a slide.
#[derive(Debug, Clone, PartialEq, Eq)]
pub struct ElementView {
    pub id: String,
    pub kind: ElementKind,
    pub slide_id: String,
    pub part: String,
    pub xml_location: XmlLocation,
    pub z_order: u32,
    pub bounds: Bounds,
    pub editable: Editable,
    pub fingerprint: String,
    pub text: Option<TextView>,
    pub image: Option<ImageView>,
}

/// The agent-facing kind of an element.
#[derive(Debug, Clone, Copy, PartialEq, Eq)]
pub enum ElementKind {
    TextBox,
    Image,
    Shape,
    Group,
    Table,
    Chart,
    Diagram,
    Ole,
}

/// The name an element kind is written under in a view (snake case).
pub open spec fn element_kind_name(kind: ElementKind) -> Seq<char> {
    match kind {
        ElementKind::TextBox => "text_box"@,
        ElementKind::Image => "image"@,
        ElementKind::Shape => "shape"@,
        ElementKind::Group => "group"@,
        ElementKind::Table => "table"@,
        ElementKind::Chart => "chart"@,
        ElementKind::Diagram => "diagram"@,
        ElementKind::Ole => "ole"@,
    }
}

/// Where an element lives in the slide XML.
#[derive(Debug, Clone, PartialEq, Eq)]
pub struct XmlLocation {
    pub sp_tree_path: Vec<u32>,
    pub group_path: Vec<u32>,
    pub element_tag: String,
    pub cnvpr_id: u32,
    pub cnvpr_name: String,
}

/// Element bounds in EMUs.
#[derive(Debug, Clone, Copy, PartialEq, Eq)]
pub struct Bounds {
    pub x: i64,
    pub y: i64,
    pub cx: i64,
    pub cy: i64,
}

/// Which edits an element supports.
#[derive(Debug, Clone, PartialEq, Eq)]
pub struct Editable {
    pub text: Option<EditableSupport>,
    pub bounds: Option<EditableSupport>,
    pub alt_text: Option<EditableSupport>,
    pub image: Option<EditableSupport>,
}

/// Whether one kind of edit is supported, and why not.
#[derive(Debug, Clone, PartialEq, Eq)]
pub struct EditableSupport {
    pub supported: bool,
    pub reason: Option<String>,
}

/// The text of an element: preview strings, shortened to a preview length and
/// marked when they were, plus the full texts used for search.
#[derive(Debug, Clone, PartialEq, Eq)]
pub struct TextView {
    pub plain: String,
    pub normalized: String,
    pub full_plain: String,
    pub full_normalized: String,
    pub paragraphs: Vec<Paragraph>,
    pub text_hash: String,
    pub truncation: Option<TruncationMarker>,
}

/// One paragraph of element text.
#[derive(Debug, Clone, PartialEq, Eq)]
pub struct Paragraph {
    pub text: String,
    pub full_text: String,
    pub runs: Vec<Run>,
    pub truncation: Option<TruncationMarker>,
}

/// One run of paragraph text.
#[derive(Debug, Clone, PartialEq, Eq)]
pub struct Run {
    pub text: String,
    pub full_text: String,
    pub style_summary: StyleSummary,
    pub truncation: Option<TruncationMarker>,
}

/// Direct run formatting an agent can see.
#[derive(Debug, Clone, PartialEq, Eq)]
pub struct StyleSummary {
    pub font_size_pt: Option<u32>,
    pub bold: Option<bool>,
    pub italic: Option<bool>,
    pub underline: Option<bool>,
    pub font_color_rgb: Option<String>,
    pub latin_typeface: Option<String>,
    pub language: Option<String>,
}

/// Metadata of a picture's media part.
#[derive(Debug, Clone, PartialEq, Eq)]
pub struct ImageView {
    pub relationship_id: String,
    pub media_part: String,
    pub content_type: String,
    pub byte_length: u64,
    pub checksum: String,
    pub intrinsic_size_px: Option<IntrinsicSizePx>,
    pub shared_media_ref_count: u32,
}

/// Pixel size of an image.
#[derive(Debug, Clone, Copy, PartialEq, Eq)]
pub struct IntrinsicSizePx {
    pub width: u32,
    pub height: u32,
}

/// Marks a preview string that was shortened.
#[derive(Debug, Clone, PartialEq, Eq)]
pub struct TruncationMarker {
    pub original_chars: u32,
    pub shown_chars: u32,
    pub detail: String,
}

/// A half-open character range `[start, end)` in element text.
#[derive(Debug, Clone, Copy, PartialEq, Eq)]
pub struct TextSpan {
    pub start: u32,
    pub end: u32,
}

/// Where a find-text request searches.
#[derive(Debug, Clone, PartialEq, Eq)]
pub enum FindTextScope {
    Deck,
    Slide { slide_id: String },
}

/// Table cell coordinates of a text match.
#[derive(Debug, Clone, Copy, PartialEq, Eq)]
pub struct TableCellRef {
    pub row: u32,
    pub col: u32,
}

/// The runs a text span covers.
#[derive(Debug, Clone, PartialEq, Eq)]
pub struct FindTextRunSelector {
    pub paragraph_index: u32,
    pub run_index: u32,
    pub run_end_index: Option<u32>,
    pub text_hash: Option<String>,
}

} // verus!
