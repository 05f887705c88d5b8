//! View requests and the pieces of element projection that do not read the
//! package: view modes, editability, kind mapping, and small value rules.
use vstd::prelude::*;
use vstd::string::StringSliceAdditionalSpecFns;
use crate::agent_view::{ElementPageView, ElementView, SlideView, Capabilities, Editable, EditableSupport, ElementKind, FindTextScope, Paragraph, Run, StyleSummary, TextView, TruncationMarker};
use crate::agent_view::search::{merge_truncation, paragraph_search_text, run_search_text, search_text, truncate_text};
use crate::agent_view::pagination::{
    bounded_limit, cursor_token, page_end, page_ok, paginate, spec_bounded_limit, scope_salt, spec_start_offset, token_bytes, view_salt, CursorScope, ViewMeta,
};
use crate::selectors::ShapeKind;
use crate::schemas::JsonError;
use crate::text::{decimal_text, opt_clone, owned, push_str, sview};

verus! {

/// The kinds of agent view.
#[derive(Debug, Clone, Copy, PartialEq, Eq)]
pub enum ViewMode {
    DeckSummary,
    SlidePage,
    SlideDetail,
    ElementDetail,
    MediaMetadata,
    ValidationReport,
}

/// The wire token of a view mode.
pub open spec fn mode_token(mode: ViewMode) -> Seq<char> {
    match mode {
        ViewMode::DeckSummary => "deck_summary"@,
        ViewMode::SlidePage => "slide_page"@,
        ViewMode::SlideDetail => "slide_detail"@,
        ViewMode::ElementDetail => "element_detail"@,
        ViewMode::MediaMetadata => "media_metadata"@,
        ViewMode::ValidationReport => "validation_report"@,
    }
}

impl ViewMode {
    /// The wire token of the view mode.
    pub fn as_token(self) -> (r: &'static str)
        ensures
            r@ == mode_token(self),
    {
        match self {
            ViewMode::DeckSummary => "deck_summary",
            ViewMode::SlidePage => "slide_page",
            ViewMode::SlideDetail => "slide_detail",
            ViewMode::ElementDetail => "element_detail",
            ViewMode::MediaMetadata => "media_metadata",
            ViewMode::ValidationReport => "validation_report",
        }
    }
}

/// A request for an agent view.
#[derive(Debug, Clone, PartialEq, Eq)]
pub struct ViewRequest {
    pub mode: ViewMode,
    pub include_elements: bool,
    pub slide_id: Option<String>,
    pub slide_ids: Vec<String>,
    pub element_id: Option<String>,
    pub cursor: Option<String>,
    pub limit: Option<u32>,
}

/// What a view request asks to project once its checks pass.
#[derive(Debug, Clone, PartialEq, Eq)]
pub enum ViewTarget {
    Deck,
    SlidePage,
    Slide { slide_id: String },
    Element { slide_id: String, element_id: String },
    Media,
    Validation,
}

/// The position of the first `:` of a text at or after `i`.
pub open spec fn first_colon(id: Seq<char>, i: int) -> Option<int>
    decreases id.len() - i,
{
    if i < 0 || i >= id.len() {
        None
    } else if id[i] == ':' {
        Some(i)
    } else {
        first_colon(id, i + 1)
    }
}

/// The part of an element id before its first `:`, the id of its slide.
pub open spec fn slide_scope(id: Seq<char>) -> Option<Seq<char>> {
    match first_colon(id, 0) {
        Some(i) => Some(id.take(i)),
        None => None,
    }
}

fn slide_scope_of(id: &str) -> (r: Option<String>)
    ensures
        sview(r) == slide_scope(id@),
{
    let chars = crate::text::chars_of(id);
    let n = chars.len();
    let mut prefix = String::new();
    let mut i: usize = 0;
    while i < n
        invariant
            i <= n,
            n == chars@.len(),
            chars@ == id@,
            prefix@ == id@.take(i as int),
            first_colon(id@, 0) == first_colon(id@, i as int),
        decreases n - i,
    {
        let c = chars[i];
        if c == ':' {
            return Some(prefix);
        }
        crate::text::push_char(&mut prefix, c);
        proof {
            assert(id@.take(i + 1) =~= id@.take(i as int).push(c));
        }
        i = i + 1;
    }
    None
}

/// The page size and the target of a view request: the limit must be in
/// range for the mode; a slide detail must name its slide, and an element
/// detail a slide-scoped element (`slide-id:...`), whose slide it targets.
pub fn view_target(req: &ViewRequest) -> (r: Result<(u32, ViewTarget), JsonError>)
    ensures
        match spec_bounded_limit(mode_token(req.mode), req.limit) {
            None => r matches Err(e) && e is ResourceLimitExceeded,
            Some(limit) => match req.mode {
                ViewMode::DeckSummary => r == Ok::<(u32, ViewTarget), JsonError>((limit, ViewTarget::Deck)),
                ViewMode::SlidePage => r == Ok::<(u32, ViewTarget), JsonError>((limit, ViewTarget::SlidePage)),
                ViewMode::MediaMetadata => r == Ok::<(u32, ViewTarget), JsonError>((limit, ViewTarget::Media)),
                ViewMode::ValidationReport => r == Ok::<(u32, ViewTarget), JsonError>((limit, ViewTarget::Validation)),
                ViewMode::SlideDetail => match req.slide_id {
                    None => r matches Err(JsonError::Projection(m)) && m@ == "slide_detail requires slide_id."@,
                    Some(id) => r matches Ok((l, ViewTarget::Slide { slide_id })) && l == limit && slide_id@ == id@,
                },
                ViewMode::ElementDetail => match req.element_id {
                    None => r matches Err(JsonError::Projection(m)) && m@ == "element_detail requires element_id."@,
                    Some(id) => match slide_scope(id@) {
                        None => r matches Err(JsonError::Projection(m))
                            && m@ == "element_detail requires a slide-scoped element_id."@,
                        Some(scope) => r matches Ok((l, ViewTarget::Element { slide_id, element_id }))
                            && l == limit && slide_id@ == scope && element_id@ == id@,
                    },
                },
            },
        },
{
    let limit = match bounded_limit(req.mode.as_token(), req.limit) {
        Ok(l) => l,
        Err(e) => return Err(e),
    };
    match req.mode {
        ViewMode::DeckSummary => Ok((limit, ViewTarget::Deck)),
        ViewMode::SlidePage => Ok((limit, ViewTarget::SlidePage)),
        ViewMode::MediaMetadata => Ok((limit, ViewTarget::Media)),
        ViewMode::ValidationReport => Ok((limit, ViewTarget::Validation)),
        ViewMode::SlideDetail => match &req.slide_id {
            None => Err(JsonError::Projection(owned("slide_detail requires slide_id."))),
            Some(id) => Ok((limit, ViewTarget::Slide { slide_id: owned(id.as_str()) })),
        },
        ViewMode::ElementDetail => match &req.element_id {
            None => Err(JsonError::Projection(owned("element_detail requires element_id."))),
            Some(id) => match slide_scope_of(id.as_str()) {
                None => Err(JsonError::Projection(owned("element_detail requires a slide-scoped element_id."))),
                Some(slide_id) => Ok((limit, ViewTarget::Element { slide_id, element_id: owned(id.as_str()) })),
            },
        },
    }
}

/// A request to find text.
#[derive(Debug, Clone, PartialEq, Eq)]
pub struct FindTextRequest {
    pub query: String,
    pub scope: FindTextScope,
    pub cursor: Option<String>,
    pub limit: Option<u32>,
}

/// The operation names an agent may use.
pub fn operation_names() -> (r: Vec<String>)
    ensures
        r@.len() == 7,
        r@[0]@ == "replace_text"@,
        r@[1]@ == "add_text_box"@,
        r@[2]@ == "move_resize_element"@,
        r@[3]@ == "set_alt_text"@,
        r@[4]@ == "set_document_metadata"@,
        r@[5]@ == "add_image"@,
        r@[6]@ == "replace_image"@,
{
    let mut v: Vec<String> = Vec::new();
    v.push(owned("replace_text"));
    v.push(owned("add_text_box"));
    v.push(owned("move_resize_element"));
    v.push(owned("set_alt_text"));
    v.push(owned("set_document_metadata"));
    v.push(owned("add_image"));
    v.push(owned("replace_image"));
    v
}

/// What the editing surface offers: every operation, PNG, JPEG and GIF
/// media, and EMU units.
pub fn default_capabilities() -> (r: Capabilities)
    ensures
        r.operations@.len() == 7,
        r.operations@[0]@ == "replace_text"@,
        r.operations@[1]@ == "add_text_box"@,
        r.operations@[2]@ == "move_resize_element"@,
        r.operations@[3]@ == "set_alt_text"@,
        r.operations@[4]@ == "set_document_metadata"@,
        r.operations@[5]@ == "add_image"@,
        r.operations@[6]@ == "replace_image"@,
        r.media_content_types@.len() == 3,
        r.media_content_types@[0]@ == "image/png"@,
        r.media_content_types@[1]@ == "image/jpeg"@,
        r.media_content_types@[2]@ == "image/gif"@,
        r.units@ == "emu"@,
{
    let mut media: Vec<String> = Vec::new();
    media.push(owned("image/png"));
    media.push(owned("image/jpeg"));
    media.push(owned("image/gif"));
    Capabilities { operations: operation_names(), media_content_types: media, units: owned("emu") }
}

/// The metadata of a view that is not paginated.
pub fn view_meta(mode: &str, limit: u32) -> (r: ViewMeta)
    ensures
        r.mode@ == mode@,
        r.limit == limit,
        r.next_cursor is None,
        !r.truncated,
{
    ViewMeta { mode: owned(mode), limit, next_cursor: None, truncated: false }
}

/// The agent-facing kind of a shape kind.
pub open spec fn element_kind_of(kind: ShapeKind) -> ElementKind {
    match kind {
        ShapeKind::TextBox => ElementKind::TextBox,
        ShapeKind::Picture => ElementKind::Image,
        ShapeKind::Group => ElementKind::Group,
        ShapeKind::GraphicFrameChart => ElementKind::Chart,
        ShapeKind::GraphicFrameTable => ElementKind::Table,
        ShapeKind::GraphicFrameDiagram => ElementKind::Diagram,
        ShapeKind::GraphicFrameOle => ElementKind::Ole,
        ShapeKind::Shape | ShapeKind::GraphicFrameOther | ShapeKind::Connector | ShapeKind::Other => ElementKind::Shape,
    }
}

/// The agent-facing kind of a shape kind.
pub fn json_element_kind(kind: ShapeKind) -> (r: ElementKind)
    ensures
        r == element_kind_of(kind),
{
    match kind {
        ShapeKind::TextBox => ElementKind::TextBox,
        ShapeKind::Picture => ElementKind::Image,
        ShapeKind::Group => ElementKind::Group,
        ShapeKind::GraphicFrameChart => ElementKind::Chart,
        ShapeKind::GraphicFrameTable => ElementKind::Table,
        ShapeKind::GraphicFrameDiagram => ElementKind::Diagram,
        ShapeKind::GraphicFrameOle => ElementKind::Ole,
        ShapeKind::Shape | ShapeKind::GraphicFrameOther | ShapeKind::Connector | ShapeKind::Other => ElementKind::Shape,
    }
}

/// Why an element's bounds cannot be edited, by kind.
pub open spec fn unmovable_reason(kind: ShapeKind) -> Seq<char> {
    match kind {
        ShapeKind::Group => "group"@,
        ShapeKind::Connector => "connector"@,
        _ => "unbounded"@,
    }
}

/// Whether bounds can be edited, and why not; `movable` is whether the
/// kind has a DrawingML transform that a move or resize rewrites.
pub fn bounds_edit_support(kind: ShapeKind, movable: bool) -> (r: (bool, Option<&'static str>))
    ensures
        r.0 == movable,
        movable ==> r.1 is None,
        !movable ==> crate::text::rview(r.1) == Some(unmovable_reason(kind)),
{
    if movable {
        return (true, None);
    }
    let reason = match kind {
        ShapeKind::Group => "group",
        ShapeKind::Connector => "connector",
        ShapeKind::Other => "unbounded",
        _ => "unbounded",
    };
    (false, Some(reason))
}

/// How a picture's image can be edited.
#[derive(Clone, Copy, Debug, PartialEq, Eq)]
pub enum ImageEditSupport {
    Embedded,
    ExternalLink,
    UnresolvedPicture,
    UnresolvedRelationship,
}

/// Whether a support entry has the given flag and reason.
pub open spec fn support_is(s: Option<EditableSupport>, supported: bool, reason: Option<Seq<char>>) -> bool {
    s matches Some(x) && x.supported == supported && sview(x.reason) == reason
}

/// The reason an image cannot be replaced, by support.
pub open spec fn image_reason(support: ImageEditSupport) -> Option<Seq<char>> {
    match support {
        ImageEditSupport::Embedded => None,
        ImageEditSupport::ExternalLink => Some("external_link"@),
        ImageEditSupport::UnresolvedPicture => Some("unresolved_picture"@),
        ImageEditSupport::UnresolvedRelationship => Some("unresolved_relationship"@),
    }
}

fn support(supported: bool, reason: Option<&str>) -> (r: EditableSupport)
    ensures
        r.supported == supported,
        sview(r.reason) == crate::text::rview(reason),
{
    EditableSupport { supported, reason: crate::text::opt_owned(reason) }
}

/// Which edits an element supports. Text: the given support when there is
/// one, else supported for text-capable kinds, supported by cell for tables,
/// unsupported for other kinds with text, absent without text. Bounds: only
/// for movable elements with non-visual properties. Alt text: wherever there
/// are non-visual properties. Image: for pictures, supported when embedded.
/// `text_capable` and `movable` are the kind's capabilities.
pub fn editable(kind: ShapeKind, text_capable: bool, movable: bool, has_text: bool, has_cnvpr: bool, image_support: ImageEditSupport, text_support: Option<EditableSupport>) -> (r: Editable)
    ensures
        match text_support {
            Some(t) => r.text == Some(t),
            None => if has_text && text_capable {
                support_is(r.text, true, None)
            } else if has_text && kind == ShapeKind::GraphicFrameTable {
                support_is(r.text, true, Some("table_cell_coordinates_required"@))
            } else if has_text {
                support_is(r.text, false, Some("unsupported_kind"@))
            } else {
                r.text is None
            },
        },
        (movable && has_cnvpr) ==> support_is(r.bounds, true, None),
        !(movable && has_cnvpr) ==> r.bounds is None,
        has_cnvpr ==> support_is(r.alt_text, true, None),
        !has_cnvpr ==> r.alt_text is None,
        kind == ShapeKind::Picture ==> support_is(r.image, image_support == ImageEditSupport::Embedded, image_reason(image_support)),
        kind != ShapeKind::Picture ==> r.image is None,
{
    let (image_supported, image_reason_text): (bool, Option<&str>) = match image_support {
        ImageEditSupport::Embedded => (true, None),
        ImageEditSupport::ExternalLink => (false, Some("external_link")),
        ImageEditSupport::UnresolvedPicture => (false, Some("unresolved_picture")),
        ImageEditSupport::UnresolvedRelationship => (false, Some("unresolved_relationship")),
    };
    let (bounds_supported, bounds_reason) = bounds_edit_support(kind, movable);
    let is_table = matches!(kind, ShapeKind::GraphicFrameTable);
    let text = match text_support {
        Some(t) => Some(t),
        None => {
            if has_text && text_capable {
                Some(support(true, None))
            } else if has_text && is_table {
                Some(support(true, Some("table_cell_coordinates_required")))
            } else if has_text {
                Some(support(false, Some("unsupported_kind")))
            } else {
                None
            }
        },
    };
    let bounds = if bounds_supported && has_cnvpr { Some(support(bounds_supported, bounds_reason)) } else { None };
    let alt_text = if has_cnvpr { Some(support(true, None)) } else { None };
    let image = if matches!(kind, ShapeKind::Picture) { Some(support(image_supported, image_reason_text)) } else { None };
    Editable { text, bounds, alt_text, image }
}

/// The detail text of a SmartArt coverage warning, by reason.
pub fn diagram_text_coverage_warning_detail(reason: &str) -> (r: &'static str)
    ensures
        reason@ == "diagram_drawing_cache_text_absent"@ ==> r@
            == "V1 does not edit SmartArt text when the related drawing cache contains no DrawingML text paragraphs to keep synchronized with diagram data."@,
        reason@ != "diagram_drawing_cache_text_absent"@ ==> r@
            == "V1 does not edit SmartArt text when rendered drawing-cache paragraphs differ from diagram data and no modelId mapping proves which data node owns each visible paragraph."@,
{
    if crate::text::str_eq(reason, "diagram_drawing_cache_text_absent") {
        "V1 does not edit SmartArt text when the related drawing cache contains no DrawingML text paragraphs to keep synchronized with diagram data."
    } else {
        "V1 does not edit SmartArt text when rendered drawing-cache paragraphs differ from diagram data and no modelId mapping proves which data node owns each visible paragraph."
    }
}

/// A part name without its leading `/` characters.
pub fn trim_part(part_name: &str) -> (r: String)
    ensures
        r@ == crate::text::trim_slashes(part_name@),
{
    crate::text::trim_leading_slashes(part_name)
}

// ---------------------------------------------------------------------------
// Text projection
// ---------------------------------------------------------------------------

/// Preview length of an element's whole text.
pub const TEXT_PREVIEW_CHARS: usize = 4096;
/// Preview length of a paragraph's text.
pub const PARAGRAPH_PREVIEW_CHARS: usize = 1024;
/// Preview length of a run's text.
pub const RUN_PREVIEW_CHARS: usize = 1024;

/// Detail of the marker on a shortened plain text.
pub const PLAIN_TRUNCATION_DETAIL: &'static str = "Use element_detail for this element to inspect text context.";
/// Detail of the marker on a shortened normalized text.
pub const NORMALIZED_TRUNCATION_DETAIL: &'static str = "Use element_detail for this element to inspect normalized text context.";
/// Detail of the marker on a shortened paragraph.
pub const PARAGRAPH_TRUNCATION_DETAIL: &'static str = "Use element_detail for this element to inspect the full paragraph text.";
/// Detail of the marker on a shortened run.
pub const RUN_TRUNCATION_DETAIL: &'static str = "Use element_detail for this element to inspect the full run text.";

/// A text body as read from a shape: its plain and normalized text and its
/// paragraphs.
#[derive(Debug, Clone, PartialEq, Eq)]
pub struct TextBody {
    pub plain: String,
    pub normalized: String,
    pub paragraphs: Vec<TextBodyParagraph>,
}

/// One paragraph of a text body.
#[derive(Debug, Clone, PartialEq, Eq)]
pub struct TextBodyParagraph {
    pub text: String,
    pub runs: Vec<TextBodyRun>,
}

/// One run of a text body paragraph.
#[derive(Debug, Clone, PartialEq, Eq)]
pub struct TextBodyRun {
    pub text: String,
    pub style_summary: StyleSummary,
}

/// The first `limit` characters of a text.
pub open spec fn preview(t: Seq<char>, limit: int) -> Seq<char> {
    if t.len() <= limit {
        t
    } else {
        t.take(limit)
    }
}

/// A count as a marker holds it: capped at `u32::MAX`.
pub open spec fn capped(n: int) -> int {
    if n <= u32::MAX {
        n
    } else {
        u32::MAX as int
    }
}

/// `m` is the marker of a preview of `t` at `limit` characters: none when
/// nothing was dropped, else the original and shown counts and `detail`.
pub open spec fn marks(m: Option<TruncationMarker>, t: Seq<char>, limit: int, detail: Seq<char>) -> bool {
    if t.len() <= limit {
        m is None
    } else {
        m matches Some(x) && x.original_chars as int == capped(t.len() as int) && x.shown_chars as int == capped(limit)
            && x.detail@ == detail
    }
}

/// `a` carries the same formatting as `b`.
pub open spec fn style_copied(a: StyleSummary, b: StyleSummary) -> bool {
    &&& a.font_size_pt == b.font_size_pt
    &&& a.bold == b.bold
    &&& a.italic == b.italic
    &&& a.underline == b.underline
    &&& sview(a.font_color_rgb) == sview(b.font_color_rgb)
    &&& sview(a.latin_typeface) == sview(b.latin_typeface)
    &&& sview(a.language) == sview(b.language)
}

/// `r` is the view of the body run `src`.
pub open spec fn run_projected(r: Run, src: TextBodyRun) -> bool {
    &&& r.full_text@ == src.text@
    &&& r.text@ == preview(src.text@, RUN_PREVIEW_CHARS as int)
    &&& marks(r.truncation, src.text@, RUN_PREVIEW_CHARS as int, RUN_TRUNCATION_DETAIL@)
    &&& style_copied(r.style_summary, src.style_summary)
}

/// `p` is the view of the body paragraph `src`, run for run.
pub open spec fn paragraph_projected(p: Paragraph, src: TextBodyParagraph) -> bool {
    &&& p.full_text@ == src.text@
    &&& p.text@ == preview(src.text@, PARAGRAPH_PREVIEW_CHARS as int)
    &&& marks(p.truncation, src.text@, PARAGRAPH_PREVIEW_CHARS as int, PARAGRAPH_TRUNCATION_DETAIL@)
    &&& p.runs@.len() == src.runs@.len()
    &&& forall|j: int| 0 <= j < p.runs@.len() ==> run_projected(#[trigger] p.runs@[j], src.runs@[j])
}

/// `v` is the view of `body` with text hash `hash`: previews of the plain and
/// normalized text, the plain text's marker if it was shortened, else the
/// normalized text's, and the paragraphs in order.
pub open spec fn text_projected(v: TextView, body: TextBody, hash: Seq<char>) -> bool {
    &&& v.full_plain@ == body.plain@
    &&& v.full_normalized@ == body.normalized@
    &&& v.plain@ == preview(body.plain@, TEXT_PREVIEW_CHARS as int)
    &&& v.normalized@ == preview(body.normalized@, TEXT_PREVIEW_CHARS as int)
    &&& (if body.plain@.len() > TEXT_PREVIEW_CHARS {
        marks(v.truncation, body.plain@, TEXT_PREVIEW_CHARS as int, PLAIN_TRUNCATION_DETAIL@)
    } else {
        marks(v.truncation, body.normalized@, TEXT_PREVIEW_CHARS as int, NORMALIZED_TRUNCATION_DETAIL@)
    })
    &&& v.text_hash@ == hash
    &&& v.paragraphs@.len() == body.paragraphs@.len()
    &&& forall|i: int| 0 <= i < v.paragraphs@.len() ==> paragraph_projected(#[trigger] v.paragraphs@[i], body.paragraphs@[i])
}

fn copy_style(s: &StyleSummary) -> (r: StyleSummary)
    ensures
        style_copied(r, *s),
{
    StyleSummary {
        font_size_pt: s.font_size_pt,
        bold: s.bold,
        italic: s.italic,
        underline: s.underline,
        font_color_rgb: opt_clone(&s.font_color_rgb),
        latin_typeface: opt_clone(&s.latin_typeface),
        language: opt_clone(&s.language),
    }
}

fn project_run(run: &TextBodyRun) -> (r: Run)
    ensures
        run_projected(r, *run),
{
    let (text, truncation) = truncate_text(owned(run.text.as_str()), RUN_PREVIEW_CHARS, RUN_TRUNCATION_DETAIL);
    Run { text, full_text: owned(run.text.as_str()), style_summary: copy_style(&run.style_summary), truncation }
}

fn project_paragraph(paragraph: &TextBodyParagraph) -> (r: Paragraph)
    ensures
        paragraph_projected(r, *paragraph),
{
    let mut runs: Vec<Run> = Vec::new();
    let n = paragraph.runs.len();
    let mut j: usize = 0;
    while j < n
        invariant
            j <= n,
            n == paragraph.runs@.len(),
            runs@.len() == j,
            forall|k: int| 0 <= k < j ==> run_projected(#[trigger] runs@[k], paragraph.runs@[k]),
        decreases n - j,
    {
        runs.push(project_run(&paragraph.runs[j]));
        j = j + 1;
    }
    let (text, truncation) = truncate_text(owned(paragraph.text.as_str()), PARAGRAPH_PREVIEW_CHARS, PARAGRAPH_TRUNCATION_DETAIL);
    Paragraph { text, full_text: owned(paragraph.text.as_str()), runs, truncation }
}

/// The text view of a text body: previews of its texts, paragraphs and runs,
/// each shortened one marked, beside the full texts. `text_hash` is the hash
/// of the body's normalized text.
pub fn project_text_body(body: &TextBody, text_hash: String) -> (r: TextView)
    ensures
        text_projected(r, *body, text_hash@),
{
    let (plain, plain_marker) = truncate_text(owned(body.plain.as_str()), TEXT_PREVIEW_CHARS, PLAIN_TRUNCATION_DETAIL);
    let (normalized, normalized_marker) = truncate_text(owned(body.normalized.as_str()), TEXT_PREVIEW_CHARS, NORMALIZED_TRUNCATION_DETAIL);
    let truncation = merge_truncation(&plain_marker, &normalized_marker);
    let mut paragraphs: Vec<Paragraph> = Vec::new();
    let n = body.paragraphs.len();
    let mut i: usize = 0;
    while i < n
        invariant
            i <= n,
            n == body.paragraphs@.len(),
            paragraphs@.len() == i,
            forall|k: int| 0 <= k < i ==> paragraph_projected(#[trigger] paragraphs@[k], body.paragraphs@[k]),
        decreases n - i,
    {
        paragraphs.push(project_paragraph(&body.paragraphs[i]));
        i = i + 1;
    }
    TextView {
        plain,
        normalized,
        full_plain: owned(body.plain.as_str()),
        full_normalized: owned(body.normalized.as_str()),
        paragraphs,
        text_hash,
        truncation,
    }
}

/// Find-text searches the full texts of a projected body however short its
/// previews are: the text searched for the element, for each paragraph and
/// for each run is the body's own.
pub proof fn lemma_search_sees_full_text(v: TextView, body: TextBody, hash: Seq<char>)
    requires
        text_projected(v, body, hash),
    ensures
        search_text(v.full_plain@, v.plain@) == body.plain@,
        forall|i: int| 0 <= i < v.paragraphs@.len() ==> paragraph_search_text(#[trigger] v.paragraphs@[i]) == body.paragraphs@[i].text@,
        forall|i: int, j: int| 0 <= i < v.paragraphs@.len() && 0 <= j < v.paragraphs@[i].runs@.len()
            ==> run_search_text(#[trigger] v.paragraphs@[i].runs@[j]) == body.paragraphs@[i].runs@[j].text@,
{
    assert forall|i: int| 0 <= i < v.paragraphs@.len() implies paragraph_search_text(#[trigger] v.paragraphs@[i]) == body.paragraphs@[i].text@ by {
        assert(paragraph_projected(v.paragraphs@[i], body.paragraphs@[i]));
    }
    assert forall|i: int, j: int| 0 <= i < v.paragraphs@.len() && 0 <= j < v.paragraphs@[i].runs@.len()
        implies run_search_text(#[trigger] v.paragraphs@[i].runs@[j]) == body.paragraphs@[i].runs@[j].text@ by {
        assert(paragraph_projected(v.paragraphs@[i], body.paragraphs@[i]));
        assert(run_projected(v.paragraphs@[i].runs@[j], body.paragraphs@[i].runs@[j]));
    }
}

// ---------------------------------------------------------------------------
// Embedded element pages
// ---------------------------------------------------------------------------

/// The most elements a slide embeds in a slide page.
pub const EMBEDDED_SLIDE_ELEMENT_LIMIT: u32 = 50;

/// The detail of the marker on a slide's cut element list.
pub open spec fn embedded_page_detail(slide_id: Seq<char>) -> Seq<char> {
    "Request slide_detail for "@ + slide_id + " and pass next_cursor to continue elements."@
}

/// A slide with the first page of its elements embedded: at most
/// `EMBEDDED_SLIDE_ELEMENT_LIMIT` of them, and, when some were left out, a
/// marker whose cursor continues the list in a `slide_detail` view of the
/// slide. Fails only when the left-out count does not fit a `u32`.
pub fn cap_embedded_slide_elements(slide: SlideView, elements: Vec<ElementView>, document_id: &str, revision: u32) -> (r: Result<SlideView, JsonError>)
    ensures
        ({
            let n = elements@.len() as int;
            let shown = page_end(0, EMBEDDED_SLIDE_ELEMENT_LIMIT as int, n);
            if !page_ok(0, EMBEDDED_SLIDE_ELEMENT_LIMIT as int, n) {
                r matches Err(e) && e is InvalidCursor
            } else {
                r matches Ok(s) && {
                    &&& s.id == slide.id
                    &&& s.index == slide.index
                    &&& s.ppt_slide_id == slide.ppt_slide_id
                    &&& s.part == slide.part
                    &&& s.relationship_id == slide.relationship_id
                    &&& s.layout_part == slide.layout_part
                    &&& s.part_checksum == slide.part_checksum
                    &&& s.elements@ == elements@.take(shown)
                    &&& if shown < n {
                        s.elements_page matches Some(p) && {
                            &&& p.mode@ == "slide_detail"@
                            &&& p.limit == EMBEDDED_SLIDE_ELEMENT_LIMIT
                            &&& p.truncated
                            &&& p.omitted_count == n - shown
                            &&& p.next_cursor matches Some(c) && c@ == cursor_token(shown as u32,
                                view_salt(document_id@, revision, "slide_detail"@, Some(slide.id@)))
                            &&& p.detail@ == embedded_page_detail(slide.id@)
                        }
                    } else {
                        s.elements_page == slide.elements_page
                    }
                }
            }
        }),
{
    let mut slide = slide;
    let mut elements = elements;
    let scope = CursorScope {
        document_id,
        revision,
        mode: ViewMode::SlideDetail.as_token(),
        collection: Some(slide.id.as_str()),
    };
    proof {
        assert(scope_salt(scope) == view_salt(document_id@, revision, "slide_detail"@, Some(slide.id@)));
    }
    let (shown, meta, omitted_count) = match paginate(elements.as_slice(), EMBEDDED_SLIDE_ELEMENT_LIMIT, None, scope) {
        Ok((page, meta, omitted)) => (page.len(), meta, omitted),
        Err(e) => return Err(e),
    };
    elements.truncate(shown);
    if meta.truncated {
        let mut detail = owned("Request slide_detail for ");
        push_str(&mut detail, slide.id.as_str());
        push_str(&mut detail, " and pass next_cursor to continue elements.");
        slide.elements_page = Some(ElementPageView {
            mode: meta.mode,
            limit: meta.limit,
            next_cursor: meta.next_cursor,
            truncated: meta.truncated,
            omitted_count,
            detail,
        });
    }
    slide.elements = elements;
    Ok(slide)
}

/// One page of a slide's elements, in a view of the slide alone: the page
/// `paginate` cuts from `elements` under a cursor scoped to the slide, with
/// its paging metadata and the count of elements after the page.
pub fn paginate_slide_elements(
    slide: SlideView,
    elements: Vec<ElementView>,
    document_id: &str,
    revision: u32,
    mode: &str,
    slide_id: &str,
    limit: u32,
    cursor: Option<&str>,
) -> (r: Result<(SlideView, ViewMeta, u32), JsonError>)
    ensures
        ({
            let scope = CursorScope { document_id, revision, mode, collection: Some(slide_id) };
            match spec_start_offset(token_bytes(cursor), scope_salt(scope)) {
                None => r matches Err(e) && e is InvalidCursor,
                Some(start) => {
                    let len = elements@.len() as int;
                    let end = page_end(start as int, limit as int, len);
                    if !page_ok(start as int, limit as int, len) {
                        r matches Err(e) && e is InvalidCursor
                    } else {
                        r matches Ok((s, meta, omitted)) && {
                            &&& s.id == slide.id
                            &&& s.index == slide.index
                            &&& s.ppt_slide_id == slide.ppt_slide_id
                            &&& s.part == slide.part
                            &&& s.relationship_id == slide.relationship_id
                            &&& s.layout_part == slide.layout_part
                            &&& s.part_checksum == slide.part_checksum
                            &&& s.elements_page == slide.elements_page
                            &&& s.elements@ == elements@.subrange(start as int, end)
                            &&& meta.mode@ == mode@
                            &&& meta.limit == limit
                            &&& meta.truncated == (end < len)
                            &&& (meta.next_cursor matches Some(c) <==> end < len)
                            &&& (meta.next_cursor matches Some(c) ==> c@ == cursor_token(end as u32, scope_salt(scope)))
                            &&& omitted == len - end
                        }
                    }
                },
            }
        }),
{
    let mut slide = slide;
    let mut elements = elements;
    let scope = CursorScope { document_id, revision, mode, collection: Some(slide_id) };
    let ghost items = elements@;
    let (shown, meta, omitted) = match paginate(elements.as_slice(), limit, cursor, scope) {
        Ok((page, meta, omitted)) => (page.len(), meta, omitted),
        Err(e) => return Err(e),
    };
    let end = elements.len() - omitted as usize;
    let start = end - shown;
    elements.truncate(end);
    let page = elements.split_off(start);
    proof {
        assert(page@ =~= items.subrange(start as int, end as int));
    }
    slide.elements = page;
    Ok((slide, meta, omitted))
}

/// The cursor on a slide's cut element list, handed to a `slide_detail` page
/// of the same slide in the same document revision, starts that page at the
/// first element the list left out.
pub proof fn lemma_embedded_cursor_resumes(token: &str, scope: CursorScope, slide_id: Seq<char>, shown: u32)
    requires
        token@ == cursor_token(shown, view_salt(scope.document_id@, scope.revision, "slide_detail"@, Some(slide_id))),
        scope.mode@ == "slide_detail"@,
        scope.collection matches Some(c) && c@ == slide_id,
    ensures
        spec_start_offset(token_bytes(Some(token)), scope_salt(scope)) == Some(shown),
{
    assert(scope_salt(scope) == view_salt(scope.document_id@, scope.revision, "slide_detail"@, Some(slide_id)));
    crate::agent_view::pagination::lemma_cursor_roundtrip(shown, scope_salt(scope));
}

/// Whether a flag is off.
pub fn is_false(value: &bool) -> (r: bool)
    ensures
        r == !*value,
{
    !*value
}

/// The key under which cursors of a find-text request are issued: the
/// query's byte length and text, then the scope.
pub open spec fn cursor_collection(query: &str, scope: FindTextScope) -> Seq<char> {
    "query:"@ + decimal_text(query.spec_bytes().len()) + ":"@ + query@ + "\0scope:"@ + match scope {
        FindTextScope::Deck => "deck"@,
        FindTextScope::Slide { slide_id } => "slide:"@ + slide_id@,
    }
}

/// The key under which cursors of a find-text request are issued.
pub fn find_text_cursor_collection(query: &str, scope: &FindTextScope) -> (r: String)
    ensures
        r@ == cursor_collection(query, *scope),
{
    let mut r = owned("query:");
    let qlen = query.as_bytes().len();
    crate::text::push_decimal(&mut r, qlen as u64);
    push_str(&mut r, ":");
    push_str(&mut r, query);
    push_str(&mut r, "\0scope:");
    let ghost head = r@;
    proof {
        assert(qlen as nat == query.spec_bytes().len());
        assert(head == "query:"@ + decimal_text(query.spec_bytes().len()) + ":"@ + query@ + "\0scope:"@);
    }
    match scope {
        FindTextScope::Deck => push_str(&mut r, "deck"),
        FindTextScope::Slide { slide_id } => {
            push_str(&mut r, "slide:");
            push_str(&mut r, slide_id.as_str());
            proof {
                assert(r@ =~= head + ("slide:"@ + slide_id@));
            }
        },
    }
    r
}

// ---------------------------------------------------------------------------
// Integer attributes
// ---------------------------------------------------------------------------

/// The value of decimal digits.
pub open spec fn digits_value(d: Seq<char>) -> nat
    decreases d.len(),
{
    if d.len() == 0 {
        0
    } else {
        digits_value(d.drop_last()) * 10 + ((d.last() as int - 48) as nat)
    }
}

/// Whether a text is one or more decimal digits.
pub open spec fn all_digits(d: Seq<char>) -> bool {
    d.len() > 0 && forall|k: int| 0 <= k < d.len() ==> '0' <= #[trigger] d[k] && d[k] <= '9'
}

/// The `u32` a text spells in decimal, with an optional `+`.
pub open spec fn spec_parse_u32(s: Seq<char>) -> Option<u32> {
    let d = if s.len() > 0 && s[0] == '+' { s.drop_first() } else { s };
    if all_digits(d) && digits_value(d) <= u32::MAX {
        Some(digits_value(d) as u32)
    } else {
        None
    }
}

/// The `i64` a text spells in decimal, with an optional sign.
pub open spec fn spec_parse_i64(s: Seq<char>) -> Option<i64> {
    let neg = s.len() > 0 && s[0] == '-';
    let d = if s.len() > 0 && (s[0] == '+' || s[0] == '-') { s.drop_first() } else { s };
    if !all_digits(d) {
        None
    } else if neg && digits_value(d) <= 0x8000_0000_0000_0000 {
        Some((0 - digits_value(d)) as i64)
    } else if !neg && digits_value(d) <= i64::MAX {
        Some(digits_value(d) as i64)
    } else {
        None
    }
}

proof fn lemma_digits_grow(d: Seq<char>, c: char)
    requires
        '0' <= c && c <= '9',
    ensures
        digits_value(d.push(c)) >= digits_value(d),
        digits_value(d.push(c)) == digits_value(d) * 10 + (c as int - 48),
{
    assert(d.push(c).drop_last() =~= d);
}

/// Reads the digits after an optional sign: their value when it stays
/// within `max`, `None` when a character is not a digit, there are no
/// digits, or the value passes `max`.
fn read_digits(chars: &Vec<char>, from: usize, max: u64) -> (r: Option<u64>)
    requires
        from <= chars@.len(),
        max >= 9,
    ensures
        ({
            let d = chars@.skip(from as int);
            match r {
                Some(v) => all_digits(d) && v == digits_value(d) && v <= max,
                None => !(all_digits(d) && digits_value(d) <= max),
            }
        }),
{
    let n = chars.len();
    if from == n {
        return None;
    }
    let mut value: u64 = 0;
    let mut i = from;
    let ghost d = chars@.skip(from as int);
    while i < n
        invariant
            from <= i <= n,
            n == chars@.len(),
            d == chars@.skip(from as int),
            forall|k: int| 0 <= k < i - from ==> '0' <= #[trigger] d[k] && d[k] <= '9',
            value == digits_value(d.take(i - from)),
            value <= max,
            max >= 9,
        decreases n - i,
    {
        let c = chars[i];
        proof {
            assert(d[i - from] == c);
            assert(d.take(i - from + 1) =~= d.take(i - from).push(c));
        }
        if !('0' <= c && c <= '9') {
            return None;
        }
        proof {
            lemma_digits_grow(d.take(i - from), c);
        }
        let digit = (c as u32 - 48) as u64;
        if value > (max - digit) / 10 {
            proof {
                lemma_digits_prefix_bound(d, i - from + 1);
            }
            return None;
        }
        value = value * 10 + digit;
        i = i + 1;
    }
    proof {
        assert(d.take(n - from) =~= d);
    }
    Some(value)
}

/// A prefix of digits bounds the value of all digits from below.
proof fn lemma_digits_prefix_bound(d: Seq<char>, k: int)
    requires
        0 <= k <= d.len(),
        forall|j: int| 0 <= j < k ==> '0' <= #[trigger] d[j] && d[j] <= '9',
    ensures
        all_digits(d) ==> digits_value(d) >= digits_value(d.take(k)),
    decreases d.len() - k,
{
    if k < d.len() && all_digits(d) {
        lemma_digits_prefix_bound(d, k + 1);
        lemma_digits_grow(d.take(k), d[k]);
        assert(d.take(k + 1) =~= d.take(k).push(d[k]));
    } else if k == d.len() {
        assert(d.take(k) =~= d);
    }
}

/// Parses a `u32` attribute value.
pub fn parse_u32(value: &str) -> (r: Option<u32>)
    ensures
        r == spec_parse_u32(value@),
{
    let chars = crate::text::chars_of(value);
    let from: usize = if chars.len() > 0 && chars[0] == '+' { 1 } else { 0 };
    proof {
        if from == 1 {
            assert(chars@.skip(1) =~= value@.drop_first());
        } else {
            assert(chars@.skip(0) =~= value@);
        }
    }
    match read_digits(&chars, from, 4294967295u64) {
        Some(v) => Some(v as u32),
        None => None,
    }
}

/// Parses an `i64` attribute value.
pub fn parse_i64(value: &str) -> (r: Option<i64>)
    ensures
        r == spec_parse_i64(value@),
{
    let chars = crate::text::chars_of(value);
    let neg = chars.len() > 0 && chars[0] == '-';
    let from: usize = if chars.len() > 0 && (chars[0] == '+' || chars[0] == '-') { 1 } else { 0 };
    proof {
        if from == 1 {
            assert(chars@.skip(1) =~= value@.drop_first());
        } else {
            assert(chars@.skip(0) =~= value@);
        }
    }
    let max: u64 = if neg { 0x8000_0000_0000_0000u64 } else { 0x7FFF_FFFF_FFFF_FFFFu64 };
    match read_digits(&chars, from, max) {
        Some(v) => {
            if neg {
                if v == 0x8000_0000_0000_0000u64 {
                    Some(-9223372036854775807i64 - 1)
                } else {
                    Some(0 - (v as i64))
                }
            } else {
                Some(v as i64)
            }
        },
        None => None,
    }
}


/// The kind a view projects for an element is written under the same name as
/// the kind name selectors guard on, so a kind guard copied from a view
/// always matches the element it was copied from.
pub proof fn lemma_projected_kind_is_guard_name(kind: ShapeKind)
    ensures
        crate::agent_view::element_kind_name(element_kind_of(kind)) == crate::selectors::kind_name(kind),
{
}
} // verus!
