//! Patch target selectors, selector guards, and the checks that a resolved
//! target still matches the guards an agent captured from a view.
use vstd::prelude::*;
use crate::error::{EditError, ErrorLocation};
use crate::schemas::ErrorCode;
use crate::text::{has_prefix, owned, opt_owned, push_str, rview, sview, views};

verus! {

/// What a patch operation targets.
#[derive(Debug, Eq, PartialEq)]
pub enum Selector {
    ElementId { id: String, guards: Option<Guards>, run: Option<RunSelector> },
    SlideId { id: String, guards: Option<Guards> },
    MediaPart { part: Option<String>, guards: Option<Guards> },
    CoreProperties { part: String, guards: Option<Guards> },
}

/// A run range inside one paragraph of an element's text.
#[derive(Debug, Eq, PartialEq)]
pub struct RunSelector {
    pub paragraph_index: u32,
    pub run_index: u32,
    pub run_end_index: Option<u32>,
    pub text_hash: Option<String>,
}

/// Facts about the target that must still hold when a patch is applied.
#[derive(Debug, Eq, PartialEq)]
pub struct Guards {
    pub slide_id: Option<String>,
    pub kind: Option<String>,
    pub part: Option<String>,
    pub text_hash: Option<String>,
    pub fingerprint: Option<String>,
    pub part_checksum: Option<String>,
}

/// The kind of a drawable shape-tree element.
#[derive(Clone, Copy, Debug, Eq, PartialEq)]
pub enum ShapeKind {
    TextBox,
    Shape,
    Picture,
    Group,
    GraphicFrameChart,
    GraphicFrameTable,
    GraphicFrameDiagram,
    GraphicFrameOle,
    GraphicFrameOther,
    Connector,
    Other,
}

/// A slide a selector resolved to.
#[derive(Clone, Debug, Eq, PartialEq)]
pub struct ResolvedSlide {
    pub slide_id: String,
    pub part: String,
}

/// An element a selector resolved to.
#[derive(Clone, Debug, Eq, PartialEq)]
pub struct ResolvedElement {
    pub slide_id: String,
    pub element_id: String,
    pub kind: ShapeKind,
    pub part: String,
    pub sp_tree_path: Vec<u32>,
    pub group_path: Vec<u32>,
    pub cnvpr_id: Option<i64>,
    pub text_hash: Option<String>,
    pub fingerprint: String,
}

/// A media part a selector resolved to.
#[derive(Clone, Debug, Eq, PartialEq)]
pub struct ResolvedMediaPart {
    pub part: String,
}

/// Any target a selector resolved to.
#[derive(Clone, Debug, Eq, PartialEq)]
pub enum ResolvedTarget {
    Slide(ResolvedSlide),
    Element(ResolvedElement),
    MediaPart(ResolvedMediaPart),
    CoreProperties(ResolvedMediaPart),
    NotesSlide(ResolvedNotesSlide),
}

/// The speaker notes of a slide a selector resolved to: the slide, its notes
/// part, and the id of the notes pseudo element.
#[derive(Clone, Debug, Eq, PartialEq)]
pub struct ResolvedNotesSlide {
    pub slide_id: String,
    pub slide_part: String,
    pub notes_part: String,
    pub element_id: String,
}

/// A relationship to a part as selectors read it: whether it targets a
/// part inside the package, the part it names, and whether the package holds
/// that part.
#[derive(Clone, Debug, Eq, PartialEq)]
pub struct PartRelationship {
    pub internal: bool,
    pub target_part: String,
    pub part_exists: bool,
}

/// An equal copy of an optional string.
pub fn clone_opt_string(o: &Option<String>) -> (r: Option<String>)
    ensures
        r == *o,
{
    match o {
        Some(s) => Some(s.clone()),
        None => None,
    }
}

impl Clone for Guards {
    fn clone(&self) -> (r: Self)
        ensures
            r == *self,
    {
        Guards {
            slide_id: clone_opt_string(&self.slide_id),
            kind: clone_opt_string(&self.kind),
            part: clone_opt_string(&self.part),
            text_hash: clone_opt_string(&self.text_hash),
            fingerprint: clone_opt_string(&self.fingerprint),
            part_checksum: clone_opt_string(&self.part_checksum),
        }
    }
}

impl Clone for RunSelector {
    fn clone(&self) -> (r: Self)
        ensures
            r == *self,
    {
        RunSelector {
            paragraph_index: self.paragraph_index,
            run_index: self.run_index,
            run_end_index: self.run_end_index,
            text_hash: clone_opt_string(&self.text_hash),
        }
    }
}

/// An equal copy of optional guards.
pub fn clone_opt_guards(o: &Option<Guards>) -> (r: Option<Guards>)
    ensures
        r == *o,
{
    match o {
        Some(g) => Some(g.clone()),
        None => None,
    }
}

/// An equal copy of an optional run selector.
pub fn clone_opt_run(o: &Option<RunSelector>) -> (r: Option<RunSelector>)
    ensures
        r == *o,
{
    match o {
        Some(g) => Some(g.clone()),
        None => None,
    }
}

impl Clone for Selector {
    fn clone(&self) -> (r: Self)
        ensures
            r == *self,
    {
        match self {
            Selector::ElementId { id, guards, run } => Selector::ElementId {
                id: id.clone(),
                guards: clone_opt_guards(guards),
                run: clone_opt_run(run),
            },
            Selector::SlideId { id, guards } => Selector::SlideId { id: id.clone(), guards: clone_opt_guards(guards) },
            Selector::MediaPart { part, guards } => Selector::MediaPart {
                part: clone_opt_string(part),
                guards: clone_opt_guards(guards),
            },
            Selector::CoreProperties { part, guards } => Selector::CoreProperties {
                part: part.clone(),
                guards: clone_opt_guards(guards),
            },
        }
    }
}

// ---------------------------------------------------------------------------
// Kind names
// ---------------------------------------------------------------------------

/// The kind name that agent views emit for a shape kind.
pub open spec fn kind_name(kind: ShapeKind) -> Seq<char> {
    match kind {
        ShapeKind::TextBox => "text_box"@,
        ShapeKind::Shape => "shape"@,
        ShapeKind::Picture => "image"@,
        ShapeKind::Group => "group"@,
        ShapeKind::GraphicFrameChart => "chart"@,
        ShapeKind::GraphicFrameTable => "table"@,
        ShapeKind::GraphicFrameDiagram => "diagram"@,
        ShapeKind::GraphicFrameOle => "ole"@,
        ShapeKind::GraphicFrameOther => "shape"@,
        ShapeKind::Connector => "shape"@,
        ShapeKind::Other => "shape"@,
    }
}

/// The older kind name still accepted by kind guards, where there is one.
pub open spec fn legacy_name(kind: ShapeKind) -> Option<Seq<char>> {
    match kind {
        ShapeKind::TextBox | ShapeKind::Shape | ShapeKind::Picture | ShapeKind::Group => None,
        ShapeKind::GraphicFrameChart | ShapeKind::GraphicFrameTable | ShapeKind::GraphicFrameDiagram
        | ShapeKind::GraphicFrameOle | ShapeKind::GraphicFrameOther => Some("graphic_frame"@),
        ShapeKind::Connector => Some("connector"@),
        ShapeKind::Other => Some("other"@),
    }
}

/// The kind name that agent views emit for a shape kind.
pub fn agent_view_kind_name(kind: ShapeKind) -> (r: &'static str)
    ensures
        r@ == kind_name(kind),
{
    match kind {
        ShapeKind::TextBox => "text_box",
        ShapeKind::Shape => "shape",
        ShapeKind::Picture => "image",
        ShapeKind::Group => "group",
        ShapeKind::GraphicFrameChart => "chart",
        ShapeKind::GraphicFrameTable => "table",
        ShapeKind::GraphicFrameDiagram => "diagram",
        ShapeKind::GraphicFrameOle => "ole",
        ShapeKind::GraphicFrameOther => "shape",
        ShapeKind::Connector | ShapeKind::Other => "shape",
    }
}

/// The older kind name still accepted by kind guards.
pub fn legacy_kind_name(kind: ShapeKind) -> (r: Option<&'static str>)
    ensures
        rview(r) == legacy_name(kind),
{
    match kind {
        ShapeKind::TextBox => None,
        ShapeKind::Shape => None,
        ShapeKind::Picture => None,
        ShapeKind::Group => None,
        ShapeKind::GraphicFrameChart | ShapeKind::GraphicFrameTable | ShapeKind::GraphicFrameDiagram
        | ShapeKind::GraphicFrameOle | ShapeKind::GraphicFrameOther => Some("graphic_frame"),
        ShapeKind::Connector => Some("connector"),
        ShapeKind::Other => Some("other"),
    }
}

/// Whether a kind guard accepts an element of the given kind: the guard may
/// name the agent-view kind or the legacy kind.
pub open spec fn kind_accepted(expected: Seq<char>, kind: ShapeKind) -> bool {
    expected == kind_name(kind) || legacy_name(kind) == Some(expected)
}

/// Whether a kind guard accepts an element of the given kind.
pub fn kind_guard_matches(expected: &str, kind: ShapeKind) -> (r: bool)
    ensures
        r == kind_accepted(expected@, kind),
{
    if crate::text::str_eq(expected, agent_view_kind_name(kind)) {
        return true;
    }
    match legacy_kind_name(kind) {
        Some(legacy) => crate::text::str_eq(expected, legacy),
        None => false,
    }
}

// ---------------------------------------------------------------------------
// Guard failures
// ---------------------------------------------------------------------------

/// The message of a guard whose expected value differs from the target.
pub open spec fn mismatch_message(name: Seq<char>, expected: Seq<char>, actual: Seq<char>) -> Seq<char> {
    "Selector guard "@ + name + " did not match the current target: expected "@ + expected
        + ", actual "@ + actual + "."@
}

/// The message of a guard given for a target type it does not apply to.
pub open spec fn inapplicable_message(name: Seq<char>) -> Seq<char> {
    "Selector guard "@ + name + " is not applicable to this target type."@
}

/// A failed guard: the message, the expected value and the actual value.
pub type GuardFailure = (Seq<char>, Seq<char>, Seq<char>);

/// The failure of an equality guard, `None` where it holds or is absent.
pub open spec fn eq_failure(name: Seq<char>, expected: Option<Seq<char>>, actual: Seq<char>) -> Option<GuardFailure> {
    match expected {
        Some(x) => if x != actual {
            Some((mismatch_message(name, x, actual), x, actual))
        } else {
            None
        },
        None => None,
    }
}

/// The failure of a guard on a value the target may lack (shown as `<none>`).
pub open spec fn optional_eq_failure(name: Seq<char>, expected: Option<Seq<char>>, actual: Option<Seq<char>>) -> Option<GuardFailure> {
    match expected {
        Some(x) => if actual != Some(x) {
            let shown = match actual {
                Some(a) => a,
                None => "<none>"@,
            };
            Some((mismatch_message(name, x, shown), x, shown))
        } else {
            None
        },
        None => None,
    }
}

/// The failure of a guard that does not apply to the target type.
pub open spec fn inapplicable_failure(name: Seq<char>, value: Option<Seq<char>>) -> Option<GuardFailure> {
    match value {
        Some(v) => Some((inapplicable_message(name), "<not applicable>"@, v)),
        None => None,
    }
}

/// The failure of a kind guard.
pub open spec fn kind_failure(name: Seq<char>, expected: Option<Seq<char>>, kind: ShapeKind) -> Option<GuardFailure> {
    match expected {
        Some(x) => if kind_accepted(x, kind) {
            None
        } else {
            Some((mismatch_message(name, x, kind_name(kind)), x, kind_name(kind)))
        },
        None => None,
    }
}

/// The first of two possible failures.
pub open spec fn first_failure(a: Option<GuardFailure>, b: Option<GuardFailure>) -> Option<GuardFailure> {
    if a is Some {
        a
    } else {
        b
    }
}

/// Whether an error reports the given guard failure for the given element.
pub open spec fn reports_failure(e: EditError, f: GuardFailure, element_id: Option<Seq<char>>) -> bool {
    &&& e.code == ErrorCode::SelectorGuardFailed
    &&& e.message@ == f.0
    &&& sview(e.location.expected) == Some(f.1)
    &&& sview(e.location.actual) == Some(f.2)
    &&& sview(e.location.element_id) == element_id
    &&& e.location.operation_id is None
    &&& e.location.slide_id is None
    &&& e.location.part is None
    &&& e.location.candidates@.len() == 0
}

/// The outcome a guard check owes for a possible failure.
pub open spec fn guard_outcome(r: Result<(), EditError>, f: Option<GuardFailure>, element_id: Option<Seq<char>>) -> bool {
    match f {
        None => r is Ok,
        Some(f) => r matches Err(e) && reports_failure(e, f, element_id),
    }
}

fn selector_guard_failed(message: String, element_id: Option<&str>, expected: Option<&str>, actual: Option<&str>) -> (e: EditError)
    ensures
        e.code == ErrorCode::SelectorGuardFailed,
        e.message@ == message@,
        sview(e.location.element_id) == rview(element_id),
        sview(e.location.expected) == rview(expected),
        sview(e.location.actual) == rview(actual),
        e.location.operation_id is None,
        e.location.slide_id is None,
        e.location.part is None,
        e.location.candidates@.len() == 0,
{
    let mut location = ErrorLocation::blank();
    location.element_id = opt_owned(element_id);
    location.expected = opt_owned(expected);
    location.actual = opt_owned(actual);
    EditError::new(ErrorCode::SelectorGuardFailed, message).with_location(location)
}

fn mismatch_text(name: &str, expected: &str, actual: &str) -> (r: String)
    ensures
        r@ == mismatch_message(name@, expected@, actual@),
{
    let mut m = owned("Selector guard ");
    push_str(&mut m, name);
    push_str(&mut m, " did not match the current target: expected ");
    push_str(&mut m, expected);
    push_str(&mut m, ", actual ");
    push_str(&mut m, actual);
    push_str(&mut m, ".");
    m
}

/// Checks an equality guard against the target's actual value.
pub fn guard_eq(guard_name: &str, expected: Option<&str>, actual: &str, element_id: Option<&str>) -> (r: Result<(), EditError>)
    ensures
        guard_outcome(r, eq_failure(guard_name@, rview(expected), actual@), rview(element_id)),
{
    match expected {
        Some(x) => {
            if crate::text::str_eq(x, actual) {
                Ok(())
            } else {
                Err(selector_guard_failed(mismatch_text(guard_name, x, actual), element_id, Some(x), Some(actual)))
            }
        },
        None => Ok(()),
    }
}

/// Checks a guard on a value the target may lack.
pub fn guard_optional_eq(guard_name: &str, expected: Option<&str>, actual: Option<&str>, element_id: Option<&str>) -> (r: Result<(), EditError>)
    ensures
        guard_outcome(r, optional_eq_failure(guard_name@, rview(expected), rview(actual)), rview(element_id)),
{
    match expected {
        Some(x) => {
            let same = match actual {
                Some(a) => crate::text::str_eq(a, x),
                None => false,
            };
            if same {
                Ok(())
            } else {
                let shown = match actual {
                    Some(a) => a,
                    None => "<none>",
                };
                Err(selector_guard_failed(mismatch_text(guard_name, x, shown), element_id, Some(x), Some(shown)))
            }
        },
        None => Ok(()),
    }
}

/// Rejects a guard that does not apply to the target type.
pub fn reject_inapplicable_guard(guard_name: &str, value: Option<&str>, element_id: Option<&str>) -> (r: Result<(), EditError>)
    ensures
        guard_outcome(r, inapplicable_failure(guard_name@, rview(value)), rview(element_id)),
{
    match value {
        Some(v) => {
            let mut m = owned("Selector guard ");
            push_str(&mut m, guard_name);
            push_str(&mut m, " is not applicable to this target type.");
            Err(selector_guard_failed(m, element_id, Some("<not applicable>"), Some(v)))
        },
        None => Ok(()),
    }
}

/// Checks a kind guard against the target's kind.
pub fn guard_kind(guard_name: &str, expected: Option<&str>, kind: ShapeKind, element_id: Option<&str>) -> (r: Result<(), EditError>)
    ensures
        guard_outcome(r, kind_failure(guard_name@, rview(expected), kind), rview(element_id)),
{
    match expected {
        None => Ok(()),
        Some(x) => {
            if kind_guard_matches(x, kind) {
                return Ok(());
            }
            let actual = agent_view_kind_name(kind);
            Err(selector_guard_failed(mismatch_text(guard_name, x, actual), element_id, Some(x), Some(actual)))
        },
    }
}

// ---------------------------------------------------------------------------
// Guards per target type
// ---------------------------------------------------------------------------

/// The first guard of a slide target that fails, in checking order.
pub open spec fn slide_guard_failure(g: Guards, t: ResolvedSlide) -> Option<GuardFailure> {
    first_failure(eq_failure("slide_id"@, sview(g.slide_id), t.slide_id@),
    first_failure(eq_failure("part"@, sview(g.part), t.part@),
    first_failure(inapplicable_failure("kind"@, sview(g.kind)),
    first_failure(inapplicable_failure("text_hash"@, sview(g.text_hash)),
    first_failure(inapplicable_failure("fingerprint"@, sview(g.fingerprint)),
    inapplicable_failure("part_checksum"@, sview(g.part_checksum)))))))
}

/// The first guard of an element target that fails, in checking order.
pub open spec fn element_guard_failure(g: Guards, t: ResolvedElement) -> Option<GuardFailure> {
    first_failure(eq_failure("slide_id"@, sview(g.slide_id), t.slide_id@),
    first_failure(kind_failure("kind"@, sview(g.kind), t.kind),
    first_failure(eq_failure("part"@, sview(g.part), t.part@),
    first_failure(optional_eq_failure("text_hash"@, sview(g.text_hash), sview(t.text_hash)),
    first_failure(eq_failure("fingerprint"@, sview(g.fingerprint), t.fingerprint@),
    inapplicable_failure("part_checksum"@, sview(g.part_checksum)))))))
}

/// The first guard of a media-part target that fails, in checking order.
pub open spec fn media_part_guard_failure(g: Guards, t: ResolvedMediaPart) -> Option<GuardFailure> {
    first_failure(eq_failure("part"@, sview(g.part), t.part@),
    first_failure(inapplicable_failure("slide_id"@, sview(g.slide_id)),
    first_failure(inapplicable_failure("kind"@, sview(g.kind)),
    first_failure(inapplicable_failure("text_hash"@, sview(g.text_hash)),
    first_failure(inapplicable_failure("fingerprint"@, sview(g.fingerprint)),
    inapplicable_failure("part_checksum"@, sview(g.part_checksum)))))))
}

/// The first failing check of a core-properties target: the selector's own
/// part first, then the guards in checking order.
pub open spec fn core_properties_failure(part: Seq<char>, g: Option<Guards>, resolved: Seq<char>, checksum: Seq<char>) -> Option<GuardFailure> {
    first_failure(eq_failure("part"@, Some(part), resolved),
    match g {
        None => None,
        Some(g) =>
            first_failure(eq_failure("part"@, sview(g.part), resolved),
            first_failure(eq_failure("part_checksum"@, sview(g.part_checksum), checksum),
            first_failure(inapplicable_failure("slide_id"@, sview(g.slide_id)),
            first_failure(inapplicable_failure("kind"@, sview(g.kind)),
            first_failure(inapplicable_failure("text_hash"@, sview(g.text_hash)),
            inapplicable_failure("fingerprint"@, sview(g.fingerprint))))))),
    })
}

/// Guards copied from an element as a view shows it — its slide, agent
/// kind, part, text hash and fingerprint — all hold for that element.
pub proof fn lemma_element_guards_from_view_hold(t: ResolvedElement)
    ensures
        element_guard_failure(Guards {
            slide_id: Some(t.slide_id),
            kind: None,
            part: Some(t.part),
            text_hash: t.text_hash,
            fingerprint: Some(t.fingerprint),
            part_checksum: None,
        }, t) is None,
        forall|g: Guards| g.slide_id == Some(t.slide_id) && g.part == Some(t.part) && g.text_hash == t.text_hash
            && g.fingerprint == Some(t.fingerprint) && g.part_checksum is None
            && (g.kind matches Some(k) ==> kind_accepted(k@, t.kind))
            ==> #[trigger] element_guard_failure(g, t) is None,
{
}

/// A kind guard accepts the kind name an agent view emits, and the legacy
/// name where the kind has one.
pub proof fn lemma_kind_names_accepted(kind: ShapeKind)
    ensures
        kind_accepted(kind_name(kind), kind),
        legacy_name(kind) matches Some(l) ==> kind_accepted(l, kind),
{
}

/// Checks the guards of a selector that resolved to a slide.
pub fn check_slide_guards(guards: Option<&Guards>, target: &ResolvedSlide) -> (r: Result<(), EditError>)
    ensures
        match guards {
            None => r is Ok,
            Some(g) => guard_outcome(r, slide_guard_failure(*g, *target), None),
        },
{
    let g = match guards {
        None => return Ok(()),
        Some(g) => g,
    };
    let none: Option<&str> = None;
    if let Err(e) = guard_eq("slide_id", crate::text::opt_as_str(&g.slide_id), target.slide_id.as_str(), none) {
        return Err(e);
    }
    if let Err(e) = guard_eq("part", crate::text::opt_as_str(&g.part), target.part.as_str(), none) {
        return Err(e);
    }
    if let Err(e) = reject_inapplicable_guard("kind", crate::text::opt_as_str(&g.kind), none) {
        return Err(e);
    }
    if let Err(e) = reject_inapplicable_guard("text_hash", crate::text::opt_as_str(&g.text_hash), none) {
        return Err(e);
    }
    if let Err(e) = reject_inapplicable_guard("fingerprint", crate::text::opt_as_str(&g.fingerprint), none) {
        return Err(e);
    }
    reject_inapplicable_guard("part_checksum", crate::text::opt_as_str(&g.part_checksum), none)
}

/// Checks the guards of a selector that resolved to an element.
pub fn check_element_guards(guards: Option<&Guards>, target: &ResolvedElement) -> (r: Result<(), EditError>)
    ensures
        match guards {
            None => r is Ok,
            Some(g) => guard_outcome(r, element_guard_failure(*g, *target), Some(target.element_id@)),
        },
{
    let g = match guards {
        None => return Ok(()),
        Some(g) => g,
    };
    let id = Some(target.element_id.as_str());
    if let Err(e) = guard_eq("slide_id", crate::text::opt_as_str(&g.slide_id), target.slide_id.as_str(), id) {
        return Err(e);
    }
    if let Err(e) = guard_kind("kind", crate::text::opt_as_str(&g.kind), target.kind, id) {
        return Err(e);
    }
    if let Err(e) = guard_eq("part", crate::text::opt_as_str(&g.part), target.part.as_str(), id) {
        return Err(e);
    }
    if let Err(e) = guard_optional_eq("text_hash", crate::text::opt_as_str(&g.text_hash), crate::text::opt_as_str(&target.text_hash), id) {
        return Err(e);
    }
    if let Err(e) = guard_eq("fingerprint", crate::text::opt_as_str(&g.fingerprint), target.fingerprint.as_str(), id) {
        return Err(e);
    }
    reject_inapplicable_guard("part_checksum", crate::text::opt_as_str(&g.part_checksum), id)
}

/// Checks the guards of a selector that resolved to a media part.
pub fn check_media_part_guards(guards: Option<&Guards>, target: &ResolvedMediaPart) -> (r: Result<(), EditError>)
    ensures
        match guards {
            None => r is Ok,
            Some(g) => guard_outcome(r, media_part_guard_failure(*g, *target), None),
        },
{
    let g = match guards {
        None => return Ok(()),
        Some(g) => g,
    };
    let none: Option<&str> = None;
    if let Err(e) = guard_eq("part", crate::text::opt_as_str(&g.part), target.part.as_str(), none) {
        return Err(e);
    }
    if let Err(e) = reject_inapplicable_guard("slide_id", crate::text::opt_as_str(&g.slide_id), none) {
        return Err(e);
    }
    if let Err(e) = reject_inapplicable_guard("kind", crate::text::opt_as_str(&g.kind), none) {
        return Err(e);
    }
    if let Err(e) = reject_inapplicable_guard("text_hash", crate::text::opt_as_str(&g.text_hash), none) {
        return Err(e);
    }
    if let Err(e) = reject_inapplicable_guard("fingerprint", crate::text::opt_as_str(&g.fingerprint), none) {
        return Err(e);
    }
    reject_inapplicable_guard("part_checksum", crate::text::opt_as_str(&g.part_checksum), none)
}

/// Checks a core-properties selector against the part the package root
/// relationship resolves to and that part's checksum.
pub fn check_core_properties_guards(part: &str, guards: Option<&Guards>, resolved: &str, checksum: &str) -> (r: Result<(), EditError>)
    ensures
        guard_outcome(r, core_properties_failure(part@, match guards { Some(g) => Some(*g), None => None }, resolved@, checksum@), None),
{
    let none: Option<&str> = None;
    if let Err(e) = guard_eq("part", Some(part), resolved, none) {
        return Err(e);
    }
    let g = match guards {
        None => return Ok(()),
        Some(g) => g,
    };
    if let Err(e) = guard_eq("part", crate::text::opt_as_str(&g.part), resolved, none) {
        return Err(e);
    }
    if let Err(e) = guard_eq("part_checksum", crate::text::opt_as_str(&g.part_checksum), checksum, none) {
        return Err(e);
    }
    if let Err(e) = reject_inapplicable_guard("slide_id", crate::text::opt_as_str(&g.slide_id), none) {
        return Err(e);
    }
    if let Err(e) = reject_inapplicable_guard("kind", crate::text::opt_as_str(&g.kind), none) {
        return Err(e);
    }
    if let Err(e) = reject_inapplicable_guard("text_hash", crate::text::opt_as_str(&g.text_hash), none) {
        return Err(e);
    }
    reject_inapplicable_guard("fingerprint", crate::text::opt_as_str(&g.fingerprint), none)
}

// ---------------------------------------------------------------------------
// Exactly one match
// ---------------------------------------------------------------------------

/// The message when a selector matched nothing.
pub open spec fn not_found_message(target_type: Seq<char>, selector: Seq<char>) -> Seq<char> {
    "Selector for "@ + target_type + " "@ + selector + " resolved to 0 targets."@
}

/// The message when a selector matched several targets.
pub open spec fn ambiguous_message(target_type: Seq<char>, selector: Seq<char>, count: nat, candidates: Seq<Seq<char>>) -> Seq<char> {
    "Selector for "@ + target_type + " "@ + selector + " resolved to "@ + crate::text::decimal_text(count)
        + " targets; expected exactly one. Candidates: "@ + crate::text::joined(candidates, ", "@) + "."@
}

/// Takes the single match of a selector; zero matches are `selector_not_found`
/// and several are `selector_ambiguous`, listing each candidate's id.
pub fn exactly_one<T>(matches: Vec<T>, target_type: &str, selector: &str, element_id: Option<&str>, candidate_id: impl Fn(&T) -> String) -> (r: Result<T, EditError>)
    requires
        forall|t: &T| #[trigger] candidate_id.requires((t,)),
    ensures
        matches@.len() == 1 ==> r == Ok::<T, EditError>(matches@[0]),
        matches@.len() == 0 ==> (r matches Err(e) && {
            &&& e.code == ErrorCode::SelectorNotFound
            &&& e.message@ == not_found_message(target_type@, selector@)
            &&& sview(e.location.element_id) == rview(element_id)
            &&& e.location.candidates@.len() == 0
        }),
        matches@.len() > 1 ==> (r matches Err(e) && {
            &&& e.code == ErrorCode::SelectorAmbiguous
            &&& sview(e.location.element_id) == rview(element_id)
            &&& e.location.candidates@.len() == matches@.len()
            &&& (forall|k: int| 0 <= k < matches@.len() ==> candidate_id.ensures((&matches@[k],), #[trigger] e.location.candidates@[k]))
            &&& e.message@ == ambiguous_message(target_type@, selector@, matches@.len(), crate::text::views(e.location.candidates@))
        }),
{
    let count = matches.len();
    if count == 1 {
        let mut m = matches;
        let x = m.pop().unwrap();
        return Ok(x);
    }
    let mut location = ErrorLocation::blank();
    location.element_id = opt_owned(element_id);
    if count == 0 {
        let mut msg = owned("Selector for ");
        push_str(&mut msg, target_type);
        push_str(&mut msg, " ");
        push_str(&mut msg, selector);
        push_str(&mut msg, " resolved to 0 targets.");
        return Err(EditError::new(ErrorCode::SelectorNotFound, msg).with_location(location));
    }
    let mut candidates: Vec<String> = Vec::new();
    let mut i: usize = 0;
    while i < count
        invariant
            i <= count,
            count == matches@.len(),
            candidates@.len() == i,
            forall|t: &T| #[trigger] candidate_id.requires((t,)),
            forall|k: int| 0 <= k < i ==> candidate_id.ensures((&matches@[k],), #[trigger] candidates@[k]),
        decreases count - i,
    {
        let c = candidate_id(&matches[i]);
        candidates.push(c);
        i = i + 1;
    }
    let mut msg = owned("Selector for ");
    push_str(&mut msg, target_type);
    push_str(&mut msg, " ");
    push_str(&mut msg, selector);
    push_str(&mut msg, " resolved to ");
    crate::text::push_decimal(&mut msg, count as u64);
    push_str(&mut msg, " targets; expected exactly one. Candidates: ");
    let list = crate::text::join_strings(&candidates, ", ");
    push_str(&mut msg, list.as_str());
    push_str(&mut msg, ".");
    location.candidates = candidates;
    Err(EditError::new(ErrorCode::SelectorAmbiguous, msg).with_location(location))
}


// ---------------------------------------------------------------------------
// Slide and media-part selectors
// ---------------------------------------------------------------------------

/// The slides whose agent id is `id`, in slide order.
pub open spec fn slides_with_id(slides: Seq<ResolvedSlide>, id: Seq<char>) -> Seq<ResolvedSlide>
    decreases slides.len(),
{
    if slides.len() == 0 {
        Seq::empty()
    } else {
        let rest = slides_with_id(slides.drop_last(), id);
        if slides.last().slide_id@ == id {
            rest.push(slides.last())
        } else {
            rest
        }
    }
}

/// The agent ids of slides.
pub open spec fn slide_ids(slides: Seq<ResolvedSlide>) -> Seq<Seq<char>> {
    slides.map_values(|s: ResolvedSlide| s.slide_id@)
}

/// What a selector owes once its matches are known: the single match when
/// there is one and its guards hold, else the error of the first failing
/// guard, of no match, or of several.
pub open spec fn selected<T>(
    r: Result<T, EditError>,
    matches: Seq<T>,
    target: spec_fn(T) -> T,
    failure: spec_fn(T) -> Option<GuardFailure>,
    target_type: Seq<char>,
    selector: Seq<char>,
    candidates: Seq<Seq<char>>,
) -> bool {
    &&& matches.len() == 1 ==> match failure(matches[0]) {
        None => r == Ok::<T, EditError>(target(matches[0])),
        Some(f) => r matches Err(e) && reports_failure(e, f, None),
    }
    &&& matches.len() == 0 ==> (r matches Err(e) && e.code == ErrorCode::SelectorNotFound
        && e.message@ == not_found_message(target_type, selector))
    &&& matches.len() > 1 ==> (r matches Err(e) && e.code == ErrorCode::SelectorAmbiguous
        && e.message@ == ambiguous_message(target_type, selector, matches.len(), candidates))
}

/// Resolves a slide selector over the slides of a presentation in order,
/// each given by its agent id and part: exactly one slide must carry the
/// id, and the guards must hold for it.
pub fn resolve_slide(slides: Vec<ResolvedSlide>, id: &str, guards: Option<&Guards>) -> (r: Result<ResolvedSlide, EditError>)
    ensures
        selected(r, slides_with_id(slides@, id@), |s: ResolvedSlide| s,
            |s: ResolvedSlide| match guards { Some(g) => slide_guard_failure(*g, s), None => None },
            "slide"@, id@, slide_ids(slides_with_id(slides@, id@))),
{
    let ghost all = slides@;
    let mut rest = slides;
    let total = rest.len();
    assert(all.len() == total);
    let mut matches: Vec<ResolvedSlide> = Vec::new();
    let mut i: usize = 0;
    while rest.len() > 0
        invariant
            i <= all.len(),
            all.len() <= usize::MAX,
            rest@ == all.skip(i as int),
            matches@ == slides_with_id(all.take(i as int), id@),
        decreases rest.len(),
    {
        let s = rest.remove(0);
        proof {
            assert(all.take(i + 1).drop_last() =~= all.take(i as int));
            assert(all.take(i + 1).last() == s);
            assert(rest@ =~= all.skip(i + 1));
        }
        if crate::text::str_eq(s.slide_id.as_str(), id) {
            matches.push(s);
        }
        i = i + 1;
    }
    proof {
        assert(all.take(i as int) =~= all);
    }
    let ghost m = matches@;
    let target = match exactly_one(matches, "slide", id, None, |s: &ResolvedSlide| -> (r: String)
        ensures
            r@ == s.slide_id@,
        { owned(s.slide_id.as_str()) }) {
        Ok(t) => t,
        Err(e) => {
            proof {
                if m.len() > 1 {
                    assert(views(e.location.candidates@) =~= slide_ids(m));
                }
            }
            return Err(e);
        },
    };
    match check_slide_guards(guards, &target) {
        Ok(()) => Ok(target),
        Err(e) => Err(e),
    }
}

/// The candidate elements whose agent id is `id`, in order.
pub open spec fn elements_with_id(elements: Seq<ResolvedElement>, id: Seq<char>) -> Seq<ResolvedElement>
    decreases elements.len(),
{
    if elements.len() == 0 {
        Seq::empty()
    } else {
        let rest = elements_with_id(elements.drop_last(), id);
        if elements.last().element_id@ == id {
            rest.push(elements.last())
        } else {
            rest
        }
    }
}

/// The agent ids of elements.
pub open spec fn element_ids(elements: Seq<ResolvedElement>) -> Seq<Seq<char>> {
    elements.map_values(|e: ResolvedElement| e.element_id@)
}

/// Resolves an element selector over the elements of a presentation, each
/// as read from its slide in slide and shape-tree order: exactly one element
/// must carry the id, and the guards must hold for it. Errors name the id.
pub fn resolve_element(elements: Vec<ResolvedElement>, id: &str, guards: Option<&Guards>) -> (r: Result<ResolvedElement, EditError>)
    ensures
        ({
            let m = elements_with_id(elements@, id@);
            &&& m.len() == 1 ==> match guards {
                None => r == Ok::<ResolvedElement, EditError>(m[0]),
                Some(g) => match element_guard_failure(*g, m[0]) {
                    None => r == Ok::<ResolvedElement, EditError>(m[0]),
                    Some(f) => r matches Err(e) && reports_failure(e, f, Some(m[0].element_id@)),
                },
            }
            &&& m.len() == 0 ==> (r matches Err(e) && e.code == ErrorCode::SelectorNotFound
                && e.message@ == not_found_message("element"@, id@) && sview(e.location.element_id) == Some(id@))
            &&& m.len() > 1 ==> (r matches Err(e) && e.code == ErrorCode::SelectorAmbiguous
                && e.message@ == ambiguous_message("element"@, id@, m.len(), element_ids(m))
                && sview(e.location.element_id) == Some(id@))
        }),
{
    let ghost all = elements@;
    let mut rest = elements;
    let total = rest.len();
    assert(all.len() == total);
    let mut matches: Vec<ResolvedElement> = Vec::new();
    let mut i: usize = 0;
    while rest.len() > 0
        invariant
            i <= all.len(),
            all.len() <= usize::MAX,
            rest@ == all.skip(i as int),
            matches@ == elements_with_id(all.take(i as int), id@),
        decreases rest.len(),
    {
        let e = rest.remove(0);
        proof {
            assert(all.take(i + 1).drop_last() =~= all.take(i as int));
            assert(all.take(i + 1).last() == e);
            assert(rest@ =~= all.skip(i + 1));
        }
        if crate::text::str_eq(e.element_id.as_str(), id) {
            matches.push(e);
        }
        i = i + 1;
    }
    proof {
        assert(all.take(i as int) =~= all);
    }
    let ghost m = matches@;
    let target = match exactly_one(matches, "element", id, Some(id), |e: &ResolvedElement| -> (r: String)
        ensures
            r@ == e.element_id@,
        { owned(e.element_id.as_str()) }) {
        Ok(t) => t,
        Err(e) => {
            proof {
                if m.len() > 1 {
                    assert(views(e.location.candidates@) =~= element_ids(m));
                }
            }
            return Err(e);
        },
    };
    match check_element_guards(guards, &target) {
        Ok(()) => Ok(target),
        Err(e) => Err(e),
    }
}

/// Whether a package part is a media part a media-part selector picks:
/// under `ppt/media/`, and named by the selector, by zip entry name or part
/// name, when it names one.
pub open spec fn picks_media_part(zip_name: Seq<char>, part_name: Seq<char>, part: Option<Seq<char>>) -> bool {
    has_prefix(zip_name, "ppt/media/"@) && match part {
        None => true,
        Some(p) => p == zip_name || p == part_name,
    }
}

/// The media parts a selector picks among the package parts in order, each
/// given by its zip entry name and its part name.
pub open spec fn picked_media_parts(parts: Seq<(String, String)>, part: Option<Seq<char>>) -> Seq<ResolvedMediaPart>
    decreases parts.len(),
{
    if parts.len() == 0 {
        Seq::empty()
    } else {
        let rest = picked_media_parts(parts.drop_last(), part);
        let (zip_name, part_name) = parts.last();
        if picks_media_part(zip_name@, part_name@, part) {
            rest.push(ResolvedMediaPart { part: zip_name })
        } else {
            rest
        }
    }
}

/// The part names of media parts.
pub open spec fn media_part_names(parts: Seq<ResolvedMediaPart>) -> Seq<Seq<char>> {
    parts.map_values(|p: ResolvedMediaPart| p.part@)
}

/// Resolves a media-part selector over the package parts in order, each
/// given by its zip entry name and part name: exactly one media part must
/// match (any one when the selector names none), and the guards must hold.
pub fn resolve_media_part(parts: Vec<(String, String)>, part: Option<&str>, guards: Option<&Guards>) -> (r: Result<ResolvedMediaPart, EditError>)
    ensures
        selected(r, picked_media_parts(parts@, rview(part)), |p: ResolvedMediaPart| p,
            |p: ResolvedMediaPart| match guards { Some(g) => media_part_guard_failure(*g, p), None => None },
            "media part"@, match part { Some(p) => p@, None => "<any>"@ },
            media_part_names(picked_media_parts(parts@, rview(part)))),
{
    let ghost all = parts@;
    let mut rest = parts;
    let total = rest.len();
    assert(all.len() == total);
    let mut matches: Vec<ResolvedMediaPart> = Vec::new();
    let mut i: usize = 0;
    while rest.len() > 0
        invariant
            i <= all.len(),
            all.len() <= usize::MAX,
            rest@ == all.skip(i as int),
            matches@ == picked_media_parts(all.take(i as int), rview(part)),
        decreases rest.len(),
    {
        let (zip_name, part_name) = rest.remove(0);
        proof {
            assert(all.take(i + 1).drop_last() =~= all.take(i as int));
            assert(all.take(i + 1).last() == (zip_name, part_name));
            assert(rest@ =~= all.skip(i + 1));
        }
        let named = match part {
            None => true,
            Some(p) => crate::text::str_eq(p, zip_name.as_str()) || crate::text::str_eq(p, part_name.as_str()),
        };
        if crate::text::starts_with(zip_name.as_str(), "ppt/media/") && named {
            matches.push(ResolvedMediaPart { part: zip_name });
        }
        i = i + 1;
    }
    proof {
        assert(all.take(i as int) =~= all);
    }
    let ghost m = matches@;
    let selector = match part {
        Some(p) => p,
        None => "<any>",
    };
    let target = match exactly_one(matches, "media part", selector, None, |p: &ResolvedMediaPart| -> (r: String)
        ensures
            r@ == p.part@,
        { owned(p.part.as_str()) }) {
        Ok(t) => t,
        Err(e) => {
            proof {
                if m.len() > 1 {
                    assert(views(e.location.candidates@) =~= media_part_names(m));
                }
            }
            return Err(e);
        },
    };
    match check_media_part_guards(guards, &target) {
        Ok(()) => Ok(target),
        Err(e) => Err(e),
    }
}


// ---------------------------------------------------------------------------
// Speaker notes
// ---------------------------------------------------------------------------

/// Whether a location names a slide and a part and nothing else.
pub open spec fn at_slide_part(l: ErrorLocation, slide_id: Seq<char>, part: Seq<char>) -> bool {
    &&& sview(l.slide_id) == Some(slide_id)
    &&& sview(l.part) == Some(part)
    &&& l.element_id is None
    &&& l.operation_id is None
    &&& l.operation is None
    &&& l.expected is None
    &&& l.actual is None
    &&& l.candidates@.len() == 0
}

fn slide_part_location(slide_id: &str, part: &str) -> (l: ErrorLocation)
    ensures
        at_slide_part(l, slide_id@, part@),
{
    let mut l = ErrorLocation::blank();
    l.slide_id = Some(owned(slide_id));
    l.part = Some(owned(part));
    l
}

/// The notes of the slide a selector resolved to. The selector must have
/// resolved to a slide; the slide must have a notes relationship (the
/// first from its part, if any) that targets an internal part the package
/// holds. Notes slides are never created.
pub fn resolve_notes_slide(target: ResolvedTarget, relationship: Option<PartRelationship>) -> (r: Result<ResolvedNotesSlide, EditError>)
    ensures
        match target {
            ResolvedTarget::Slide(slide) => match relationship {
                None => r matches Err(e) && e.code == ErrorCode::UnsupportedEdit
                    && e.message@ == "Target slide does not have a speaker-notes part; V1 does not create notes slides."@
                    && at_slide_part(e.location, slide.slide_id@, slide.part@),
                Some(rel) => if !rel.internal {
                    r matches Err(e) && e.code == ErrorCode::UnsupportedEdit
                        && e.message@ == "Speaker-notes relationship must target an internal notes slide part."@
                        && at_slide_part(e.location, slide.slide_id@, slide.part@)
                } else if !rel.part_exists {
                    r matches Err(e) && e.code == ErrorCode::UnsupportedEdit
                        && e.message@ == "Speaker-notes part "@ + rel.target_part@ + " was not found."@
                        && at_slide_part(e.location, slide.slide_id@, rel.target_part@)
                } else {
                    r matches Ok(n) && n.slide_id@ == slide.slide_id@ && n.slide_part@ == slide.part@
                        && n.notes_part@ == rel.target_part@ && n.element_id@ == slide.slide_id@ + ":notes"@
                },
            },
            _ => r matches Err(e) && e.code == ErrorCode::SelectorGuardFailed
                && e.message@ == "Selector did not resolve to a slide."@
                && sview(e.location.expected) == Some("slide_id"@)
                && sview(e.location.actual) == Some("<different target type>"@),
        },
{
    let slide = match target {
        ResolvedTarget::Slide(slide) => slide,
        _ => {
            return Err(selector_guard_failed(
                owned("Selector did not resolve to a slide."),
                None,
                Some("slide_id"),
                Some("<different target type>"),
            ));
        },
    };
    let rel = match relationship {
        None => {
            return Err(EditError::new(
                ErrorCode::UnsupportedEdit,
                owned("Target slide does not have a speaker-notes part; V1 does not create notes slides."),
            ).with_location(slide_part_location(slide.slide_id.as_str(), slide.part.as_str())));
        },
        Some(rel) => rel,
    };
    if !rel.internal {
        return Err(EditError::new(
            ErrorCode::UnsupportedEdit,
            owned("Speaker-notes relationship must target an internal notes slide part."),
        ).with_location(slide_part_location(slide.slide_id.as_str(), slide.part.as_str())));
    }
    if !rel.part_exists {
        let mut m = owned("Speaker-notes part ");
        push_str(&mut m, rel.target_part.as_str());
        push_str(&mut m, " was not found.");
        return Err(EditError::new(ErrorCode::UnsupportedEdit, m)
            .with_location(slide_part_location(slide.slide_id.as_str(), rel.target_part.as_str())));
    }
    let mut element_id = owned(slide.slide_id.as_str());
    push_str(&mut element_id, ":notes");
    Ok(ResolvedNotesSlide { slide_id: slide.slide_id, slide_part: slide.part, notes_part: rel.target_part, element_id })
}

/// Resolves a core-properties selector naming `part`, given the package
/// root's core-properties relationship (the first, if any) and the checksum
/// of the part it targets: the relationship must target an internal part the
/// package holds, and the selector's part and guards must hold for it.
pub fn resolve_core_properties(part: &str, guards: Option<&Guards>, relationship: Option<PartRelationship>, checksum: &str) -> (r: Result<ResolvedMediaPart, EditError>)
    ensures
        match relationship {
            None => r matches Err(e) && e.code == ErrorCode::SelectorNotFound
                && e.message@ == "Package root relationships do not contain a core-properties relationship."@,
            Some(rel) => if !rel.internal {
                r matches Err(e) && e.code == ErrorCode::SelectorNotFound
                    && e.message@ == "Core-properties relationship must be internal."@
            } else if !rel.part_exists {
                r matches Err(e) && e.code == ErrorCode::SelectorNotFound
                    && e.message@ == "Core-properties part "@ + rel.target_part@ + " was not found."@
            } else {
                match core_properties_failure(part@, match guards { Some(g) => Some(*g), None => None }, rel.target_part@, checksum@) {
                    None => r matches Ok(t) && t.part@ == rel.target_part@,
                    Some(f) => r matches Err(e) && reports_failure(e, f, None),
                }
            },
        },
{
    let rel = match relationship {
        None => {
            return Err(EditError::new(
                ErrorCode::SelectorNotFound,
                owned("Package root relationships do not contain a core-properties relationship."),
            ));
        },
        Some(rel) => rel,
    };
    if !rel.internal {
        return Err(EditError::new(ErrorCode::SelectorNotFound, owned("Core-properties relationship must be internal.")));
    }
    if !rel.part_exists {
        let mut m = owned("Core-properties part ");
        push_str(&mut m, rel.target_part.as_str());
        push_str(&mut m, " was not found.");
        return Err(EditError::new(ErrorCode::SelectorNotFound, m));
    }
    match check_core_properties_guards(part, guards, rel.target_part.as_str(), checksum) {
        Ok(()) => Ok(ResolvedMediaPart { part: rel.target_part }),
        Err(e) => Err(e),
    }
}

} // verus!
