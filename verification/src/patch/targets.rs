//! How each operation names its target: a shorthand id, a selector object, or
//! both, which must then agree.
use vstd::prelude::*;
use crate::error::{EditError, ErrorLocation};
use crate::patch::{
    AddImageOperation, AddTextBoxOperation, MoveResizeElementOperation, ReplaceImageOperation,
    ReplaceTextOperation, SetAltTextOperation, SetDocumentMetadataOperation,
};
use crate::schemas::ErrorCode;
use crate::selectors::{RunSelector, Selector};
use crate::text::{owned, opt_owned, push_str, rview, sview};

verus! {

/// The selector an optional reference points to.
pub open spec fn deref_sel(s: Option<&Selector>) -> Option<Selector> {
    match s {
        Some(x) => Some(*x),
        None => None,
    }
}

/// The element an operation names: the shorthand when given, else the id of
/// an `element_id` selector.
pub open spec fn element_id_of(shorthand: Seq<char>, selector: Option<Selector>) -> Option<Seq<char>> {
    if shorthand.len() > 0 {
        Some(shorthand)
    } else {
        match selector {
            Some(Selector::ElementId { id, .. }) => Some(id@),
            _ => None,
        }
    }
}

/// The slide an operation names: the shorthand when given, else the id of a
/// `slide_id` selector.
pub open spec fn slide_id_of(shorthand: Seq<char>, selector: Option<Selector>) -> Option<Seq<char>> {
    if shorthand.len() > 0 {
        Some(shorthand)
    } else {
        match selector {
            Some(Selector::SlideId { id, .. }) => Some(id@),
            _ => None,
        }
    }
}

/// The element an operation names.
pub fn target_element_id<'a>(shorthand: &'a str, selector: Option<&'a Selector>) -> (r: Option<&'a str>)
    ensures
        rview(r) == element_id_of(shorthand@, deref_sel(selector)),
{
    if !shorthand.is_empty() {
        return Some(shorthand);
    }
    match selector {
        Some(Selector::ElementId { id, .. }) => Some(id.as_str()),
        _ => None,
    }
}

/// The slide an operation names.
pub fn target_slide_id<'a>(shorthand: &'a str, selector: Option<&'a Selector>) -> (r: Option<&'a str>)
    ensures
        rview(r) == slide_id_of(shorthand@, deref_sel(selector)),
{
    if !shorthand.is_empty() {
        return Some(shorthand);
    }
    match selector {
        Some(Selector::SlideId { id, .. }) => Some(id.as_str()),
        _ => None,
    }
}

/// Whether an error is the `invalid_input` conflict of an operation's target.
pub open spec fn is_conflict(e: EditError, operation_id: Seq<char>, element_id: Option<Seq<char>>, message: Seq<char>) -> bool {
    &&& e.code == ErrorCode::InvalidInput
    &&& e.message@ == message
    &&& sview(e.location.operation_id) == Some(operation_id)
    &&& sview(e.location.element_id) == element_id
    &&& e.location.slide_id is None
    &&& e.location.part is None
    &&& e.location.expected is None
    &&& e.location.actual is None
    &&& e.location.candidates@.len() == 0
}

fn selector_conflict(operation_id: &str, element_id: Option<&str>, message: String) -> (e: EditError)
    ensures
        is_conflict(e, operation_id@, rview(element_id), message@),
{
    let mut location = ErrorLocation::blank();
    location.operation_id = Some(owned(operation_id));
    location.element_id = opt_owned(element_id);
    EditError::new(ErrorCode::InvalidInput, message).with_location(location)
}

/// The conflict message of an element shorthand and a different selector id.
pub open spec fn element_mismatch_message(shorthand: Seq<char>, id: Seq<char>) -> Seq<char> {
    "Operation target conflict: element_id `"@ + shorthand + "` does not match selector id `"@ + id + "`."@
}

/// The conflict message of a slide shorthand and a different selector id.
pub open spec fn slide_mismatch_message(shorthand: Seq<char>, id: Seq<char>) -> Seq<char> {
    "Operation target conflict: slide_id `"@ + shorthand + "` does not match selector id `"@ + id + "`."@
}

/// The outcome owed for an element-targeting operation.
pub open spec fn element_target_result(r: Result<Selector, EditError>, operation_id: Seq<char>, shorthand: Seq<char>, selector: Option<Selector>) -> bool {
    match selector {
        Some(s) => match s {
            Selector::ElementId { id, .. } => if shorthand.len() == 0 || shorthand == id@ {
                r == Ok::<Selector, EditError>(s)
            } else {
                r matches Err(e) && is_conflict(e, operation_id, Some(shorthand), element_mismatch_message(shorthand, id@))
            },
            _ => r matches Err(e) && is_conflict(e, operation_id, element_id_of(shorthand, selector),
                "Operation selector must have type `element_id` for an element-targeting operation."@),
        },
        None => if shorthand.len() == 0 {
            r matches Err(e) && is_conflict(e, operation_id, None,
                "Operation must include either element_id shorthand or an element_id selector."@)
        } else {
            r matches Ok(Selector::ElementId { id, guards, run }) && id@ == shorthand && guards is None && run is None
        },
    }
}

/// The outcome owed for a slide-targeting operation.
pub open spec fn slide_target_result(r: Result<Selector, EditError>, operation_id: Seq<char>, shorthand: Seq<char>, selector: Option<Selector>) -> bool {
    match selector {
        Some(s) => match s {
            Selector::SlideId { id, .. } => if shorthand.len() == 0 || shorthand == id@ {
                r == Ok::<Selector, EditError>(s)
            } else {
                r matches Err(e) && is_conflict(e, operation_id, None, slide_mismatch_message(shorthand, id@))
            },
            _ => r matches Err(e) && is_conflict(e, operation_id, element_id_of(shorthand, selector),
                "Operation selector must have type `slide_id` for a slide-targeting operation."@),
        },
        None => if shorthand.len() == 0 {
            r matches Err(e) && is_conflict(e, operation_id, None,
                "Operation must include either slide_id shorthand or a slide_id selector."@)
        } else {
            r matches Ok(Selector::SlideId { id, guards }) && id@ == shorthand && guards is None
        },
    }
}

/// The selector of an element-targeting operation from its shorthand and
/// its selector object.
pub fn element_target_selector(operation_id: &str, shorthand: &str, selector: Option<&Selector>) -> (r: Result<Selector, EditError>)
    ensures
        element_target_result(r, operation_id@, shorthand@, deref_sel(selector)),
{
    match selector {
        Some(s) => match s {
            Selector::ElementId { id, .. } => {
                if shorthand.is_empty() || crate::text::str_eq(shorthand, id.as_str()) {
                    Ok(s.clone())
                } else {
                    let mut m = owned("Operation target conflict: element_id `");
                    push_str(&mut m, shorthand);
                    push_str(&mut m, "` does not match selector id `");
                    push_str(&mut m, id.as_str());
                    push_str(&mut m, "`.");
                    Err(selector_conflict(operation_id, Some(shorthand), m))
                }
            },
            _ => Err(selector_conflict(
                operation_id,
                target_element_id(shorthand, selector),
                owned("Operation selector must have type `element_id` for an element-targeting operation."),
            )),
        },
        None => {
            if shorthand.is_empty() {
                Err(selector_conflict(
                    operation_id,
                    None,
                    owned("Operation must include either element_id shorthand or an element_id selector."),
                ))
            } else {
                Ok(Selector::ElementId { id: owned(shorthand), guards: None, run: None })
            }
        },
    }
}

/// The selector of a slide-targeting operation from its shorthand and its
/// selector object.
pub fn slide_target_selector(operation_id: &str, shorthand: &str, selector: Option<&Selector>) -> (r: Result<Selector, EditError>)
    ensures
        slide_target_result(r, operation_id@, shorthand@, deref_sel(selector)),
{
    match selector {
        Some(s) => match s {
            Selector::SlideId { id, .. } => {
                if shorthand.is_empty() || crate::text::str_eq(shorthand, id.as_str()) {
                    Ok(s.clone())
                } else {
                    let mut m = owned("Operation target conflict: slide_id `");
                    push_str(&mut m, shorthand);
                    push_str(&mut m, "` does not match selector id `");
                    push_str(&mut m, id.as_str());
                    push_str(&mut m, "`.");
                    Err(selector_conflict(operation_id, None, m))
                }
            },
            _ => Err(selector_conflict(
                operation_id,
                target_element_id(shorthand, selector),
                owned("Operation selector must have type `slide_id` for a slide-targeting operation."),
            )),
        },
        None => {
            if shorthand.is_empty() {
                Err(selector_conflict(
                    operation_id,
                    None,
                    owned("Operation must include either slide_id shorthand or a slide_id selector."),
                ))
            } else {
                Ok(Selector::SlideId { id: owned(shorthand), guards: None })
            }
        },
    }
}

/// The outcome owed for the target of a `replace_text` operation, which
/// names either element content (element id, optionally a cell) or a
/// slide's speaker notes (slide id), never both.
pub open spec fn replace_text_target_result(r: Result<Selector, EditError>, op: ReplaceTextOperation) -> bool {
    let id = op.operation_id@;
    match op.selector {
        Some(s) => match s {
            Selector::ElementId { .. } => if op.slide_id@.len() == 0 {
                element_target_result(r, id, op.element_id@, op.selector)
            } else {
                r matches Err(e) && is_conflict(e, id, element_id_of(op.element_id@, op.selector),
                    "replace_text cannot combine an element_id selector with slide_id shorthand."@)
            },
            Selector::SlideId { .. } => if op.element_id@.len() == 0 && op.cell is None {
                slide_target_result(r, id, op.slide_id@, op.selector)
            } else {
                r matches Err(e) && is_conflict(e, id, None,
                    "replace_text cannot combine a slide_id selector with element_id shorthand or cell."@)
            },
            _ => r matches Err(e) && is_conflict(e, id, element_id_of(op.element_id@, op.selector),
                "replace_text selector must have type `element_id` or `slide_id`."@),
        },
        None => if op.slide_id@.len() > 0 && op.element_id@.len() > 0 {
            r matches Err(e) && is_conflict(e, id, Some(op.element_id@),
                "replace_text must target either slide_id notes or element_id content, not both."@)
        } else if op.slide_id@.len() > 0 && op.cell is Some {
            r matches Err(e) && is_conflict(e, id, None, "replace_text cannot combine slide_id notes with cell."@)
        } else if op.slide_id@.len() > 0 {
            slide_target_result(r, id, op.slide_id@, None)
        } else {
            element_target_result(r, id, op.element_id@, None)
        },
    }
}

fn replace_text_target_selector(operation: &ReplaceTextOperation) -> (r: Result<Selector, EditError>)
    ensures
        replace_text_target_result(r, *operation),
{
    let op_id = operation.operation_id.as_str();
    let sel = match &operation.selector {
        Some(s) => Some(s),
        None => None,
    };
    match sel {
        Some(s) => match s {
            Selector::ElementId { .. } => {
                if operation.slide_id.as_str().is_empty() {
                    element_target_selector(op_id, operation.element_id.as_str(), sel)
                } else {
                    Err(selector_conflict(
                        op_id,
                        target_element_id(operation.element_id.as_str(), sel),
                        owned("replace_text cannot combine an element_id selector with slide_id shorthand."),
                    ))
                }
            },
            Selector::SlideId { .. } => {
                if operation.element_id.as_str().is_empty() && operation.cell.is_none() {
                    slide_target_selector(op_id, operation.slide_id.as_str(), sel)
                } else {
                    Err(selector_conflict(
                        op_id,
                        None,
                        owned("replace_text cannot combine a slide_id selector with element_id shorthand or cell."),
                    ))
                }
            },
            _ => Err(selector_conflict(
                op_id,
                target_element_id(operation.element_id.as_str(), sel),
                owned("replace_text selector must have type `element_id` or `slide_id`."),
            )),
        },
        None => {
            if !operation.slide_id.as_str().is_empty() && !operation.element_id.as_str().is_empty() {
                Err(selector_conflict(
                    op_id,
                    Some(operation.element_id.as_str()),
                    owned("replace_text must target either slide_id notes or element_id content, not both."),
                ))
            } else if !operation.slide_id.as_str().is_empty() && operation.cell.is_some() {
                Err(selector_conflict(op_id, None, owned("replace_text cannot combine slide_id notes with cell.")))
            } else if !operation.slide_id.as_str().is_empty() {
                slide_target_selector(op_id, operation.slide_id.as_str(), None)
            } else {
                element_target_selector(op_id, operation.element_id.as_str(), None)
            }
        },
    }
}

/// The selector an optional selector field holds, borrowed.
fn sel_ref(s: &Option<Selector>) -> (r: Option<&Selector>)
    ensures
        deref_sel(r) == *s,
{
    match s {
        Some(x) => Some(x),
        None => None,
    }
}

impl ReplaceTextOperation {
    /// The selector this operation targets.
    pub fn target_selector(&self) -> (r: Result<Selector, EditError>)
        ensures
            replace_text_target_result(r, *self),
    {
        replace_text_target_selector(self)
    }

    /// The run range this replacement is scoped to: the selector's own run
    /// selector when it has one, else the operation's `run` field.
    pub fn run_selector(&self) -> (r: Option<&RunSelector>)
        ensures
            r == (match (self.selector, self.run) {
                (Some(Selector::ElementId { run: Some(run), .. }), _) => Some(&run),
                (_, Some(run)) => Some(&run),
                _ => None::<&RunSelector>,
            }),
    {
        match &self.selector {
            Some(Selector::ElementId { run: Some(run), .. }) => return Some(run),
            _ => {},
        }
        match &self.run {
            Some(run) => Some(run),
            None => None,
        }
    }

    /// The element this operation names, or the element shorthand.
    pub fn target_element_id(&self) -> (r: &str)
        ensures
            r@ == (match element_id_of(self.element_id@, self.selector) {
                Some(x) => x,
                None => self.element_id@,
            }),
    {
        match target_element_id(self.element_id.as_str(), sel_ref(&self.selector)) {
            Some(x) => x,
            None => self.element_id.as_str(),
        }
    }

    /// The slide this operation names, or the slide shorthand.
    pub fn target_slide_id(&self) -> (r: &str)
        ensures
            r@ == (match slide_id_of(self.slide_id@, self.selector) {
                Some(x) => x,
                None => self.slide_id@,
            }),
    {
        match target_slide_id(self.slide_id.as_str(), sel_ref(&self.selector)) {
            Some(x) => x,
            None => self.slide_id.as_str(),
        }
    }
}

impl AddTextBoxOperation {
    /// The slide selector this operation targets.
    pub fn target_selector(&self) -> (r: Result<Selector, EditError>)
        ensures
            slide_target_result(r, self.operation_id@, self.slide_id@, self.selector),
    {
        slide_target_selector(self.operation_id.as_str(), self.slide_id.as_str(), sel_ref(&self.selector))
    }

    /// The slide this operation names, or the slide shorthand.
    pub fn target_slide_id(&self) -> (r: &str)
        ensures
            r@ == (match slide_id_of(self.slide_id@, self.selector) {
                Some(x) => x,
                None => self.slide_id@,
            }),
    {
        match target_slide_id(self.slide_id.as_str(), sel_ref(&self.selector)) {
            Some(x) => x,
            None => self.slide_id.as_str(),
        }
    }
}

impl MoveResizeElementOperation {
    /// The element selector this operation targets.
    pub fn target_selector(&self) -> (r: Result<Selector, EditError>)
        ensures
            element_target_result(r, self.operation_id@, self.element_id@, self.selector),
    {
        element_target_selector(self.operation_id.as_str(), self.element_id.as_str(), sel_ref(&self.selector))
    }

    /// The element this operation names, or the element shorthand.
    pub fn target_element_id(&self) -> (r: &str)
        ensures
            r@ == (match element_id_of(self.element_id@, self.selector) {
                Some(x) => x,
                None => self.element_id@,
            }),
    {
        match target_element_id(self.element_id.as_str(), sel_ref(&self.selector)) {
            Some(x) => x,
            None => self.element_id.as_str(),
        }
    }
}

impl SetAltTextOperation {
    /// The element selector this operation targets.
    pub fn target_selector(&self) -> (r: Result<Selector, EditError>)
        ensures
            element_target_result(r, self.operation_id@, self.element_id@, self.selector),
    {
        element_target_selector(self.operation_id.as_str(), self.element_id.as_str(), sel_ref(&self.selector))
    }

    /// The element this operation names, or the element shorthand.
    pub fn target_element_id(&self) -> (r: &str)
        ensures
            r@ == (match element_id_of(self.element_id@, self.selector) {
                Some(x) => x,
                None => self.element_id@,
            }),
    {
        match target_element_id(self.element_id.as_str(), sel_ref(&self.selector)) {
            Some(x) => x,
            None => self.element_id.as_str(),
        }
    }
}

impl AddImageOperation {
    /// The slide selector this operation targets.
    pub fn target_selector(&self) -> (r: Result<Selector, EditError>)
        ensures
            slide_target_result(r, self.operation_id@, self.slide_id@, self.selector),
    {
        slide_target_selector(self.operation_id.as_str(), self.slide_id.as_str(), sel_ref(&self.selector))
    }

    /// The slide this operation names, or the slide shorthand.
    pub fn target_slide_id(&self) -> (r: &str)
        ensures
            r@ == (match slide_id_of(self.slide_id@, self.selector) {
                Some(x) => x,
                None => self.slide_id@,
            }),
    {
        match target_slide_id(self.slide_id.as_str(), sel_ref(&self.selector)) {
            Some(x) => x,
            None => self.slide_id.as_str(),
        }
    }
}

impl ReplaceImageOperation {
    /// The element selector this operation targets.
    pub fn target_selector(&self) -> (r: Result<Selector, EditError>)
        ensures
            element_target_result(r, self.operation_id@, self.element_id@, self.selector),
    {
        element_target_selector(self.operation_id.as_str(), self.element_id.as_str(), sel_ref(&self.selector))
    }

    /// The element this operation names, or the element shorthand.
    pub fn target_element_id(&self) -> (r: &str)
        ensures
            r@ == (match element_id_of(self.element_id@, self.selector) {
                Some(x) => x,
                None => self.element_id@,
            }),
    {
        match target_element_id(self.element_id.as_str(), sel_ref(&self.selector)) {
            Some(x) => x,
            None => self.element_id.as_str(),
        }
    }
}

impl SetDocumentMetadataOperation {
    /// The core-properties selector this operation targets.
    pub fn target_selector(&self) -> (r: Selector)
        ensures
            r == self.selector,
    {
        self.selector.clone()
    }
}

} // verus!
