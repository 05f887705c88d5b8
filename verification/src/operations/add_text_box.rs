//! The `add_text_box` operation: the checks made before a text box is added,
//! and the attribute values it writes.
use vstd::prelude::*;
use crate::error::{EditError, ErrorLocation};
use crate::operations::add_image::operation_location;
use crate::operations::bounds::{bounds_fault, validate_bounds};
use crate::patch::{AddTextBoxOperation, Bounds, InsertOptions, TextAlign, TextBoxStyle};
use crate::schemas::ErrorCode;
use crate::text::{owned, opt_clone, push_str, sview};

verus! {

/// An `add_text_box` request as the operation runs it.
#[derive(Clone, Debug, Eq, PartialEq)]
pub struct AddTextBox {
    pub operation_id: String,
    pub slide_id: String,
    pub text: String,
    pub bounds: Bounds,
    pub name: Option<String>,
    pub alt_text: Option<String>,
    pub style: Option<TextBoxStyle>,
    pub insert: Option<InsertOptions>,
}

/// Whether a colour is six hexadecimal digits.
pub open spec fn is_rrggbb(c: Seq<char>) -> bool {
    c.len() == 6 && forall|k: int| 0 <= k < 6 ==> is_hex_digit(#[trigger] c[k])
}

/// Whether a character is an ASCII hexadecimal digit.
pub open spec fn is_hex_digit(c: char) -> bool {
    ('0' <= c && c <= '9') || ('a' <= c && c <= 'f') || ('A' <= c && c <= 'F')
}

/// Whether a style can be written: its colour, when given, is `RRGGBB`.
pub open spec fn style_ok(style: Option<TextBoxStyle>) -> bool {
    match style {
        Some(s) => match s.color_hex {
            Some(c) => is_rrggbb(c@),
            None => true,
        },
        None => true,
    }
}

/// Whether a colour text is six hexadecimal digits.
fn rrggbb(color: &str) -> (r: bool)
    ensures
        r == is_rrggbb(color@),
{
    let chars = crate::text::chars_of(color);
    if chars.len() != 6 {
        return false;
    }
    let mut i: usize = 0;
    while i < chars.len()
        invariant
            i <= chars@.len(),
            chars@ == color@,
            chars@.len() == 6,
            forall|k: int| 0 <= k < i ==> is_hex_digit(#[trigger] chars@[k]),
        decreases chars@.len() - i,
    {
        let c = chars[i];
        if !(('0' <= c && c <= '9') || ('a' <= c && c <= 'f') || ('A' <= c && c <= 'F')) {
            assert(!is_hex_digit(color@[i as int]));
            return false;
        }
        i = i + 1;
    }
    true
}

/// Checks a text-box style: a colour must be six hexadecimal digits.
pub fn validate_style(style: Option<&TextBoxStyle>) -> (r: Result<(), EditError>)
    ensures
        r is Ok <==> style_ok(match style { Some(s) => Some(*s), None => None }),
        r matches Err(e) ==> e.code == ErrorCode::InvalidInput && e.message@ == "add_text_box.style.color_hex must be RRGGBB."@,
{
    let s = match style {
        None => return Ok(()),
        Some(s) => s,
    };
    match &s.color_hex {
        None => Ok(()),
        Some(color) => if rrggbb(color.as_str()) {
            Ok(())
        } else {
            Err(EditError::new(ErrorCode::InvalidInput, owned("add_text_box.style.color_hex must be RRGGBB.")))
        },
    }
}

/// Whether a font size in points is one DrawingML can hold (ST_TextFontSize
/// allows 1 to 4000 points).
pub open spec fn font_size_ok(pt: u32) -> bool {
    1 <= pt && pt <= 4000
}

/// Whether a run style can be written: its font size, when given, is one
/// DrawingML can hold, and its colour, when given, is `RRGGBB`.
pub open spec fn run_style_ok(style: Option<TextBoxStyle>) -> bool {
    match style {
        Some(s) => (match s.font_size_pt {
            Some(pt) => font_size_ok(pt),
            None => true,
        }) && style_ok(Some(s)),
        None => true,
    }
}

/// The message of the first fault of a run style, if it has one: a font size
/// DrawingML cannot hold, then a colour that is not `RRGGBB`.
pub open spec fn run_style_error(context: Seq<char>, style: Option<TextBoxStyle>) -> Option<Seq<char>> {
    match style {
        None => None,
        Some(s) => if (s.font_size_pt matches Some(pt) && !font_size_ok(pt)) {
            Some(context + ".font_size_pt must be between 1 and 4000 points."@)
        } else if !style_ok(Some(s)) {
            Some(context + ".color_hex must be RRGGBB."@)
        } else {
            None
        },
    }
}

/// Checks run-property overrides; `context` names the field in messages.
pub fn validate_run_style(context: &str, style: Option<&TextBoxStyle>) -> (r: Result<(), EditError>)
    ensures
        r is Ok <==> run_style_ok(match style { Some(s) => Some(*s), None => None }),
        match run_style_error(context@, match style { Some(s) => Some(*s), None => None }) {
            None => r is Ok,
            Some(m) => r matches Err(e) && e.code == ErrorCode::InvalidInput && e.message@ == m,
        },
{
    let s = match style {
        None => return Ok(()),
        Some(s) => s,
    };
    if let Some(pt) = s.font_size_pt {
        if pt < 1 || pt > 4000 {
            let mut m = owned(context);
            push_str(&mut m, ".font_size_pt must be between 1 and 4000 points.");
            return Err(EditError::new(ErrorCode::InvalidInput, m));
        }
    }
    match &s.color_hex {
        None => Ok(()),
        Some(color) => if rrggbb(color.as_str()) {
            Ok(())
        } else {
            let mut m = owned(context);
            push_str(&mut m, ".color_hex must be RRGGBB.");
            Err(EditError::new(ErrorCode::InvalidInput, m))
        },
    }
}

/// The DrawingML value of a paragraph alignment.
pub fn align_value(align: TextAlign) -> (r: &'static str)
    ensures
        r@ == (match align {
            TextAlign::Left => "l"@,
            TextAlign::Center => "ctr"@,
            TextAlign::Right => "r"@,
        }),
{
    match align {
        TextAlign::Left => "l",
        TextAlign::Center => "ctr",
        TextAlign::Right => "r",
    }
}

/// The DrawingML value of a flag.
pub fn bool_value(value: bool) -> (r: &'static str)
    ensures
        r@ == (if value { "1"@ } else { "0"@ }),
{
    if value { "1" } else { "0" }
}

impl AddTextBox {
    /// The request an `add_text_box` operation makes, on the slide it names.
    pub fn from(operation: &AddTextBoxOperation) -> (r: AddTextBox)
        ensures
            r.operation_id@ == operation.operation_id@,
            r.slide_id@ == (match crate::patch::targets::slide_id_of(operation.slide_id@, operation.selector) {
                Some(x) => x,
                None => operation.slide_id@,
            }),
            r.text@ == operation.text@,
            r.bounds == operation.bounds,
            sview(r.name) == sview(operation.name),
            sview(r.alt_text) == sview(operation.alt_text),
            r.insert == operation.insert,
    {
        AddTextBox {
            operation_id: owned(operation.operation_id.as_str()),
            slide_id: owned(operation.target_slide_id()),
            text: owned(operation.text.as_str()),
            bounds: Bounds { x: operation.bounds.x, y: operation.bounds.y, cx: operation.bounds.cx, cy: operation.bounds.cy },
            name: opt_clone(&operation.name),
            alt_text: opt_clone(&operation.alt_text),
            style: operation.style.clone(),
            insert: match &operation.insert {
                Some(i) => Some(InsertOptions { z_order: i.z_order }),
                None => None,
            },
        }
    }

    /// Where an error of this operation arose.
    pub fn location(&self, element_id: Option<String>) -> (l: ErrorLocation)
        ensures
            operation_location(l, self.operation_id@, "add_text_box"@, Some(self.slide_id@), sview(element_id)),
    {
        let mut l = ErrorLocation::blank();
        l.slide_id = Some(owned(self.slide_id.as_str()));
        l.element_id = element_id;
        l.operation_id = Some(owned(self.operation_id.as_str()));
        l.operation = Some(owned("add_text_box"));
        l
    }

    /// Checks the bounds and the style of the new text box.
    pub fn validate(&self) -> (r: Result<(), EditError>)
        ensures
            r is Ok <==> bounds_fault(self.bounds) == 0 && style_ok(self.style),
            r matches Err(e) ==> operation_location(e.location, self.operation_id@, "add_text_box"@, Some(self.slide_id@), None),
            bounds_fault(self.bounds) != 0 ==> (r matches Err(e) && e.code == ErrorCode::InvalidBounds),
            bounds_fault(self.bounds) == 0 && !style_ok(self.style) ==> (r matches Err(e) && e.code == ErrorCode::InvalidInput),
    {
        if let Err(e) = validate_bounds(&self.bounds) {
            return Err(e.with_location(self.location(None)));
        }
        let style = match &self.style {
            Some(s) => Some(s),
            None => None,
        };
        match validate_style(style) {
            Ok(()) => Ok(()),
            Err(e) => Err(e.with_location(self.location(None))),
        }
    }
}

} // verus!
