//! The `replace_text` operation on element text, speaker notes and table
//! cells: the requests it runs, the checks on targets and text, and the run
//! selection within a paragraph.
use vstd::prelude::*;
use crate::error::{EditError, ErrorLocation};
use crate::patch::{FormatPolicy, ReplaceTextMode, ReplaceTextOperation, TableCellSelector, TextBoxStyle};
use crate::schemas::ErrorCode;
use crate::selectors::{ResolvedElement, RunSelector, ShapeKind};
use crate::text::{owned, opt_clone, push_str, sview};
use crate::operations::add_text_box::{run_style_error, validate_run_style};

verus! {

/// A `replace_text` request on element content.
#[derive(Clone, Debug, Eq, PartialEq)]
pub struct ReplaceText {
    pub operation_id: String,
    pub element_id: String,
    pub text: String,
    pub current_text_match: Option<String>,
    pub mode: ReplaceTextMode,
    pub format_policy: FormatPolicy,
    pub allow_formatting_simplification: bool,
    pub run: Option<RunSelector>,
    pub run_style: Option<TextBoxStyle>,
}

/// A `replace_text` request on a slide's speaker notes.
#[derive(Clone, Debug, Eq, PartialEq)]
pub struct ReplaceNotesText {
    pub operation_id: String,
    pub slide_id: String,
    pub text: String,
    pub current_text_match: Option<String>,
    pub run: Option<RunSelector>,
}

/// A `replace_text` request on a table cell.
#[derive(Clone, Debug, Eq, PartialEq)]
pub struct ReplaceTableCellText {
    pub operation_id: String,
    pub element_id: String,
    pub row: u32,
    pub col: u32,
    pub text: String,
    pub current_text_match: Option<String>,
    pub run: Option<RunSelector>,
}

/// The run range a `replace_text` operation selects.
pub open spec fn selected_run(op: ReplaceTextOperation) -> Option<RunSelector> {
    match (op.selector, op.run) {
        (Some(crate::selectors::Selector::ElementId { run: Some(run), .. }), _) => Some(run),
        (_, Some(run)) => Some(run),
        _ => None,
    }
}

fn clone_run(r: Option<&RunSelector>) -> (c: Option<RunSelector>)
    ensures
        c == (match r { Some(x) => Some(*x), None => None }),
{
    match r {
        Some(x) => Some(x.clone()),
        None => None,
    }
}

/// The element a `replace_text` operation names, or its shorthand.
pub open spec fn named_element(op: ReplaceTextOperation) -> Seq<char> {
    match crate::patch::targets::element_id_of(op.element_id@, op.selector) {
        Some(x) => x,
        None => op.element_id@,
    }
}

impl ReplaceText {
    /// The request a `replace_text` operation makes on element content: whole
    /// element and existing runs preserved unless it says otherwise.
    pub fn from(operation: &ReplaceTextOperation) -> (r: ReplaceText)
        ensures
            r.operation_id@ == operation.operation_id@,
            r.element_id@ == named_element(*operation),
            r.text@ == operation.text@,
            sview(r.current_text_match) == sview(operation.current_text_match),
            r.mode == (match operation.mode { Some(m) => m, None => ReplaceTextMode::WholeElement }),
            r.format_policy == (match operation.format_policy { Some(p) => p, None => FormatPolicy::PreserveExistingRuns }),
            r.allow_formatting_simplification == operation.allow_formatting_simplification,
            r.run == selected_run(*operation),
            r.run_style == operation.run_style,
    {
        ReplaceText {
            operation_id: owned(operation.operation_id.as_str()),
            element_id: owned(operation.target_element_id()),
            text: owned(operation.text.as_str()),
            current_text_match: opt_clone(&operation.current_text_match),
            mode: match operation.mode {
                Some(m) => m,
                None => ReplaceTextMode::WholeElement,
            },
            format_policy: match operation.format_policy {
                Some(p) => p,
                None => FormatPolicy::PreserveExistingRuns,
            },
            allow_formatting_simplification: operation.allow_formatting_simplification,
            run: clone_run(operation.run_selector()),
            run_style: match &operation.run_style {
                Some(s) => Some(clone_style(s)),
                None => None,
            },
        }
    }

    /// Where an error of this operation arose.
    pub fn location(&self, target: Option<&ResolvedElement>) -> (l: ErrorLocation)
        ensures
            sview(l.operation_id) == Some(self.operation_id@),
            sview(l.operation) == Some("replace_text"@),
            match target {
                Some(t) => sview(l.element_id) == Some(t.element_id@) && sview(l.part) == Some(t.part@)
                    && sview(l.slide_id) == Some(t.slide_id@),
                None => sview(l.element_id) == Some(self.element_id@) && l.part is None && l.slide_id is None,
            },
    {
        element_location(self.operation_id.as_str(), self.element_id.as_str(), target)
    }

    /// The resolved element must be the one the request names and hold text;
    /// `text_capable` is whether its kind takes replacement text.
    pub fn validate_target(&self, target: &ResolvedElement, text_capable: bool) -> (r: Result<(), EditError>)
        ensures
            r is Ok <==> target.element_id@ == self.element_id@ && text_capable,
            r matches Err(e) ==> (if target.element_id@ != self.element_id@ {
                e.code == ErrorCode::SelectorGuardFailed
            } else {
                e.code == ErrorCode::UnsupportedEdit
            }),
    {
        if !crate::text::str_eq(target.element_id.as_str(), self.element_id.as_str()) {
            return Err(EditError::new(ErrorCode::SelectorGuardFailed, owned("Resolved element does not match replace_text element_id."))
                .with_location(self.location(Some(target))));
        }
        if !text_capable {
            return Err(EditError::new(ErrorCode::UnsupportedEdit, owned("Target element is not text-capable."))
                .with_location(self.location(Some(target))));
        }
        Ok(())
    }
}

fn element_location(operation_id: &str, element_id: &str, target: Option<&ResolvedElement>) -> (l: ErrorLocation)
    ensures
        sview(l.operation_id) == Some(operation_id@),
        sview(l.operation) == Some("replace_text"@),
        match target {
            Some(t) => sview(l.element_id) == Some(t.element_id@) && sview(l.part) == Some(t.part@)
                && sview(l.slide_id) == Some(t.slide_id@),
            None => sview(l.element_id) == Some(element_id@) && l.part is None && l.slide_id is None,
        },
{
    let mut l = ErrorLocation::blank();
    match target {
        Some(t) => {
            l.part = Some(owned(t.part.as_str()));
            l.slide_id = Some(owned(t.slide_id.as_str()));
            l.element_id = Some(owned(t.element_id.as_str()));
        },
        None => {
            l.element_id = Some(owned(element_id));
        },
    }
    l.operation_id = Some(owned(operation_id));
    l.operation = Some(owned("replace_text"));
    l
}

/// An equal copy of a style.
pub fn clone_style(s: &TextBoxStyle) -> (r: TextBoxStyle)
    ensures
        r == *s,
{
    TextBoxStyle {
        font_size_pt: s.font_size_pt,
        bold: s.bold,
        italic: s.italic,
        font_family: crate::selectors::clone_opt_string(&s.font_family),
        color_hex: crate::selectors::clone_opt_string(&s.color_hex),
        align: s.align,
    }
}

impl ReplaceNotesText {
    /// The request a `replace_text` operation makes on speaker notes.
    pub fn from(operation: &ReplaceTextOperation) -> (r: ReplaceNotesText)
        ensures
            r.operation_id@ == operation.operation_id@,
            r.slide_id@ == (match crate::patch::targets::slide_id_of(operation.slide_id@, operation.selector) {
                Some(x) => x,
                None => operation.slide_id@,
            }),
            r.text@ == operation.text@,
            sview(r.current_text_match) == sview(operation.current_text_match),
            r.run == selected_run(*operation),
    {
        ReplaceNotesText {
            operation_id: owned(operation.operation_id.as_str()),
            slide_id: owned(operation.target_slide_id()),
            text: owned(operation.text.as_str()),
            current_text_match: opt_clone(&operation.current_text_match),
            run: clone_run(operation.run_selector()),
        }
    }

    /// The resolved notes slide must belong to the slide the request names.
    pub fn validate_target(&self, resolved_slide_id: &str) -> (r: Result<(), EditError>)
        ensures
            r is Ok <==> resolved_slide_id@ == self.slide_id@,
            r matches Err(e) ==> e.code == ErrorCode::SelectorGuardFailed,
    {
        if !crate::text::str_eq(resolved_slide_id, self.slide_id.as_str()) {
            let mut l = ErrorLocation::blank();
            l.slide_id = Some(owned(resolved_slide_id));
            l.operation_id = Some(owned(self.operation_id.as_str()));
            l.operation = Some(owned("replace_text"));
            return Err(EditError::new(ErrorCode::SelectorGuardFailed, owned("Resolved slide does not match replace_text slide_id."))
                .with_location(l));
        }
        Ok(())
    }
}

impl ReplaceTableCellText {
    /// The request a `replace_text` operation makes on a table cell (the
    /// first cell when it names none).
    pub fn from(operation: &ReplaceTextOperation) -> (r: ReplaceTableCellText)
        ensures
            r.operation_id@ == operation.operation_id@,
            r.element_id@ == named_element(*operation),
            r.row == (match operation.cell { Some(c) => c.row, None => 0 }),
            r.col == (match operation.cell { Some(c) => c.col, None => 0 }),
            r.text@ == operation.text@,
            sview(r.current_text_match) == sview(operation.current_text_match),
            r.run == selected_run(*operation),
    {
        let cell = match operation.cell {
            Some(c) => c,
            None => TableCellSelector { row: 0, col: 0 },
        };
        ReplaceTableCellText {
            operation_id: owned(operation.operation_id.as_str()),
            element_id: owned(operation.target_element_id()),
            row: cell.row,
            col: cell.col,
            text: owned(operation.text.as_str()),
            current_text_match: opt_clone(&operation.current_text_match),
            run: clone_run(operation.run_selector()),
        }
    }

    /// The resolved cell must be in the element the request names, a table,
    /// at the requested row and column.
    pub fn validate_target(&self, target: &ResolvedElement, row: u32, col: u32) -> (r: Result<(), EditError>)
        ensures
            r is Ok <==> target.element_id@ == self.element_id@ && target.kind == ShapeKind::GraphicFrameTable
                && row == self.row && col == self.col,
            r matches Err(e) ==> (if target.element_id@ != self.element_id@ {
                e.code == ErrorCode::SelectorGuardFailed
            } else if target.kind != ShapeKind::GraphicFrameTable {
                e.code == ErrorCode::UnsupportedEdit
            } else {
                e.code == ErrorCode::SelectorGuardFailed
            }),
    {
        let l = element_location(self.operation_id.as_str(), self.element_id.as_str(), Some(target));
        if !crate::text::str_eq(target.element_id.as_str(), self.element_id.as_str()) {
            return Err(EditError::new(ErrorCode::SelectorGuardFailed, owned("Resolved element does not match replace_text element_id."))
                .with_location(l));
        }
        if !matches!(target.kind, ShapeKind::GraphicFrameTable) {
            return Err(EditError::new(ErrorCode::UnsupportedEdit, owned("Target element is not a table graphic frame."))
                .with_location(l));
        }
        if row != self.row || col != self.col {
            return Err(EditError::new(
                ErrorCode::SelectorGuardFailed,
                owned("Resolved table cell does not match replace_text cell coordinates."),
            ).with_location(l));
        }
        Ok(())
    }
}

// ---------------------------------------------------------------------------
// Text rules
// ---------------------------------------------------------------------------

/// The characters XML 1.0 allows: tab, line feed, carriage return, and the
/// ranges U+0020–U+D7FF, U+E000–U+FFFD and U+10000–U+10FFFF.
pub open spec fn xml_char(c: char) -> bool {
    let v = c as int;
    v == 0x9 || v == 0xA || v == 0xD || (0x20 <= v && v <= 0xD7FF) || (0xE000 <= v && v <= 0xFFFD)
        || (0x10000 <= v && v <= 0x10FFFF)
}

/// Whether a character may appear in replacement text; the vertical tab
/// stands for a soft line break where one is allowed.
pub open spec fn text_char_ok(c: char, allow_soft_break: bool) -> bool {
    xml_char(c) || (allow_soft_break && c == '\u{000B}')
}

/// The first character of a text that may not appear in it.
pub open spec fn first_bad_char(t: Seq<char>, allow_soft_break: bool, i: int) -> Option<int>
    decreases t.len() - i,
{
    if i < 0 || i >= t.len() {
        None
    } else if !text_char_ok(t[i], allow_soft_break) {
        Some(i)
    } else {
        first_bad_char(t, allow_soft_break, i + 1)
    }
}

fn is_xml_char(c: char) -> (r: bool)
    ensures
        r == xml_char(c),
{
    let v = c as u32;
    v == 0x9 || v == 0xA || v == 0xD || (0x20 <= v && v <= 0xD7FF) || (0xE000 <= v && v <= 0xFFFD)
        || (0x10000 <= v && v <= 0x10FFFF)
}

/// The uppercase hexadecimal digit of a value below 16.
pub open spec fn hex_digit_char(n: int) -> char {
    if n < 10 {
        (48 + n) as char
    } else {
        (55 + n) as char
    }
}

/// The last `w` uppercase hexadecimal digits of a number.
pub open spec fn hex_text(v: nat, w: nat) -> Seq<char>
    decreases w,
{
    if w == 0 {
        Seq::empty()
    } else {
        hex_text(v / 16, (w - 1) as nat).push(hex_digit_char((v % 16) as int))
    }
}

/// How many hexadecimal digits a code point is shown with: at least four.
pub open spec fn hex_width(v: nat) -> nat {
    if v > 0xFFFFF {
        6
    } else if v > 0xFFFF {
        5
    } else {
        4
    }
}

fn push_hex(s: &mut String, v: u32, w: u32)
    requires
        w <= 8,
    ensures
        final(s)@ == old(s)@ + hex_text(v as nat, w as nat),
    decreases w,
{
    if w == 0 {
        assert(old(s)@ + hex_text(v as nat, 0) =~= old(s)@);
        return;
    }
    push_hex(s, v / 16, w - 1);
    let d = v % 16;
    let c: char = if d < 10 { (48u8 + d as u8) as char } else { (55u8 + d as u8) as char };
    crate::text::push_char(s, c);
}

/// The message for a character XML 1.0 does not allow.
pub open spec fn illegal_char_message(c: char) -> Seq<char> {
    "replace_text text contains XML 1.0 illegal character U+"@ + hex_text((c as u32) as nat, hex_width((c as u32) as nat)) + "."@
}

/// Checks that replacement text holds only characters XML 1.0 allows (and
/// the vertical tab, where soft breaks are allowed).
pub fn validate_xml_text(text: &str, allow_soft_break: bool) -> (r: Result<(), EditError>)
    ensures
        r is Ok <==> first_bad_char(text@, allow_soft_break, 0) is None,
        r matches Err(e) ==> e.code == ErrorCode::InvalidInput && (first_bad_char(text@, allow_soft_break, 0) matches Some(k)
            && e.message@ == illegal_char_message(text@[k])),
{
    let chars = crate::text::chars_of(text);
    let n = chars.len();
    let mut i: usize = 0;
    while i < n
        invariant
            i <= n,
            n == chars@.len(),
            chars@ == text@,
            first_bad_char(text@, allow_soft_break, 0) == first_bad_char(text@, allow_soft_break, i as int),
        decreases n - i,
    {
        let c = chars[i];
        if !(is_xml_char(c) || (allow_soft_break && c == '\u{000B}')) {
            let mut m = owned("replace_text text contains XML 1.0 illegal character U+");
            let v = c as u32;
            let w: u32 = if v > 0xFFFFF { 6 } else if v > 0xFFFF { 5 } else { 4 };
            push_hex(&mut m, v, w);
            push_str(&mut m, ".");
            proof {
                assert(text@[i as int] == c);
                assert(first_bad_char(text@, allow_soft_break, i as int) == Some(i as int));
                            }
            return Err(EditError::new(ErrorCode::InvalidInput, m));
        }
        i = i + 1;
    }
    Ok(())
}

// ---------------------------------------------------------------------------
// Checks on the request text and on the current text
// ---------------------------------------------------------------------------

/// Whether a text holds a line feed or a carriage return.
pub open spec fn has_line_break(t: Seq<char>) -> bool {
    exists|i: int| 0 <= i < t.len() && (t[i] == '\n' || t[i] == '\r')
}

fn contains_line_break(text: &str) -> (r: bool)
    ensures
        r == has_line_break(text@),
{
    let chars = crate::text::chars_of(text);
    let n = chars.len();
    let mut i: usize = 0;
    while i < n
        invariant
            i <= n,
            n == chars@.len(),
            chars@ == text@,
            forall|k: int| 0 <= k < i ==> !(chars@[k] == '\n' || chars@[k] == '\r'),
        decreases n - i,
    {
        if chars[i] == '\n' || chars[i] == '\r' {
            return true;
        }
        i = i + 1;
    }
    false
}

/// The first run of the first paragraph, taken when a request may name none.
pub open spec fn first_run() -> RunSelector {
    RunSelector { paragraph_index: 0, run_index: 0, run_end_index: None, text_hash: None }
}

/// An outcome as a check states it: a value, or an error code and message.
pub open spec fn outcome_is<T>(r: Result<T, EditError>, o: Result<T, (ErrorCode, Seq<char>)>) -> bool {
    match o {
        Ok(v) => r == Ok::<T, EditError>(v),
        Err((code, message)) => r matches Err(e) && e.code == code && e.message@ == message,
    }
}

/// The run a run-scoped replacement writes, or why its text is refused: no
/// line breaks, only characters XML allows (the vertical tab included), and
/// a run selector, unless the first run may be taken.
pub open spec fn run_scoped_outcome(
    text: Seq<char>,
    run: Option<RunSelector>,
    allow_default_run: bool,
    newline_message: Seq<char>,
    missing_run_message: Seq<char>,
) -> Result<RunSelector, (ErrorCode, Seq<char>)> {
    if has_line_break(text) {
        Err((ErrorCode::InvalidInput, newline_message))
    } else {
        match first_bad_char(text, true, 0) {
            Some(k) => Err((ErrorCode::InvalidInput, illegal_char_message(text[k]))),
            None => match run {
                Some(x) => Ok(x),
                None => if allow_default_run {
                    Ok(first_run())
                } else {
                    Err((ErrorCode::InvalidInput, missing_run_message))
                },
            },
        }
    }
}

/// Checks run-scoped replacement text and picks the run it replaces.
pub fn check_run_scoped_text(
    text: &str,
    run: Option<&RunSelector>,
    allow_default_run: bool,
    newline_message: &str,
    missing_run_message: &str,
) -> (r: Result<RunSelector, EditError>)
    ensures
        outcome_is(r, run_scoped_outcome(text@, match run { Some(x) => Some(*x), None => None }, allow_default_run,
            newline_message@, missing_run_message@)),
{
    if contains_line_break(text) {
        return Err(EditError::new(ErrorCode::InvalidInput, owned(newline_message)));
    }
    if let Err(e) = validate_xml_text(text, true) {
        return Err(e);
    }
    match run {
        Some(x) => Ok(x.clone()),
        None => if allow_default_run {
            Ok(RunSelector { paragraph_index: 0, run_index: 0, run_end_index: None, text_hash: None })
        } else {
            Err(EditError::new(ErrorCode::InvalidInput, owned(missing_run_message)))
        },
    }
}

/// Whether the text a request expects differs from the current text.
pub open spec fn match_fails(expected: Option<Seq<char>>, current: Seq<char>) -> bool {
    expected matches Some(x) && x != current
}

/// Whether a run selector's text hash guard differs from the current run's hash.
pub open spec fn hash_fails(run: RunSelector, current_hash: Seq<char>) -> bool {
    run.text_hash matches Some(h) && h@ != current_hash
}

/// What the current run allows: the expected text must be the current run
/// text, then the selector's hash guard the hash of that text, then the run
/// style must be one that can be written.
pub open spec fn current_run_outcome(
    current: Seq<char>,
    current_hash: Seq<char>,
    expected: Option<Seq<char>>,
    run: RunSelector,
    match_guard_message: Seq<char>,
    run_style: Option<TextBoxStyle>,
) -> Result<(), (ErrorCode, Seq<char>)> {
    if match_fails(expected, current) {
        Err((ErrorCode::SelectorGuardFailed, match_guard_message))
    } else if hash_fails(run, current_hash) {
        Err((ErrorCode::SelectorGuardFailed, "selector.run text_hash guard did not match current run text."@))
    } else {
        match run_style_error("replace_text.run_style"@, run_style) {
            Some(m) => Err((ErrorCode::InvalidInput, m)),
            None => Ok(()),
        }
    }
}

/// Checks the selected run as it is now: `current` is its text and
/// `current_hash` the text hash of that text.
pub fn check_current_run_text(
    current: &str,
    current_hash: &str,
    expected: Option<&str>,
    run: &RunSelector,
    match_guard_message: &str,
    run_style: Option<&TextBoxStyle>,
) -> (r: Result<(), EditError>)
    ensures
        outcome_is(r, current_run_outcome(current@, current_hash@, crate::text::rview(expected), *run,
            match_guard_message@, match run_style { Some(s) => Some(*s), None => None })),
{
    if let Some(x) = expected {
        if !crate::text::str_eq(x, current) {
            return Err(EditError::new(ErrorCode::SelectorGuardFailed, owned(match_guard_message)));
        }
    }
    if let Some(h) = &run.text_hash {
        if !crate::text::str_eq(h.as_str(), current_hash) {
            return Err(EditError::new(
                ErrorCode::SelectorGuardFailed,
                owned("selector.run text_hash guard did not match current run text."),
            ));
        }
    }
    match validate_run_style("replace_text.run_style", run_style) {
        Ok(()) => Ok(()),
        Err(e) => Err(e),
    }
}

/// Why whole-element replacement text is refused, if it is: a character XML
/// does not allow, a run selector, a run style, or rich text that would be
/// simplified without the request confirming it.
pub open spec fn whole_element_outcome(
    text: Seq<char>,
    has_run: bool,
    has_run_style: bool,
    allow_formatting_simplification: bool,
    simplifies_formatting: bool,
) -> Result<(), (ErrorCode, Seq<char>)> {
    match first_bad_char(text, false, 0) {
        Some(k) => Err((ErrorCode::InvalidInput, illegal_char_message(text[k]))),
        None => if has_run {
            Err((ErrorCode::InvalidInput, "selector.run is only valid when replace_text mode is run_scoped."@))
        } else if has_run_style {
            Err((ErrorCode::UnsupportedEdit, "replace_text.run_style is only valid when mode is run_scoped."@))
        } else if !allow_formatting_simplification && simplifies_formatting {
            Err((ErrorCode::UnsupportedEdit,
                "Whole-element replace_text would simplify rich text; set allow_formatting_simplification to confirm."@))
        } else {
            Ok(())
        },
    }
}

/// The location of an error at a resolved element of a `replace_text` operation.
pub open spec fn at_element(l: ErrorLocation, operation_id: Seq<char>, target: ResolvedElement) -> bool {
    &&& sview(l.operation_id) == Some(operation_id)
    &&& sview(l.operation) == Some("replace_text"@)
    &&& sview(l.element_id) == Some(target.element_id@)
    &&& sview(l.part) == Some(target.part@)
    &&& sview(l.slide_id) == Some(target.slide_id@)
}

fn locate<T>(r: Result<T, EditError>, operation_id: &str, target: &ResolvedElement) -> (out: Result<T, EditError>)
    ensures
        match r {
            Ok(v) => out == Ok::<T, EditError>(v),
            Err(e) => out matches Err(f) && f.code == e.code && f.message@ == e.message@
                && at_element(f.location, operation_id@, *target),
        },
{
    match r {
        Ok(v) => Ok(v),
        Err(e) => Err(e.with_location(element_location(operation_id, "", Some(target)))),
    }
}

/// Chart and diagram text is replaced only run by run.
pub open spec fn related_mode_ok(related: bool, mode: ReplaceTextMode) -> bool {
    !related || mode == ReplaceTextMode::RunScoped
}

impl ReplaceText {
    /// Checks the replacement text against the mode before the current text
    /// is read: the run a run-scoped replacement writes, or `None` for a
    /// whole-element one. `related` is whether the text lives in a chart or
    /// diagram part; `simplifies_formatting` whether replacing the whole
    /// element would drop rich text.
    pub fn validate_text(&self, target: &ResolvedElement, related: bool, simplifies_formatting: bool) -> (r: Result<Option<RunSelector>, EditError>)
        ensures
            r matches Err(e) ==> at_element(e.location, self.operation_id@, *target),
            !related_mode_ok(related, self.mode) ==> (r matches Err(e) && e.code == ErrorCode::UnsupportedEdit
                && e.message@ == "Chart and diagram text replacement requires mode run_scoped."@),
            related_mode_ok(related, self.mode) && self.mode == ReplaceTextMode::WholeElement ==> outcome_is(
                match r { Ok(_) => Ok::<(), EditError>(()), Err(e) => Err(e) },
                whole_element_outcome(self.text@, self.run is Some, self.run_style is Some,
                    self.allow_formatting_simplification, simplifies_formatting))
                && (r is Ok ==> r == Ok::<Option<RunSelector>, EditError>(None)),
            related_mode_ok(related, self.mode) && self.mode == ReplaceTextMode::RunScoped ==> outcome_is(
                match r { Ok(Some(x)) => Ok::<RunSelector, EditError>(x), Ok(None) => Ok(first_run()), Err(e) => Err(e) },
                run_scoped_outcome(self.text@, self.run, false,
                    "run_scoped replace_text text must not contain line-break characters."@,
                    "run_scoped replace_text requires selector.run."@))
                && !(r matches Ok(None)),
    {
        if related && !matches!(self.mode, ReplaceTextMode::RunScoped) {
            return locate(
                Err(EditError::new(ErrorCode::UnsupportedEdit, owned("Chart and diagram text replacement requires mode run_scoped."))),
                self.operation_id.as_str(),
                target,
            );
        }
        match self.mode {
            ReplaceTextMode::WholeElement => {
                let checked: Result<Option<RunSelector>, EditError> = if let Err(e) = validate_xml_text(self.text.as_str(), false) {
                    Err(e)
                } else if self.run.is_some() {
                    Err(EditError::new(ErrorCode::InvalidInput, owned("selector.run is only valid when replace_text mode is run_scoped.")))
                } else if self.run_style.is_some() {
                    Err(EditError::new(ErrorCode::UnsupportedEdit, owned("replace_text.run_style is only valid when mode is run_scoped.")))
                } else if !self.allow_formatting_simplification && simplifies_formatting {
                    Err(EditError::new(
                        ErrorCode::UnsupportedEdit,
                        owned("Whole-element replace_text would simplify rich text; set allow_formatting_simplification to confirm."),
                    ))
                } else {
                    Ok(None)
                };
                locate(checked, self.operation_id.as_str(), target)
            },
            ReplaceTextMode::RunScoped => {
                let run = match &self.run {
                    Some(x) => Some(x),
                    None => None,
                };
                let checked = match check_run_scoped_text(
                    self.text.as_str(),
                    run,
                    false,
                    "run_scoped replace_text text must not contain line-break characters.",
                    "run_scoped replace_text requires selector.run.",
                ) {
                    Ok(x) => Ok(Some(x)),
                    Err(e) => Err(e),
                };
                locate(checked, self.operation_id.as_str(), target)
            },
        }
    }

    /// Checks the element text as it is now against the text the request
    /// expects, in whole-element mode.
    pub fn check_current_element_text(&self, target: &ResolvedElement, current: &str) -> (r: Result<(), EditError>)
        ensures
            r is Err <==> match_fails(sview(self.current_text_match), current@),
            r matches Err(e) ==> e.code == ErrorCode::SelectorGuardFailed
                && e.message@ == "replace_text match guard did not match current element text."@
                && at_element(e.location, self.operation_id@, *target),
    {
        if let Some(x) = &self.current_text_match {
            if !crate::text::str_eq(x.as_str(), current) {
                return locate(
                    Err(EditError::new(ErrorCode::SelectorGuardFailed, owned("replace_text match guard did not match current element text."))),
                    self.operation_id.as_str(),
                    target,
                );
            }
        }
        Ok(())
    }

    /// Checks the selected run as it is now, in run-scoped mode: `current` is
    /// its text and `current_hash` the text hash of that text.
    pub fn check_current_run(&self, target: &ResolvedElement, run: &RunSelector, current: &str, current_hash: &str) -> (r: Result<(), EditError>)
        ensures
            outcome_is(r, current_run_outcome(current@, current_hash@, sview(self.current_text_match), *run,
                "replace_text match guard did not match current run text."@, self.run_style)),
            r matches Err(e) ==> at_element(e.location, self.operation_id@, *target),
    {
        let expected = crate::text::opt_as_str(&self.current_text_match);
        let style = match &self.run_style {
            Some(s) => Some(s),
            None => None,
        };
        locate(
            check_current_run_text(current, current_hash, expected, run, "replace_text match guard did not match current run text.", style),
            self.operation_id.as_str(),
            target,
        )
    }
}

impl ReplaceNotesText {
    /// Checks notes replacement text and picks the run it replaces; `target`
    /// is the notes body element.
    pub fn validate_text(&self, target: &ResolvedElement) -> (r: Result<RunSelector, EditError>)
        ensures
            outcome_is(r, run_scoped_outcome(self.text@, self.run, false,
                "replace_text notes target text must not contain line-break characters."@,
                "replace_text notes target requires run."@)),
            r matches Err(e) ==> at_element(e.location, self.operation_id@, *target),
    {
        let run = match &self.run {
            Some(x) => Some(x),
            None => None,
        };
        locate(
            check_run_scoped_text(
                self.text.as_str(),
                run,
                false,
                "replace_text notes target text must not contain line-break characters.",
                "replace_text notes target requires run.",
            ),
            self.operation_id.as_str(),
            target,
        )
    }

    /// Checks the selected notes run as it is now.
    pub fn check_current_run(&self, target: &ResolvedElement, run: &RunSelector, current: &str, current_hash: &str) -> (r: Result<(), EditError>)
        ensures
            outcome_is(r, current_run_outcome(current@, current_hash@, sview(self.current_text_match), *run,
                "replace_text notes target match guard did not match current run text."@, None)),
            r matches Err(e) ==> at_element(e.location, self.operation_id@, *target),
    {
        let expected = crate::text::opt_as_str(&self.current_text_match);
        locate(
            check_current_run_text(current, current_hash, expected, run, "replace_text notes target match guard did not match current run text.", None),
            self.operation_id.as_str(),
            target,
        )
    }
}

impl ReplaceTableCellText {
    /// Checks table cell replacement text and picks the run it replaces: the
    /// first run of the cell when the request names none.
    pub fn validate_text(&self, target: &ResolvedElement) -> (r: Result<RunSelector, EditError>)
        ensures
            outcome_is(r, run_scoped_outcome(self.text@, self.run, true,
                "replace_text table cell target text must not contain line-break characters."@,
                "replace_text table cell target requires selector.run when the default first run is not selected."@)),
            r matches Err(e) ==> at_element(e.location, self.operation_id@, *target),
    {
        let run = match &self.run {
            Some(x) => Some(x),
            None => None,
        };
        locate(
            check_run_scoped_text(
                self.text.as_str(),
                run,
                true,
                "replace_text table cell target text must not contain line-break characters.",
                "replace_text table cell target requires selector.run when the default first run is not selected.",
            ),
            self.operation_id.as_str(),
            target,
        )
    }

    /// Checks the selected cell run as it is now.
    pub fn check_current_run(&self, target: &ResolvedElement, run: &RunSelector, current: &str, current_hash: &str) -> (r: Result<(), EditError>)
        ensures
            outcome_is(r, current_run_outcome(current@, current_hash@, sview(self.current_text_match), *run,
                "replace_text table cell target match guard did not match current run text."@, None)),
            r matches Err(e) ==> at_element(e.location, self.operation_id@, *target),
    {
        let expected = crate::text::opt_as_str(&self.current_text_match);
        locate(
            check_current_run_text(current, current_hash, expected, run, "replace_text table cell target match guard did not match current run text.", None),
            self.operation_id.as_str(),
            target,
        )
    }
}

/// Whether a character is CJK: CJK ideographs (and extension A), kana, or
/// Hangul syllables.
pub open spec fn cjk(c: char) -> bool {
    let v = c as int;
    (0x3400 <= v && v <= 0x4DBF) || (0x4E00 <= v && v <= 0x9FFF) || (0x3040 <= v && v <= 0x30FF)
        || (0xAC00 <= v && v <= 0xD7AF)
}

/// Whether a character is CJK.
pub fn is_cjk(character: char) -> (r: bool)
    ensures
        r == cjk(character),
{
    let v = character as u32;
    (0x3400 <= v && v <= 0x4DBF) || (0x4E00 <= v && v <= 0x9FFF) || (0x3040 <= v && v <= 0x30FF)
        || (0xAC00 <= v && v <= 0xD7AF)
}

/// Whether a character belongs to a complex script: Hebrew through Arabic
/// extensions, the Indic scripts through Malayalam, Khmer and Mongolian.
pub open spec fn complex_script(c: char) -> bool {
    let v = c as int;
    (0x0590 <= v && v <= 0x08FF) || (0x0900 <= v && v <= 0x0D7F) || (0x1780 <= v && v <= 0x18AF)
}

/// Whether a character belongs to a complex script.
pub fn is_complex_script(character: char) -> (r: bool)
    ensures
        r == complex_script(character),
{
    let v = character as u32;
    (0x0590 <= v && v <= 0x08FF) || (0x0900 <= v && v <= 0x0D7F) || (0x1780 <= v && v <= 0x18AF)
}

/// The confidence of a fit estimate: medium when the font size is set
/// directly and no complex-script character occurs, low otherwise.
pub fn confidence(text: &str, direct_font_size: bool) -> (r: &'static str)
    ensures
        r@ == (if direct_font_size && !(exists|k: int| 0 <= k < text@.len() && complex_script(#[trigger] text@[k])) {
            "medium"@
        } else {
            "low"@
        }),
{
    if !direct_font_size {
        return "low";
    }
    let chars = crate::text::chars_of(text);
    let n = chars.len();
    let mut i: usize = 0;
    while i < n
        invariant
            i <= n,
            n == chars@.len(),
            chars@ == text@,
            forall|k: int| 0 <= k < i ==> !complex_script(#[trigger] text@[k]),
        decreases n - i,
    {
        if is_complex_script(chars[i]) {
            return "low";
        }
        i = i + 1;
    }
    "medium"
}

/// The default font size of a placeholder type, in points: titles 32,
/// subtitles 24, date, footer, slide number and header 12, else 18.
pub fn fallback_font_size_pt(placeholder_type: Option<&str>) -> (r: u32)
    ensures
        r == (match placeholder_type {
            Some(t) => if t@ == "title"@ || t@ == "ctrTitle"@ {
                32u32
            } else if t@ == "subTitle"@ {
                24u32
            } else if t@ == "dt"@ || t@ == "ftr"@ || t@ == "sldNum"@ || t@ == "hdr"@ {
                12u32
            } else {
                18u32
            },
            None => 18u32,
        }),
{
    match placeholder_type {
        Some(t) => {
            if crate::text::str_eq(t, "title") || crate::text::str_eq(t, "ctrTitle") {
                32
            } else if crate::text::str_eq(t, "subTitle") {
                24
            } else if crate::text::str_eq(t, "dt") || crate::text::str_eq(t, "ftr") || crate::text::str_eq(t, "sldNum")
                || crate::text::str_eq(t, "hdr") {
                12
            } else {
                18
            }
        },
        None => 18,
    }
}

// ---------------------------------------------------------------------------
// Run selection
// ---------------------------------------------------------------------------

/// The child indices of the runs (`a:r`) of a paragraph, in order, given
/// the local names of its children (`None` for non-elements).
pub open spec fn run_positions(children: Seq<Option<Seq<char>>>) -> Seq<int>
    decreases children.len(),
{
    if children.len() == 0 {
        Seq::empty()
    } else if children.last() == Some("r"@) {
        run_positions(children.drop_last()).push(children.len() - 1)
    } else {
        run_positions(children.drop_last())
    }
}

/// The child indices of the runs a run selector picks from a paragraph: its
/// first through its last run, which must exist and be in order.
pub fn run_indices(children: &Vec<Option<String>>, run: &RunSelector) -> (r: Result<Vec<usize>, EditError>)
    ensures
        ({
            let positions = run_positions(children@.map_values(|c: Option<String>| sview(c)));
            let end = match run.run_end_index { Some(e) => e, None => run.run_index };
            &&& end < run.run_index ==> (r matches Err(e) && e.code == ErrorCode::InvalidInput)
            &&& end >= run.run_index && end >= positions.len() ==> (r matches Err(e) && e.code == ErrorCode::SelectorNotFound)
            &&& end >= run.run_index && end < positions.len() ==> (r matches Ok(v)
                && v@.map_values(|x: usize| x as int) == positions.subrange(run.run_index as int, end + 1))
        }),
{
    let end_index = match run.run_end_index {
        Some(e) => e,
        None => run.run_index,
    };
    if end_index < run.run_index {
        return Err(EditError::new(
            ErrorCode::InvalidInput,
            owned("selector.run run_end_index must be greater than or equal to run_index."),
        ));
    }
    let ghost names = children@.map_values(|c: Option<String>| sview(c));
    let mut positions: Vec<usize> = Vec::new();
    let n = children.len();
    let mut i: usize = 0;
    while i < n
        invariant
            i <= n,
            n == children@.len(),
            names == children@.map_values(|c: Option<String>| sview(c)),
            positions@.map_values(|x: usize| x as int) == run_positions(names.take(i as int)),
        decreases n - i,
    {
        let is_run = match &children[i] {
            Some(name) => crate::text::str_eq(name.as_str(), "r"),
            None => false,
        };
        let ghost pre = positions@;
        proof {
            assert(names.take(i + 1).drop_last() =~= names.take(i as int));
            assert(names.take(i + 1).last() == sview(children@[i as int]));
        }
        if is_run {
            positions.push(i);
            proof {
                assert(positions@.map_values(|x: usize| x as int) =~= pre.map_values(|x: usize| x as int).push(i as int));
            }
        }
        i = i + 1;
    }
    proof {
        assert(names.take(n as int) =~= names);
    }
    let end = end_index as usize;
    let start = run.run_index as usize;
    if end >= positions.len() {
        return Err(EditError::new(ErrorCode::SelectorNotFound, owned("selector.run resolved to a missing run.")));
    }
    let plen = positions.len();
    let mut out: Vec<usize> = Vec::new();
    let mut k: usize = start;
    while k <= end
        invariant
            start <= k <= end + 1,
            end < plen,
            plen == positions@.len(),
            out@.map_values(|x: usize| x as int) == positions@.map_values(|x: usize| x as int).subrange(start as int, k as int),
        decreases end + 1 - k,
    {
        let ghost pre = out@;
        let p = positions[k];
        out.push(p);
        proof {
            assert(positions@.map_values(|x: usize| x as int)[k as int] == p as int);
            assert(out@.map_values(|x: usize| x as int) =~= pre.map_values(|x: usize| x as int).push(p as int));
            assert(out@.map_values(|x: usize| x as int) =~= positions@.map_values(|x: usize| x as int).subrange(start as int, k + 1));
        }
        k = k + 1;
    }
    Ok(out)
}

} // verus!
