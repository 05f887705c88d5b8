//! Rules shared by the edit operations: where a new element goes in a slide's
//! shape tree, and the checks on bounds.
use vstd::prelude::*;
use crate::error::EditError;
use crate::patch::{InsertOptions, ZOrder, ZOrderKeyword};
use crate::schemas::ErrorCode;
use crate::text::{decimal_text, owned, push_str};

pub mod add_image;
pub mod add_text_box;
pub mod bounds;
pub mod move_resize;
pub mod part_names;
pub mod replace_image;
pub mod replace_text;
pub mod set_alt_text;
pub mod set_document_metadata;

verus! {

/// A child node of a shape tree, as far as placement reads it: an element
/// with its local name, or any other node (text, comment).
#[derive(Clone, Debug, PartialEq, Eq)]
pub enum ShapeTreeChild {
    Element(String),
    Other,
}

/// Local names of the drawable children of a shape tree.
pub open spec fn drawable_name(n: Seq<char>) -> bool {
    n == "sp"@ || n == "pic"@ || n == "grpSp"@ || n == "graphicFrame"@ || n == "cxnSp"@
}

/// Whether a child is a drawable element.
pub open spec fn is_drawable(c: ShapeTreeChild) -> bool {
    c matches ShapeTreeChild::Element(n) && drawable_name(n@)
}

/// Whether a child is the group's own property element, which drawables follow.
pub open spec fn is_group_props(c: ShapeTreeChild) -> bool {
    c matches ShapeTreeChild::Element(n) && (n@ == "nvGrpSpPr"@ || n@ == "grpSpPr"@)
}

/// Whether a child is an element at all.
pub open spec fn is_element(c: ShapeTreeChild) -> bool {
    c is Element
}

/// Whether an element's local name is that of a drawable shape-tree child.
pub fn is_real_shape_tree_child(local_name: &str) -> (r: bool)
    ensures
        r == drawable_name(local_name@),
{
    crate::text::str_eq(local_name, "sp") || crate::text::str_eq(local_name, "pic")
        || crate::text::str_eq(local_name, "grpSp") || crate::text::str_eq(local_name, "graphicFrame")
        || crate::text::str_eq(local_name, "cxnSp")
}

fn child_is_drawable(c: &ShapeTreeChild) -> (r: bool)
    ensures
        r == is_drawable(*c),
{
    match c {
        ShapeTreeChild::Element(n) => is_real_shape_tree_child(n.as_str()),
        ShapeTreeChild::Other => false,
    }
}

fn child_is_group_props(c: &ShapeTreeChild) -> (r: bool)
    ensures
        r == is_group_props(*c),
{
    match c {
        ShapeTreeChild::Element(n) => crate::text::str_eq(n.as_str(), "nvGrpSpPr") || crate::text::str_eq(n.as_str(), "grpSpPr"),
        ShapeTreeChild::Other => false,
    }
}

/// The first drawable child at or after `i`.
pub open spec fn first_drawable_from(s: Seq<ShapeTreeChild>, i: int) -> Option<int>
    decreases s.len() - i,
{
    if i < 0 || i >= s.len() {
        None
    } else if is_drawable(s[i]) {
        Some(i)
    } else {
        first_drawable_from(s, i + 1)
    }
}

/// The last drawable child before `n`.
pub open spec fn last_drawable_before(s: Seq<ShapeTreeChild>, n: int) -> Option<int>
    decreases n,
{
    if n <= 0 || n > s.len() {
        None
    } else if is_drawable(s[n - 1]) {
        Some(n - 1)
    } else {
        last_drawable_before(s, n - 1)
    }
}

/// The last group-property child before `n`.
pub open spec fn last_group_props_before(s: Seq<ShapeTreeChild>, n: int) -> Option<int>
    decreases n,
{
    if n <= 0 || n > s.len() {
        None
    } else if is_group_props(s[n - 1]) {
        Some(n - 1)
    } else {
        last_group_props_before(s, n - 1)
    }
}

/// The child index of the back of the z-order: the first drawable child,
/// else just after the group's property elements, else the end.
pub open spec fn back_index(s: Seq<ShapeTreeChild>) -> int {
    match first_drawable_from(s, 0) {
        Some(i) => i,
        None => match last_group_props_before(s, s.len() as int) {
            Some(i) => i + 1,
            None => s.len() as int,
        },
    }
}

/// The child index of the front of the z-order: just after the last
/// drawable child, else the back.
pub open spec fn front_index(s: Seq<ShapeTreeChild>) -> int {
    match last_drawable_before(s, s.len() as int) {
        Some(i) => i + 1,
        None => back_index(s),
    }
}

/// How many elements come before child index `n`.
pub open spec fn elements_before(s: Seq<ShapeTreeChild>, n: int) -> nat
    decreases n,
{
    if n <= 0 || s.len() == 0 {
        0
    } else if n > s.len() {
        elements_before(s, s.len() as int)
    } else {
        elements_before(s, n - 1) + if is_element(s[n - 1]) { 1nat } else { 0nat }
    }
}

proof fn lemma_elements_before_monotone(s: Seq<ShapeTreeChild>, a: int, b: int)
    requires
        0 <= a <= b <= s.len(),
    ensures
        elements_before(s, a) <= elements_before(s, b),
    decreases b - a,
{
    if a < b {
        lemma_elements_before_monotone(s, a, b - 1);
    }
}

/// The child index just after the last drawable child, else the back.
pub fn front_child_index(children: &Vec<ShapeTreeChild>) -> (r: usize)
    ensures
        r == front_index(children@),
{
    let mut n = children.len();
    while n > 0
        invariant
            n <= children@.len(),
            last_drawable_before(children@, children@.len() as int) == last_drawable_before(children@, n as int),
        decreases n,
    {
        if child_is_drawable(&children[n - 1]) {
            return n;
        }
        n = n - 1;
    }
    back_child_index(children)
}

/// The first drawable child, else just after the group's property
/// elements, else the end.
pub fn back_child_index(children: &Vec<ShapeTreeChild>) -> (r: usize)
    ensures
        r == back_index(children@),
{
    let len = children.len();
    let mut i: usize = 0;
    while i < len
        invariant
            i <= len,
            len == children@.len(),
            first_drawable_from(children@, 0) == first_drawable_from(children@, i as int),
        decreases len - i,
    {
        if child_is_drawable(&children[i]) {
            return i;
        }
        i = i + 1;
    }
    let mut n = len;
    while n > 0
        invariant
            n <= len,
            len == children@.len(),
            first_drawable_from(children@, 0) is None,
            last_group_props_before(children@, len as int) == last_group_props_before(children@, n as int),
        decreases n,
    {
        if child_is_group_props(&children[n - 1]) {
            return n;
        }
        n = n - 1;
    }
    len
}

/// How many elements come before a child index, capped at `u32::MAX`.
pub fn element_ordinal_before_child_index(children: &Vec<ShapeTreeChild>, child_index: usize) -> (r: u32)
    ensures
        r == (if elements_before(children@, child_index as int) <= u32::MAX {
            elements_before(children@, child_index as int)
        } else {
            u32::MAX as nat
        }),
{
    let len = children.len();
    let end = if child_index < len { child_index } else { len };
    let mut count: u32 = 0;
    let mut i: usize = 0;
    while i < end
        invariant
            i <= end <= len,
            len == children@.len(),
            count == (if elements_before(children@, i as int) <= u32::MAX {
                elements_before(children@, i as int)
            } else {
                u32::MAX as nat
            }),
        decreases end - i,
    {
        match &children[i] {
            ShapeTreeChild::Element(_) => {
                if count < 4294967295u32 {
                    count = count + 1;
                }
            },
            ShapeTreeChild::Other => {},
        }
        i = i + 1;
    }
    count
}

/// The error when the shape tree has too many elements to number another.
pub fn too_many_elements() -> (e: EditError)
    ensures
        e.code == ErrorCode::UnsupportedEdit,
{
    EditError::new(ErrorCode::UnsupportedEdit, owned("Shape tree has too many elements to assign an agent element id."))
}

/// The child index of the element with a one-based ordinal, `n` from the
/// start when `n` is not found among the children.
pub open spec fn ordinal_index_from(s: Seq<ShapeTreeChild>, ordinal: int, i: int) -> int
    decreases s.len() - i,
{
    if i < 0 || i >= s.len() {
        s.len() as int
    } else if is_element(s[i]) && elements_before(s, i) + 1 == ordinal {
        i
    } else {
        ordinal_index_from(s, ordinal, i + 1)
    }
}

/// The child index of the element with a one-based ordinal, or the end.
pub fn child_index_for_element_ordinal(children: &Vec<ShapeTreeChild>, ordinal: u32) -> (r: Result<usize, EditError>)
    ensures
        elements_before(children@, children@.len() as int) <= u32::MAX ==> r == Ok::<usize, EditError>(ordinal_index_from(children@, ordinal as int, 0) as usize),
        r matches Err(e) ==> e.code == ErrorCode::UnsupportedEdit && elements_before(children@, children@.len() as int) > u32::MAX,
        r matches Ok(v) ==> v == ordinal_index_from(children@, ordinal as int, 0) && v <= children@.len(),
{
    let len = children.len();
    let mut element_ordinal: u32 = 0;
    let mut i: usize = 0;
    while i < len
        invariant
            i <= len,
            len == children@.len(),
            element_ordinal == elements_before(children@, i as int),
            ordinal_index_from(children@, ordinal as int, 0) == ordinal_index_from(children@, ordinal as int, i as int),
        decreases len - i,
    {
        match &children[i] {
            ShapeTreeChild::Element(_) => {
                if element_ordinal == 4294967295u32 {
                    proof {
                        lemma_elements_before_monotone(children@, i + 1, len as int);
                    }
                    return Err(too_many_elements());
                }
                element_ordinal = element_ordinal + 1;
                if element_ordinal == ordinal {
                    return Ok(i);
                }
            },
            ShapeTreeChild::Other => {},
        }
        i = i + 1;
    }
    Ok(len)
}

/// The message for a z-order index outside the shape tree's range.
pub open spec fn z_order_range_message(back: nat, front: nat) -> Seq<char> {
    "insert.z_order index must be between "@ + decimal_text(back) + " and "@ + decimal_text(front) + " for this shape tree."@
}

/// The element ordinal just past the elements before a child index.
pub open spec fn next_ordinal(s: Seq<ShapeTreeChild>, child_index: int) -> nat {
    elements_before(s, child_index) + 1
}

/// The child index for an explicit one-based z-order ordinal, which must lie
/// between the back and the front of the drawable children.
pub fn explicit_child_index(children: &Vec<ShapeTreeChild>, index: u32) -> (r: Result<usize, EditError>)
    requires
        elements_before(children@, children@.len() as int) < u32::MAX,
    ensures
        r matches Ok(v) ==> v <= children@.len(),
        ({
            let back = next_ordinal(children@, back_index(children@));
            let front = next_ordinal(children@, front_index(children@));
            &&& (index < back || index > front) ==> (r matches Err(e) && e.code == ErrorCode::InvalidInput
                && e.message@ == z_order_range_message(back, front))
            &&& !(index < back || index > front) ==> r == Ok::<usize, EditError>(ordinal_index_from(children@, index as int, 0) as usize)
        }),
{
    proof {
        lemma_front_back_in_range(children@);
        lemma_elements_before_monotone(children@, back_index(children@), children@.len() as int);
        lemma_elements_before_monotone(children@, front_index(children@), children@.len() as int);
    }
    let back_ordinal = element_ordinal_before_child_index(children, back_child_index(children)) + 1;
    let front_ordinal = element_ordinal_before_child_index(children, front_child_index(children)) + 1;
    if index < back_ordinal || index > front_ordinal {
        let mut m = owned("insert.z_order index must be between ");
        crate::text::push_decimal(&mut m, back_ordinal as u64);
        push_str(&mut m, " and ");
        crate::text::push_decimal(&mut m, front_ordinal as u64);
        push_str(&mut m, " for this shape tree.");
        return Err(EditError::new(ErrorCode::InvalidInput, m));
    }
    child_index_for_element_ordinal(children, index)
}

proof fn lemma_first_drawable_range(s: Seq<ShapeTreeChild>, i: int)
    requires
        0 <= i,
    ensures
        first_drawable_from(s, i) matches Some(k) ==> i <= k < s.len(),
    decreases s.len() - i,
{
    if i < s.len() && !is_drawable(s[i]) {
        lemma_first_drawable_range(s, i + 1);
    }
}

proof fn lemma_last_drawable_range(s: Seq<ShapeTreeChild>, n: int)
    ensures
        last_drawable_before(s, n) matches Some(k) ==> 0 <= k < n && k < s.len(),
    decreases n,
{
    if 0 < n <= s.len() && !is_drawable(s[n - 1]) {
        lemma_last_drawable_range(s, n - 1);
    }
}

proof fn lemma_last_group_props_range(s: Seq<ShapeTreeChild>, n: int)
    ensures
        last_group_props_before(s, n) matches Some(k) ==> 0 <= k < n && k < s.len(),
    decreases n,
{
    if 0 < n <= s.len() && !is_group_props(s[n - 1]) {
        lemma_last_group_props_range(s, n - 1);
    }
}

proof fn lemma_first_before_last(s: Seq<ShapeTreeChild>, i: int, n: int)
    requires
        0 <= i,
        n <= s.len(),
        first_drawable_from(s, i) matches Some(f) && f < n,
    ensures
        last_drawable_before(s, n) matches Some(l) && f_le(first_drawable_from(s, i), l),
    decreases n,
{
    lemma_first_drawable_range(s, i);
    let f = first_drawable_from(s, i)->0;
    if is_drawable(s[n - 1]) {
    } else {
        if f == n - 1 {
            lemma_first_is_drawable(s, i);
        }
        lemma_first_before_last(s, i, n - 1);
    }
}

spec fn f_le(f: Option<int>, l: int) -> bool {
    f matches Some(x) && x <= l
}

proof fn lemma_first_is_drawable(s: Seq<ShapeTreeChild>, i: int)
    requires
        0 <= i,
    ensures
        first_drawable_from(s, i) matches Some(f) ==> is_drawable(s[f]),
    decreases s.len() - i,
{
    if i < s.len() && !is_drawable(s[i]) {
        lemma_first_is_drawable(s, i + 1);
    }
}

/// The back of the z-order never comes after its front, so an element put
/// at the back is never above one put at the front.
pub proof fn lemma_back_not_after_front(s: Seq<ShapeTreeChild>)
    ensures
        back_index(s) <= front_index(s),
{
    lemma_front_back_in_range(s);
    if first_drawable_from(s, 0) is Some {
        lemma_first_drawable_range(s, 0);
        lemma_first_before_last(s, 0, s.len() as int);
    } else {
        lemma_no_first_no_last(s, 0, s.len() as int);
    }
}

proof fn lemma_no_first_no_last(s: Seq<ShapeTreeChild>, i: int, n: int)
    requires
        0 <= i <= n <= s.len(),
        i == 0,
        first_drawable_from(s, i) is None,
    ensures
        last_drawable_before(s, n) is None,
    decreases n,
{
    if n > 0 {
        lemma_none_means_none_drawable(s, 0, n - 1);
        lemma_no_first_no_last(s, i, n - 1);
    }
}

proof fn lemma_none_means_none_drawable(s: Seq<ShapeTreeChild>, i: int, k: int)
    requires
        0 <= i <= k < s.len(),
        first_drawable_from(s, i) is None,
    ensures
        !is_drawable(s[k]),
    decreases k - i,
{
    if i < k {
        lemma_none_means_none_drawable(s, i + 1, k);
    }
}

/// Both ends of the z-order are child indices of the tree or its end.
pub proof fn lemma_front_back_in_range(s: Seq<ShapeTreeChild>)
    ensures
        0 <= back_index(s) <= s.len(),
        0 <= front_index(s) <= s.len(),
{
    lemma_first_drawable_range(s, 0);
    lemma_last_drawable_range(s, s.len() as int);
    lemma_last_group_props_range(s, s.len() as int);
}

/// The child index where a new element goes: the front by default, the back,
/// or an explicit ordinal.
pub open spec fn placement_index_ok(s: Seq<ShapeTreeChild>, z: Option<ZOrder>, r: Result<usize, EditError>) -> bool {
    match z {
        None | Some(ZOrder::Keyword(ZOrderKeyword::Front)) => r == Ok::<usize, EditError>(front_index(s) as usize),
        Some(ZOrder::Keyword(ZOrderKeyword::Back)) => r == Ok::<usize, EditError>(back_index(s) as usize),
        Some(ZOrder::Index(i)) => {
            let back = next_ordinal(s, back_index(s));
            let front = next_ordinal(s, front_index(s));
            &&& (i < back || i > front) ==> (r matches Err(e) && e.code == ErrorCode::InvalidInput
                && e.message@ == z_order_range_message(back, front))
            &&& !(i < back || i > front) ==> r == Ok::<usize, EditError>(ordinal_index_from(s, i as int, 0) as usize)
        },
    }
}

/// Why a new element cannot be placed as asked, if it cannot: only an
/// explicit ordinal outside the range from the back to the front fails.
pub open spec fn placement_error(s: Seq<ShapeTreeChild>, z: Option<ZOrder>) -> Option<Seq<char>> {
    match z {
        Some(ZOrder::Index(i)) => {
            let back = next_ordinal(s, back_index(s));
            let front = next_ordinal(s, front_index(s));
            if i < back || i > front {
                Some(z_order_range_message(back, front))
            } else {
                None
            }
        },
        _ => None,
    }
}

/// The z-order an insert request asks for.
pub open spec fn requested_z(insert: Option<InsertOptions>) -> Option<ZOrder> {
    match insert {
        Some(o) => o.z_order,
        None => None,
    }
}

/// The child index where a new element goes in a shape tree.
pub fn shape_tree_child_index(children: &Vec<ShapeTreeChild>, insert: Option<&InsertOptions>) -> (r: Result<usize, EditError>)
    requires
        elements_before(children@, children@.len() as int) < u32::MAX,
    ensures
        placement_index_ok(children@, requested_z(match insert { Some(o) => Some(*o), None => None }), r),
        r matches Ok(v) ==> v <= children@.len(),
{
    proof {
        lemma_front_back_in_range(children@);
    }
    let z = match insert {
        Some(o) => o.z_order,
        None => None,
    };
    match z {
        None | Some(ZOrder::Keyword(ZOrderKeyword::Front)) => Ok(front_child_index(children)),
        Some(ZOrder::Keyword(ZOrderKeyword::Back)) => Ok(back_child_index(children)),
        Some(ZOrder::Index(index)) => explicit_child_index(children, index),
    }
}

/// Inserts a new element into a shape tree where the request places it and
/// returns its one-based element ordinal, which names it in agent ids.
pub fn insert_shape_tree_child(children: &mut Vec<ShapeTreeChild>, child: ShapeTreeChild, insert: Option<&InsertOptions>) -> (r: Result<u32, EditError>)
    requires
        elements_before(old(children)@, old(children)@.len() as int) < u32::MAX,
    ensures
        match placement_error(old(children)@, requested_z(match insert { Some(o) => Some(*o), None => None })) {
            Some(m) => r matches Err(e) && e.code == ErrorCode::InvalidInput && e.message@ == m,
            None => r is Ok,
        },
        r is Err ==> final(children)@ == old(children)@,
        r matches Ok(ordinal) ==> exists|k: int| {
            &&& placement_index_ok(old(children)@, requested_z(match insert { Some(o) => Some(*o), None => None }), Ok::<usize, EditError>(k as usize))
            &&& 0 <= k <= old(children)@.len()
            &&& final(children)@ == old(children)@.insert(k, child)
            &&& ordinal == elements_before(old(children)@, k) + 1
        },
{
    let index = match shape_tree_child_index(children, insert) {
        Ok(i) => i,
        Err(e) => return Err(e),
    };
    proof {
        lemma_elements_before_monotone(children@, index as int, children@.len() as int);
    }
    let before = element_ordinal_before_child_index(children, index);
    let ordinal = before + 1;
    children.insert(index, child);
    Ok(ordinal)
}


// ---------------------------------------------------------------------------
// Line breaks in new text
// ---------------------------------------------------------------------------

/// Text with every `\r\n` and every lone `\r` turned into `\n`.
pub open spec fn normalized_breaks(t: Seq<char>) -> Seq<char>
    decreases t.len(),
{
    if t.len() == 0 {
        Seq::empty()
    } else if t[0] == '\r' {
        if t.len() >= 2 && t[1] == '\n' {
            seq!['\n'] + normalized_breaks(t.skip(2))
        } else {
            seq!['\n'] + normalized_breaks(t.skip(1))
        }
    } else {
        seq![t[0]] + normalized_breaks(t.skip(1))
    }
}

/// Whether a text holds a carriage return.
pub open spec fn has_carriage_return(t: Seq<char>) -> bool {
    exists|i: int| 0 <= i < t.len() && t[i] == '\r'
}

/// New element text with Windows and classic Mac line breaks made line
/// feeds, and whether any was changed (which the edit reports as a warning).
pub fn normalize_line_breaks(text: &str) -> (r: (String, bool))
    ensures
        r.0@ == normalized_breaks(text@),
        r.1 == has_carriage_return(text@),
{
    let chars = crate::text::chars_of(text);
    let n = chars.len();
    let mut out = String::new();
    let mut changed = false;
    let mut i: usize = 0;
    proof {
        assert(text@.skip(0) =~= text@);
        assert(out@ + normalized_breaks(text@) =~= normalized_breaks(text@));
    }
    while i < n
        invariant
            i <= n,
            n == chars@.len(),
            chars@ == text@,
            out@ + normalized_breaks(text@.skip(i as int)) == normalized_breaks(text@),
            changed == exists|k: int| 0 <= k < i && text@[k] == '\r',
        decreases n - i,
    {
        let c = chars[i];
        let ghost rest = text@.skip(i as int);
        let ghost before = out@;
        proof {
            assert(rest[0] == c);
            assert(rest.skip(1) =~= text@.skip(i + 1));
        }
        if c == '\r' {
            changed = true;
            crate::text::push_char(&mut out, '\n');
            if i + 1 < n && chars[i + 1] == '\n' {
                proof {
                    assert(rest[1] == '\n');
                    assert(rest.skip(2) =~= text@.skip(i + 2));
                    assert(normalized_breaks(rest) == seq!['\n'] + normalized_breaks(text@.skip(i + 2)));
                    assert(before + (seq!['\n'] + normalized_breaks(text@.skip(i + 2)))
                        =~= out@ + normalized_breaks(text@.skip(i + 2)));
                    assert(exists|k: int| 0 <= k < i + 2 && text@[k] == '\r') by {
                        assert(text@[i as int] == '\r');
                    }
                }
                i = i + 2;
            } else {
                proof {
                    assert(normalized_breaks(rest) == seq!['\n'] + normalized_breaks(text@.skip(i + 1)));
                    assert(before + (seq!['\n'] + normalized_breaks(text@.skip(i + 1)))
                        =~= out@ + normalized_breaks(text@.skip(i + 1)));
                    assert(text@[i as int] == '\r');
                }
                i = i + 1;
            }
        } else {
            crate::text::push_char(&mut out, c);
            proof {
                assert(normalized_breaks(rest) == seq![c] + normalized_breaks(text@.skip(i + 1)));
                assert(before + (seq![c] + normalized_breaks(text@.skip(i + 1)))
                    =~= out@ + normalized_breaks(text@.skip(i + 1)));
                assert(text@[i as int] != '\r');
                assert((exists|k: int| 0 <= k < i + 1 && text@[k] == '\r') == (exists|k: int| 0 <= k < i && text@[k] == '\r'));
            }
            i = i + 1;
        }
    }
    proof {
        assert(text@.skip(n as int) =~= Seq::<char>::empty());
        assert(out@ + Seq::<char>::empty() =~= out@);
    }
    (out, changed)
}
} // verus!
