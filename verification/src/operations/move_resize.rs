//! The `move_resize_element` operation: the checks made before an element's
//! bounds are rewritten, and the order of transform children.
use vstd::prelude::*;
use crate::error::{EditError, ErrorLocation};
use crate::operations::bounds::{bounds_fault, validate_bounds};
use crate::patch::{Bounds, MoveResizeElementOperation};
use crate::schemas::ErrorCode;
use crate::selectors::ResolvedElement;
use crate::text::{owned, sview};

verus! {

/// A `move_resize_element` request as the operation runs it.
#[derive(Clone, Debug, Eq, PartialEq)]
pub struct MoveResize {
    pub element_id: String,
    pub bounds: Bounds,
}

impl MoveResize {
    /// The request a `move_resize_element` operation makes, on the element it names.
    pub fn from(operation: &MoveResizeElementOperation) -> (r: MoveResize)
        ensures
            r.element_id@ == (match crate::patch::targets::element_id_of(operation.element_id@, operation.selector) {
                Some(x) => x,
                None => operation.element_id@,
            }),
            r.bounds == operation.bounds,
    {
        MoveResize {
            element_id: owned(operation.target_element_id()),
            bounds: Bounds { x: operation.bounds.x, y: operation.bounds.y, cx: operation.bounds.cx, cy: operation.bounds.cy },
        }
    }

    /// Checks the new bounds.
    pub fn validate(&self) -> (r: Result<(), EditError>)
        ensures
            r is Ok <==> bounds_fault(self.bounds) == 0,
            r matches Err(e) ==> e.code == ErrorCode::InvalidBounds && sview(e.location.element_id) == Some(self.element_id@),
    {
        match validate_bounds(&self.bounds) {
            Ok(()) => Ok(()),
            Err(e) => {
                let mut l = ErrorLocation::blank();
                l.element_id = Some(owned(self.element_id.as_str()));
                Err(e.with_location(l))
            },
        }
    }
}

/// Where an error about a resolved element arose.
pub fn location(target: &ResolvedElement) -> (l: ErrorLocation)
    ensures
        sview(l.part) == Some(target.part@),
        sview(l.slide_id) == Some(target.slide_id@),
        sview(l.element_id) == Some(target.element_id@),
        sview(l.operation) == Some("move_resize_element"@),
{
    let mut l = ErrorLocation::blank();
    l.part = Some(owned(target.part.as_str()));
    l.slide_id = Some(owned(target.slide_id.as_str()));
    l.element_id = Some(owned(target.element_id.as_str()));
    l.operation = Some(owned("move_resize_element"));
    l
}

/// Refuses an element without movable bounds; `movable` is whether its kind
/// has a DrawingML transform.
pub fn ensure_movable(target: &ResolvedElement, movable: bool) -> (r: Result<(), EditError>)
    ensures
        r is Ok <==> movable,
        r matches Err(e) ==> e.code == ErrorCode::UnsupportedEdit && sview(e.location.element_id) == Some(target.element_id@),
{
    if movable {
        Ok(())
    } else {
        Err(EditError::new(ErrorCode::UnsupportedEdit, owned("Target element does not have movable DrawingML bounds."))
            .with_location(location(target)))
    }
}

/// The position of a child within a DrawingML transform: offset first, then
/// extent, then the child offset and extent of groups.
pub open spec fn transform_rank(local_name: Seq<char>) -> Option<nat> {
    if local_name == "xfrm"@ || local_name == "off"@ {
        Some(0)
    } else if local_name == "ext"@ {
        Some(1)
    } else if local_name == "chOff"@ {
        Some(2)
    } else if local_name == "chExt"@ {
        Some(3)
    } else {
        None
    }
}

/// The position of a child within a DrawingML transform.
pub fn transform_order(local_name: &str) -> (r: Option<usize>)
    ensures
        match transform_rank(local_name@) {
            Some(k) => r == Some(k as usize),
            None => r is None,
        },
{
    if crate::text::str_eq(local_name, "xfrm") || crate::text::str_eq(local_name, "off") {
        Some(0)
    } else if crate::text::str_eq(local_name, "ext") {
        Some(1)
    } else if crate::text::str_eq(local_name, "chOff") {
        Some(2)
    } else if crate::text::str_eq(local_name, "chExt") {
        Some(3)
    } else {
        None
    }
}

/// The child index where a transform child goes among existing children
/// (given by local name, `None` for non-elements): before the first child
/// ranked after it, else at the end; an unranked name goes at the end.
pub open spec fn ordered_index(children: Seq<Option<Seq<char>>>, local_name: Seq<char>) -> int {
    match transform_rank(local_name) {
        None => children.len() as int,
        Some(rank) => first_ranked_after(children, rank, 0),
    }
}

/// The first child at or after `i` ranked after `rank`, else the end.
pub open spec fn first_ranked_after(children: Seq<Option<Seq<char>>>, rank: nat, i: int) -> int
    decreases children.len() - i,
{
    if i < 0 || i >= children.len() {
        children.len() as int
    } else if (children[i] matches Some(n) && (transform_rank(n) matches Some(k) && k > rank)) {
        i
    } else {
        first_ranked_after(children, rank, i + 1)
    }
}

/// The child index where a transform child goes.
pub fn ordered_insertion_index(children: &Vec<Option<String>>, local_name: &str) -> (r: usize)
    ensures
        r == ordered_index(children@.map_values(|c: Option<String>| sview(c)), local_name@),
{
    let ghost names = children@.map_values(|c: Option<String>| sview(c));
    let new_order = match transform_order(local_name) {
        None => return children.len(),
        Some(o) => o,
    };
    let n = children.len();
    let mut i: usize = 0;
    while i < n
        invariant
            i <= n,
            n == children@.len(),
            names == children@.map_values(|c: Option<String>| sview(c)),
            transform_rank(local_name@) == Some(new_order as nat),
            first_ranked_after(names, new_order as nat, 0) == first_ranked_after(names, new_order as nat, i as int),
        decreases n - i,
    {
        let later = match &children[i] {
            Some(name) => match transform_order(name.as_str()) {
                Some(k) => k > new_order,
                None => false,
            },
            None => false,
        };
        proof {
            assert(names[i as int] == sview(children@[i as int]));
        }
        if later {
            return i;
        }
        i = i + 1;
    }
    n
}

} // verus!
