//! The range of element bounds an edit may write.
use vstd::prelude::*;
use crate::error::EditError;
use crate::patch::Bounds;
use crate::schemas::ErrorCode;
use crate::text::owned;

verus! {

/// The largest coordinate, in EMUs, that an edge of an element may reach.
pub const MAX_EMU_COORDINATE: i64 = 27_273_042_316_900;

/// The first rule that bounds break: 1 for a negative position or an empty
/// extent, 2 for a value past the largest coordinate, 3 for a far edge past
/// it; 0 when they break none.
pub open spec fn bounds_fault(b: Bounds) -> int {
    if b.x < 0 || b.y < 0 || b.cx <= 0 || b.cy <= 0 {
        1
    } else if b.x > MAX_EMU_COORDINATE || b.y > MAX_EMU_COORDINATE || b.cx > MAX_EMU_COORDINATE
        || b.cy > MAX_EMU_COORDINATE {
        2
    } else if b.x + b.cx > MAX_EMU_COORDINATE || b.y + b.cy > MAX_EMU_COORDINATE {
        3
    } else {
        0
    }
}

/// The message for each rule that bounds can break.
pub open spec fn bounds_message(fault: int) -> Seq<char> {
    if fault == 1 {
        "Bounds require x/y >= 0 and cx/cy > 0."@
    } else if fault == 2 {
        "Bounds must be <= 27273042316900 EMUs."@
    } else {
        "Bounds x+cx and y+cy must be <= 27273042316900 EMUs."@
    }
}

/// Checks that bounds have a non-negative position, a positive extent, and
/// stay within the largest coordinate.
pub fn validate_bounds(bounds: &Bounds) -> (r: Result<(), EditError>)
    ensures
        r is Ok <==> bounds_fault(*bounds) == 0,
        r matches Err(e) ==> e.code == ErrorCode::InvalidBounds && e.message@ == bounds_message(bounds_fault(*bounds)),
{
    if bounds.x < 0 || bounds.y < 0 || bounds.cx <= 0 || bounds.cy <= 0 {
        return Err(EditError::new(ErrorCode::InvalidBounds, owned("Bounds require x/y >= 0 and cx/cy > 0.")));
    }
    if bounds.x > MAX_EMU_COORDINATE || bounds.y > MAX_EMU_COORDINATE || bounds.cx > MAX_EMU_COORDINATE
        || bounds.cy > MAX_EMU_COORDINATE {
        return Err(EditError::new(ErrorCode::InvalidBounds, owned("Bounds must be <= 27273042316900 EMUs.")));
    }
    if bounds.x + bounds.cx > MAX_EMU_COORDINATE || bounds.y + bounds.cy > MAX_EMU_COORDINATE {
        return Err(EditError::new(
            ErrorCode::InvalidBounds,
            owned("Bounds x+cx and y+cy must be <= 27273042316900 EMUs."),
        ));
    }
    Ok(())
}


/// Bounds are accepted exactly when they describe a box of positive width and
/// height whose position is not negative and whose far edges stay within the
/// largest coordinate.
pub proof fn lemma_accepted_bounds(b: Bounds)
    ensures
        bounds_fault(b) == 0 <==> (0 <= b.x && 0 <= b.y && 0 < b.cx && 0 < b.cy
            && b.x + b.cx <= MAX_EMU_COORDINATE && b.y + b.cy <= MAX_EMU_COORDINATE),
{
}
} // verus!
