//! The transform gizmo's vocabulary: its axes, its handles, and which
//! handle is drawn highlighted.
use vstd::prelude::*;

verus! {

/// An axis of the transform gizmo.
#[derive(Clone, Copy, PartialEq, Eq, Structural, Debug)]
pub enum GizmoAxis {
    X,
    Y,
    Z,
}

/// A handle of the transform gizmo: the arrow that moves along an axis or
/// the ring that rotates about it.
#[derive(Clone, Copy, PartialEq, Eq, Structural, Debug)]
pub enum GizmoPart {
    Move(GizmoAxis),
    Rotate(GizmoAxis),
}

/// A handle is drawn highlighted while it is being dragged or hovered.
pub fn is_highlighted(part: GizmoPart, hovered: Option<GizmoPart>, dragged: Option<GizmoPart>) -> (r:
    bool)
    ensures
        r == (dragged == Some(part) || hovered == Some(part)),
{
    let dragging_it = match dragged {
        Some(d) => d == part,
        None => false,
    };
    let hovering_it = match hovered {
        Some(h) => h == part,
        None => false,
    };
    dragging_it || hovering_it
}

} // verus!
