//! The editor view's left-button protocol: a press grabs a gizmo handle or
//! starts an orbit drag, a release ends it (a release close to the press is
//! a click that picks), and pointer motion drags, orbits, pans or hovers.
//! Dragging the view orbits it in the 3D grid mode and pans it in the 2D
//! grid mode or while Space is held.
//! Pointer positions `P` are carried as they are.
use vstd::prelude::*;

verus! {

/// Pointer and key state of the editor view.
pub struct InputState<P> {
    /// An orbit (or pan) drag is in progress.
    pub is_dragging: bool,
    /// Where the pointer was last seen.
    pub last_mouse_pos: Option<P>,
    /// Where the orbit drag started.
    pub mouse_down_pos: Option<P>,
    /// Space is held: dragging the view pans it.
    pub space_held: bool,
    /// Shift is held: gizmo drags snap.
    pub shift_held: bool,
}

/// What a release of the left button asks for.
pub enum ReleaseAction<P> {
    /// Let go of the gizmo handle being dragged.
    EndGizmoDrag,
    /// The orbit drag ended where it started from `down` and is now at `up`:
    /// a click there if the two are close.
    Click { down: P, up: P },
    /// The orbit drag ended; there is nothing to pick.
    EndDrag,
}

/// What pointer motion asks for.
pub enum MoveAction<P> {
    /// Move the gizmo handle being dragged.
    DragGizmo,
    /// Pan the view by the motion from `from`.
    Pan { from: P },
    /// Orbit the view by the motion from `from`.
    Orbit { from: P },
    /// Update which gizmo handle is hovered.
    Hover,
    /// A drag with no earlier position to move from.
    Nothing,
}

impl<P: Copy> InputState<P> {
    /// No drag, no known pointer position, no key held.
    pub fn new() -> (r: Self)
        ensures
            !r.is_dragging,
            r.last_mouse_pos is None,
            r.mouse_down_pos is None,
            !r.space_held,
            !r.shift_held,
    {
        InputState {
            is_dragging: false,
            last_mouse_pos: None,
            mouse_down_pos: None,
            space_held: false,
            shift_held: false,
        }
    }

    /// The left button went down. Unless the press grabbed a gizmo handle,
    /// an orbit drag starts from the last known pointer position.
    pub fn left_pressed(&mut self, grabbed_handle: bool)
        ensures
            final(self).last_mouse_pos == old(self).last_mouse_pos,
            final(self).space_held == old(self).space_held,
            final(self).shift_held == old(self).shift_held,
            grabbed_handle ==> final(self).is_dragging == old(self).is_dragging
                && final(self).mouse_down_pos == old(self).mouse_down_pos,
            !grabbed_handle ==> final(self).is_dragging && final(self).mouse_down_pos == old(
                self,
            ).last_mouse_pos,
    {
        if !grabbed_handle {
            self.is_dragging = true;
            self.mouse_down_pos = self.last_mouse_pos;
        }
    }

    /// The left button went up. A gizmo drag ends; otherwise the orbit drag
    /// ends and the press position is forgotten, and where both the press and
    /// the current positions are known the release is a click candidate.
    pub fn left_released(&mut self, dragging_handle: bool) -> (r: ReleaseAction<P>)
        ensures
            final(self).last_mouse_pos == old(self).last_mouse_pos,
            final(self).space_held == old(self).space_held,
            final(self).shift_held == old(self).shift_held,
            dragging_handle ==> r is EndGizmoDrag && final(self).is_dragging == old(self).is_dragging
                && final(self).mouse_down_pos == old(self).mouse_down_pos,
            !dragging_handle ==> !final(self).is_dragging && final(self).mouse_down_pos is None && (
            match (old(self).mouse_down_pos, old(self).last_mouse_pos) {
                (Some(d), Some(u)) => r == ReleaseAction::Click { down: d, up: u },
                _ => r is EndDrag,
            }),
    {
        if dragging_handle {
            return ReleaseAction::EndGizmoDrag;
        }
        self.is_dragging = false;
        let action = match (self.mouse_down_pos, self.last_mouse_pos) {
            (Some(d), Some(u)) => ReleaseAction::Click { down: d, up: u },
            _ => ReleaseAction::EndDrag,
        };
        self.mouse_down_pos = None;
        action
    }

    /// The pointer moved to `pos`: a gizmo drag follows it; a view drag pans
    /// (2D grid mode, or Space held) or orbits from the last position;
    /// otherwise the hovered handle is updated. The new position is
    /// remembered in every case.
    pub fn cursor_moved(&mut self, pos: P, dragging_handle: bool, grid_2d: bool) -> (r: MoveAction<P>)
        ensures
            final(self).last_mouse_pos == Some(pos),
            final(self).is_dragging == old(self).is_dragging,
            final(self).mouse_down_pos == old(self).mouse_down_pos,
            final(self).space_held == old(self).space_held,
            final(self).shift_held == old(self).shift_held,
            r == (if dragging_handle {
                MoveAction::DragGizmo
            } else if old(self).is_dragging {
                match old(self).last_mouse_pos {
                    Some(from) => if old(self).space_held || grid_2d {
                        MoveAction::Pan { from }
                    } else {
                        MoveAction::Orbit { from }
                    },
                    None => MoveAction::Nothing,
                }
            } else {
                MoveAction::Hover
            }),
    {
        let action = if dragging_handle {
            MoveAction::DragGizmo
        } else if self.is_dragging {
            match self.last_mouse_pos {
                Some(from) => if self.space_held || grid_2d {
                    MoveAction::Pan { from }
                } else {
                    MoveAction::Orbit { from }
                },
                None => MoveAction::Nothing,
            }
        } else {
            MoveAction::Hover
        };
        self.last_mouse_pos = Some(pos);
        action
    }
}

} // verus!
