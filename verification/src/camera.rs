//! Pointer input: the tracked cursor position in world coordinates, and
//! the small state machine that picks the cursor icon while an attacker
//! is hovered or dragged.
use vstd::prelude::*;
use crate::geom::Pos;

verus! {

/// Pointer happenings over an attacker.
#[derive(Clone, Copy, PartialEq, Eq, Structural, Debug)]
pub enum CursorEvents {
    Out,
    Over,
    Pressed,
    Released,
}

/// The cursor icons the game shows.
#[derive(Clone, Copy, PartialEq, Eq, Structural, Debug)]
pub enum CursorShape {
    HandPoint,
    HandOpen,
    HandClosed,
}

/// The icon to switch to (or none) and the new dragging flag, for one
/// pointer event under the current dragging flag.
pub open spec fn spec_cursor_icon(event: CursorEvents, is_dragging: bool) -> (Option<CursorShape>, bool) {
    match (event, is_dragging) {
        (CursorEvents::Over, false) => (Some(CursorShape::HandOpen), false),
        (CursorEvents::Pressed, false) => (Some(CursorShape::HandClosed), true),
        (CursorEvents::Released, true) => (Some(CursorShape::HandOpen), false),
        (CursorEvents::Out, false) => (Some(CursorShape::HandPoint), false),
        _ => (None, is_dragging),
    }
}

/// Decide the cursor icon for one pointer event: hovering shows the open
/// hand, pressing grabs (closed hand) and starts a drag, releasing ends
/// the drag, leaving shows the pointing hand; anything else changes
/// nothing.
pub fn cursor_icon_update(event: CursorEvents, is_dragging: &mut bool) -> (icon: Option<CursorShape>)
    ensures
        icon == spec_cursor_icon(event, *old(is_dragging)).0,
        *final(is_dragging) == spec_cursor_icon(event, *old(is_dragging)).1,
{
    match (event, *is_dragging) {
        (CursorEvents::Over, false) => Some(CursorShape::HandOpen),
        (CursorEvents::Pressed, false) => {
            *is_dragging = true;
            Some(CursorShape::HandClosed)
        },
        (CursorEvents::Released, true) => {
            *is_dragging = false;
            Some(CursorShape::HandOpen)
        },
        (CursorEvents::Out, false) => Some(CursorShape::HandPoint),
        _ => None,
    }
}

/// The cursor's position carried into world coordinates.
#[derive(Clone, Copy, PartialEq, Eq, Structural, Debug)]
pub struct MouseTracker {
    pub pos: Pos,
}

impl MouseTracker {
    pub fn new() -> (t: MouseTracker)
        ensures
            t.pos == (Pos { x: 0, y: 0 }),
    {
        MouseTracker { pos: Pos { x: 0, y: 0 } }
    }
}

/// Record the cursor's world position for this tick.
pub fn update_mouse_tracker(tracker: &mut MouseTracker, world_pos: Pos)
    ensures
        final(tracker).pos == world_pos,
{
    tracker.pos = world_pos;
}

} // verus!
