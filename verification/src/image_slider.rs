//! Drag tracking of an image slider.
//!
//! The value under the cursor is computed by the widget from its geometry;
//! this module decides when that value is taken.
use vstd::prelude::*;

verus! {

/// Per-widget state for drag tracking.
#[derive(Debug, Default, Clone, Copy, PartialEq, Eq, Structural)]
pub struct State {
    pub dragging: bool,
}

/// An input event as the slider sees it.
#[derive(Debug, Clone, Copy, PartialEq, Eq, Structural)]
pub enum SliderEvent {
    /// The left button went down; `in_bounds` tells whether over the slider.
    LeftPressed { in_bounds: bool },
    CursorMoved,
    LeftReleased,
    Other,
}

/// Handles an event; returns whether the slider takes the value under the
/// cursor (a press on the slider starts a drag, moves during a drag follow
/// the cursor, a release ends the drag).
pub fn on_event(state: &mut State, event: SliderEvent) -> (take_value: bool)
    ensures
        final(state).dragging == match event {
            SliderEvent::LeftPressed { in_bounds } => old(state).dragging || in_bounds,
            SliderEvent::LeftReleased => false,
            _ => old(state).dragging,
        },
        take_value == match event {
            SliderEvent::LeftPressed { in_bounds } => in_bounds,
            SliderEvent::CursorMoved => old(state).dragging,
            _ => false,
        },
{
    match event {
        SliderEvent::LeftPressed { in_bounds } => {
            if in_bounds {
                state.dragging = true;
            }
            in_bounds
        },
        SliderEvent::CursorMoved => state.dragging,
        SliderEvent::LeftReleased => {
            state.dragging = false;
            false
        },
        SliderEvent::Other => false,
    }
}

} // verus!
