//! Selection logic of a vertical list of radio buttons.
//!
//! Which row lies under the cursor is a question of screen geometry that the
//! widget answers; this module decides what the list does with the answer.
use vstd::prelude::*;

verus! {

/// Per-widget state for hover tracking.
#[derive(Debug, Default, Clone, Copy, PartialEq, Eq, Structural)]
pub struct State {
    pub hovered_row: Option<usize>,
}

/// An input event as the list sees it, with the row under the cursor.
#[derive(Debug, Clone, Copy, PartialEq, Eq, Structural)]
pub enum RadioEvent {
    CursorMoved(Option<usize>),
    LeftPressed(Option<usize>),
    Other,
}

/// Handles an event on a list whose selected row is `selected`; returns the
/// newly selected row when a press selects a row other than the current one.
pub fn on_event(state: &mut State, selected: &mut usize, event: RadioEvent) -> (change: Option<usize>)
    ensures
        final(state).hovered_row == match event {
            RadioEvent::CursorMoved(row) => row,
            _ => old(state).hovered_row,
        },
        change == match event {
            RadioEvent::LeftPressed(Some(row)) => if row != *old(selected) {
                Some(row)
            } else {
                None
            },
            _ => None,
        },
        *final(selected) == match change {
            Some(row) => row,
            None => *old(selected),
        },
{
    match event {
        RadioEvent::CursorMoved(row) => {
            state.hovered_row = row;
            None
        },
        RadioEvent::LeftPressed(Some(row)) => {
            if row != *selected {
                *selected = row;
                Some(row)
            } else {
                None
            }
        },
        _ => None,
    }
}

/// A change is reported exactly when the selection moves, and it names the
/// new selection.
pub proof fn lemma_change_iff_selection_moves(
    old_selected: usize,
    new_selected: usize,
    event: RadioEvent,
    change: Option<usize>,
)
    requires
        change == match event {
            RadioEvent::LeftPressed(Some(row)) => if row != old_selected {
                Some(row)
            } else {
                None
            },
            _ => None,
        },
        new_selected == match change {
            Some(row) => row,
            None => old_selected,
        },
    ensures
        change is Some <==> new_selected != old_selected,
        change is Some ==> change->0 == new_selected,
{
}

} // verus!
