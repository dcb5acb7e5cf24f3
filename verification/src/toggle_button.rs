//! Two-state image button: its click detection and the image it shows.
use vstd::prelude::*;

verus! {

/// An 8-bit RGBA color.
#[derive(Debug, Clone, Copy, PartialEq, Eq, Structural)]
pub struct Rgba8 {
    pub r: u8,
    pub g: u8,
    pub b: u8,
    pub a: u8,
}

/// Image states of a button: default plus optional hover and press
/// variants; `H` is the caller's image handle type.
#[derive(Debug, Clone, Copy)]
pub struct ImageStates<H> {
    pub default: H,
    pub hover: Option<H>,
    pub press: Option<H>,
    pub color: Option<Rgba8>,
}

impl<H: Copy> ImageStates<H> {
    pub fn new(default: H) -> (s: Self)
        ensures
            s.default == default,
            s.hover is None,
            s.press is None,
            s.color is None,
    {
        ImageStates { default, hover: None, press: None, color: None }
    }

    pub fn hover(self, hover: H) -> (s: Self)
        ensures
            s == (ImageStates { hover: Some(hover), ..self }),
    {
        ImageStates { hover: Some(hover), ..self }
    }

    pub fn press(self, press: H) -> (s: Self)
        ensures
            s == (ImageStates { press: Some(press), ..self }),
    {
        ImageStates { press: Some(press), ..self }
    }

    pub fn color(self, color: Rgba8) -> (s: Self)
        ensures
            s == (ImageStates { color: Some(color), ..self }),
    {
        ImageStates { color: Some(color), ..self }
    }
}

/// The image of a button state: while pressed the press image (else the
/// hover image, else the default), while hovered the hover image (else the
/// default), otherwise the default.
pub open spec fn image_for_spec<H>(states: ImageStates<H>, pressed: bool, hovered: bool) -> H {
    if pressed {
        match states.press {
            Some(p) => p,
            None => match states.hover {
                Some(h) => h,
                None => states.default,
            },
        }
    } else if hovered {
        match states.hover {
            Some(h) => h,
            None => states.default,
        }
    } else {
        states.default
    }
}

/// The image a button shows.
pub fn image_for<H: Copy>(states: &ImageStates<H>, pressed: bool, hovered: bool) -> (h: H)
    ensures
        h == image_for_spec(*states, pressed, hovered),
        pressed && states.press is Some ==> h == states.press->0,
        !pressed && hovered && states.hover is Some ==> h == states.hover->0,
        !pressed && !hovered ==> h == states.default,
        states.press is None && states.hover is None ==> h == states.default,
        h == states.default || states.hover == Some(h) || states.press == Some(h),
{
    if pressed {
        match states.press {
            Some(p) => p,
            None => match states.hover {
                Some(h) => h,
                None => states.default,
            },
        }
    } else if hovered {
        match states.hover {
            Some(h) => h,
            None => states.default,
        }
    } else {
        states.default
    }
}

/// Per-widget state for press/hover tracking.
#[derive(Debug, Default, Clone, Copy, PartialEq, Eq, Structural)]
pub struct State {
    pub hover: bool,
    pub pressed: bool,
}

/// An input event as a toggle button sees it.
#[derive(Debug, Clone, Copy, PartialEq, Eq, Structural)]
pub enum ToggleEvent {
    CursorMoved,
    LeftPressed,
    LeftReleased,
    Other,
}

/// Click detection for a toggle: a click is a press followed by a release
/// within the widget bounds, and it flips the value.
pub fn toggle_on_release(pressed: bool, released_in_bounds: bool, value: bool) -> (r: Option<bool>)
    ensures
        r == if pressed && released_in_bounds {
            Some(!value)
        } else {
            None
        },
{
    if pressed && released_in_bounds {
        Some(!value)
    } else {
        None
    }
}

/// Handles an input event on a toggle button whose value is `value`, with
/// `in_bounds` telling whether the cursor is over it; returns the new value
/// when the event completes a click.
pub fn on_event(state: &mut State, event: ToggleEvent, in_bounds: bool, value: bool) -> (r: Option<
    bool,
>)
    ensures
        r == if event == ToggleEvent::LeftReleased && old(state).pressed && in_bounds {
            Some(!value)
        } else {
            None
        },
        final(state).hover == if event == ToggleEvent::CursorMoved {
            in_bounds
        } else {
            old(state).hover
        },
        final(state).pressed == match event {
            ToggleEvent::LeftPressed => old(state).pressed || in_bounds,
            ToggleEvent::LeftReleased => false,
            _ => old(state).pressed,
        },
{
    match event {
        ToggleEvent::CursorMoved => {
            state.hover = in_bounds;
            None
        },
        ToggleEvent::LeftPressed => {
            if in_bounds {
                state.pressed = true;
            }
            None
        },
        ToggleEvent::LeftReleased => {
            let r = toggle_on_release(state.pressed, in_bounds, value);
            state.pressed = false;
            r
        },
        ToggleEvent::Other => None,
    }
}

} // verus!
