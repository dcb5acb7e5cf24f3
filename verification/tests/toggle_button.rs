use lemoncraft::toggle_button::{image_for, on_event, toggle_on_release, ImageStates, Rgba8, State, ToggleEvent};

#[test]
fn release_in_bounds_toggles() {
    assert_eq!(toggle_on_release(true, true, false), Some(true));
    assert_eq!(toggle_on_release(true, true, true), Some(false));
}

#[test]
fn release_outside_bounds_does_not_toggle() {
    assert_eq!(toggle_on_release(true, false, false), None);
    assert_eq!(toggle_on_release(false, true, false), None);
}

#[test]
fn press_then_release_clicks() {
    let mut s = State::default();
    assert_eq!(on_event(&mut s, ToggleEvent::CursorMoved, true, false), None);
    assert!(s.hover);
    assert_eq!(on_event(&mut s, ToggleEvent::LeftPressed, true, false), None);
    assert!(s.pressed);
    assert_eq!(on_event(&mut s, ToggleEvent::LeftReleased, true, false), Some(true));
    assert!(!s.pressed);
    // A press outside the button and a release inside it is no click.
    on_event(&mut s, ToggleEvent::LeftPressed, false, true);
    assert_eq!(on_event(&mut s, ToggleEvent::LeftReleased, true, true), None);
}

#[test]
fn images_fall_back_to_default() {
    let plain = ImageStates::new(1u8);
    assert_eq!(image_for(&plain, true, true), 1);
    let hovered = plain.hover(2);
    assert_eq!(image_for(&hovered, true, false), 2);
    assert_eq!(image_for(&hovered, false, true), 2);
    assert_eq!(image_for(&hovered, false, false), 1);
    let full = hovered.press(3).color(Rgba8 { r: 1, g: 2, b: 3, a: 4 });
    assert_eq!(image_for(&full, true, true), 3);
    assert_eq!(full.color, Some(Rgba8 { r: 1, g: 2, b: 3, a: 4 }));
}
