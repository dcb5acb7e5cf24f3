use lemoncraft::drag::{DragManager, Event, Interaction, Modifiers, Vec2i};
use lemoncraft::slot::{
    cached_key_changed, format_amount, serve_request, slot_look, slot_on_event, ContentScale, SlotEvent,
    SlotFrame, SlotRequest, SlotState,
};

#[test]
fn amount_plain_format() {
    assert_eq!(format_amount(42, false, 6), "42");
    assert_eq!(format_amount(0, false, 6), "0");
}

#[test]
fn amount_prefix_format() {
    // With the default switch point of 6, values below 100_000 stay
    // un-prefixed.
    assert_eq!(format_amount(999, true, 6), "999");
    assert_eq!(format_amount(1500, true, 6), "1500");
    assert_eq!(format_amount(1_500_000, true, 6), "1500K");
    assert_eq!(format_amount(2_000_000_000, true, 6), "2000M");
}

#[test]
fn amount_prefix_switch_point() {
    assert_eq!(format_amount(999, true, 4), "999");
    assert_eq!(format_amount(1500, true, 4), "1K");
    assert_eq!(format_amount(1_500_000, true, 4), "1M");
}

#[test]
fn amount_giga_prefix_and_limits() {
    assert_eq!(format_amount(u32::MAX, true, 4), "4G");
    assert_eq!(format_amount(u32::MAX, false, 4), "4294967295");
    assert_eq!(format_amount(99_999, true, 6), "99999");
    assert_eq!(format_amount(100_000, true, 6), "100K");
    assert_eq!(format_amount(999_999_999, true, 13), "999999999");
}

#[test]
fn amount_matches_std_formatting_without_prefixes() {
    for n in [0u32, 1, 9, 10, 99, 100, 12345, 1_000_000, 4_000_000_007, u32::MAX] {
        assert_eq!(format_amount(n, false, 6), format!("{}", n));
    }
}

#[derive(Debug, Clone, Copy, PartialEq, Eq)]
struct Key(u8);

#[test]
fn press_counts_clicks_and_requests_a_click() {
    let mut state = SlotState::new((0.0f32, 0.0f32));
    let cursor = Vec2i { x: 5, y: 5 };
    let r = slot_on_event(&mut state, SlotEvent::LeftPressed { pos: (5.0, 5.0) }, true, cursor, Key(1), true, Some(3));
    assert_eq!(
        r,
        Some(SlotRequest::Click { slot: Key(1), filled: true, click_count: 1, modifiers: Modifiers::default() })
    );
    assert!(state.pressed);
    assert_eq!(state.press_pos, (5.0, 5.0));
    // Moving far enough while pressed on a filled slot starts a drag.
    let r = slot_on_event(
        &mut state,
        SlotEvent::CursorMoved { moved_past_threshold: true },
        true,
        cursor,
        Key(1),
        true,
        Some(3),
    );
    assert_eq!(r, Some(SlotRequest::DragStart { slot: Key(1), amount: Some(3) }));
    let r = slot_on_event(&mut state, SlotEvent::LeftReleased, false, Vec2i { x: 90, y: 9 }, Key(1), true, Some(3));
    assert_eq!(r, Some(SlotRequest::Release { cursor: Vec2i { x: 90, y: 9 } }));
    assert!(!state.pressed);
    // A press outside the slot is not a click.
    let r = slot_on_event(&mut state, SlotEvent::LeftPressed { pos: (50.0, 5.0) }, false, cursor, Key(1), true, None);
    assert_eq!(r, None);
    assert_eq!(state.click_count, 1);
}

#[test]
fn empty_slot_does_not_start_a_drag() {
    let mut state = SlotState::new(0u8);
    let cursor = Vec2i { x: 0, y: 0 };
    slot_on_event(&mut state, SlotEvent::LeftPressed { pos: 1 }, true, cursor, Key(2), false, None);
    let r = slot_on_event(
        &mut state,
        SlotEvent::CursorMoved { moved_past_threshold: true },
        true,
        cursor,
        Key(2),
        false,
        None,
    );
    assert_eq!(r, None);
    assert!(state.hover);
}

#[test]
fn modifiers_reach_the_click() {
    let mut state = SlotState::new(0u8);
    let cursor = Vec2i { x: 0, y: 0 };
    let ctrl = Modifiers { control: true, ..Default::default() };
    slot_on_event(&mut state, SlotEvent::ModifiersChanged(ctrl), true, cursor, Key(2), true, None);
    let r = slot_on_event(&mut state, SlotEvent::LeftPressed { pos: 0 }, true, cursor, Key(2), true, None);
    assert_eq!(r, Some(SlotRequest::Click { slot: Key(2), filled: true, click_count: 1, modifiers: ctrl }));
    let mut m = DragManager::new(true, 6);
    serve_request(&mut m, r.unwrap());
    assert_eq!(m.take_events(), vec![Event::Request { slot: Key(2), auto_quantity: true }]);
}

#[test]
fn look_of_a_selected_and_a_dragged_slot() {
    let look = slot_look(Interaction::Selected, true, true, false, false, true, Some(1500), true, 4);
    assert_eq!(look.frame, SlotFrame::Selected);
    assert_eq!(look.content, Some(ContentScale::Selected));
    assert!(!look.icon);
    assert_eq!(look.amount.as_deref(), Some("1K"));

    let look = slot_look(Interaction::Dragging, true, true, true, false, true, Some(7), true, 6);
    assert_eq!(look.frame, SlotFrame::Empty);
    assert_eq!(look.content, None);
    assert!(look.icon);
    assert!(look.drag_ghost);
    assert!(look.amount.is_none());
    assert!(look.pointer);

    let look = slot_look(Interaction::Nothing, false, false, false, true, false, None, false, 6);
    assert_eq!(look.frame, SlotFrame::Empty);
    assert!(look.hover_highlight);
    assert!(!look.pointer);
}

#[test]
fn cached_images_follow_the_key() {
    assert!(!cached_key_changed::<u8>(None, None));
    assert!(cached_key_changed(Some(&1u8), None));
    assert!(cached_key_changed(None, Some(&1u8)));
    assert!(!cached_key_changed(Some(&1u8), Some(&1u8)));
    assert!(cached_key_changed(Some(&1u8), Some(&2u8)));
}
