use lemoncraft::drag::{bounds_contains, Aabr, DragManager, Event, Interaction, Modifiers, Vec2i};

#[derive(Debug, Clone, Copy, PartialEq, Eq)]
struct Slot(u8);

fn aabr(x: f32, y: f32, w: f32, h: f32) -> Aabr {
    Aabr {
        min: Vec2i { x: x as i32, y: y as i32 },
        max: Vec2i { x: (x + w) as i32, y: (y + h) as i32 },
    }
}

fn cursor(x: f32, y: f32) -> Vec2i {
    Vec2i { x: x as i32, y: y as i32 }
}

fn manager() -> DragManager<Slot> {
    DragManager::new(true, 6)
}

fn no_mods() -> Modifiers {
    Modifiers::default()
}

fn ctrl() -> Modifiers {
    Modifiers { control: true, ..Default::default() }
}

#[test]
fn click_selects_filled_slot() {
    let mut m = manager();
    m.on_click(Slot(0), true, 1, no_mods());
    assert_eq!(m.selected(), Some(Slot(0)));
    assert!(m.take_events().is_empty());
}

#[test]
fn click_does_not_select_empty_slot() {
    let mut m = manager();
    m.on_click(Slot(0), false, 1, no_mods());
    assert_eq!(m.selected(), None);
}

#[test]
fn click_selected_slot_deselects() {
    let mut m = manager();
    m.on_click(Slot(0), true, 1, no_mods());
    m.on_click(Slot(0), true, 1, no_mods());
    assert_eq!(m.selected(), None);
}

#[test]
fn click_other_selected_slot_swaps() {
    let mut m = manager();
    m.on_click(Slot(0), true, 1, no_mods());
    m.on_click(Slot(1), true, 1, no_mods());
    assert_eq!(m.selected(), None);
    assert_eq!(m.take_events(), vec![Event::Dragged(Slot(0), Slot(1))]);
}

#[test]
fn double_click_selects_after_swap() {
    let mut m = manager();
    m.on_click(Slot(0), true, 1, no_mods());
    m.on_click(Slot(1), true, 2, no_mods());
    assert_eq!(m.selected(), Some(Slot(1)));
    assert_eq!(m.take_events(), vec![Event::Dragged(Slot(0), Slot(1))]);
}

#[test]
fn ctrl_click_requests_stack() {
    let mut m = manager();
    m.on_click(Slot(2), true, 1, ctrl());
    assert_eq!(m.take_events(), vec![Event::Request { slot: Slot(2), auto_quantity: true }]);
    assert_eq!(m.selected(), None);
}

#[test]
fn right_click_uses_item() {
    let mut m = manager();
    m.on_right_click(Slot(3), cursor(5.0, 5.0));
    assert_eq!(m.take_events(), vec![Event::Used(Slot(3))]);
}

#[test]
fn drag_drop_on_other_slot() {
    let mut m = manager();
    m.begin_frame();
    m.register_slot(Slot(0), aabr(0.0, 0.0, 40.0, 40.0), cursor(50.0, 50.0));
    m.register_slot(Slot(1), aabr(50.0, 0.0, 40.0, 40.0), cursor(50.0, 50.0));
    m.on_click(Slot(0), true, 1, no_mods());
    m.on_drag_start(Slot(0), Some(10));
    assert_eq!(m.dragging(), Some((Slot(0), Some(10))));
    m.on_release(cursor(60.0, 20.0));
    assert_eq!(m.take_events(), vec![Event::Dragged(Slot(0), Slot(1))]);
    assert_eq!(m.dragging(), None);
}

#[test]
fn drag_drop_on_open_space() {
    let mut m = manager();
    m.begin_frame();
    m.register_slot(Slot(0), aabr(0.0, 0.0, 40.0, 40.0), cursor(50.0, 50.0));
    m.on_drag_start(Slot(0), None);
    m.on_release(cursor(500.0, 500.0));
    assert_eq!(m.take_events(), vec![Event::Dropped(Slot(0))]);
}

#[test]
fn drag_release_on_source_is_drop() {
    let mut m = manager();
    m.begin_frame();
    m.register_slot(Slot(0), aabr(0.0, 0.0, 40.0, 40.0), cursor(50.0, 50.0));
    m.on_drag_start(Slot(0), None);
    m.on_release(cursor(10.0, 10.0));
    assert_eq!(m.take_events(), vec![Event::Dropped(Slot(0))]);
}

#[test]
fn split_drag_and_drop() {
    let mut m = manager();
    m.begin_frame();
    m.register_slot(Slot(0), aabr(0.0, 0.0, 40.0, 40.0), cursor(50.0, 50.0));
    m.register_slot(Slot(1), aabr(50.0, 0.0, 40.0, 40.0), cursor(50.0, 50.0));
    m.on_drag_start(Slot(0), Some(5));
    m.on_right_click(Slot(1), cursor(60.0, 20.0));
    assert_eq!(m.take_events(), vec![Event::SplitDragged(Slot(0), Slot(1))]);
    assert!(m.dragging().is_some(), "still dragging after split");

    m.on_release(cursor(500.0, 500.0));
    assert_eq!(m.take_events(), vec![Event::Dropped(Slot(0))]);
}

#[test]
fn split_drop_on_open_space() {
    let mut m = manager();
    m.on_drag_start(Slot(0), Some(5));
    m.on_right_click(Slot(0), cursor(500.0, 500.0));
    assert_eq!(m.take_events(), vec![Event::SplitDropped(Slot(0))]);
}

#[test]
fn empty_slot_cancels_selection() {
    let mut m = manager();
    m.on_click(Slot(0), true, 1, no_mods());
    m.on_slot_changed(Slot(0), false);
    assert_eq!(m.selected(), None);
    m.on_click(Slot(1), true, 1, no_mods());
    m.on_drag_start(Slot(1), None);
    m.on_slot_changed(Slot(1), false);
    assert_eq!(m.dragging(), None);
}

#[test]
fn mouse_over_slot_tracking() {
    let mut m = manager();
    m.begin_frame();
    m.register_slot(Slot(0), aabr(0.0, 0.0, 40.0, 40.0), cursor(20.0, 20.0));
    assert_eq!(m.mouse_over_slot(), Some(Slot(0)));
    m.register_slot(Slot(1), aabr(50.0, 0.0, 40.0, 40.0), cursor(20.0, 20.0));
    assert_eq!(m.mouse_over_slot(), Some(Slot(0)));
    m.register_slot(Slot(1), aabr(50.0, 0.0, 40.0, 40.0), cursor(60.0, 20.0));
    assert_eq!(m.mouse_over_slot(), Some(Slot(1)));
}

#[test]
fn interaction_reporting() {
    let mut m = manager();
    assert_eq!(m.interaction(Slot(0)), Interaction::Nothing);
    m.on_click(Slot(0), true, 1, no_mods());
    assert_eq!(m.interaction(Slot(0)), Interaction::Selected);
    m.on_drag_start(Slot(0), None);
    assert_eq!(m.interaction(Slot(0)), Interaction::Dragging);
}

#[test]
fn use_and_drop_selected() {
    let mut m = manager();
    m.on_click(Slot(0), true, 1, no_mods());
    m.use_selected();
    assert_eq!(m.take_events(), vec![Event::Used(Slot(0))]);
    m.on_click(Slot(0), true, 1, no_mods());
    m.dropped_selected();
    assert_eq!(m.take_events(), vec![Event::Dropped(Slot(0))]);
}

#[test]
fn shift_click_requests_single_item() {
    let mut m = manager();
    m.on_click(Slot(4), true, 1, Modifiers { shift: true, ..Default::default() });
    assert_eq!(m.take_events(), vec![Event::Request { slot: Slot(4), auto_quantity: false }]);
}

#[test]
fn modifier_click_while_dragging_is_a_plain_click() {
    let mut m = manager();
    m.on_drag_start(Slot(0), None);
    m.on_click(Slot(1), true, 1, ctrl());
    assert!(m.take_events().is_empty());
    assert_eq!(m.dragging(), None);
    assert_eq!(m.selected(), Some(Slot(1)));
}

#[test]
fn bounds_are_half_open() {
    let b = aabr(0.0, 0.0, 40.0, 40.0);
    assert!(bounds_contains(b, cursor(0.0, 0.0)));
    assert!(bounds_contains(b, cursor(39.0, 39.0)));
    assert!(!bounds_contains(b, cursor(40.0, 10.0)));
    assert!(!bounds_contains(b, cursor(10.0, 40.0)));
    assert!(!bounds_contains(b, cursor(-1.0, 10.0)));
}

#[test]
fn events_accumulate_until_taken() {
    let mut m = manager();
    m.on_right_click(Slot(1), cursor(5.0, 5.0));
    m.on_right_click(Slot(2), cursor(5.0, 5.0));
    assert_eq!(m.take_events(), vec![Event::Used(Slot(1)), Event::Used(Slot(2))]);
    assert!(m.take_events().is_empty());
}

#[test]
fn prefix_settings_round_trip() {
    let mut m = manager();
    assert!(m.use_prefixes());
    assert_eq!(m.prefix_switch_point(), 6);
    m.set_use_prefixes(false);
    m.set_prefix_switch_point(4);
    assert!(!m.use_prefixes());
    assert_eq!(m.prefix_switch_point(), 4);
}

#[test]
fn re_registering_a_slot_moves_it() {
    let mut m = manager();
    m.begin_frame();
    m.register_slot(Slot(0), aabr(0.0, 0.0, 40.0, 40.0), cursor(500.0, 500.0));
    m.register_slot(Slot(1), aabr(50.0, 0.0, 40.0, 40.0), cursor(500.0, 500.0));
    // Slot 1 moves on top of slot 0's old place; slot 0 moves away.
    m.register_slot(Slot(0), aabr(100.0, 0.0, 40.0, 40.0), cursor(500.0, 500.0));
    m.register_slot(Slot(1), aabr(0.0, 0.0, 40.0, 40.0), cursor(500.0, 500.0));
    assert_eq!(m.mouse_over_slot(), None);
    m.on_drag_start(Slot(0), None);
    m.on_release(cursor(10.0, 10.0));
    assert_eq!(m.take_events(), vec![Event::Dragged(Slot(0), Slot(1))]);
    // A new frame forgets the registry.
    m.begin_frame();
    m.on_drag_start(Slot(0), None);
    m.on_release(cursor(10.0, 10.0));
    assert_eq!(m.take_events(), vec![Event::Dropped(Slot(0))]);
}
