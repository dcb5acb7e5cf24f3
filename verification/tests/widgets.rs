use lemoncraft::image_slider::{self, SliderEvent};
use lemoncraft::radio_list::{self, RadioEvent};

#[test]
fn radio_press_selects_other_row() {
    let mut state = radio_list::State::default();
    let mut selected = 0usize;
    assert_eq!(radio_list::on_event(&mut state, &mut selected, RadioEvent::CursorMoved(Some(2))), None);
    assert_eq!(state.hovered_row, Some(2));
    assert_eq!(radio_list::on_event(&mut state, &mut selected, RadioEvent::LeftPressed(Some(2))), Some(2));
    assert_eq!(selected, 2);
    // Pressing the selected row again reports nothing.
    assert_eq!(radio_list::on_event(&mut state, &mut selected, RadioEvent::LeftPressed(Some(2))), None);
    // A press beside the rows reports nothing.
    assert_eq!(radio_list::on_event(&mut state, &mut selected, RadioEvent::LeftPressed(None)), None);
    assert_eq!(selected, 2);
    radio_list::on_event(&mut state, &mut selected, RadioEvent::CursorMoved(None));
    assert_eq!(state.hovered_row, None);
}

#[test]
fn slider_follows_cursor_only_while_dragging() {
    let mut s = image_slider::State::default();
    assert!(!image_slider::on_event(&mut s, SliderEvent::CursorMoved));
    assert!(!image_slider::on_event(&mut s, SliderEvent::LeftPressed { in_bounds: false }));
    assert!(!s.dragging);
    assert!(image_slider::on_event(&mut s, SliderEvent::LeftPressed { in_bounds: true }));
    assert!(s.dragging);
    assert!(image_slider::on_event(&mut s, SliderEvent::CursorMoved));
    assert!(!image_slider::on_event(&mut s, SliderEvent::LeftReleased));
    assert!(!s.dragging);
    assert!(!image_slider::on_event(&mut s, SliderEvent::CursorMoved));
    assert!(!image_slider::on_event(&mut s, SliderEvent::Other));
}
