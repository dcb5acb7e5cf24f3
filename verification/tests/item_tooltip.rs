use lemoncraft::item_tooltip::{ItemTooltipManager, Opacity};

const MS: u64 = 1_000_000;

fn manager() -> ItemTooltipManager<u8, (f32, f32)> {
    ItemTooltipManager::new(50 * MS, 20 * MS, (0.0, 0.0))
}

#[test]
fn manager_hover_and_fade() {
    let mut manager = manager();
    let pos = (10.0, 10.0);

    assert!(manager.showing(1, 0).is_none());
    manager.update(Some((1, pos)));
    manager.maintain(0);
    assert!(manager.showing(1, 0).is_none(), "not shown before hover_dur");
    manager.maintain(60 * MS);
    let (shown_pos, opacity) = manager.showing(1, 60 * MS).unwrap();
    assert_eq!(shown_pos, pos);
    assert_eq!(opacity, Opacity::Full);

    // Moving to a different key starts fading.
    manager.update(Some((2, pos)));
    manager.maintain(60 * MS);
    let (_, opacity) = manager.showing(1, 61 * MS).unwrap();
    assert!(matches!(opacity, Opacity::Fading { .. }), "fading");
    manager.update(Some((2, pos)));
    manager.maintain(90 * MS);
    assert!(manager.showing(1, 90 * MS).is_none(), "faded out");

    // Leaving the widget entirely.
    manager.update(None);
    manager.maintain(90 * MS);
    let (_, opacity) = manager.showing(2, 91 * MS).unwrap();
    assert!(matches!(opacity, Opacity::Fading { .. }), "fading after cursor leaves");
    manager.maintain(120 * MS);
    assert!(manager.showing(2, 120 * MS).is_none());
}

#[test]
fn manager_restart_on_new_hover() {
    let mut manager = manager();
    manager.update(Some((1, (0.0, 0.0))));
    manager.maintain(0);
    manager.maintain(60 * MS);
    assert!(manager.showing(1, 60 * MS).is_some());

    // Hovering a new widget and waiting fades out the old one.
    manager.update(Some((2, (0.0, 0.0))));
    manager.maintain(60 * MS);
    manager.maintain(90 * MS);
    manager.maintain(150 * MS);
    assert!(manager.showing(2, 150 * MS).is_some());
    assert!(manager.showing(1, 150 * MS).is_none());
}

#[test]
fn fading_reports_elapsed_time() {
    let mut m = manager();
    m.update(Some((7, (1.0, 2.0))));
    m.maintain(0);
    m.update(None);
    m.maintain(100 * MS);
    assert_eq!(m.showing(7, 105 * MS), Some(((1.0, 2.0), Opacity::Fading { elapsed: 5 * MS, duration: 20 * MS })));
    assert_eq!(m.showing(7, 120 * MS), None);
    assert_eq!(m.showing(8, 105 * MS), None);
}

#[test]
fn quiet_frames_keep_the_tooltip() {
    let mut m = manager();
    m.update(Some((3, (4.0, 4.0))));
    m.maintain(0);
    for t in 1..10u64 {
        m.maintain(t * 10 * MS);
    }
    assert_eq!(m.showing(3, 100 * MS), Some(((4.0, 4.0), Opacity::Full)));
}

#[test]
fn hover_exactly_at_the_delay_does_not_show_yet() {
    let mut m = manager();
    m.update(Some((1, (0.0, 0.0))));
    m.maintain(0);
    assert!(m.showing(1, 50 * MS).is_none());
    assert!(m.showing(1, 50 * MS + 1).is_some());
}
