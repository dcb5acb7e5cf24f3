use lemoncraft::auto_pickup::plan_pickups;
use lemoncraft::grudge::{ItemSource, Uid};
use lemoncraft::metrics::{
    export_counts, parse_u64, sample_ecs_metrics, sample_interval, terrain_counts, TerrainCounts,
    METRIC_SAMPLE_INTERVAL_TICKS_DEFAULT, SLOW_TICK_THRESHOLD_NANOS,
};

#[test]
fn pickups_only_for_ready_players_and_items_in_reach() {
    let ready = vec![true, false, true, true];
    let reach = vec![
        vec![false, true, true],
        vec![true, true, true],
        vec![false, false, false],
        vec![true, false, false],
    ];
    let plan = plan_pickups(&ready, &reach);
    assert_eq!(plan.pickups, vec![(0, 1), (0, 2), (3, 0)]);
    assert_eq!(plan.attempted, vec![0, 3]);
}

#[test]
fn nothing_to_pick_up() {
    let plan = plan_pickups(&vec![], &vec![]);
    assert!(plan.pickups.is_empty() && plan.attempted.is_empty());
    let plan = plan_pickups(&vec![true], &vec![vec![]]);
    assert!(plan.pickups.is_empty() && plan.attempted.is_empty());
}

#[test]
fn parse_matches_std() {
    for s in ["", "0", "20", "+7", "-1", "+", "007", "18446744073709551615", "18446744073709551616", "12a", " 1", "1 "] {
        assert_eq!(parse_u64(s), s.parse::<u64>().ok(), "input {s:?}");
    }
}

#[test]
fn sample_interval_falls_back_to_default() {
    assert_eq!(sample_interval(None), METRIC_SAMPLE_INTERVAL_TICKS_DEFAULT);
    assert_eq!(sample_interval(Some("5")), 5);
    assert_eq!(sample_interval(Some("0")), METRIC_SAMPLE_INTERVAL_TICKS_DEFAULT);
    assert_eq!(sample_interval(Some("fast")), METRIC_SAMPLE_INTERVAL_TICKS_DEFAULT);
    assert_eq!(sample_interval(Some("-3")), METRIC_SAMPLE_INTERVAL_TICKS_DEFAULT);
}

#[test]
fn sampling_every_interval_and_on_slow_ticks() {
    assert!(sample_ecs_metrics(40, 20, 0));
    assert!(!sample_ecs_metrics(41, 20, 0));
    assert!(!sample_ecs_metrics(41, 20, SLOW_TICK_THRESHOLD_NANOS));
    assert!(sample_ecs_metrics(41, 20, SLOW_TICK_THRESHOLD_NANOS + 1));
    assert!(export_counts(0) && export_counts(300) && !export_counts(301));
}

#[test]
fn terrain_is_counted() {
    assert_eq!(terrain_counts(&vec![]), TerrainCounts { chonks: 0, chunks: 0, groups: 0 });
    assert_eq!(
        terrain_counts(&vec![(16, 2), (3, 1), (0, 0)]),
        TerrainCounts { chonks: 3, chunks: 19, groups: 3 }
    );
}

#[test]
fn item_source_defaults_to_no_npc() {
    assert_eq!(ItemSource::default(), ItemSource(None));
    assert_eq!(ItemSource(Some(Uid(7))).0, Some(Uid(7)));
}
