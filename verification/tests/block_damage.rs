use lemoncraft::block_damage::{
    crack_stage, required_damage, BlockDamage, BlockKind, BLOCK_DAMAGE_DECAY_MILLIS, CRACK_STAGES, PRUNE_THRESHOLD,
};

#[test]
fn test_required_damage() {
    assert_eq!(required_damage(BlockKind::Sand), 1);
    assert_eq!(required_damage(BlockKind::Rock), 4);
    assert_eq!(required_damage(BlockKind::Wood), 3);
    assert_eq!(required_damage(BlockKind::Air), 0);
    assert_eq!(required_damage(BlockKind::Water), 0);
}

#[test]
fn test_crack_stages() {
    assert_eq!(crack_stage(0, 4), 0);
    assert_eq!(crack_stage(1, 4), 1);
    assert_eq!(crack_stage(2, 4), 2);
    assert_eq!(crack_stage(3, 4), 3);
    assert_eq!(crack_stage(4, 4), 4);
    // One-hit blocks jump straight to the final stage.
    assert_eq!(crack_stage(1, 1), 4);
    // Never exceed the max stage.
    assert_eq!(crack_stage(9, 4), 4);
}

#[test]
fn test_hit_accumulates_and_breaks() {
    let mut damage = BlockDamage::default();
    let pos = (1, 2, 3);

    let first = damage.hit(pos, 0, BlockKind::Rock).unwrap();
    assert!(!first.broken);
    assert_eq!(first.damage, 1);
    assert_eq!(first.stage, 1);

    let mid = damage.hit(pos, 100, BlockKind::Rock).unwrap();
    assert!(!mid.broken);
    assert_eq!(mid.damage, 2);
    assert_eq!(mid.stage, 2);

    let third = damage.hit(pos, 200, BlockKind::Rock).unwrap();
    assert!(!third.broken);
    assert_eq!(third.damage, 3);
    assert_eq!(third.stage, 3);

    let last = damage.hit(pos, 300, BlockKind::Rock).unwrap();
    assert!(last.broken);
    assert_eq!(last.damage, 4);
    // Entry is removed on break.
    assert_eq!(damage.hit(pos, 400, BlockKind::Rock).unwrap().damage, 1);
}

#[test]
fn test_decay_resets_progress() {
    let mut damage = BlockDamage::default();
    let pos = (1, 2, 3);

    damage.hit(pos, 0, BlockKind::Rock);
    let after_decay = damage.hit(pos, BLOCK_DAMAGE_DECAY_MILLIS + 1000, BlockKind::Rock).unwrap();
    assert_eq!(after_decay.damage, 1, "idle progress must reset");
}

#[test]
fn test_non_breakable_ignored() {
    let mut damage = BlockDamage::default();
    assert!(damage.hit((0, 0, 0), 0, BlockKind::Lava).is_none());
    assert_eq!(damage.len(), 0);
}

#[test]
fn decay_boundary_is_exclusive() {
    let mut damage = BlockDamage::new();
    damage.hit((0, 0, 0), 1000, BlockKind::Rock);
    // Exactly the decay time later the progress still counts.
    let p = damage.hit((0, 0, 0), 1000 + BLOCK_DAMAGE_DECAY_MILLIS, BlockKind::Rock).unwrap();
    assert_eq!(p.damage, 2);
    // A clock that went backwards does not decay the progress either.
    let p = damage.hit((0, 0, 0), 10, BlockKind::Rock).unwrap();
    assert_eq!(p.damage, 3);
    assert_eq!(damage.progress_at((0, 0, 0)), Some((3, 10)));
}

#[test]
fn stage_changes_are_reported() {
    let mut damage = BlockDamage::new();
    let p = damage.hit((5, 5, 5), 0, BlockKind::Wood).unwrap();
    assert_eq!((p.damage, p.stage, p.stage_changed), (1, 2, true));
    let p = damage.hit((5, 5, 5), 1, BlockKind::Wood).unwrap();
    assert_eq!((p.damage, p.stage, p.stage_changed), (2, 3, true));
    let p = damage.hit((5, 5, 5), 2, BlockKind::Wood).unwrap();
    assert_eq!((p.damage, p.stage, p.broken), (3, CRACK_STAGES, true));
    assert_eq!(damage.progress_at((5, 5, 5)), None);
}

#[test]
fn blocks_keep_separate_progress() {
    let mut damage = BlockDamage::new();
    damage.hit((0, 0, 0), 0, BlockKind::Rock);
    damage.hit((0, 0, 0), 1, BlockKind::Rock);
    damage.hit((0, 0, 1), 2, BlockKind::Rock);
    assert_eq!(damage.progress_at((0, 0, 0)), Some((2, 1)));
    assert_eq!(damage.progress_at((0, 0, 1)), Some((1, 2)));
    assert_eq!(damage.len(), 2);
}

#[test]
fn pruning_waits_for_the_threshold() {
    let mut damage = BlockDamage::new();
    for i in 0..(PRUNE_THRESHOLD as i32) {
        damage.hit((i, 0, 0), 0, BlockKind::Rock);
    }
    // Exactly at the threshold nothing is pruned, expired or not.
    damage.prune_expired(BLOCK_DAMAGE_DECAY_MILLIS * 10);
    assert_eq!(damage.len(), PRUNE_THRESHOLD);
    damage.hit((-1, 0, 0), BLOCK_DAMAGE_DECAY_MILLIS * 10, BlockKind::Rock);
    assert_eq!(damage.len(), PRUNE_THRESHOLD + 1);
    // Past it, the expired entries go and the fresh one stays.
    damage.prune_expired(BLOCK_DAMAGE_DECAY_MILLIS * 10);
    assert_eq!(damage.len(), 1);
    assert_eq!(damage.progress_at((-1, 0, 0)), Some((1, BLOCK_DAMAGE_DECAY_MILLIS * 10)));
}
