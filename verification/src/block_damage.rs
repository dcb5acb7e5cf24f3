//! Break progress of terrain blocks being mined.
//!
//! Filled terrain blocks cannot store damage themselves, so the server keeps
//! mining progress per block position. Progress is shared between all
//! players and decays after [`BLOCK_DAMAGE_DECAY_MILLIS`] without a hit. The
//! registry stays bounded: entries are removed when their block breaks, and
//! expired entries are pruned once it grows large.
//!
//! Times are milliseconds of program time.
use vstd::prelude::*;

verus! {

/// The kinds of terrain block.
#[derive(Debug, Clone, Copy, PartialEq, Eq, Hash)]
pub enum BlockKind {
    Air,
    Water,
    Rock,
    WeakRock,
    Lava,
    GlowingRock,
    GlowingWeakRock,
    Grass,
    Snow,
    ArtSnow,
    Earth,
    Sand,
    Wood,
    Leaves,
    GlowingMushroom,
    Ice,
    ArtLeaves,
    Misc,
}

/// Damage required to break each kind of block; `0` for kinds that never
/// break.
pub open spec fn required_damage_spec(kind: BlockKind) -> u8 {
    match kind {
        BlockKind::Rock => 4,
        BlockKind::WeakRock => 2,
        BlockKind::Grass => 2,
        BlockKind::Snow => 1,
        BlockKind::Earth => 2,
        BlockKind::Sand => 1,
        BlockKind::Wood => 3,
        BlockKind::Leaves => 1,
        BlockKind::Ice => 2,
        _ => 0,
    }
}

/// Damage required to break each terrain-breakable block kind.
/// Non-breakable kinds return 0 (never break).
pub fn required_damage(kind: BlockKind) -> (r: u8)
    ensures
        r == required_damage_spec(kind),
        kind == BlockKind::Rock ==> r == 4,
        kind == BlockKind::WeakRock ==> r == 2,
        kind == BlockKind::Grass ==> r == 2,
        kind == BlockKind::Snow ==> r == 1,
        kind == BlockKind::Earth ==> r == 2,
        kind == BlockKind::Sand ==> r == 1,
        kind == BlockKind::Wood ==> r == 3,
        kind == BlockKind::Leaves ==> r == 1,
        kind == BlockKind::Ice ==> r == 2,
        !is_breakable_kind(kind) ==> r == 0,
{
    match kind {
        BlockKind::Rock => 4,
        BlockKind::WeakRock => 2,
        BlockKind::Grass => 2,
        BlockKind::Snow => 1,
        BlockKind::Earth => 2,
        BlockKind::Sand => 1,
        BlockKind::Wood => 3,
        BlockKind::Leaves => 1,
        BlockKind::Ice => 2,
        _ => 0,
    }
}

/// The kinds of block that break when mined.
pub open spec fn is_breakable_kind(kind: BlockKind) -> bool {
    ||| kind == BlockKind::Rock
    ||| kind == BlockKind::WeakRock
    ||| kind == BlockKind::Grass
    ||| kind == BlockKind::Snow
    ||| kind == BlockKind::Earth
    ||| kind == BlockKind::Sand
    ||| kind == BlockKind::Wood
    ||| kind == BlockKind::Leaves
    ||| kind == BlockKind::Ice
}

/// The damage each kind takes before it breaks: rock 4, weak rock 2,
/// grass 2, snow 1, earth 2, sand 1, wood 3, leaves 1, ice 2; every other
/// kind never breaks (0). Hitting a breakable kind always reports progress;
/// hitting any other kind reports none and leaves the registry as it was.
pub proof fn lemma_required_damage_is_the_table(
    entries: Map<(i32, i32, i32), (u8, u64)>,
    pos: (i32, i32, i32),
    time: u64,
    kind: BlockKind,
)
    ensures
        required_damage_spec(BlockKind::Rock) == 4,
        required_damage_spec(BlockKind::WeakRock) == 2,
        required_damage_spec(BlockKind::Grass) == 2,
        required_damage_spec(BlockKind::Snow) == 1,
        required_damage_spec(BlockKind::Earth) == 2,
        required_damage_spec(BlockKind::Sand) == 1,
        required_damage_spec(BlockKind::Wood) == 3,
        required_damage_spec(BlockKind::Leaves) == 1,
        required_damage_spec(BlockKind::Ice) == 2,
        !is_breakable_kind(kind) ==> required_damage_spec(kind) == 0,
        is_breakable_kind(kind) ==> after_hit(entries, pos, time, kind).0 is Some,
        !is_breakable_kind(kind) ==> after_hit(entries, pos, time, kind) == (
            None::<BreakProgress>,
            entries,
        ),
{
}

/// Number of crack stages shown while mining.
pub const CRACK_STAGES: u8 = 4;

/// The crack stage for `damage` out of `required`: the share of the required
/// damage dealt, in quarters rounded up, at most `CRACK_STAGES`; a
/// `required` of `0` counts as `1`.
pub open spec fn crack_stage_spec(damage: u8, required: u8) -> u8 {
    let r: int = if required == 0 {
        1
    } else {
        required as int
    };
    let q = (damage * 4 + r - 1) / r;
    if q < 4 {
        q as u8
    } else {
        4
    }
}

/// Crack stage (`0..=4`) for the given damage.
pub fn crack_stage(damage: u8, required: u8) -> (stage: u8)
    requires
        damage <= 63,
    ensures
        stage == crack_stage_spec(damage, required),
{
    let r: u32 = if required == 0 {
        1
    } else {
        required as u32
    };
    let x: u32 = (damage as u32) * 4;
    let q: u32 = (x + r - 1) / r;
    if q < 4 {
        q as u8
    } else {
        CRACK_STAGES
    }
}

/// Result of a single mining hit on a terrain block.
#[derive(Debug, Clone, Copy, PartialEq, Eq)]
pub struct BreakProgress {
    pub damage: u8,
    /// Whether the crack stage advanced with this hit.
    pub stage_changed: bool,
    /// Whether the block broke and its progress was removed.
    pub broken: bool,
    /// Current crack stage (`0..=4`).
    pub stage: u8,
}

/// What a hit does to the stored progress of the block.
#[derive(Debug, Clone, Copy, PartialEq, Eq)]
pub enum EntryUpdate {
    /// The block never breaks: its progress is left as it is.
    Keep,
    /// The block now holds this much damage.
    Store(u8),
    /// The block broke: its progress is removed.
    Remove,
}

/// The outcome of one hit: the progress reported (none for blocks that never
/// break) and what becomes of the stored progress.
pub open spec fn hit_spec(prior: Option<u8>, decayed: bool, kind: BlockKind) -> (
    Option<BreakProgress>,
    EntryUpdate,
) {
    let required = required_damage_spec(kind);
    if required == 0 {
        (None, EntryUpdate::Keep)
    } else {
        let before: u8 = match prior {
            Some(d) => if decayed {
                0
            } else {
                d
            },
            None => 0,
        };
        let damage = (before + 1) as u8;
        let old_stage = crack_stage_spec(before, required);
        let new_stage = crack_stage_spec(damage, required);
        if damage >= required {
            (
                Some(
                    BreakProgress { damage, stage_changed: true, broken: true, stage: new_stage },
                ),
                EntryUpdate::Remove,
            )
        } else {
            (
                Some(
                    BreakProgress {
                        damage,
                        stage_changed: new_stage > old_stage,
                        broken: false,
                        stage: new_stage,
                    },
                ),
                EntryUpdate::Store(damage),
            )
        }
    }
}

/// Registers a hit on a block of kind `kind` whose stored damage is `prior`
/// (`None` when the block has no progress yet); `decayed` tells whether the
/// stored progress sat idle too long and starts over. Returns the new
/// progress and what to do with the stored damage.
pub fn hit(prior: Option<u8>, decayed: bool, kind: BlockKind) -> (r: (
    Option<BreakProgress>,
    EntryUpdate,
))
    requires
        prior matches Some(d) ==> d < 63,
    ensures
        r == hit_spec(prior, decayed, kind),
{
    let required = required_damage(kind);
    if required == 0 {
        return (None, EntryUpdate::Keep);
    }
    let before: u8 = match prior {
        Some(d) => if decayed {
            0
        } else {
            d
        },
        None => 0,
    };
    let damage = before + 1;
    let old_stage = crack_stage(before, required);
    let new_stage = crack_stage(damage, required);
    if damage >= required {
        (
            Some(BreakProgress { damage, stage_changed: true, broken: true, stage: new_stage }),
            EntryUpdate::Remove,
        )
    } else {
        (
            Some(
                BreakProgress {
                    damage,
                    stage_changed: new_stage > old_stage,
                    broken: false,
                    stage: new_stage,
                },
            ),
            EntryUpdate::Store(damage),
        )
    }
}

/// How long (in milliseconds) without a hit before break progress resets.
pub const BLOCK_DAMAGE_DECAY_MILLIS: u64 = 5000;

/// The registry is pruned once it holds more than this many entries.
pub const PRUNE_THRESHOLD: usize = 512;

/// A block position in the world.
pub type BlockPos = (i32, i32, i32);

/// Whether progress last hit at `last_hit` has sat idle too long at `time`.
pub open spec fn expired_spec(time: u64, last_hit: u64) -> bool {
    time - last_hit > BLOCK_DAMAGE_DECAY_MILLIS
}

/// Whether progress last hit at `last_hit` has sat idle too long at `time`.
pub fn is_expired(time: u64, last_hit: u64) -> (r: bool)
    ensures
        r == expired_spec(time, last_hit),
{
    time > last_hit && time - last_hit > BLOCK_DAMAGE_DECAY_MILLIS
}

/// Whether progress last hit at `last_hit` still counts at `time`.
pub fn is_fresh(time: u64, last_hit: u64) -> (r: bool)
    ensures
        r == !expired_spec(time, last_hit),
{
    !is_expired(time, last_hit)
}

/// The stored progress per position: damage dealt and time of the last hit,
/// in a `hashbrown::HashMap`.
#[verifier::external_body]
pub struct DamageMap {
    map: hashbrown::HashMap<(i32, i32, i32), (u8, u64)>,
}

/// The entries held by a [`DamageMap`].
pub uninterp spec fn damage_map_contents(m: DamageMap) -> Map<(i32, i32, i32), (u8, u64)>;

/// `hashbrown::HashMap::new`: an empty map.
#[verifier::external_body]
fn damage_map_new() -> (m: DamageMap)
    ensures
        damage_map_contents(m).is_empty(),
{
    DamageMap { map: hashbrown::HashMap::new() }
}

/// `hashbrown::HashMap::get`: the entry at `pos`, if any.
#[verifier::external_body]
fn damage_map_get(m: &DamageMap, pos: (i32, i32, i32)) -> (r: Option<(u8, u64)>)
    ensures
        r == damage_map_contents(*m).get(pos),
{
    m.map.get(&pos).copied()
}

/// `hashbrown::HashMap::insert`: sets the entry at `pos`.
#[verifier::external_body]
fn damage_map_insert(m: &mut DamageMap, pos: (i32, i32, i32), entry: (u8, u64))
    ensures
        damage_map_contents(*final(m)) == damage_map_contents(*old(m)).insert(pos, entry),
{
    m.map.insert(pos, entry);
}

/// `hashbrown::HashMap::remove`: drops the entry at `pos`, if any.
#[verifier::external_body]
fn damage_map_remove(m: &mut DamageMap, pos: (i32, i32, i32))
    ensures
        damage_map_contents(*final(m)) == damage_map_contents(*old(m)).remove(pos),
{
    m.map.remove(&pos);
}

/// `hashbrown::HashMap::len`: the number of entries.
#[verifier::external_body]
fn damage_map_len(m: &DamageMap) -> (n: usize)
    ensures
        n == damage_map_contents(*m).len(),
{
    m.map.len()
}

/// `hashbrown::HashMap::retain`, keeping the entries not expired at `time`.
#[verifier::external_body]
fn damage_map_retain_fresh(m: &mut DamageMap, time: u64)
    ensures
        damage_map_contents(*final(m)) == damage_map_contents(*old(m)).filter_keys(
            |pos: (i32, i32, i32)| !expired_spec(time, damage_map_contents(*old(m))[pos].1),
        ),
{
    m.map.retain(|_, e| is_fresh(time, e.1));
}

/// The registry after a hit at `pos` at `time` on a block of kind `kind`.
pub open spec fn after_hit(
    entries: Map<(i32, i32, i32), (u8, u64)>,
    pos: (i32, i32, i32),
    time: u64,
    kind: BlockKind,
) -> (Option<BreakProgress>, Map<(i32, i32, i32), (u8, u64)>) {
    let prior = entries.get(pos);
    let decayed = match prior {
        Some(e) => expired_spec(time, e.1),
        None => false,
    };
    let prior_damage = match prior {
        Some(e) => Some(e.0),
        None => None,
    };
    let (progress, update) = hit_spec(prior_damage, decayed, kind);
    (
        progress,
        match update {
            EntryUpdate::Keep => entries,
            EntryUpdate::Store(d) => entries.insert(pos, (d, time)),
            EntryUpdate::Remove => entries.remove(pos),
        },
    )
}

/// Server-side break progress for the terrain blocks being mined.
pub struct BlockDamage {
    entries: DamageMap,
}

impl View for BlockDamage {
    type V = Map<(i32, i32, i32), (u8, u64)>;

    closed spec fn view(&self) -> Map<(i32, i32, i32), (u8, u64)> {
        damage_map_contents(self.entries)
    }
}

impl BlockDamage {
    /// Stored damage stays below the damage any block needs to break, and the
    /// registry is finite.
    pub closed spec fn wf(self) -> bool {
        &&& damage_map_contents(self.entries).dom().finite()
        &&& forall|pos: (i32, i32, i32)|
            #[trigger] damage_map_contents(self.entries).contains_key(pos)
                ==> damage_map_contents(self.entries)[pos].0 < CRACK_STAGES
    }

    /// A registry without progress.
    pub fn new() -> (b: Self)
        ensures
            b.wf(),
            b@ == Map::<(i32, i32, i32), (u8, u64)>::empty(),
    {
        BlockDamage { entries: damage_map_new() }
    }

    /// The stored progress of the block at `pos`: damage and last hit time.
    pub fn progress_at(&self, pos: (i32, i32, i32)) -> (r: Option<(u8, u64)>)
        ensures
            r == self@.get(pos),
    {
        damage_map_get(&self.entries, pos)
    }

    /// The number of blocks with stored progress.
    pub fn len(&self) -> (n: usize)
        ensures
            n == self@.len(),
    {
        damage_map_len(&self.entries)
    }

    /// Registers a hit on the block at `pos` at `time`, returning the new
    /// progress (`None` for a block kind that never breaks).
    pub fn hit(&mut self, pos: (i32, i32, i32), time: u64, kind: BlockKind) -> (r: Option<
        BreakProgress,
    >)
        requires
            old(self).wf(),
        ensures
            final(self).wf(),
            (r, final(self)@) == after_hit(old(self)@, pos, time, kind),
    {
        let prior = damage_map_get(&self.entries, pos);
        let decayed = match prior {
            Some(e) => is_expired(time, e.1),
            None => false,
        };
        let prior_damage = match prior {
            Some(e) => Some(e.0),
            None => None,
        };
        let (progress, update) = hit(prior_damage, decayed, kind);
        match update {
            EntryUpdate::Keep => {},
            EntryUpdate::Store(d) => {
                damage_map_insert(&mut self.entries, pos, (d, time));
            },
            EntryUpdate::Remove => {
                damage_map_remove(&mut self.entries, pos);
            },
        }
        progress
    }

    /// Removes expired entries once the registry holds more than
    /// [`PRUNE_THRESHOLD`] of them.
    pub fn prune_expired(&mut self, time: u64)
        requires
            old(self).wf(),
        ensures
            final(self).wf(),
            final(self)@ == if old(self)@.len() > PRUNE_THRESHOLD {
                old(self)@.filter_keys(|pos: (i32, i32, i32)| !expired_spec(time, old(self)@[pos].1))
            } else {
                old(self)@
            },
    {
        if damage_map_len(&self.entries) > PRUNE_THRESHOLD {
            damage_map_retain_fresh(&mut self.entries, time);
            proof {
                let m = old(self)@;
                let kept = m.filter_keys(|pos: (i32, i32, i32)| !expired_spec(time, m[pos].1));
                vstd::set_lib::lemma_set_subset_finite(m.dom(), kept.dom());
            }
        }
    }
}

impl Default for BlockDamage {
    fn default() -> (b: Self)
        ensures
            b.wf(),
            b@ == Map::<(i32, i32, i32), (u8, u64)>::empty(),
    {
        BlockDamage::new()
    }
}


/// Crack stages run from `0` for no damage to `4`, never decrease as damage
/// grows, and reach `4` exactly when the required damage is dealt.
pub proof fn lemma_crack_stage_bounds(d1: u8, d2: u8, required: u8)
    requires
        d1 <= d2 <= 63,
        1 <= required <= CRACK_STAGES,
    ensures
        crack_stage_spec(0, required) == 0,
        crack_stage_spec(d2, required) <= CRACK_STAGES,
        crack_stage_spec(d1, required) <= crack_stage_spec(d2, required),
        (crack_stage_spec(d2, required) == CRACK_STAGES) <==> (d2 >= required),
        d2 >= 1 ==> crack_stage_spec(d2, required) >= 1,
{
    let r = required as int;
    assert((r - 1) / r == 0) by (nonlinear_arith)
        requires
            r >= 1,
    ;
    assert((d1 * 4 + r - 1) / r <= (d2 * 4 + r - 1) / r) by (nonlinear_arith)
        requires
            d1 <= d2,
            r >= 1,
    ;
    if d2 >= r {
        assert((d2 * 4 + r - 1) / r >= 4) by (nonlinear_arith)
            requires
                r >= 1,
                d2 >= r,
        ;
    } else {
        assert((d2 * 4 + r - 1) / r <= 3) by (nonlinear_arith)
            requires
                1 <= r <= 4,
                0 <= d2 < r,
        ;
    }
    assert(d2 >= 1 ==> (d2 * 4 + r - 1) / r >= 1) by (nonlinear_arith)
        requires
            r >= 1,
            d2 >= 0,
    ;
}

/// Crack stages round up: below the last stage, the stage is the least
/// number of quarters of the required damage that covers the damage dealt.
pub proof fn lemma_crack_stage_rounds_up(damage: u8, required: u8)
    requires
        damage <= 63,
        required >= 1,
    ensures
        crack_stage_spec(damage, required) < CRACK_STAGES ==> {
            let st = crack_stage_spec(damage, required) as int;
            &&& st * required >= damage * 4
            &&& (st == 0 || (st - 1) * required < damage * 4)
        },
{
    let r = required as int;
    let x = damage * 4;
    let q = (x + r - 1) / r;
    assert(q * r >= x && (q == 0 || (q - 1) * r < x)) by (nonlinear_arith)
        requires
            r >= 1,
            x >= 0,
            q == (x + r - 1) / r,
    {
        assert(q * r <= x + r - 1 < (q + 1) * r);
    }
}

/// The damage stored after `n` hits without pause on a fresh block of kind
/// `kind`, while it has not broken.
pub open spec fn mined(kind: BlockKind, n: nat) -> Option<u8>
    decreases n,
{
    if n == 0 {
        None
    } else {
        match hit_spec(mined(kind, (n - 1) as nat), false, kind).1 {
            EntryUpdate::Store(d) => Some(d),
            _ => None,
        }
    }
}

/// Mining a breakable block without pauses breaks it on exactly the hit that
/// deals the required damage: every earlier hit adds one damage and leaves
/// the block standing.
pub proof fn lemma_breaks_on_required_hit(kind: BlockKind, n: nat)
    requires
        required_damage_spec(kind) > 0,
        1 <= n <= required_damage_spec(kind),
    ensures
        n < required_damage_spec(kind) ==> mined(kind, n) == Some(n as u8),
        hit_spec(mined(kind, (n - 1) as nat), false, kind).0 matches Some(p) && p.damage == n
            && (p.broken <==> n == required_damage_spec(kind)),
    decreases n,
{
    if n > 1 {
        lemma_breaks_on_required_hit(kind, (n - 1) as nat);
    }
}

/// A hit after a pause starts the progress over: it deals one damage,
/// whatever was stored.
pub proof fn lemma_decay_restarts(prior: Option<u8>, kind: BlockKind)
    requires
        required_damage_spec(kind) > 0,
    ensures
        hit_spec(prior, true, kind) == hit_spec(None, false, kind),
        hit_spec(None, false, kind).0 matches Some(p) && p.damage == 1,
{
}

/// Progress is kept per position: a hit on one block leaves the progress of
/// every other block as it was.
pub proof fn lemma_hit_leaves_other_blocks(
    entries: Map<(i32, i32, i32), (u8, u64)>,
    pos: (i32, i32, i32),
    other: (i32, i32, i32),
    time: u64,
    kind: BlockKind,
)
    requires
        other != pos,
    ensures
        after_hit(entries, pos, time, kind).1.get(other) == entries.get(other),
{
}

/// A block that broke has no progress left, so the next hit on its position
/// starts from scratch with one damage.
pub proof fn lemma_break_clears_progress(
    entries: Map<(i32, i32, i32), (u8, u64)>,
    pos: (i32, i32, i32),
    time: u64,
    kind: BlockKind,
    later: u64,
    next_kind: BlockKind,
)
    requires
        after_hit(entries, pos, time, kind).0 matches Some(p) && p.broken,
        required_damage_spec(next_kind) > 0,
    ensures
        !after_hit(entries, pos, time, kind).1.contains_key(pos),
        after_hit(after_hit(entries, pos, time, kind).1, pos, later, next_kind).0 matches Some(q)
            && q.damage == 1,
{
}

/// Hits without a pause accumulate: a block with stored damage `d`, hit
/// again before its progress expires, reports `d + 1`; after a pause it
/// reports `1`. The hit breaks the block exactly when the reported damage
/// reaches what the hitting kind requires, also when the stored damage was
/// dealt as another kind.
pub proof fn lemma_hits_accumulate_until_pause(
    entries: Map<(i32, i32, i32), (u8, u64)>,
    pos: (i32, i32, i32),
    time: u64,
    kind: BlockKind,
)
    requires
        entries.contains_key(pos),
        entries[pos].0 < CRACK_STAGES,
        required_damage_spec(kind) > 0,
    ensures
        after_hit(entries, pos, time, kind).0 matches Some(p) && p.damage == if expired_spec(
            time,
            entries[pos].1,
        ) {
            1
        } else {
            entries[pos].0 + 1
        } && (p.broken <==> p.damage >= required_damage_spec(kind)),
{
}

/// Stored damage stays below [`CRACK_STAGES`], the most damage any block
/// needs to break: every block with progress can still take a hit.
pub proof fn lemma_stored_damage_bound(b: &BlockDamage)
    requires
        b.wf(),
    ensures
        b@.dom().finite(),
        forall|pos: (i32, i32, i32)| #[trigger] b@.contains_key(pos) ==> b@[pos].0 < CRACK_STAGES,
{
}

} // verus!
