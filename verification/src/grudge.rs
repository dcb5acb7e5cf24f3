//! Item drops remember the NPC that dropped them.
use vstd::prelude::*;

verus! {

/// The unique id of an entity, stable across server and clients.
#[derive(Debug, Clone, Copy, PartialEq, Eq, Hash, Default, Structural)]
pub struct Uid(pub u64);

/// Marks an item drop with the [`Uid`] of the NPC that dropped it. Server-side
/// only; lets a living NPC verbally warn a player who takes its loot.
#[derive(Debug, Clone, Copy, Default, PartialEq, Eq, Structural)]
pub struct ItemSource(pub Option<Uid>);

} // verus!
