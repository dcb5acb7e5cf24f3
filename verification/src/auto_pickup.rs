//! Automatic pickup of nearby item drops for living players.
//!
//! Each pass, every player that may try (alive, and not within the cooldown
//! after its last attempt) picks up every item that is old enough and in
//! range; a player that picked up anything has its attempt time recorded.
//! Ages, distances and times are measured by the caller; this module makes
//! the decisions from the answers.
use vstd::prelude::*;

verus! {

/// The server system that automatically picks up nearby item drops for
/// living players.
#[derive(Debug, Default, Clone, Copy)]
pub struct Sys;

/// The pickups of player `p` among the first `n` items of its row, in item
/// order.
pub open spec fn row_pickups(p: int, row: Seq<bool>, n: int) -> Seq<(usize, usize)>
    decreases n,
{
    if n <= 0 {
        Seq::empty()
    } else {
        row_pickups(p, row, n - 1) + if row[n - 1] {
            seq![(p as usize, (n - 1) as usize)]
        } else {
            Seq::empty()
        }
    }
}

/// Whether player `p` may try this pass and has an item to pick up.
pub open spec fn picks_up(ready: Seq<bool>, reach: Seq<Seq<bool>>, p: int) -> bool {
    ready[p] && exists|i: int| 0 <= i < reach[p].len() && #[trigger] reach[p][i]
}

/// The pickups of the first `n` players, player by player.
pub open spec fn pickups_upto(ready: Seq<bool>, reach: Seq<Seq<bool>>, n: int) -> Seq<(usize, usize)>
    decreases n,
{
    if n <= 0 {
        Seq::empty()
    } else {
        pickups_upto(ready, reach, n - 1) + if ready[n - 1] {
            row_pickups(n - 1, reach[n - 1], reach[n - 1].len() as int)
        } else {
            Seq::empty()
        }
    }
}

/// The players among the first `n` whose attempt is recorded, in order.
pub open spec fn attempted_upto(ready: Seq<bool>, reach: Seq<Seq<bool>>, n: int) -> Seq<usize>
    decreases n,
{
    if n <= 0 {
        Seq::empty()
    } else {
        attempted_upto(ready, reach, n - 1) + if picks_up(ready, reach, n - 1) {
            seq![(n - 1) as usize]
        } else {
            Seq::empty()
        }
    }
}

/// The outcome of one pass: the pickup events as (player, item) pairs, and
/// the players whose attempt time is recorded.
#[derive(Debug, Clone)]
pub struct PickupPlan {
    pub pickups: Vec<(usize, usize)>,
    pub attempted: Vec<usize>,
}

/// A row has a pickup among its first `n` items exactly when one of them is
/// in reach.
proof fn lemma_row_pickups_nonempty(p: int, row: Seq<bool>, n: int)
    requires
        0 <= n <= row.len(),
    ensures
        row_pickups(p, row, n).len() > 0 <==> exists|i: int| 0 <= i < n && #[trigger] row[i],
    decreases n,
{
    if n > 0 {
        lemma_row_pickups_nonempty(p, row, n - 1);
        if row[n - 1] {
            assert(row_pickups(p, row, n).len() > 0);
        } else {
            assert(row_pickups(p, row, n) =~= row_pickups(p, row, n - 1));
            if exists|i: int| 0 <= i < n && #[trigger] row[i] {
                let i = choose|i: int| 0 <= i < n && #[trigger] row[i];
                assert(i < n - 1);
            }
        }
    }
}

/// Every pickup of a row is of an item in reach, in that player's name.
proof fn lemma_row_pickups_allowed(p: int, row: Seq<bool>, n: int)
    requires
        0 <= p <= usize::MAX,
        0 <= n <= row.len(),
        row.len() <= usize::MAX,
    ensures
        forall|k: int|
            0 <= k < row_pickups(p, row, n).len() ==> {
                let (q, i) = #[trigger] row_pickups(p, row, n)[k];
                q == p && i < n && row[i as int]
            },
    decreases n,
{
    if n > 0 {
        lemma_row_pickups_allowed(p, row, n - 1);
        let prev = row_pickups(p, row, n - 1);
        assert forall|k: int| 0 <= k < row_pickups(p, row, n).len() implies {
            let (q, i) = #[trigger] row_pickups(p, row, n)[k];
            q == p && i < n && row[i as int]
        } by {
            if k < prev.len() {
                assert(row_pickups(p, row, n)[k] == prev[k]);
            }
        }
    }
}

/// Only players that may try pick anything up, and only items in reach of
/// them: every planned pickup `(p, i)` has `ready[p]` and `reach[p][i]`.
pub proof fn lemma_pickups_are_allowed(ready: Seq<bool>, reach: Seq<Seq<bool>>, n: int)
    requires
        0 <= n <= ready.len(),
        reach.len() == ready.len(),
        ready.len() <= usize::MAX,
        forall|p: int| 0 <= p < reach.len() ==> (#[trigger] reach[p]).len() <= usize::MAX,
    ensures
        forall|k: int|
            0 <= k < pickups_upto(ready, reach, n).len() ==> {
                let (p, i) = #[trigger] pickups_upto(ready, reach, n)[k];
                p < n && ready[p as int] && i < reach[p as int].len() && reach[p as int][i as int]
            },
    decreases n,
{
    if n > 0 {
        lemma_pickups_are_allowed(ready, reach, n - 1);
        let prev = pickups_upto(ready, reach, n - 1);
        let row = reach[n - 1];
        lemma_row_pickups_allowed(n - 1, row, row.len() as int);
        assert forall|k: int| 0 <= k < pickups_upto(ready, reach, n).len() implies {
            let (p, i) = #[trigger] pickups_upto(ready, reach, n)[k];
            p < n && ready[p as int] && i < reach[p as int].len() && reach[p as int][i as int]
        } by {
            if k < prev.len() {
                assert(pickups_upto(ready, reach, n)[k] == prev[k]);
            } else {
                assert(ready[n - 1]);
                assert(pickups_upto(ready, reach, n)[k] == row_pickups(n - 1, row, row.len() as int)[k - prev.len()]);
            }
        }
    }
}

proof fn lemma_row_pickups_complete(p: int, row: Seq<bool>, n: int, i: int)
    requires
        0 <= p <= usize::MAX,
        0 <= i < n <= row.len(),
        row.len() <= usize::MAX,
        row[i],
    ensures
        row_pickups(p, row, n).contains((p as usize, i as usize)),
    decreases n,
{
    let prev = row_pickups(p, row, n - 1);
    if i == n - 1 {
        let last = seq![(p as usize, (n - 1) as usize)];
        assert(row_pickups(p, row, n) == prev + last);
        assert((prev + last)[prev.len() as int] == (p as usize, i as usize));
    } else {
        lemma_row_pickups_complete(p, row, n - 1, i);
        let k = choose|k: int| 0 <= k < prev.len() && prev[k] == (p as usize, i as usize);
        assert(row_pickups(p, row, n)[k] == prev[k]);
    }
}

/// No pickup is missed: every player that may try picks up every item in
/// its reach, and exactly the players that picked something up have their
/// attempt recorded.
pub proof fn lemma_pickups_are_complete(ready: Seq<bool>, reach: Seq<Seq<bool>>, n: int, p: int, i: int)
    requires
        0 <= p < n <= ready.len(),
        reach.len() == ready.len(),
        ready.len() <= usize::MAX,
        forall|q: int| 0 <= q < reach.len() ==> (#[trigger] reach[q]).len() <= usize::MAX,
    ensures
        ready[p] && 0 <= i < reach[p].len() && reach[p][i] ==> pickups_upto(ready, reach, n).contains(
            (p as usize, i as usize),
        ),
        attempted_upto(ready, reach, n).contains(p as usize) <==> picks_up(ready, reach, p),
    decreases n,
{
    let prev = pickups_upto(ready, reach, n - 1);
    let aprev = attempted_upto(ready, reach, n - 1);
    lemma_attempted_below(ready, reach, n - 1);
    if p < n - 1 {
        lemma_pickups_are_complete(ready, reach, n - 1, p, i);
        if ready[p] && 0 <= i < reach[p].len() && reach[p][i] {
            let k = choose|k: int| 0 <= k < prev.len() && prev[k] == (p as usize, i as usize);
            assert(pickups_upto(ready, reach, n)[k] == prev[k]);
        }
        if aprev.contains(p as usize) {
            let k = choose|k: int| 0 <= k < aprev.len() && aprev[k] == p as usize;
            assert(attempted_upto(ready, reach, n)[k] == aprev[k]);
        }
        if attempted_upto(ready, reach, n).contains(p as usize) {
            let k = choose|k: int|
                0 <= k < attempted_upto(ready, reach, n).len() && attempted_upto(ready, reach, n)[k]
                    == p as usize;
            if k >= aprev.len() {
                assert(attempted_upto(ready, reach, n)[k] == (n - 1) as usize);
            } else {
                assert(aprev[k] == attempted_upto(ready, reach, n)[k]);
            }
        }
    } else {
        if ready[p] && 0 <= i < reach[p].len() && reach[p][i] {
            let row = reach[p];
            lemma_row_pickups_complete(p, row, row.len() as int, i);
            let rp = row_pickups(p, row, row.len() as int);
            let k = choose|k: int| 0 <= k < rp.len() && rp[k] == (p as usize, i as usize);
            assert(pickups_upto(ready, reach, n)[prev.len() + k] == rp[k]);
        }
        if picks_up(ready, reach, p) {
            assert(attempted_upto(ready, reach, n)[aprev.len() as int] == p as usize);
        }
        if attempted_upto(ready, reach, n).contains(p as usize) {
            let k = choose|k: int|
                0 <= k < attempted_upto(ready, reach, n).len() && attempted_upto(ready, reach, n)[k]
                    == p as usize;
            if k < aprev.len() {
                assert(aprev[k] == attempted_upto(ready, reach, n)[k]);
                assert(aprev[k] < n - 1);
            }
        }
    }
}

proof fn lemma_attempted_below(ready: Seq<bool>, reach: Seq<Seq<bool>>, n: int)
    requires
        0 <= n <= usize::MAX,
    ensures
        forall|k: int|
            0 <= k < attempted_upto(ready, reach, n).len() ==> #[trigger] attempted_upto(ready, reach, n)[k]
                < n,
    decreases n,
{
    if n > 0 {
        lemma_attempted_below(ready, reach, n - 1);
        let prev = attempted_upto(ready, reach, n - 1);
        assert forall|k: int|
            0 <= k < attempted_upto(ready, reach, n).len() implies #[trigger] attempted_upto(
            ready,
            reach,
            n,
        )[k] < n by {
            if k < prev.len() {
                assert(attempted_upto(ready, reach, n)[k] == prev[k]);
            }
        }
    }
}

/// Plans one pass: `player_ready[p]` tells whether player `p` may try, and
/// `in_reach[p][i]` whether item `i` is old enough and in range of it.
pub fn plan_pickups(player_ready: &Vec<bool>, in_reach: &Vec<Vec<bool>>) -> (plan: PickupPlan)
    requires
        in_reach.len() == player_ready.len(),
    ensures
        plan.pickups@ == pickups_upto(
            player_ready@,
            in_reach@.map_values(|r: Vec<bool>| r@),
            player_ready.len() as int,
        ),
        plan.attempted@ == attempted_upto(
            player_ready@,
            in_reach@.map_values(|r: Vec<bool>| r@),
            player_ready.len() as int,
        ),
{
    let ghost ready = player_ready@;
    let ghost reach = in_reach@.map_values(|r: Vec<bool>| r@);
    let mut pickups: Vec<(usize, usize)> = Vec::new();
    let mut attempted: Vec<usize> = Vec::new();
    let n = player_ready.len();
    let mut p: usize = 0;
    while p < n
        invariant
            n == player_ready.len(),
            n == in_reach.len(),
            ready == player_ready@,
            reach == in_reach@.map_values(|r: Vec<bool>| r@),
            0 <= p <= n,
            pickups@ == pickups_upto(ready, reach, p as int),
            attempted@ == attempted_upto(ready, reach, p as int),
        decreases n - p,
    {
        if player_ready[p] {
            let row = &in_reach[p];
            assert(reach[p as int] == row@);
            let ghost before = pickups@;
            let m = row.len();
            let mut i: usize = 0;
            let mut picked_up = false;
            while i < m
                invariant
                    m == row@.len(),
                    0 <= i <= m,
                    p < n,
                    pickups@ == before + row_pickups(p as int, row@, i as int),
                    picked_up <==> row_pickups(p as int, row@, i as int).len() > 0,
                decreases m - i,
            {
                if row[i] {
                    pickups.push((p, i));
                    picked_up = true;
                }
                proof {
                    assert(pickups@ =~= before + row_pickups(p as int, row@, i + 1));
                }
                i = i + 1;
            }
            proof {
                lemma_row_pickups_nonempty(p as int, row@, m as int);
            }
            if picked_up {
                attempted.push(p);
            }
            proof {
                assert(pickups@ =~= pickups_upto(ready, reach, p + 1));
                assert(attempted@ =~= attempted_upto(ready, reach, p + 1));
            }
        } else {
            proof {
                assert(pickups@ =~= pickups_upto(ready, reach, p + 1));
                assert(attempted@ =~= attempted_upto(ready, reach, p + 1));
            }
        }
        p = p + 1;
    }
    PickupPlan { pickups, attempted }
}

} // verus!
