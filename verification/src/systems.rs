//! The order in which the shared ECS systems are registered with the
//! dispatcher, and on which earlier systems each one waits.
//!
//! A dispatcher only accepts a dependency on a system that was registered
//! before, so a schedule must list every system after all of its
//! dependencies.
use vstd::prelude::*;

verus! {

/// The systems of the shared simulation.
#[derive(Debug, Clone, Copy, PartialEq, Eq, Structural)]
pub enum SystemId {
    Interpolation,
    Tether,
    Mount,
    Controller,
    CharacterBehavior,
    Buff,
    Stats,
    Phys,
    PhysEvents,
    Projectile,
    Shockwave,
    Arcing,
    Beam,
    Pool,
    Aura,
}

/// One registration: the system and the systems it runs after.
#[derive(Debug, Clone)]
pub struct Registration {
    pub system: SystemId,
    pub deps: Vec<SystemId>,
}

/// The registrations handed to a dispatcher builder, in order.
#[derive(Debug, Clone)]
pub struct Schedule {
    entries: Vec<Registration>,
}

/// A registration as a pair of the system and its dependencies.
pub open spec fn registration_view(r: Registration) -> (SystemId, Seq<SystemId>) {
    (r.system, r.deps@)
}

impl View for Schedule {
    type V = Seq<(SystemId, Seq<SystemId>)>;

    closed spec fn view(&self) -> Seq<(SystemId, Seq<SystemId>)> {
        self.entries@.map_values(|r: Registration| registration_view(r))
    }
}

/// Whether `sys` is registered among the first `n` entries of `s`.
pub open spec fn registered_before(s: Seq<(SystemId, Seq<SystemId>)>, sys: SystemId, n: int) -> bool {
    exists|j: int| 0 <= j < n && j < s.len() && (#[trigger] s[j]).0 == sys
}

/// Every dependency of every entry was registered by an earlier entry.
pub open spec fn well_ordered(s: Seq<(SystemId, Seq<SystemId>)>) -> bool {
    forall|i: int, k: int|
        0 <= i < s.len() && 0 <= k < s[i].1.len() ==> registered_before(
            s,
            #[trigger] s[i].1[k],
            i,
        )
}

/// No system is registered twice.
pub open spec fn registered_once(s: Seq<(SystemId, Seq<SystemId>)>) -> bool {
    forall|i: int, j: int| 0 <= i < j < s.len() ==> (#[trigger] s[i]).0 != (#[trigger] s[j]).0
}

/// The registrations shared by client and server; with interpolation,
/// physics also waits for the interpolation system.
pub open spec fn common_entries(with_interpolation: bool) -> Seq<(SystemId, Seq<SystemId>)> {
    seq![
        (SystemId::Tether, seq![]),
        (SystemId::Mount, seq![]),
        (SystemId::Controller, seq![SystemId::Mount]),
        (SystemId::CharacterBehavior, seq![SystemId::Controller]),
        (SystemId::Buff, seq![]),
        (SystemId::Stats, seq![SystemId::Buff]),
        (SystemId::Phys, if with_interpolation {
            seq![SystemId::Interpolation, SystemId::Controller, SystemId::Mount, SystemId::Stats]
        } else {
            seq![SystemId::Controller, SystemId::Mount, SystemId::Stats]
        }),
        (SystemId::PhysEvents, seq![SystemId::Phys]),
        (SystemId::Projectile, seq![SystemId::Phys]),
        (SystemId::Shockwave, seq![SystemId::Phys]),
        (SystemId::Arcing, seq![SystemId::Phys]),
        (SystemId::Beam, seq![SystemId::Phys]),
        (SystemId::Pool, seq![SystemId::Phys]),
        (SystemId::Aura, seq![]),
    ]
}

/// The client registrations: interpolation first, then the common set with
/// physics waiting for it.
pub open spec fn client_entries() -> Seq<(SystemId, Seq<SystemId>)> {
    seq![(SystemId::Interpolation, seq![])] + common_entries(true)
}

impl Schedule {
    /// An empty schedule.
    pub fn new() -> (s: Self)
        ensures
            s@ == Seq::<(SystemId, Seq<SystemId>)>::empty(),
    {
        Schedule { entries: Vec::new() }
    }

    /// The registrations in order.
    pub fn entries(&self) -> (e: &Vec<Registration>)
        ensures
            e@.map_values(|r: Registration| registration_view(r)) == self@,
    {
        &self.entries
    }

    /// Registers `system` to run after `deps`.
    pub fn register(&mut self, system: SystemId, deps: Vec<SystemId>)
        ensures
            final(self)@ == old(self)@.push((system, deps@)),
    {
        let ghost before = self.entries@;
        self.entries.push(Registration { system, deps });
        proof {
            assert(self.entries@ == before.push(Registration { system, deps }));
            assert(self@ =~= old(self)@.push((system, deps@)));
        }
    }
}

/// Registers the systems a local game needs: the full client set.
pub fn add_local_systems(schedule: &mut Schedule)
    ensures
        final(schedule)@ == old(schedule)@ + client_entries(),
{
    add_client_systems(schedule);
}

/// Registers the full client-side system set, including the entity
/// interpolation system, on which physics then depends.
pub fn add_client_systems(schedule: &mut Schedule)
    ensures
        final(schedule)@ == old(schedule)@ + client_entries(),
{
    schedule.register(SystemId::Interpolation, vec![]);
    add_common_systems(schedule, true);
    proof {
        assert(final(schedule)@ =~= old(schedule)@ + client_entries());
    }
}

/// Registers the systems shared between client and server, without the
/// client-only interpolation system.
pub fn add_shared_systems(schedule: &mut Schedule)
    ensures
        final(schedule)@ == old(schedule)@ + common_entries(false),
{
    add_common_systems(schedule, false);
}

fn add_common_systems(schedule: &mut Schedule, with_interpolation: bool)
    ensures
        final(schedule)@ == old(schedule)@ + common_entries(with_interpolation),
{
    schedule.register(SystemId::Tether, vec![]);
    schedule.register(SystemId::Mount, vec![]);
    schedule.register(SystemId::Controller, vec![SystemId::Mount]);
    schedule.register(SystemId::CharacterBehavior, vec![SystemId::Controller]);
    schedule.register(SystemId::Buff, vec![]);
    schedule.register(SystemId::Stats, vec![SystemId::Buff]);
    if with_interpolation {
        schedule.register(
            SystemId::Phys,
            vec![SystemId::Interpolation, SystemId::Controller, SystemId::Mount, SystemId::Stats],
        );
    } else {
        schedule.register(SystemId::Phys, vec![SystemId::Controller, SystemId::Mount, SystemId::Stats]);
    }
    schedule.register(SystemId::PhysEvents, vec![SystemId::Phys]);
    schedule.register(SystemId::Projectile, vec![SystemId::Phys]);
    schedule.register(SystemId::Shockwave, vec![SystemId::Phys]);
    schedule.register(SystemId::Arcing, vec![SystemId::Phys]);
    schedule.register(SystemId::Beam, vec![SystemId::Phys]);
    schedule.register(SystemId::Pool, vec![SystemId::Phys]);
    schedule.register(SystemId::Aura, vec![]);
    proof {
        let e = common_entries(with_interpolation);
        assert(schedule@.len() == old(schedule)@.len() + e.len());
        assert forall|i: int| 0 <= i < e.len() implies schedule@[old(schedule)@.len() + i] == e[i] by {
            assert(schedule@[old(schedule)@.len() + i].1 =~= e[i].1);
        }
        assert(schedule@ =~= old(schedule)@ + e);
    }
}

/// The client schedule lists every system after its dependencies and each
/// system once, so a dispatcher accepts it.
pub proof fn lemma_client_schedule_well_ordered()
    ensures
        well_ordered(client_entries()),
        registered_once(client_entries()),
{
    let s = client_entries();
    assert(s.len() == 15);
    assert(s[0].0 == SystemId::Interpolation);
    assert(s[1].0 == SystemId::Tether);
    assert(s[2].0 == SystemId::Mount);
    assert(s[3].0 == SystemId::Controller);
    assert(s[4].0 == SystemId::CharacterBehavior);
    assert(s[5].0 == SystemId::Buff);
    assert(s[6].0 == SystemId::Stats);
    assert(s[7].0 == SystemId::Phys);
    assert(s[8].0 == SystemId::PhysEvents);
    assert(s[9].0 == SystemId::Projectile);
    assert(s[10].0 == SystemId::Shockwave);
    assert(s[11].0 == SystemId::Arcing);
    assert(s[12].0 == SystemId::Beam);
    assert(s[13].0 == SystemId::Pool);
    assert(s[14].0 == SystemId::Aura);
    assert forall|i: int, k: int| 0 <= i < s.len() && 0 <= k < s[i].1.len() implies registered_before(
        s,
        #[trigger] s[i].1[k],
        i,
    ) by {
        let d = s[i].1[k];
        if d == SystemId::Interpolation {
            assert(s[0].0 == d);
        } else if d == SystemId::Mount {
            assert(s[2].0 == d);
        } else if d == SystemId::Controller {
            assert(s[3].0 == d);
        } else if d == SystemId::Buff {
            assert(s[5].0 == d);
        } else if d == SystemId::Stats {
            assert(s[6].0 == d);
        } else {
            assert(s[7].0 == d);
        }
    }
}

/// The shared (server) schedule lists every system after its dependencies
/// and each system once, and never registers the interpolation system.
pub proof fn lemma_shared_schedule_well_ordered()
    ensures
        well_ordered(common_entries(false)),
        registered_once(common_entries(false)),
        forall|i: int|
            0 <= i < common_entries(false).len() ==> (#[trigger] common_entries(false)[i]).0
                != SystemId::Interpolation,
{
    let s = common_entries(false);
    assert(s.len() == 14);
    assert(s[0].0 == SystemId::Tether);
    assert(s[1].0 == SystemId::Mount);
    assert(s[2].0 == SystemId::Controller);
    assert(s[3].0 == SystemId::CharacterBehavior);
    assert(s[4].0 == SystemId::Buff);
    assert(s[5].0 == SystemId::Stats);
    assert(s[6].0 == SystemId::Phys);
    assert(s[7].0 == SystemId::PhysEvents);
    assert(s[8].0 == SystemId::Projectile);
    assert(s[9].0 == SystemId::Shockwave);
    assert(s[10].0 == SystemId::Arcing);
    assert(s[11].0 == SystemId::Beam);
    assert(s[12].0 == SystemId::Pool);
    assert(s[13].0 == SystemId::Aura);
    assert forall|i: int, k: int| 0 <= i < s.len() && 0 <= k < s[i].1.len() implies registered_before(
        s,
        #[trigger] s[i].1[k],
        i,
    ) by {
        let d = s[i].1[k];
        if d == SystemId::Mount {
            assert(s[1].0 == d);
        } else if d == SystemId::Controller {
            assert(s[2].0 == d);
        } else if d == SystemId::Buff {
            assert(s[4].0 == d);
        } else if d == SystemId::Stats {
            assert(s[5].0 == d);
        } else {
            assert(s[6].0 == d);
        }
    }
}


/// Every shared system is registered, interpolation only on the client; the
/// character behaviour waits for the controller, the stats for the buffs,
/// physics for the controller, mounts and stats (and for interpolation
/// exactly on the client), and every system reacting to physics for it.
pub proof fn lemma_schedule_dependencies(with_interpolation: bool, sys: SystemId)
    ensures
        sys != SystemId::Interpolation ==> exists|i: int|
            0 <= i < common_entries(with_interpolation).len() && (#[trigger] common_entries(
                with_interpolation,
            )[i]).0 == sys,
        client_entries()[0] == (SystemId::Interpolation, Seq::<SystemId>::empty()),
        ({
            let e = common_entries(with_interpolation);
            &&& e[3] == (SystemId::CharacterBehavior, seq![SystemId::Controller])
            &&& e[5] == (SystemId::Stats, seq![SystemId::Buff])
            &&& e[6].0 == SystemId::Phys
            &&& e[6].1.contains(SystemId::Controller)
            &&& e[6].1.contains(SystemId::Mount)
            &&& e[6].1.contains(SystemId::Stats)
            &&& (e[6].1.contains(SystemId::Interpolation) <==> with_interpolation)
            &&& forall|i: int| 7 <= i < 13 ==> (#[trigger] e[i]).1 == seq![SystemId::Phys]
        }),
{
    let e = common_entries(with_interpolation);
    let ph = e[6].1;
    if with_interpolation {
        assert(ph[0] == SystemId::Interpolation);
        assert(ph[1] == SystemId::Controller);
        assert(ph[2] == SystemId::Mount);
        assert(ph[3] == SystemId::Stats);
    } else {
        assert(ph[0] == SystemId::Controller);
        assert(ph[1] == SystemId::Mount);
        assert(ph[2] == SystemId::Stats);
        assert(!ph.contains(SystemId::Interpolation));
    }
    let witness: int = match sys {
        SystemId::Interpolation => 0,
        SystemId::Tether => 0,
        SystemId::Mount => 1,
        SystemId::Controller => 2,
        SystemId::CharacterBehavior => 3,
        SystemId::Buff => 4,
        SystemId::Stats => 5,
        SystemId::Phys => 6,
        SystemId::PhysEvents => 7,
        SystemId::Projectile => 8,
        SystemId::Shockwave => 9,
        SystemId::Arcing => 10,
        SystemId::Beam => 11,
        SystemId::Pool => 12,
        SystemId::Aura => 13,
    };
    if sys != SystemId::Interpolation {
        assert(e[witness].0 == sys);
    }
}

} // verus!
