use lemoncraft::systems::{add_client_systems, add_local_systems, add_shared_systems, Schedule, SystemId};

fn flatten(s: &Schedule) -> Vec<(SystemId, Vec<SystemId>)> {
    s.entries().iter().map(|r| (r.system, r.deps.clone())).collect()
}

fn well_ordered(s: &[(SystemId, Vec<SystemId>)]) -> bool {
    s.iter().enumerate().all(|(i, (_, deps))| deps.iter().all(|d| s[..i].iter().any(|(sys, _)| sys == d)))
}

#[test]
fn client_schedule_registers_interpolation_first() {
    let mut s = Schedule::new();
    add_client_systems(&mut s);
    let e = flatten(&s);
    assert_eq!(e.len(), 15);
    assert_eq!(e[0], (SystemId::Interpolation, vec![]));
    let phys = e.iter().find(|(sys, _)| *sys == SystemId::Phys).unwrap();
    assert_eq!(
        phys.1,
        vec![SystemId::Interpolation, SystemId::Controller, SystemId::Mount, SystemId::Stats]
    );
    assert!(well_ordered(&e));
}

#[test]
fn shared_schedule_has_no_interpolation() {
    let mut s = Schedule::new();
    add_shared_systems(&mut s);
    let e = flatten(&s);
    assert_eq!(e.len(), 14);
    assert!(e.iter().all(|(sys, deps)| *sys != SystemId::Interpolation && !deps.contains(&SystemId::Interpolation)));
    let phys = e.iter().find(|(sys, _)| *sys == SystemId::Phys).unwrap();
    assert_eq!(phys.1, vec![SystemId::Controller, SystemId::Mount, SystemId::Stats]);
    assert!(well_ordered(&e));
}

#[test]
fn local_schedule_is_the_client_schedule() {
    let mut a = Schedule::new();
    add_local_systems(&mut a);
    let mut b = Schedule::new();
    add_client_systems(&mut b);
    assert_eq!(flatten(&a), flatten(&b));
}

#[test]
fn systems_register_once() {
    let mut s = Schedule::new();
    add_client_systems(&mut s);
    let e = flatten(&s);
    for i in 0..e.len() {
        for j in (i + 1)..e.len() {
            assert_ne!(e[i].0, e[j].0);
        }
    }
}
