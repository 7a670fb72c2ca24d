use rand::rngs::StdRng;
use rand::SeedableRng;
use visavis::cell::Cell;
use visavis::event::{Event, N_EVENTS};
use visavis::lattice::{Lattice, EAST};
use visavis::molecule::Mol;
use visavis::propensity::{active_vprot_neighbors, ceil_pow2, is_enabled, TreeShape};
use visavis::randomness::gen_seed_from_time;

fn toy_lattice() -> Lattice {
    let mut rng: StdRng = SeedableRng::from_seed([3; 32]);
    Lattice::new(4, 4, 0, &mut rng)
}

fn all_events() -> Vec<Event> {
    (0..N_EVENTS).map(Event::from_index).collect()
}

#[test]
fn cell_predicates_follow_bounds() {
    let ms = [1, 2, 3, 0, 3, 1, 0];
    assert!(Cell::is_active(Mol::Vinf, &ms));
    assert!(!Cell::is_active(Mol::Vrna, &ms));
    assert!(Cell::is_active(Mol::Vprot, &ms));
    assert!(Cell::is_active(Mol::Pstat, &ms));
    assert!(!Cell::is_active(Mol::Isg, &ms));
    assert!(!Cell::can_increase(Mol::Vinf, &ms));
    assert!(Cell::can_increase(Mol::Vrna, &ms));
    assert!(!Cell::can_increase(Mol::Ifni, &ms));
    assert!(Cell::can_decrease(Mol::Vinf, &ms));
    assert!(!Cell::can_decrease(Mol::Pirf3, &ms));
}

#[test]
fn event_indices_round_trip() {
    for i in 0..N_EVENTS {
        assert_eq!(Event::from_index(i).to_index(), i);
    }
    assert_eq!(Event::from_index(0), Event::VinfIncr);
    assert_eq!(Event::from_index(9), Event::VprotDecr);
    assert_eq!(Event::Die.to_index(), 14);
}

#[test]
fn increment_touches_only_its_node() {
    let mut l = toy_lattice();
    let affected = Event::occur(Event::VrnaIncr.to_index(), &mut l, 5);
    assert_eq!(affected, vec![5]);
    assert_eq!(l.cells[5].molecules, [0, 1, 0, 0, 0, 0, 0]);
}

#[test]
fn vprot_change_reaches_neighbors() {
    let mut l = toy_lattice();
    let nb = l.neighborhoods[5];
    let affected = Event::occur(Event::VprotIncr.to_index(), &mut l, 5);
    assert_eq!(affected, vec![5, nb[0], nb[1], nb[2], nb[3], nb[4], nb[5]]);
    let affected = Event::occur(Event::VprotDecr.to_index(), &mut l, 5);
    assert_eq!(affected.len(), 7);
    assert_eq!(l.cells[5].molecules[2], 0);
}

#[test]
fn death_zeroes_counts_and_silences_node() {
    let mut l = toy_lattice();
    l.cells[6].molecules = [1, 3, 3, 3, 3, 1, 1];
    let affected = Event::occur(Event::Die.to_index(), &mut l, 6);
    assert_eq!(affected.len(), 7);
    assert!(!l.cells[6].alive);
    assert_eq!(l.cells[6].molecules, [0; 7]);
    for e in all_events() {
        assert!(!is_enabled(e, &l, 6, true));
    }
    // events elsewhere leave it dead
    Event::occur(Event::VrnaIncr.to_index(), &mut l, 7);
    assert!(!l.cells[6].alive);
    for e in all_events() {
        assert!(!is_enabled(e, &l, 6, true));
    }
}

#[test]
fn bounds_gate_events() {
    let mut l = toy_lattice();
    l.cells[0].molecules = [1, 3, 3, 3, 3, 3, 3];
    for e in [Event::VinfIncr, Event::VrnaIncr, Event::VprotIncr, Event::Pirf3Incr, Event::IfniIncr, Event::PstatIncr, Event::IsgIncr] {
        assert!(!is_enabled(e, &l, 0, true));
    }
    l.cells[1].molecules = [0; 7];
    for e in [Event::VinfDecr, Event::VrnaDecr, Event::VprotDecr, Event::Pirf3Decr, Event::IfniDecr, Event::PstatDecr, Event::IsgDecr, Event::Die] {
        assert!(!is_enabled(e, &l, 1, true));
    }
    assert!(is_enabled(Event::PstatIncr, &l, 1, true));
    assert!(is_enabled(Event::IsgIncr, &l, 1, true));
}

#[test]
fn secretion_flag_gates_ifni_decrease() {
    let mut l = toy_lattice();
    l.cells[2].molecules[4] = 2;
    assert!(is_enabled(Event::IfniDecr, &l, 2, true));
    assert!(!is_enabled(Event::IfniDecr, &l, 2, false));
}

#[test]
fn vinf_decrease_needs_no_rna() {
    let mut l = toy_lattice();
    l.cells[3].molecules[0] = 1;
    assert!(is_enabled(Event::VinfDecr, &l, 3, true));
    l.cells[3].molecules[1] = 1;
    assert!(!is_enabled(Event::VinfDecr, &l, 3, true));
}

#[test]
fn infection_rate_counts_active_neighbors() {
    let mut l = toy_lattice();
    let nb = l.neighborhoods[5];
    assert_eq!(active_vprot_neighbors(&l, 5), 0);
    l.cells[nb[0]].molecules[2] = 3;
    l.cells[nb[3]].molecules[2] = 3;
    l.cells[nb[4]].molecules[2] = 2; // below the activity threshold
    assert_eq!(active_vprot_neighbors(&l, 5), 2);
}

#[test]
fn virus_spreads_to_uninfected_neighbor() {
    let mut l = toy_lattice();
    let source = 5;
    let target = l.neighborhoods[source][EAST];
    l.cells[source].molecules = [1, 3, 3, 0, 0, 0, 0];
    assert!(is_enabled(Event::VinfIncr, &l, target, true));
    assert!(!is_enabled(Event::VrnaIncr, &l, target, true));
    Event::occur(Event::VinfIncr.to_index(), &mut l, target);
    while !Cell::is_active(Mol::Vrna, &l.cells[target].molecules) {
        assert!(is_enabled(Event::VrnaIncr, &l, target, true));
        Event::occur(Event::VrnaIncr.to_index(), &mut l, target);
        assert!(l.cells[target].molecules[1] > 0);
    }
    assert_eq!(l.cells[target].molecules[2], 0);
    assert!(is_enabled(Event::VprotIncr, &l, target, true));
    Event::occur(Event::VprotIncr.to_index(), &mut l, target);
    assert_eq!(l.cells[target].molecules[1], 3);
    assert_eq!(l.cells[target].molecules[2], 1);
}

#[test]
fn ceil_pow2_values() {
    assert_eq!(ceil_pow2(1), 2);
    assert_eq!(ceil_pow2(2), 2);
    assert_eq!(ceil_pow2(3), 4);
    assert_eq!(ceil_pow2(1000), 1024);
    assert_eq!(ceil_pow2(10000), 16384);
    assert_eq!(ceil_pow2(0x8000_0000), 0x8000_0000);
}

#[test]
fn tree_shape_for_full_lattice() {
    let t = TreeShape::new(10000);
    assert_eq!(t.size, 26383);
    assert_eq!(t.base, 16383);
    assert_eq!(t.leaf(0), 16383);
    let path = t.path_to_root(0);
    assert_eq!(path.len(), 15);
    assert_eq!(path[0], 16383);
    assert_eq!(*path.last().unwrap(), 0);
    for k in 1..path.len() {
        assert_eq!(path[k], (path[k - 1] - 1) / 2);
    }
}

#[test]
fn tree_shape_for_single_node() {
    let t = TreeShape::new(1);
    assert_eq!(t.size, 2);
    assert_eq!(t.base, 1);
    assert_eq!(t.path_to_root(0), vec![1, 0]);
}

#[test]
fn seed_from_time_bytes() {
    let s = gen_seed_from_time(1_700_000_000_123, 1_700_000_000, 1_700_000_000_123_456_789);
    assert_eq!(s[0], (1_700_000_000_123u128 % 255) as u8);
    assert_eq!(s[15], (1_700_000_000u64 % 255) as u8);
    assert_eq!(s[31], (1_700_000_000_123_456_789u128 % 255) as u8);
    assert_eq!(s[0], 38);
    for i in 1..31 {
        if i != 15 {
            assert_eq!(s[i], 0);
        }
    }
}

#[test]
fn same_events_give_same_state() {
    let script = [(1usize, 5usize), (1, 5), (1, 5), (2, 5), (2, 5), (2, 5), (14, 5), (5, 9), (6, 9), (12, 9)];
    let run = || {
        let mut l = toy_lattice();
        l.cells[5].molecules[0] = 1;
        for (e, i) in script {
            let event = Event::from_index(e);
            assert!(is_enabled(event, &l, i, true));
            Event::occur(e, &mut l, i);
        }
        l.cells.iter().map(|c| (c.alive, c.molecules)).collect::<Vec<_>>()
    };
    let a = run();
    let b = run();
    assert_eq!(a, b);
    assert!(!a[5].0);
    assert_eq!(a[9].1, [0, 0, 0, 0, 0, 0, 1]);
}
