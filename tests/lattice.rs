use rand::rngs::StdRng;
use rand::SeedableRng;
use visavis::lattice::{Lattice, EAST, N_NEIGHBORS, NORTH, NORTH_EAST, SOUTH, SOUTH_WEST, WEST};

#[test]
fn test_lattice_neighborhood_reflectivity() {
    let mut rng: StdRng = SeedableRng::from_seed([123; 32]);
    let nbhoods = &Lattice::new(100, 100, 0, &mut rng).neighborhoods;
    for i in 0..nbhoods.len() {
        assert_eq!(nbhoods[i].len(), N_NEIGHBORS);
        assert_eq!(nbhoods[nbhoods[i][0 /*E */]][1 /*W */], i);
        assert_eq!(nbhoods[nbhoods[i][2 /*S */]][3 /*N */], i);
        assert_eq!(nbhoods[nbhoods[i][4 /*SW*/]][5 /*NE*/], i);
    }
}

#[test]
fn neighbor_symmetry_on_non_square_lattice() {
    let nb = Lattice::generate_neighborhoods(5, 3);
    assert_eq!(nb.len(), 15);
    for i in 0..nb.len() {
        assert_eq!(nb[nb[i][EAST]][WEST], i);
        assert_eq!(nb[nb[i][WEST]][EAST], i);
        assert_eq!(nb[nb[i][SOUTH]][NORTH], i);
        assert_eq!(nb[nb[i][NORTH]][SOUTH], i);
        assert_eq!(nb[nb[i][SOUTH_WEST]][NORTH_EAST], i);
        assert_eq!(nb[nb[i][NORTH_EAST]][SOUTH_WEST], i);
    }
}

#[test]
fn neighbors_wrap_around_in_canonical_order() {
    let nb = Lattice::generate_neighborhoods(4, 3);
    // node 0 sits at column 0, row 0
    assert_eq!(nb[0], [1, 3, 4, 8, 7, 9]);
    // node 7 sits at column 3, row 1
    assert_eq!(nb[7], [4, 6, 11, 3, 10, 0]);
}

#[test]
fn single_node_lattice_is_its_own_neighbor() {
    let nb = Lattice::generate_neighborhoods(1, 1);
    assert_eq!(nb, vec![[0, 0, 0, 0, 0, 0]]);
}

#[test]
fn occupancy_marks_requested_number_dead() {
    let mut rng: StdRng = SeedableRng::from_seed([7; 32]);
    let l = Lattice::new(10, 10, 25, &mut rng);
    assert_eq!(l.cells.len(), 100);
    assert_eq!(l.cells.iter().filter(|c| !c.alive).count(), 25);
    assert!(l.cells.iter().all(|c| c.molecules == [0; 7]));
}

#[test]
fn occupancy_beyond_capacity_kills_all() {
    let mut rng: StdRng = SeedableRng::from_seed([7; 32]);
    let l = Lattice::new(3, 2, 50, &mut rng);
    assert!(l.cells.iter().all(|c| !c.alive));
}

#[test]
fn lattice_setup_is_reproducible_from_seed() {
    let mut a: StdRng = SeedableRng::from_seed([9; 32]);
    let mut b: StdRng = SeedableRng::from_seed([9; 32]);
    let la = Lattice::new(8, 8, 20, &mut a);
    let lb = Lattice::new(8, 8, 20, &mut b);
    let da: Vec<bool> = la.cells.iter().map(|c| c.alive).collect();
    let db: Vec<bool> = lb.cells.iter().map(|c| c.alive).collect();
    assert_eq!(da, db);
}

#[test]
fn infect_keeps_infected_and_skips_dead() {
    let mut rng: StdRng = SeedableRng::from_seed([1; 32]);
    let mut l = Lattice::new(2, 2, 0, &mut rng);
    l.cells[1].molecules[0] = 1;
    l.cells[3].alive = false;
    l.infect(&vec![0, 0, 5, 9]);
    assert_eq!(l.cells[0].molecules[0], 0);
    assert_eq!(l.cells[1].molecules[0], 1);
    assert_eq!(l.cells[2].molecules[0], 1);
    assert_eq!(l.cells[3].molecules[0], 0);
}
