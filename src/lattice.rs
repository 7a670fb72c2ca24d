//! The toroidal hexagonal lattice: its neighbour table and its cells.
use vstd::prelude::*;

use rand::rngs::StdRng;

use crate::cell::Cell;
use crate::randomness::choose_indices;

verus! {

/// Number of neighbours of every node.
pub const N_NEIGHBORS: usize = 6;

/// Neighbour positions, in canonical order.
pub const EAST: usize = 0;
pub const WEST: usize = 1;
pub const SOUTH: usize = 2;
pub const NORTH: usize = 3;
pub const SOUTH_WEST: usize = 4;
pub const NORTH_EAST: usize = 5;

/// The next coordinate along an axis of length `w`, wrapping around.
pub open spec fn step_up(x: int, w: int) -> int {
    if x + 1 == w { 0 } else { x + 1 }
}

/// The previous coordinate along an axis of length `w`, wrapping around.
pub open spec fn step_down(x: int, w: int) -> int {
    if x == 0 { w - 1 } else { x - 1 }
}

/// The node at column `x`, row `y` of a lattice of width `w`.
pub open spec fn node_at(x: int, y: int, w: int) -> int {
    x + y * w
}

/// The neighbour position that lies opposite position `k` on the same axis.
pub open spec fn opposite(k: int) -> int {
    if k % 2 == 0 { k + 1 } else { k - 1 }
}

/// Neighbour `k` (E, W, S, N, SW, NE) of node `i` on a `w` by `h` torus.
pub open spec fn neighbor_of(w: int, h: int, i: int, k: int) -> int {
    let x = i % w;
    let y = i / w;
    if k == 0 {
        node_at(step_up(x, w), y, w)
    } else if k == 1 {
        node_at(step_down(x, w), y, w)
    } else if k == 2 {
        node_at(x, step_up(y, h), w)
    } else if k == 3 {
        node_at(x, step_down(y, h), w)
    } else if k == 4 {
        node_at(step_down(x, w), step_up(y, h), w)
    } else {
        node_at(step_up(x, w), step_down(y, h), w)
    }
}

proof fn lemma_node_in_range(x: int, y: int, w: int, h: int)
    requires
        0 <= x < w,
        0 <= y < h,
    ensures
        0 <= y * w <= node_at(x, y, w) < w * h,
        node_at(x, y, w) % w == x,
        node_at(x, y, w) / w == y,
{
    assert(0 <= y * w && y * w + x < w * h) by (nonlinear_arith)
        requires 0 <= x < w, 0 <= y < h;
    vstd::arithmetic::div_mod::lemma_fundamental_div_mod_converse(node_at(x, y, w), w, y, x);
}

proof fn lemma_coords(i: int, w: int, h: int)
    requires
        w >= 1,
        h >= 1,
        0 <= i < w * h,
    ensures
        0 <= i % w < w,
        0 <= i / w < h,
        i == node_at(i % w, i / w, w),
{
    vstd::arithmetic::div_mod::lemma_fundamental_div_mod(i, w);
    vstd::arithmetic::div_mod::lemma_mod_bound(i, w);
    let y = i / w;
    assert(y * w == w * y) by (nonlinear_arith);
    assert(0 <= y < h) by (nonlinear_arith)
        requires i == w * y + i % w, 0 <= i % w < w, 0 <= i < w * h, w >= 1;
}

/// Every neighbour is a node of the lattice, and stepping to neighbour `k`
/// and then to the opposite neighbour on the same axis leads back to the
/// node one started from.
pub proof fn lemma_neighbor_symmetry(w: int, h: int, i: int, k: int)
    requires
        w >= 1,
        h >= 1,
        0 <= i < w * h,
        0 <= k < 6,
    ensures
        0 <= neighbor_of(w, h, i, k) < w * h,
        neighbor_of(w, h, neighbor_of(w, h, i, k), opposite(k)) == i,
{
    lemma_coords(i, w, h);
    let x = i % w;
    let y = i / w;
    let (nx, ny) = if k == 0 {
        (step_up(x, w), y)
    } else if k == 1 {
        (step_down(x, w), y)
    } else if k == 2 {
        (x, step_up(y, h))
    } else if k == 3 {
        (x, step_down(y, h))
    } else if k == 4 {
        (step_down(x, w), step_up(y, h))
    } else {
        (step_up(x, w), step_down(y, h))
    };
    lemma_node_in_range(nx, ny, w, h);
    assert(neighbor_of(w, h, i, k) == node_at(nx, ny, w));
}

/// The lattice: its shape, the fixed neighbour table and the cells.
pub struct Lattice {
    pub width: usize,
    pub height: usize,
    pub neighborhoods: Vec<[usize; N_NEIGHBORS]>,
    pub cells: Vec<Cell>,
}

impl Lattice {
    /// Number of nodes.
    pub open spec fn capacity(self) -> int {
        self.cells@.len() as int
    }

    /// Entry `k` of the neighbour table of node `i`.
    pub open spec fn neighbor(self, i: int, k: int) -> int {
        self.neighborhoods@[i]@[k] as int
    }

    /// The neighbour table is the one of a `width` by `height` torus.
    pub open spec fn topology_wf(self) -> bool {
        &&& self.width >= 1
        &&& self.height >= 1
        &&& self.width * self.height == self.cells@.len()
        &&& self.neighborhoods@.len() == self.cells@.len()
        &&& forall|i: int, k: int|
            0 <= i < self.capacity() && 0 <= k < N_NEIGHBORS ==> {
                &&& #[trigger] self.neighbor(i, k) == neighbor_of(
                    self.width as int,
                    self.height as int,
                    i,
                    k,
                )
                &&& self.neighbor(i, k) < self.capacity()
            }
    }

    /// Topology well formed and every cell well formed.
    pub open spec fn wf(self) -> bool {
        &&& self.topology_wf()
        &&& forall|i: int| 0 <= i < self.capacity() ==> (#[trigger] self.cells@[i]).wf()
    }

    /// The set of dead nodes.
    pub open spec fn dead_nodes(self) -> Set<usize> {
        Set::new(|i: usize| i < self.capacity() && !self.cells@[i as int].alive)
    }

    /// The neighbour table of a `width` by `height` torus.
    pub fn generate_neighborhoods(width: usize, height: usize) -> (r: Vec<[usize; N_NEIGHBORS]>)
        requires
            width >= 1,
            height >= 1,
            width * height <= usize::MAX,
        ensures
            r@.len() == width * height,
            forall|i: int, k: int|
                0 <= i < width * height && 0 <= k < N_NEIGHBORS ==> {
                    &&& #[trigger] r@[i]@[k] as int == neighbor_of(width as int, height as int, i, k)
                    &&& r@[i]@[k] < width * height
                },
    {
        let n: usize = width * height;
        let mut r: Vec<[usize; N_NEIGHBORS]> = Vec::new();
        let mut i: usize = 0;
        while i < n
            invariant
                n == width * height,
                width >= 1,
                height >= 1,
                i <= n,
                r@.len() == i,
                forall|j: int, k: int|
                    0 <= j < i && 0 <= k < N_NEIGHBORS ==> {
                        &&& #[trigger] r@[j]@[k] as int == neighbor_of(width as int, height as int, j, k)
                        &&& r@[j]@[k] < n
                    },
            decreases n - i,
        {
            let x = i % width;
            let y = i / width;
            proof {
                lemma_coords(i as int, width as int, height as int);
            }
            let east = if x + 1 == width { 0 } else { x + 1 };
            let west = if x == 0 { width - 1 } else { x - 1 };
            let south = if y + 1 == height { 0 } else { y + 1 };
            let north = if y == 0 { height - 1 } else { y - 1 };
            proof {
                lemma_node_in_range(east as int, y as int, width as int, height as int);
                lemma_node_in_range(west as int, y as int, width as int, height as int);
                lemma_node_in_range(x as int, south as int, width as int, height as int);
                lemma_node_in_range(x as int, north as int, width as int, height as int);
                lemma_node_in_range(west as int, south as int, width as int, height as int);
                lemma_node_in_range(east as int, north as int, width as int, height as int);
            }
            let nbs: [usize; N_NEIGHBORS] = [
                east + y * width,
                west + y * width,
                x + south * width,
                x + north * width,
                west + south * width,
                east + north * width,
            ];
            r.push(nbs);
            i = i + 1;
        }
        r
    }

    /// `n` living cells with no molecules, but for the nodes listed in
    /// `dead`, which are dead.
    fn populate_cells(n: usize, dead: &Vec<usize>) -> (r: Vec<Cell>)
        requires
            forall|j: int| 0 <= j < dead@.len() ==> #[trigger] dead@[j] < n,
        ensures
            r@.len() == n,
            forall|i: int| 0 <= i < n ==> (#[trigger] r@[i]).wf() && crate::cell::all_zero(r@[i].molecules@),
            forall|i: int|
                0 <= i < n ==> (#[trigger] r@[i]).alive == !dead@.contains(i as usize),
    {
        let mut r: Vec<Cell> = Vec::new();
        let mut i: usize = 0;
        while i < n
            invariant
                i <= n,
                r@.len() == i,
                forall|j: int| 0 <= j < i ==> (#[trigger] r@[j]).wf() && r@[j].alive
                    && crate::cell::all_zero(r@[j].molecules@),
            decreases n - i,
        {
            r.push(Cell::new_alive());
            i = i + 1;
        }
        let mut d: usize = 0;
        while d < dead.len()
            invariant
                r@.len() == n,
                d <= dead@.len(),
                forall|j: int| 0 <= j < dead@.len() ==> #[trigger] dead@[j] < n,
                forall|j: int| 0 <= j < n ==> (#[trigger] r@[j]).wf()
                    && crate::cell::all_zero(r@[j].molecules@),
                forall|j: int|
                    0 <= j < n ==> (#[trigger] r@[j]).alive == !dead@.subrange(0, d as int).contains(
                        j as usize,
                    ),
            decreases dead@.len() - d,
        {
            let k = dead[d];
            let ghost prev = r@;
            let mut c = r[k];
            c.alive = false;
            r.set(k, c);
            proof {
                let s0 = dead@.subrange(0, d as int);
                let s1 = dead@.subrange(0, d + 1);
                assert(s1 =~= s0.push(k));
                assert forall|j: int| 0 <= j < n implies (#[trigger] r@[j]).alive
                    == !s1.contains(j as usize) by {
                    if j == k as int {
                        assert(s1[d as int] == k);
                    } else {
                        assert(r@[j] == prev[j]);
                    }
                    if s0.contains(j as usize) {
                        let w = choose|w: int| 0 <= w < s0.len() && s0[w] == j as usize;
                        assert(s1[w] == j as usize);
                    }
                    if s1.contains(j as usize) {
                        let w = choose|w: int| 0 <= w < s1.len() && s1[w] == j as usize;
                        if w < d {
                            assert(s0[w] == j as usize);
                        }
                    }
                }
            }
            d = d + 1;
        }
        assert(dead@.subrange(0, dead@.len() as int) =~= dead@);
        r
    }

    /// A `width` by `height` lattice of cells with no molecules, of which
    /// `min(n_dead, width * height)` nodes, drawn at random without
    /// replacement in one draw, are dead.
    pub fn new(width: usize, height: usize, n_dead: usize, rng: &mut StdRng) -> (r: Lattice)
        requires
            width >= 1,
            height >= 1,
            width * height <= usize::MAX,
        ensures
            r.wf(),
            r.width == width,
            r.height == height,
            forall|i: int| 0 <= i < r.capacity() ==> crate::cell::all_zero(
                (#[trigger] r.cells@[i]).molecules@,
            ),
            r.dead_nodes().len() == if n_dead <= width * height { n_dead as int } else { width * height },
    {
        let n: usize = width * height;
        let neighborhoods = Lattice::generate_neighborhoods(width, height);
        let amount = if n_dead <= n { n_dead } else { n };
        let dead = choose_indices(rng, n, amount);
        let cells = Lattice::populate_cells(n, &dead);
        let r = Lattice { width, height, neighborhoods, cells };
        proof {
            assert(r.dead_nodes() =~= dead@.to_set());
            dead@.unique_seq_to_set();
        }
        r
    }

    /// Seeds virus: every living node `i` whose draw `draws[i]` is positive
    /// becomes infected, and an infected node stays infected; dead nodes and
    /// all other counts are left as they are.
    pub fn infect(&mut self, draws: &Vec<u64>)
        requires
            old(self).wf(),
            draws@.len() == old(self).capacity(),
        ensures
            final(self).wf(),
            final(self).width == old(self).width,
            final(self).height == old(self).height,
            final(self).neighborhoods@ == old(self).neighborhoods@,
            final(self).cells@.len() == old(self).cells@.len(),
            forall|i: int|
                0 <= i < old(self).capacity() ==> {
                    let before = old(self).cells@[i];
                    let after = #[trigger] final(self).cells@[i];
                    if before.alive {
                        &&& after.alive
                        &&& after.molecules@ == before.molecules@.update(
                            0,
                            if draws@[i] > 0 || before.molecules@[0] > 0 { 1u8 } else { 0u8 },
                        )
                    } else {
                        after == before
                    }
                },
    {
        let n = self.cells.len();
        let mut i: usize = 0;
        while i < n
            invariant
                n == old(self).capacity(),
                i <= n,
                draws@.len() == n,
                self.width == old(self).width,
                self.height == old(self).height,
                self.neighborhoods@ == old(self).neighborhoods@,
                self.cells@.len() == n,
                old(self).wf(),
                forall|j: int| i <= j < n ==> #[trigger] self.cells@[j] == old(self).cells@[j],
                forall|j: int|
                    0 <= j < i ==> {
                        let before = old(self).cells@[j];
                        let after = #[trigger] self.cells@[j];
                        &&& after.wf()
                        &&& if before.alive {
                            &&& after.alive
                            &&& after.molecules@ == before.molecules@.update(
                                0,
                                if draws@[j] > 0 || before.molecules@[0] > 0 { 1u8 } else { 0u8 },
                            )
                        } else {
                            after == before
                        }
                    },
            decreases n - i,
        {
            let mut c = self.cells[i];
            if c.alive {
                let infected = draws[i] > 0 || c.molecules[0] > 0;
                c.molecules[0] = if infected { 1 } else { 0 };
                self.cells.set(i, c);
            }
            i = i + 1;
        }
        proof {
            assert forall|a: int, k: int|
                0 <= a < self.capacity() && 0 <= k < N_NEIGHBORS implies #[trigger] self.neighbor(a, k)
                == old(self).neighbor(a, k) by {}
        }
    }
}

/// On a well-formed lattice, stepping to neighbour `k` of node `i` and then
/// to the opposite neighbour on the same axis leads back to `i`.
pub proof fn lemma_lattice_neighbor_symmetry(l: Lattice, i: int, k: int)
    requires
        l.topology_wf(),
        0 <= i < l.capacity(),
        0 <= k < N_NEIGHBORS,
    ensures
        0 <= l.neighbor(i, k) < l.capacity(),
        l.neighbor(l.neighbor(i, k), opposite(k)) == i,
{
    lemma_neighbor_symmetry(l.width as int, l.height as int, i, k);
    let j = l.neighbor(i, k);
    assert(l.neighbor(j, opposite(k)) == neighbor_of(l.width as int, l.height as int, j, opposite(k)));
}

} // verus!
