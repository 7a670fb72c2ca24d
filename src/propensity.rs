//! Which events may fire where, and the shape of the binary tree that holds
//! the propensities (leaves are nodes, every internal slot sums its children).
use vstd::prelude::*;

use crate::cell::{spec_can_decrease, spec_can_increase, spec_is_active, Cell};
use crate::event::Event;
use crate::lattice::{Lattice, N_NEIGHBORS};
use crate::molecule::Mol;

verus! {

/// Number of the first `k` neighbours of node `i` whose viral proteins are active.
pub open spec fn count_active_vprot(l: Lattice, i: int, k: nat) -> nat
    decreases k,
{
    if k == 0 {
        0
    } else {
        count_active_vprot(l, i, (k - 1) as nat) + if spec_is_active(
            Mol::Vprot,
            l.cells@[l.neighbor(i, k - 1)].molecules@,
        ) {
            1nat
        } else {
            0nat
        }
    }
}

/// Event `e` has a nonzero propensity at node `i`.
pub open spec fn spec_enabled(e: Event, l: Lattice, i: int, ifni_secretion: bool) -> bool {
    let c = l.cells@[i];
    let ms = c.molecules@;
    &&& c.alive
    &&& match e {
        Event::VinfIncr => spec_can_increase(Mol::Vinf, ms) && count_active_vprot(l, i, 6) > 0,
        Event::VinfDecr => spec_can_decrease(Mol::Vinf, ms) && ms[1] == 0,
        Event::VrnaIncr => spec_is_active(Mol::Vinf, ms) && spec_can_increase(Mol::Vrna, ms),
        Event::VrnaDecr => spec_can_decrease(Mol::Vrna, ms),
        Event::VprotIncr => spec_is_active(Mol::Vrna, ms) && spec_can_increase(Mol::Vprot, ms),
        Event::VprotDecr => spec_can_decrease(Mol::Vprot, ms),
        Event::Pirf3Incr => spec_is_active(Mol::Vrna, ms) && spec_can_increase(Mol::Pirf3, ms),
        Event::Pirf3Decr => spec_can_decrease(Mol::Pirf3, ms),
        Event::IfniIncr => spec_is_active(Mol::Pirf3, ms) && spec_can_increase(Mol::Ifni, ms),
        Event::IfniDecr => spec_can_decrease(Mol::Ifni, ms) && ifni_secretion,
        Event::PstatIncr => spec_can_increase(Mol::Pstat, ms),
        Event::PstatDecr => spec_can_decrease(Mol::Pstat, ms),
        Event::IsgIncr => spec_can_increase(Mol::Isg, ms),
        Event::IsgDecr => spec_can_decrease(Mol::Isg, ms),
        Event::Die => spec_is_active(Mol::Vprot, ms),
    }
}

/// Number of neighbours of node `cell_i` whose viral proteins are active;
/// the rate of infection of the node grows by one unit for each of them.
pub fn active_vprot_neighbors(lattice: &Lattice, cell_i: usize) -> (r: u8)
    requires
        lattice.wf(),
        cell_i < lattice.capacity(),
    ensures
        r as nat == count_active_vprot(*lattice, cell_i as int, 6),
{
    let mut r: u8 = 0;
    let mut k: usize = 0;
    while k < N_NEIGHBORS
        invariant
            lattice.wf(),
            cell_i < lattice.capacity(),
            k <= N_NEIGHBORS,
            r as nat == count_active_vprot(*lattice, cell_i as int, k as nat),
            r <= k,
        decreases N_NEIGHBORS - k,
    {
        let j = lattice.neighborhoods[cell_i][k];
        assert(lattice.neighbor(cell_i as int, k as int) < lattice.capacity());
        if Cell::is_active(Mol::Vprot, &lattice.cells[j].molecules) {
            r = r + 1;
        }
        k = k + 1;
    }
    r
}

/// Whether event `event` has a nonzero propensity at node `cell_i`: the node
/// is alive and the event's regulatory condition holds.
pub fn is_enabled(event: Event, lattice: &Lattice, cell_i: usize, ifni_secretion: bool) -> (r: bool)
    requires
        lattice.wf(),
        cell_i < lattice.capacity(),
    ensures
        r == spec_enabled(event, *lattice, cell_i as int, ifni_secretion),
{
    let c = lattice.cells[cell_i];
    if !c.alive {
        return false;
    }
    let ms = &c.molecules;
    match event {
        Event::VinfIncr => Cell::can_increase(Mol::Vinf, ms) && active_vprot_neighbors(lattice, cell_i) > 0,
        Event::VinfDecr => Cell::can_decrease(Mol::Vinf, ms) && ms[1] == 0,
        Event::VrnaIncr => Cell::is_active(Mol::Vinf, ms) && Cell::can_increase(Mol::Vrna, ms),
        Event::VrnaDecr => Cell::can_decrease(Mol::Vrna, ms),
        Event::VprotIncr => Cell::is_active(Mol::Vrna, ms) && Cell::can_increase(Mol::Vprot, ms),
        Event::VprotDecr => Cell::can_decrease(Mol::Vprot, ms),
        Event::Pirf3Incr => Cell::is_active(Mol::Vrna, ms) && Cell::can_increase(Mol::Pirf3, ms),
        Event::Pirf3Decr => Cell::can_decrease(Mol::Pirf3, ms),
        Event::IfniIncr => Cell::is_active(Mol::Pirf3, ms) && Cell::can_increase(Mol::Ifni, ms),
        Event::IfniDecr => Cell::can_decrease(Mol::Ifni, ms) && ifni_secretion,
        Event::PstatIncr => Cell::can_increase(Mol::Pstat, ms),
        Event::PstatDecr => Cell::can_decrease(Mol::Pstat, ms),
        Event::IsgIncr => Cell::can_increase(Mol::Isg, ms),
        Event::IsgDecr => Cell::can_decrease(Mol::Isg, ms),
        Event::Die => Cell::is_active(Mol::Vprot, ms),
    }
}

/// An event with a nonzero propensity may be applied: sampling only ever
/// picks events whose effect keeps every count within its bounds.
pub proof fn lemma_enabled_is_applicable(e: Event, l: Lattice, i: int, ifni_secretion: bool)
    requires
        l.wf(),
        0 <= i < l.capacity(),
        spec_enabled(e, l, i, ifni_secretion),
    ensures
        e.applicable(l.cells@[i]),
{
}

/// Smallest power of two at or above `i` (two for one).
pub fn ceil_pow2(i: u32) -> (r: u32)
    requires
        1 <= i <= 0x8000_0000,
    ensures
        is_power_of_two(r as nat),
        r >= i,
        r >= 2,
        r / 2 < i || r == 2,
{
    let mut r: u32 = 1;
    while r < i
        invariant
            1 <= i <= 0x8000_0000,
            1 <= r,
            r as int <= 2 * i,
            is_power_of_two(r as nat),
            r == 1 || r / 2 < i,
        decreases 2 * i - r,
    {
        assert((2 * r) as nat / 2 == r as nat);
        r = r * 2;
    }
    if r == 1 {
        2
    } else {
        r
    }
}

/// `n` is a power of two.
pub open spec fn is_power_of_two(n: nat) -> bool
    decreases n,
{
    if n <= 1 {
        n == 1
    } else {
        n % 2 == 0 && is_power_of_two(n / 2)
    }
}

/// Index of the parent of slot `i > 0` of a binary tree laid out in an array.
pub open spec fn parent_of(i: int) -> int {
    (i - 1) / 2
}

/// Slot `k` of path `s` is the parent of slot `k - 1`.
pub open spec fn links_to_parent(s: Seq<usize>, k: int) -> bool {
    s[k - 1] > 0 && s[k] == parent_of(s[k - 1] as int)
}

/// `path` climbs from slot `leaf` to the root, each slot followed by its parent.
pub open spec fn is_root_path(path: Seq<usize>, leaf: int) -> bool {
    &&& path.len() >= 1
    &&& path[0] == leaf
    &&& path.last() == 0
    &&& forall|k: int| 1 <= k < path.len() ==> #[trigger] links_to_parent(path, k)
}

/// Value of slot `s` of the tree `t`; a slot beyond the tree counts as zero.
pub open spec fn slot_value(t: Seq<int>, s: int) -> int {
    if 0 <= s < t.len() { t[s] } else { 0 }
}

/// Every internal slot (below `base`) holds the sum of its two children.
pub open spec fn sums_consistent(t: Seq<int>, base: int) -> bool {
    forall|p: int| 0 <= p < base ==> #[trigger] t[p] == slot_value(t, 2 * p + 1) + slot_value(t, 2 * p + 2)
}

/// Slot `s` lies on `path`.
pub open spec fn on_path(path: Seq<usize>, s: int) -> bool {
    exists|k: int| 0 <= k < path.len() && path[k] == s
}

/// Tree `t` with `v` added to every slot on `path`.
pub open spec fn add_along(t: Seq<int>, path: Seq<usize>, v: int) -> Seq<int> {
    Seq::new(t.len(), |s: int| if on_path(path, s) { t[s] + v } else { t[s] })
}

proof fn lemma_root_path_decreasing(path: Seq<usize>, leaf: int, a: int, b: int)
    requires
        is_root_path(path, leaf),
        0 <= a < b < path.len(),
    ensures
        path[b] < path[a],
    decreases b - a,
{
    assert(links_to_parent(path, b));
    if b - 1 > a {
        lemma_root_path_decreasing(path, leaf, a, b - 1);
    }
}

proof fn lemma_child_then_parent(path: Seq<usize>, leaf: int, c: int) -> (m: int)
    requires
        is_root_path(path, leaf),
        on_path(path, c),
        c > 0,
    ensures
        0 <= m,
        m + 1 < path.len(),
        path[m] == c,
        path[m + 1] == parent_of(c),
{
    let m = choose|m: int| 0 <= m < path.len() && path[m] == c;
    assert(m != path.len() - 1);
    assert(links_to_parent(path, m + 1));
    m
}

/// Adding a value to a leaf and to every slot on its path to the root (what
/// setting a propensity does, and, with the leaf's negated value, what
/// clearing it does) keeps every internal slot equal to the sum of its
/// children, and changes the leaf by that value.
pub proof fn lemma_add_along_path_keeps_sums(t: Seq<int>, base: int, path: Seq<usize>, leaf: int, v: int)
    requires
        sums_consistent(t, base),
        0 <= base <= leaf < t.len(),
        is_root_path(path, leaf),
        forall|k: int| 0 <= k < path.len() ==> #[trigger] path[k] < t.len(),
    ensures
        sums_consistent(add_along(t, path, v), base),
        add_along(t, path, v)[leaf] == t[leaf] + v,
        add_along(t, path, v).len() == t.len(),
{
    let u = add_along(t, path, v);
    assert(on_path(path, leaf) && path[0] == leaf);
    assert forall|p: int| 0 <= p < base implies #[trigger] u[p] == slot_value(u, 2 * p + 1) + slot_value(
        u,
        2 * p + 2,
    ) by {
        let c1 = 2 * p + 1;
        let c2 = 2 * p + 2;
        if on_path(path, p) {
            let k = choose|k: int| 0 <= k < path.len() && path[k] == p;
            assert(k != 0);
            assert(links_to_parent(path, k));
            let c = path[k - 1] as int;
            assert(c == c1 || c == c2);
            let other = if c == c1 { c2 } else { c1 };
            if on_path(path, other) {
                let m = lemma_child_then_parent(path, leaf, other);
                if m + 1 < k {
                    lemma_root_path_decreasing(path, leaf, m + 1, k);
                } else if m + 1 > k {
                    lemma_root_path_decreasing(path, leaf, k, m + 1);
                }
            }
            assert(!on_path(path, other));
            assert(on_path(path, c));
        } else {
            if on_path(path, c1) {
                let m = lemma_child_then_parent(path, leaf, c1);
            }
            if on_path(path, c2) {
                let m = lemma_child_then_parent(path, leaf, c2);
            }
        }
    }
}

/// The shape of the propensity tree over `capacity` nodes: `size` slots,
/// the leaves of the nodes from slot `base` on.
pub struct TreeShape {
    pub capacity: usize,
    pub base: usize,
    pub size: usize,
}

impl TreeShape {
    /// Leaves padded to a power of two: `base + capacity == size`, and the
    /// children of every internal slot lie inside the tree.
    pub open spec fn wf(self) -> bool {
        &&& self.capacity >= 1
        &&& self.base + self.capacity == self.size
        &&& is_power_of_two((self.base + 1) as nat)
        &&& self.base + 1 >= self.capacity
        &&& 2 * self.base + 1 >= self.size
    }

    /// The slot that holds the leaf of node `cell_i`.
    pub open spec fn spec_leaf(self, cell_i: int) -> int {
        self.base + cell_i
    }

    /// The tree over `capacity` nodes.
    pub fn new(capacity: usize) -> (r: TreeShape)
        requires
            1 <= capacity <= 0x4000_0000,
        ensures
            r.wf(),
            r.capacity == capacity,
            (r.base + 1) / 2 < capacity || r.base + 1 == 2,
    {
        let p = ceil_pow2(capacity as u32);
        let size = p as usize + capacity - 1;
        TreeShape { capacity, base: size - capacity, size }
    }

    /// The slot that holds the leaf of node `cell_i`.
    pub fn leaf(&self, cell_i: usize) -> (r: usize)
        requires
            self.wf(),
            cell_i < self.capacity,
        ensures
            r == self.spec_leaf(cell_i as int),
            r < self.size,
    {
        self.base + cell_i
    }

    /// The slots from the leaf of node `cell_i` up to the root: each slot is
    /// followed by its parent, and the last one is the root.
    pub fn path_to_root(&self, cell_i: usize) -> (r: Vec<usize>)
        requires
            self.wf(),
            cell_i < self.capacity,
        ensures
            is_root_path(r@, self.spec_leaf(cell_i as int)),
            forall|k: int| 0 <= k < r@.len() ==> #[trigger] r@[k] < self.size,
    {
        let mut i = self.base + cell_i;
        let mut r: Vec<usize> = vec![i];
        while i > 0
            invariant
                self.wf(),
                r@.len() >= 1,
                r@[0] == self.spec_leaf(cell_i as int),
                r@.last() == i,
                i < self.size,
                forall|k: int| 0 <= k < r@.len() ==> #[trigger] r@[k] < self.size,
                forall|k: int| 1 <= k < r@.len() ==> #[trigger] links_to_parent(r@, k),
            decreases i,
        {
            let ghost prev = r@;
            let ghost prev_i = i;
            i = (i - 1) / 2;
            r.push(i);
            assert forall|k: int| 1 <= k < r@.len() implies #[trigger] links_to_parent(r@, k) by {
                if k < prev.len() {
                    assert(links_to_parent(prev, k));
                    assert(r@[k - 1] == prev[k - 1] && r@[k] == prev[k]);
                } else {
                    assert(r@[k - 1] == prev_i);
                    assert(r@[k] == i);
                }
            }
        }
        r
    }
}

} // verus!
