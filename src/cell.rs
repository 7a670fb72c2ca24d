//! Per-node state: an alive flag and seven bounded molecule counts.
use vstd::prelude::*;

use crate::molecule::{Mol, N_MOLECULE_SPECIES};

verus! {

/// The molecule counts of one cell, indexed by `Mol::index`.
pub type MolArray = [u8; N_MOLECULE_SPECIES];

/// Lower bound of every count.
pub open spec fn min_level(i: int) -> u8 {
    0
}

/// Upper bound of the count at position `i`.
pub open spec fn max_level(i: int) -> u8 {
    if i == 0 { 1 } else { 3 }
}

/// Activity threshold of the count at position `i`.
pub open spec fn act_level(i: int) -> u8 {
    if i == 0 || i == 5 || i == 6 { 1 } else { 3 }
}

/// Every count lies within its bounds.
pub open spec fn counts_in_bounds(ms: Seq<u8>) -> bool {
    &&& ms.len() == N_MOLECULE_SPECIES
    &&& forall|i: int| 0 <= i < N_MOLECULE_SPECIES ==> min_level(i) <= #[trigger] ms[i] <= max_level(i)
}

/// Every count is zero.
pub open spec fn all_zero(ms: Seq<u8>) -> bool {
    forall|i: int| 0 <= i < ms.len() ==> #[trigger] ms[i] == 0
}

/// `m` is at or above its activity threshold.
pub open spec fn spec_is_active(m: Mol, ms: Seq<u8>) -> bool {
    ms[m.spec_index()] >= act_level(m.spec_index())
}

/// `m` is below its upper bound.
pub open spec fn spec_can_increase(m: Mol, ms: Seq<u8>) -> bool {
    ms[m.spec_index()] < max_level(m.spec_index())
}

/// `m` is above its lower bound.
pub open spec fn spec_can_decrease(m: Mol, ms: Seq<u8>) -> bool {
    ms[m.spec_index()] > min_level(m.spec_index())
}

/// Upper bound of the count of `m`.
pub fn max_of(m: Mol) -> (r: u8)
    ensures
        r == max_level(m.spec_index()),
{
    match m {
        Mol::Vinf => 1,
        _ => 3,
    }
}

/// Activity threshold of the count of `m`.
pub fn act_of(m: Mol) -> (r: u8)
    ensures
        r == act_level(m.spec_index()),
{
    match m {
        Mol::Vinf | Mol::Pstat | Mol::Isg => 1,
        _ => 3,
    }
}

/// A lattice node.
#[derive(Clone, Copy, Debug)]
pub struct Cell {
    pub alive: bool,
    pub molecules: MolArray,
}

impl Cell {
    /// Counts in bounds; a dead cell holds no molecules.
    pub open spec fn wf(self) -> bool {
        &&& counts_in_bounds(self.molecules@)
        &&& !self.alive ==> all_zero(self.molecules@)
    }

    /// A living cell with no molecules.
    pub fn new_alive() -> (r: Cell)
        ensures
            r.alive,
            all_zero(r.molecules@),
            r.wf(),
    {
        let r = Cell { alive: true, molecules: [0u8; N_MOLECULE_SPECIES] };
        assert(r.molecules@ =~= Seq::new(7, |i: int| 0u8));
        r
    }

    /// Whether the count of `m` has reached its activity threshold.
    pub fn is_active(m: Mol, ms: &MolArray) -> (r: bool)
        ensures
            r == spec_is_active(m, ms@),
    {
        ms[m.index()] >= act_of(m)
    }

    /// Whether the count of `m` may grow by one.
    pub fn can_increase(m: Mol, ms: &MolArray) -> (r: bool)
        ensures
            r == spec_can_increase(m, ms@),
    {
        ms[m.index()] < max_of(m)
    }

    /// Whether the count of `m` may shrink by one.
    pub fn can_decrease(m: Mol, ms: &MolArray) -> (r: bool)
        ensures
            r == spec_can_decrease(m, ms@),
    {
        ms[m.index()] > 0
    }
}

} // verus!
