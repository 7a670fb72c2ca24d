//! The molecular species tracked in every cell.
use vstd::prelude::*;

verus! {

/// Number of tracked molecular species (channels).
pub const N_MOLECULE_SPECIES: usize = 7;

/// A tracked molecular species.
#[derive(Clone, Copy, Debug, PartialEq, Eq, Structural)]
pub enum Mol {
    /// viral infective particles (presence of the just-entered virus)
    Vinf,
    /// viral RNA
    Vrna,
    /// viral proteins
    Vprot,
    /// phospho-IRF3
    Pirf3,
    /// intracellular interferon
    Ifni,
    /// phospho-STAT1/2
    Pstat,
    /// proteins of interferon-stimulated genes
    Isg,
}

impl Mol {
    /// Position of the species in a cell's count array.
    pub open spec fn spec_index(self) -> int {
        match self {
            Mol::Vinf => 0,
            Mol::Vrna => 1,
            Mol::Vprot => 2,
            Mol::Pirf3 => 3,
            Mol::Ifni => 4,
            Mol::Pstat => 5,
            Mol::Isg => 6,
        }
    }

    /// Position of the species in a cell's count array.
    pub fn index(self) -> (r: usize)
        ensures
            r as int == self.spec_index(),
            r < N_MOLECULE_SPECIES,
    {
        match self {
            Mol::Vinf => 0,
            Mol::Vrna => 1,
            Mol::Vprot => 2,
            Mol::Pirf3 => 3,
            Mol::Ifni => 4,
            Mol::Pstat => 5,
            Mol::Isg => 6,
        }
    }
}

} // verus!
