//! The fifteen event kinds: legality, effect on a cell, affected nodes.
use vstd::prelude::*;

use crate::cell::{all_zero, max_level, min_level, Cell};
use crate::lattice::{Lattice, N_NEIGHBORS};
use crate::molecule::N_MOLECULE_SPECIES;

verus! {

/// Number of event kinds: one increment and one decrement per species, and death.
pub const N_EVENTS: usize = 15;

/// An event kind.
#[derive(Debug, Copy, Clone, PartialEq, Eq, Structural)]
pub enum Event {
    VinfIncr,
    VrnaIncr,
    VprotIncr,
    Pirf3Incr,
    IfniIncr,
    PstatIncr,
    IsgIncr,
    VinfDecr,
    VrnaDecr,
    VprotDecr,
    Pirf3Decr,
    IfniDecr,
    PstatDecr,
    IsgDecr,
    Die,
}

/// The event kind at position `i` of the canonical order.
pub open spec fn event_at(i: int) -> Event {
    if i == 0 {
        Event::VinfIncr
    } else if i == 1 {
        Event::VrnaIncr
    } else if i == 2 {
        Event::VprotIncr
    } else if i == 3 {
        Event::Pirf3Incr
    } else if i == 4 {
        Event::IfniIncr
    } else if i == 5 {
        Event::PstatIncr
    } else if i == 6 {
        Event::IsgIncr
    } else if i == 7 {
        Event::VinfDecr
    } else if i == 8 {
        Event::VrnaDecr
    } else if i == 9 {
        Event::VprotDecr
    } else if i == 10 {
        Event::Pirf3Decr
    } else if i == 11 {
        Event::IfniDecr
    } else if i == 12 {
        Event::PstatDecr
    } else if i == 13 {
        Event::IsgDecr
    } else {
        Event::Die
    }
}

impl Event {
    /// Position of the event kind in the canonical order.
    pub open spec fn spec_index(self) -> int {
        match self {
            Event::VinfIncr => 0,
            Event::VrnaIncr => 1,
            Event::VprotIncr => 2,
            Event::Pirf3Incr => 3,
            Event::IfniIncr => 4,
            Event::PstatIncr => 5,
            Event::IsgIncr => 6,
            Event::VinfDecr => 7,
            Event::VrnaDecr => 8,
            Event::VprotDecr => 9,
            Event::Pirf3Decr => 10,
            Event::IfniDecr => 11,
            Event::PstatDecr => 12,
            Event::IsgDecr => 13,
            Event::Die => 14,
        }
    }

    /// The event raises one count by one.
    pub open spec fn is_increment(self) -> bool {
        self.spec_index() < 7
    }

    /// The event lowers one count by one.
    pub open spec fn is_decrement(self) -> bool {
        7 <= self.spec_index() < 14
    }

    /// Position of the species whose count an increment or decrement changes.
    pub open spec fn channel(self) -> int {
        self.spec_index() % 7
    }

    /// The event changes what its node's neighbours may do.
    pub open spec fn reaches_neighbors(self) -> bool {
        self == Event::VprotIncr || self == Event::VprotDecr || self == Event::Die
    }

    /// The event may be applied to cell `c`.
    pub open spec fn applicable(self, c: Cell) -> bool {
        &&& c.alive
        &&& self.is_increment() ==> c.molecules@[self.channel()] < max_level(self.channel())
        &&& self.is_decrement() ==> c.molecules@[self.channel()] > min_level(self.channel())
    }

    /// `after` is cell `before` once the event has been applied to it.
    pub open spec fn applied(self, before: Cell, after: Cell) -> bool {
        if self == Event::Die {
            !after.alive && all_zero(after.molecules@)
        } else if self.is_increment() {
            &&& after.alive == before.alive
            &&& after.molecules@ == before.molecules@.update(
                self.channel(),
                (before.molecules@[self.channel()] + 1) as u8,
            )
        } else {
            &&& after.alive == before.alive
            &&& after.molecules@ == before.molecules@.update(
                self.channel(),
                (before.molecules@[self.channel()] - 1) as u8,
            )
        }
    }

    /// The nodes whose propensities an occurrence at node `i` may change.
    pub open spec fn footprint(self, l: Lattice, i: int) -> Seq<usize> {
        if self.reaches_neighbors() {
            seq![
                i as usize,
                l.neighbor(i, 0) as usize,
                l.neighbor(i, 1) as usize,
                l.neighbor(i, 2) as usize,
                l.neighbor(i, 3) as usize,
                l.neighbor(i, 4) as usize,
                l.neighbor(i, 5) as usize,
            ]
        } else {
            seq![i as usize]
        }
    }

    /// The event kind at position `event_i` of the canonical order.
    pub fn from_index(event_i: usize) -> (r: Event)
        requires
            event_i < N_EVENTS,
        ensures
            r == event_at(event_i as int),
            r.spec_index() == event_i,
    {
        match event_i {
            0 => Event::VinfIncr,
            1 => Event::VrnaIncr,
            2 => Event::VprotIncr,
            3 => Event::Pirf3Incr,
            4 => Event::IfniIncr,
            5 => Event::PstatIncr,
            6 => Event::IsgIncr,
            7 => Event::VinfDecr,
            8 => Event::VrnaDecr,
            9 => Event::VprotDecr,
            10 => Event::Pirf3Decr,
            11 => Event::IfniDecr,
            12 => Event::PstatDecr,
            13 => Event::IsgDecr,
            _ => Event::Die,
        }
    }

    /// Position of the event kind in the canonical order.
    pub fn to_index(self) -> (r: usize)
        ensures
            r as int == self.spec_index(),
            r < N_EVENTS,
            event_at(r as int) == self,
    {
        match self {
            Event::VinfIncr => 0,
            Event::VrnaIncr => 1,
            Event::VprotIncr => 2,
            Event::Pirf3Incr => 3,
            Event::IfniIncr => 4,
            Event::PstatIncr => 5,
            Event::IsgIncr => 6,
            Event::VinfDecr => 7,
            Event::VrnaDecr => 8,
            Event::VprotDecr => 9,
            Event::Pirf3Decr => 10,
            Event::IfniDecr => 11,
            Event::PstatDecr => 12,
            Event::IsgDecr => 13,
            Event::Die => 14,
        }
    }

    /// Cell `c` once the event has been applied to it.
    pub fn apply_to_cell(self, c: Cell) -> (r: Cell)
        requires
            c.wf(),
            self.applicable(c),
        ensures
            self.applied(c, r),
            r.wf(),
    {
        let i = self.to_index();
        if i == 14 {
            let r = Cell { alive: false, molecules: [0u8; N_MOLECULE_SPECIES] };
            assert(r.molecules@ =~= Seq::new(7, |j: int| 0u8));
            r
        } else if i < 7 {
            let mut ms = c.molecules;
            ms[i] = ms[i] + 1;
            Cell { alive: c.alive, molecules: ms }
        } else {
            let mut ms = c.molecules;
            ms[i - 7] = ms[i - 7] - 1;
            Cell { alive: c.alive, molecules: ms }
        }
    }

    /// Applies event `event_i` at node `cell_i` and returns the nodes whose
    /// propensities are to be recomputed: the node itself, followed by its six
    /// neighbours where the event reaches them.
    pub fn occur(event_i: usize, lattice: &mut Lattice, cell_i: usize) -> (r: Vec<usize>)
        requires
            old(lattice).wf(),
            event_i < N_EVENTS,
            cell_i < old(lattice).capacity(),
            event_at(event_i as int).applicable(old(lattice).cells@[cell_i as int]),
        ensures
            final(lattice).wf(),
            final(lattice).width == old(lattice).width,
            final(lattice).height == old(lattice).height,
            final(lattice).neighborhoods@ == old(lattice).neighborhoods@,
            final(lattice).cells@.len() == old(lattice).cells@.len(),
            event_at(event_i as int).applied(
                old(lattice).cells@[cell_i as int],
                final(lattice).cells@[cell_i as int],
            ),
            forall|j: int|
                0 <= j < old(lattice).capacity() && j != cell_i ==> #[trigger] final(lattice).cells@[j]
                    == old(lattice).cells@[j],
            forall|j: int|
                0 <= j < old(lattice).capacity() && !old(lattice).cells@[j].alive
                    ==> !(#[trigger] final(lattice).cells@[j]).alive,
            r@ == event_at(event_i as int).footprint(*old(lattice), cell_i as int),
    {
        let event = Event::from_index(event_i);
        let c = event.apply_to_cell(lattice.cells[cell_i]);
        lattice.cells.set(cell_i, c);
        proof {
            assert forall|i: int, k: int|
                0 <= i < lattice.capacity() && 0 <= k < N_NEIGHBORS implies #[trigger] lattice.neighbor(i, k)
                == old(lattice).neighbor(i, k) by {}
            assert forall|j: int| 0 <= j < lattice.capacity() implies (#[trigger] lattice.cells@[j]).wf() by {
                if j != cell_i {
                    assert(lattice.cells@[j] == old(lattice).cells@[j]);
                }
            }
        }
        if event_i == 2 || event_i == 9 || event_i == 14 {
            let nbs = lattice.neighborhoods[cell_i];
            let r = vec![cell_i, nbs[0], nbs[1], nbs[2], nbs[3], nbs[4], nbs[5]];
            assert(r@ =~= event.footprint(*old(lattice), cell_i as int));
            r
        } else {
            let r = vec![cell_i];
            assert(r@ =~= event.footprint(*old(lattice), cell_i as int));
            r
        }
    }
}

/// Applying an applicable event to a cell whose counts lie within their
/// bounds leaves every count within its bounds.
pub proof fn lemma_bounds_kept(e: Event, before: Cell, after: Cell)
    requires
        before.wf(),
        e.applicable(before),
        e.applied(before, after),
    ensures
        after.wf(),
{
    if e != Event::Die {
        assert forall|i: int| 0 <= i < N_MOLECULE_SPECIES implies min_level(i) <= #[trigger] after.molecules@[i]
            <= max_level(i) by {
            if i != e.channel() {
                assert(after.molecules@[i] == before.molecules@[i]);
            }
        }
    }
}

} // verus!
