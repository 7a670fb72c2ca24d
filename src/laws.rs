//! Properties of whole runs of events.
use vstd::prelude::*;

use crate::event::{lemma_bounds_kept, Event};
use crate::lattice::{Lattice, N_NEIGHBORS};
use crate::propensity::spec_enabled;

verus! {

/// `after` is lattice `before` once event `e` has fired at node `i`.
pub open spec fn is_step(before: Lattice, e: Event, i: int, after: Lattice) -> bool {
    &&& 0 <= i < before.capacity()
    &&& e.applicable(before.cells@[i])
    &&& after.width == before.width
    &&& after.height == before.height
    &&& after.neighborhoods@ == before.neighborhoods@
    &&& after.cells@ == before.cells@.update(i, after.cells@[i])
    &&& e.applied(before.cells@[i], after.cells@[i])
}

/// `runs` is a run of lattices: each one follows from the one before it by
/// the event and node given at the same place of `fired`.
pub open spec fn is_run(runs: Seq<Lattice>, fired: Seq<(Event, int)>) -> bool {
    &&& runs.len() == fired.len() + 1
    &&& forall|s: int|
        0 <= s < fired.len() ==> #[trigger] is_step(runs[s], fired[s].0, fired[s].1, runs[s + 1])
}

proof fn lemma_step_keeps_wf(before: Lattice, e: Event, i: int, after: Lattice)
    requires
        before.wf(),
        is_step(before, e, i, after),
    ensures
        after.wf(),
{
    lemma_bounds_kept(e, before.cells@[i], after.cells@[i]);
    assert forall|a: int, k: int|
        0 <= a < after.capacity() && 0 <= k < N_NEIGHBORS implies #[trigger] after.neighbor(a, k)
        == before.neighbor(a, k) by {}
    assert forall|j: int| 0 <= j < after.capacity() implies (#[trigger] after.cells@[j]).wf() by {
        if j != i {
            assert(after.cells@[j] == before.cells@[j]);
        }
    }
}

/// Along any run of applicable events from a well-formed lattice, every
/// lattice is well formed: all counts stay within their bounds and dead
/// cells hold no molecules.
pub proof fn lemma_run_keeps_bounds(runs: Seq<Lattice>, fired: Seq<(Event, int)>)
    requires
        is_run(runs, fired),
        runs[0].wf(),
    ensures
        forall|s: int| 0 <= s < runs.len() ==> (#[trigger] runs[s]).wf(),
    decreases fired.len(),
{
    if fired.len() > 0 {
        let n = fired.len() - 1;
        let shorter = runs.subrange(0, n + 1);
        let fewer = fired.subrange(0, n);
        assert forall|s: int| 0 <= s < fewer.len() implies #[trigger] is_step(
            shorter[s],
            fewer[s].0,
            fewer[s].1,
            shorter[s + 1],
        ) by {
            assert(is_step(runs[s], fired[s].0, fired[s].1, runs[s + 1]));
        }
        lemma_run_keeps_bounds(shorter, fewer);
        assert(shorter[n] == runs[n]);
        assert(is_step(runs[n], fired[n].0, fired[n].1, runs[n + 1]));
        lemma_step_keeps_wf(runs[n], fired[n].0, fired[n].1, runs[n + 1]);
        assert forall|s: int| 0 <= s < runs.len() implies (#[trigger] runs[s]).wf() by {
            if s <= n {
                assert(shorter[s] == runs[s]);
            }
        }
    }
}

/// Along any run of applicable events, a node that is dead stays dead in
/// every later lattice, and no event is enabled there.
pub proof fn lemma_run_keeps_dead(
    runs: Seq<Lattice>,
    fired: Seq<(Event, int)>,
    i: int,
    s: int,
    t: int,
    e: Event,
    ifni_secretion: bool,
)
    requires
        is_run(runs, fired),
        0 <= s <= t < runs.len(),
        0 <= i < runs[s].capacity(),
        !runs[s].cells@[i].alive,
    ensures
        i < runs[t].capacity(),
        !runs[t].cells@[i].alive,
        !spec_enabled(e, runs[t], i, ifni_secretion),
    decreases t - s,
{
    if s < t {
        assert(is_step(runs[s], fired[s].0, fired[s].1, runs[s + 1]));
        assert(runs[s + 1].cells@[i] == runs[s].cells@[i]);
        lemma_run_keeps_dead(runs, fired, i, s + 1, t, e, ifni_secretion);
    }
}

/// Lattices `a` and `b` hold the same shape, neighbour table and cell states.
pub open spec fn same_state(a: Lattice, b: Lattice) -> bool {
    &&& a.width == b.width
    &&& a.height == b.height
    &&& a.neighborhoods@ == b.neighborhoods@
    &&& a.cells@.len() == b.cells@.len()
    &&& forall|j: int|
        0 <= j < a.cells@.len() ==> (#[trigger] a.cells@[j]).alive == b.cells@[j].alive
            && a.cells@[j].molecules@ == b.cells@[j].molecules@
}

proof fn lemma_step_deterministic(a: Lattice, b: Lattice, e: Event, i: int, a2: Lattice, b2: Lattice)
    requires
        same_state(a, b),
        a.wf(),
        is_step(a, e, i, a2),
        is_step(b, e, i, b2),
    ensures
        same_state(a2, b2),
{
    let x = a2.cells@[i];
    let y = b2.cells@[i];
    assert(a.cells@[i].alive == b.cells@[i].alive);
    if e == Event::Die {
        assert(x.molecules@ =~= y.molecules@);
    }
    assert(x.molecules@ == y.molecules@);
    assert forall|j: int| 0 <= j < a2.cells@.len() implies (#[trigger] a2.cells@[j]).alive == b2.cells@[j].alive
        && a2.cells@[j].molecules@ == b2.cells@[j].molecules@ by {
        if j != i {
            assert(a.cells@[j].alive == b.cells@[j].alive);
        }
    }
}

/// The discrete state evolves deterministically: two runs that start from the
/// same state and fire the same events at the same nodes pass through the
/// same states.
pub proof fn lemma_runs_deterministic(r1: Seq<Lattice>, r2: Seq<Lattice>, fired: Seq<(Event, int)>)
    requires
        is_run(r1, fired),
        is_run(r2, fired),
        r1[0].wf(),
        same_state(r1[0], r2[0]),
    ensures
        forall|s: int| 0 <= s < r1.len() ==> same_state(#[trigger] r1[s], r2[s]),
    decreases fired.len(),
{
    if fired.len() > 0 {
        let n = fired.len() - 1;
        let fewer = fired.subrange(0, n);
        let s1 = r1.subrange(0, n + 1);
        let s2 = r2.subrange(0, n + 1);
        assert forall|s: int| 0 <= s < fewer.len() implies #[trigger] is_step(s1[s], fewer[s].0, fewer[s].1, s1[s + 1])
            && is_step(s2[s], fewer[s].0, fewer[s].1, s2[s + 1]) by {
            assert(is_step(r1[s], fired[s].0, fired[s].1, r1[s + 1]));
            assert(is_step(r2[s], fired[s].0, fired[s].1, r2[s + 1]));
        }
        assert(is_run(s1, fewer));
        assert(is_run(s2, fewer));
        lemma_runs_deterministic(s1, s2, fewer);
        lemma_run_keeps_bounds(s1, fewer);
        assert(s1[n] == r1[n] && s2[n] == r2[n]);
        assert(same_state(s1[n], s2[n]));
        assert(is_step(r1[n], fired[n].0, fired[n].1, r1[n + 1]));
        assert(is_step(r2[n], fired[n].0, fired[n].1, r2[n + 1]));
        lemma_step_deterministic(r1[n], r2[n], fired[n].0, fired[n].1, r1[n + 1], r2[n + 1]);
        assert forall|s: int| 0 <= s < r1.len() implies same_state(#[trigger] r1[s], r2[s]) by {
            if s <= n {
                assert(s1[s] == r1[s] && s2[s] == r2[s]);
                assert(same_state(s1[s], s2[s]));
            }
        }
    }
}

} // verus!
