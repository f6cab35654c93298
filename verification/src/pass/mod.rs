//! The passes that change a unit between reading and writing. They run
//! in a fixed order; each takes the unit as the one before left it.

use vstd::prelude::*;

use crate::unit::Unit;

pub mod isel;
pub mod to_dag;

verus! {

/// A pass over a unit.
pub trait Pass: Sized {
    /// What the pass does: whether a run that finds the unit as `before`
    /// leaves it as `after`, and the pass itself as `then`.
    spec fn leaves<'t>(&self, before: Unit<'t>, then: Self, after: Unit<'t>) -> bool;

    /// Runs the pass over the unit, which stays in order and is left as
    /// the pass leaves a unit that it finds so.
    fn run<'t>(&mut self, unit: &mut Unit<'t>)
        requires
            old(unit).wf(),
        ensures
            final(unit).wf(),
            old(self).leaves(*old(unit), *final(self), *final(unit)),
    ;

    /// To run a pass twice is to run it once: a second run, over what the
    /// first run left, leaves the same globals, types, target and counter
    /// of private labels.
    proof fn lemma_second_run_changes_nothing<'t>(
        first: Self,
        a: Unit<'t>,
        second: Self,
        b: Unit<'t>,
        third: Self,
        c: Unit<'t>,
    )
        requires
            a.wf(),
            first.leaves(a, second, b),
            second.leaves(b, third, c),
        ensures
            c.same_as(b),
    ;
}

} // verus!
