//! Instruction selection.

use vstd::prelude::*;

use crate::unit::Unit;

verus! {

/// The pass that selects instructions. The instructions of the textual
/// form are taken as they are: the pass leaves the unit as it finds it.
pub struct Pass;

impl crate::pass::Pass for Pass {
    open spec fn leaves<'t>(&self, before: Unit<'t>, then: Self, after: Unit<'t>) -> bool {
        after == before
    }

    proof fn lemma_second_run_changes_nothing<'t>(
        first: Self,
        a: Unit<'t>,
        second: Self,
        b: Unit<'t>,
        third: Self,
        c: Unit<'t>,
    ) {
    }

    fn run<'t>(&mut self, unit: &mut Unit<'t>)
        ensures
            *final(unit) == *old(unit),
    {
    }
}

} // verus!
