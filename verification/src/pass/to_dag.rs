//! The graphs of dependencies among the instructions of each block.

use vstd::prelude::*;

use crate::unit::{Globals, Unit};

verus! {

/// The pass that gives each block its graph of dependencies: an edge
/// leads from an instruction to each earlier one whose result it reads,
/// and to the one before it that touches memory, if it touches memory
/// itself. A block that has a graph keeps it: to run the pass twice is to
/// run it once.
pub struct Pass;

impl crate::pass::Pass for Pass {
    open spec fn leaves<'t>(&self, before: Unit<'t>, then: Self, after: Unit<'t>) -> bool {
        &&& after.globals@ == Globals::with_dags(before.globals@)
        &&& after.types == before.types
        &&& after.target == before.target
        &&& after.uniq_counter == before.uniq_counter
    }

    proof fn lemma_second_run_changes_nothing<'t>(
        first: Self,
        a: Unit<'t>,
        second: Self,
        b: Unit<'t>,
        third: Self,
        c: Unit<'t>,
    ) {
        lemma_run_twice(a.globals@);
    }

    fn run<'t>(&mut self, unit: &mut Unit<'t>)
        ensures
            final(unit).globals@ == Globals::with_dags(old(unit).globals@),
            final(unit).types == old(unit).types,
            final(unit).target == old(unit).target,
            final(unit).uniq_counter == old(unit).uniq_counter,
    {
        unit.globals.to_dag();
    }
}

/// To give every block of every function its graph twice is to give it once.
pub proof fn lemma_run_twice(globals: Seq<crate::global::GlobalModel>)
    ensures
        Globals::with_dags(Globals::with_dags(globals)) == Globals::with_dags(globals),
{
    assert forall|i: int| 0 <= i < globals.len() implies globals[i].with_dags().with_dags()
        == #[trigger] globals[i].with_dags() by {
        match globals[i] {
            crate::global::GlobalModel::Func(f) => {
                crate::func::dag::lemma_dags_once(f);
            },
            _ => {},
        }
    }
    assert(Globals::with_dags(Globals::with_dags(globals)) =~= Globals::with_dags(globals));
}

} // verus!
