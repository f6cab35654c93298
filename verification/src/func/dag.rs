//! The graphs of dependencies of the blocks of a function.

use vstd::prelude::*;

use crate::block::BlockModel;
use crate::func::{Func, FuncModel};

verus! {

impl FuncModel {
    /// The function with a graph of dependencies in each block: see
    /// [`BlockModel::with_dag`].
    pub open spec fn with_dags(self) -> FuncModel {
        FuncModel {
            blocks: Seq::new(self.blocks.len(), |i: int| self.blocks[i].with_dag()),
            ..self
        }
    }
}

/// To give every block its graph twice is to give it once.
pub proof fn lemma_dags_once(f: FuncModel)
    ensures
        f.with_dags().with_dags() == f.with_dags(),
{
    assert(f.with_dags().with_dags().blocks =~= f.with_dags().blocks);
}

/// A function that differs from a well-formed one in the graphs of its
/// blocks alone is well-formed.
pub proof fn lemma_same_but_dags(f: FuncModel, g: FuncModel)
    requires
        f.wf(),
        g == (FuncModel { blocks: g.blocks, ..f }),
        g.blocks.len() == f.blocks.len(),
        forall|i: int|
            0 <= i < f.blocks.len() ==> (#[trigger] g.blocks[i]) == (BlockModel {
                dag: g.blocks[i].dag,
                ..f.blocks[i]
            }),
    ensures
        g.wf(),
{
    assert forall|i: int| 0 <= i < g.blocks.len() implies g.block_in_range(#[trigger] g.blocks[i])
        && g.blocks[i].ends_well() by {
        let fb = f.blocks[i];
        let gb = g.blocks[i];
        assert(f.block_in_range(fb));
        assert(fb.ends_well());
        assert forall|k: int| 0 <= k < gb.isns.len() implies g.isn_in_range(
            (#[trigger] gb.isns[k]).kind,
        ) by {
            assert(f.isn_in_range(fb.isns[k].kind));
        }
    }
    assert forall|i: int| 0 <= i < g.label_map.len() implies g.label_at(i) == f.label_at(i) by {
        assert(f.label_map[i] < f.blocks.len());
    }
    assert forall|i: int, j: int|
        0 <= i < g.label_map.len() && 0 <= j < g.label_map.len() && g.label_at(i) == g.label_at(
            j,
        ) implies i == j by {
        assert(f.label_at(i) == f.label_at(j));
    }
}

impl<'t> Func<'t> {
    /// Gives each block that has none the graph of dependencies of its
    /// instructions.
    pub fn to_dag(&mut self)
        ensures
            final(self)@ == old(self)@.with_dags(),
            old(self)@.wf() ==> final(self)@.wf(),
    {
        let ghost f = self@;
        let n = self.blocks.len();
        let mut i: usize = 0;
        while i < n
            invariant
                i <= n,
                n == f.blocks.len(),
                self@ == (FuncModel { blocks: self@.blocks, ..f }),
                self@.blocks.len() == n,
                forall|k: int| 0 <= k < i ==> (#[trigger] self@.blocks[k]) == f.blocks[k].with_dag(),
                forall|k: int| i <= k < n ==> (#[trigger] self@.blocks[k]) == f.blocks[k],
            decreases n - i,
        {
            let ghost before = self@;
            self.blocks[i].to_dag();
            proof {
                assert(self@.vals =~= before.vals);
                assert forall|k: int| 0 <= k < i + 1 implies (#[trigger] self@.blocks[k])
                    == f.blocks[k].with_dag() by {
                    if k < i {
                        assert(self@.blocks[k] == before.blocks[k]);
                    }
                }
                assert forall|k: int| i + 1 <= k < n implies (#[trigger] self@.blocks[k])
                    == f.blocks[k] by {
                    assert(self@.blocks[k] == before.blocks[k]);
                }
            }
            i += 1;
        }
        proof {
            assert(self@.blocks =~= f.with_dags().blocks);
            if f.wf() {
                lemma_same_but_dags(f, self@);
            }
        }
    }
}

} // verus!
