//! Splitting a block in two.

use vstd::prelude::*;

use crate::func::{Func, FuncModel, lemma_frame};
use crate::isn::BlockId;
use crate::lbl::new_private;
use crate::text::decimal;

verus! {

impl FuncModel {
    /// The function after the block `blk` was split before its instruction
    /// at `first_new`: what is left of the block stays in its place, and
    /// what was split off is a new block under the label `label`.
    pub open spec fn split(self, blk: BlockId, first_new: int, label: Seq<char>) -> FuncModel {
        self.with_block(blk, self.blocks[blk as int].head(first_new)).with_new_block(
            self.blocks[blk as int].tail(first_new, label),
        )
    }
}

/// A split leaves the function in order, where a block that ends keeps
/// its end in the part that is split off.
pub proof fn lemma_split_wf(f: FuncModel, blk: BlockId, first_new: int, label: Seq<char>)
    requires
        f.wf(),
        blk < f.blocks.len(),
        0 <= first_new <= f.blocks[blk as int].isns.len(),
        !f.blocks[blk as int].kind.open_ended() ==> first_new < f.blocks[blk as int].isns.len(),
    ensures
        f.split(blk, first_new, label).wf(),
{
    let b = f.blocks[blk as int];
    let head = b.head(first_new);
    let tail = b.tail(first_new, label);
    let h = f.with_block(blk, head);
    let g = f.split(blk, first_new, label);
    assert(f.block_in_range(b));
    assert(b.ends_well());
    assert(head.ends_well()) by {
        assert forall|i: int| 0 <= i < head.isns.len() implies !(
        #[trigger] head.isns[i]).kind.is_terminator() by {
            assert(head.isns[i] == b.isns[i]);
            if i == b.isns.len() - 1 {
                assert(b.isns[i] == b.isns.last());
            }
        }
        if head.isns.len() > 0 {
            assert(head.isns.last() == head.isns[head.isns.len() - 1]);
        }
    }
    assert(h.block_in_range(head)) by {
        assert forall|k: int| 0 <= k < head.isns.len() implies h.isn_in_range(
            (#[trigger] head.isns[k]).kind,
        ) by {
            assert(head.isns[k] == b.isns[k]);
            assert(f.isn_in_range(b.isns[k].kind));
        }
    }
    lemma_frame(f, h, blk);
    assert(tail.ends_well()) by {
        assert forall|i: int| 0 <= i < tail.isns.len() - 1 implies !(
        #[trigger] tail.isns[i]).kind.is_terminator() by {
            assert(tail.isns[i] == b.isns[first_new + i]);
        }
        if tail.isns.len() > 0 {
            assert(tail.isns.last() == b.isns.last());
        }
    }
    assert forall|i: int| 0 <= i < g.blocks.len() implies g.block_in_range(#[trigger] g.blocks[i])
        && g.blocks[i].ends_well() by {
        if i < h.blocks.len() {
            assert(g.blocks[i] == h.blocks[i]);
            let hb = h.blocks[i];
            assert(h.block_in_range(hb));
            assert forall|k: int| 0 <= k < hb.isns.len() implies g.isn_in_range(
                (#[trigger] hb.isns[k]).kind,
            ) by {
                assert(h.isn_in_range(hb.isns[k].kind));
            }
        } else {
            assert(g.blocks[i] == tail);
            assert forall|k: int| 0 <= k < tail.isns.len() implies g.isn_in_range(
                (#[trigger] tail.isns[k]).kind,
            ) by {
                assert(tail.isns[k] == b.isns[first_new + k]);
                assert(f.isn_in_range(b.isns[first_new + k].kind));
            }
        }
    }
    assert forall|i: int| 0 <= i < g.label_map.len() implies g.label_at(i) == h.label_at(i) by {
        assert(h.label_map[i] < h.blocks.len());
    }
    assert forall|i: int, j: int|
        0 <= i < g.label_map.len() && 0 <= j < g.label_map.len() && g.label_at(i) == g.label_at(
            j,
        ) implies i == j by {
        assert(h.label_at(i) == h.label_at(j));
    }
}

impl<'t> Func<'t> {
    /// Splits the block `blk` before its instruction at `first_new`. The
    /// instructions from there on go to a new block under a private label,
    /// and so does the end of the block: `blk` does not end any more, and
    /// whoever splits it gives it a new end. The blocks that `blk` led to
    /// keep `blk` among their predecessors.
    pub fn block_split(&mut self, blk: BlockId, first_new: usize, prefix: &str, counter: &mut u32) -> (r:
        BlockId)
        requires
            old(self)@.wf(),
            !old(self)@.lifetime_filled,
            blk < old(self)@.blocks.len(),
            first_new <= old(self)@.blocks[blk as int].isns.len(),
            !old(self)@.blocks[blk as int].kind.open_ended() ==> first_new < old(
                self,
            )@.blocks[blk as int].isns.len(),
            *old(counter) < u32::MAX,
        ensures
            r == old(self)@.blocks.len(),
            final(self)@ == old(self)@.split(
                blk,
                first_new as int,
                prefix@ + decimal(*old(counter) as nat),
            ),
            final(self)@.wf(),
            *final(counter) == *old(counter) + 1,
    {
        let label = new_private(counter, prefix);
        let ghost text = label@;
        let new = self.blocks[blk].split(first_new, label);
        let id = self.blocks.len();
        self.blocks.push(new);
        proof {
            assert(self@.blocks =~= old(self)@.split(blk, first_new as int, text).blocks);
            assert(self@.vals =~= old(self)@.vals);
            lemma_split_wf(old(self)@, blk, first_new as int, text);
        }
        id
    }
}

} // verus!
