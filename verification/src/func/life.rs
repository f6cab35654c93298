//! Which values live in more than one block.

use vstd::prelude::*;

use crate::func::{Func, FuncModel};
use crate::isn::{BlockId, IsnModel};
use crate::val::{ValId, ValModel};

verus! {

/// Whether `v` is among the values of the instructions `isns[..j]`, or among
/// the first `m` values of the instruction `isns[j]`.
pub open spec fn used_in(isns: Seq<IsnModel>, j: int, m: int, v: ValId) -> bool {
    ||| exists|i: int| 0 <= i < j && i < isns.len() && (#[trigger] isns[i]).kind.vals().contains(v)
    ||| 0 <= j < isns.len() && exists|q: int|
        0 <= q < m && q < isns[j].kind.vals().len() && #[trigger] isns[j].kind.vals()[q] == v
}

/// What a block makes of what is known of a value: whether the value is
/// known to live in more than one block, and the one block that it is
/// known to live in. A value that the block `k` uses lives in `k`; it lives
/// in more than one block where it was known to live in another.
pub open spec fn after_use(live: bool, seen: Option<BlockId>, k: BlockId, used: bool) -> (
    bool,
    Option<BlockId>,
) {
    (
        live || (used && seen is Some && seen->0 != k),
        if !live && used && seen is None {
            Some(k)
        } else {
            seen
        },
    )
}

impl FuncModel {
    /// Whether the value `v` stands for an argument.
    pub open spec fn is_arg_val(self, v: ValId) -> bool {
        exists|i: int| 0 <= i < self.arg_vals.len() && #[trigger] self.arg_vals[i] == Some(v)
    }

    /// The block that a value lives in before any block uses it: the entry
    /// block, for a value that stands for an argument.
    pub open spec fn home(self, v: ValId) -> Option<BlockId> {
        if self.is_arg_val(v) {
            self.entry
        } else {
            None
        }
    }

    /// Whether the value `v` lives in more than one of the blocks before
    /// `k`: two of them use it, or it stands for an argument and a block
    /// other than the entry block uses it.
    pub open spec fn spans_upto(self, v: ValId, k: int) -> bool {
        ||| exists|a: int, b: int|
            0 <= a < k && 0 <= b < k && a != b && (#[trigger] self.blocks[a]).uses(v) && (
            #[trigger] self.blocks[b]).uses(v)
        ||| self.home(v) is Some && exists|b: int|
            0 <= b < k && b != self.home(v)->0 && (#[trigger] self.blocks[b]).uses(v)
    }

    /// Whether the value `v` lives in more than one block.
    pub open spec fn spans_blocks(self, v: ValId) -> bool {
        self.spans_upto(v, self.blocks.len() as int)
    }

    /// The function after its values were looked over: each value that
    /// lives in more than one block is marked so. A function without an
    /// entry block has no body, and nothing is marked.
    pub open spec fn finalized(self) -> FuncModel {
        if self.entry is None {
            self
        } else {
            FuncModel {
                vals: Seq::new(
                    self.vals.len(),
                    |v: int|
                        ValModel {
                            live_across_blocks: self.vals[v].live_across_blocks
                                || self.spans_blocks(v as ValId),
                            ..self.vals[v]
                        },
                ),
                ..self
            }
        }
    }

    /// What is known of the values once the blocks before `k` were looked
    /// over, given what was known at the start: `live` and `seen` say of
    /// each value whether it is known to live in more than one block, and
    /// the one block that it is known to live in.
    pub open spec fn lives_known(self, k: int, live: Seq<bool>, seen: Seq<Option<BlockId>>) -> bool {
        &&& live.len() == self.vals.len()
        &&& seen.len() == self.vals.len()
        &&& forall|v: int|
            0 <= v < self.vals.len() ==> #[trigger] live[v] == (self.vals[v].live_across_blocks
                || self.spans_upto(v as ValId, k))
        &&& forall|v: int|
            0 <= v < self.vals.len() && !live[v] ==> self.one_block(
                k,
                v as ValId,
                #[trigger] seen[v],
            )
    }

    /// For a value that lives in one block at most among the home of the
    /// value and the blocks before `k`: `seen` is that block.
    pub open spec fn one_block(self, k: int, v: ValId, seen: Option<BlockId>) -> bool {
        &&& seen is None ==> self.home(v) is None && forall|b: int|
            0 <= b < k ==> !(#[trigger] self.blocks[b]).uses(v)
        &&& seen is Some ==> (self.home(v) == seen || (self.home(v) is None && seen->0 < k
            && self.blocks[seen->0 as int].uses(v)))
        &&& forall|b: int| 0 <= b < k && (#[trigger] self.blocks[b]).uses(v) ==> seen == Some(b as BlockId)
    }
}

/// Looking over one more block keeps what is known of the values in step
/// with the blocks looked over.
pub proof fn lemma_lives_step(
    f: FuncModel,
    k: int,
    live: Seq<bool>,
    seen: Seq<Option<BlockId>>,
    live2: Seq<bool>,
    seen2: Seq<Option<BlockId>>,
)
    requires
        0 <= k < f.blocks.len(),
        f.blocks.len() <= usize::MAX,
        f.lives_known(k, live, seen),
        live2.len() == live.len(),
        seen2.len() == seen.len(),
        forall|v: int|
            0 <= v < live.len() ==> (#[trigger] live2[v], #[trigger] seen2[v]) == after_use(
                live[v],
                seen[v],
                k as BlockId,
                f.blocks[k].uses(v as ValId),
            ),
    ensures
        f.lives_known(k + 1, live2, seen2),
{
    assert forall|v: int| 0 <= v < f.vals.len() implies #[trigger] live2[v] == (
    f.vals[v].live_across_blocks || f.spans_upto(v as ValId, k + 1)) && (!live2[v]
        ==> f.one_block(k + 1, v as ValId, seen2[v])) by {
        let id = v as ValId;
        let used = f.blocks[k].uses(id);
        assert((live2[v], seen2[v]) == after_use(live[v], seen[v], k as BlockId, used));
        assert(live[v] == (f.vals[v].live_across_blocks || f.spans_upto(id, k)));
        if live[v] {
            if f.spans_upto(id, k) {
                assert(f.spans_upto(id, k + 1));
            }
        } else {
            assert(f.one_block(k, id, seen[v]));
            if used && seen[v] is Some && seen[v]->0 != k {
                // The value was known to live elsewhere: it spans blocks now.
                if f.home(id) == seen[v] {
                    assert(f.blocks[k].uses(id));
                } else {
                    let a = seen[v]->0 as int;
                    assert(f.blocks[a].uses(id) && f.blocks[k].uses(id) && a != k);
                }
                assert(f.spans_upto(id, k + 1));
            } else {
                // Nothing shows the value in two blocks.
                if f.spans_upto(id, k + 1) {
                    if f.home(id) is Some && exists|b: int|
                        0 <= b < k + 1 && b != f.home(id)->0 && (#[trigger] f.blocks[b]).uses(id) {
                        let b = choose|b: int|
                            0 <= b < k + 1 && b != f.home(id)->0 && (#[trigger] f.blocks[b]).uses(
                                id,
                            );
                        if b < k {
                            assert(f.spans_upto(id, k));
                        }
                        assert(false);
                    } else {
                        let (a, b) = choose|a: int, b: int|
                            0 <= a < k + 1 && 0 <= b < k + 1 && a != b && (
                            #[trigger] f.blocks[a]).uses(id) && (#[trigger] f.blocks[b]).uses(id);
                        if a < k && b < k {
                            assert(f.spans_upto(id, k));
                        } else if a < k {
                            assert(seen[v] == Some(a as BlockId));
                        } else {
                            assert(seen[v] == Some(b as BlockId));
                        }
                        assert(false);
                    }
                }
                assert forall|b: int| 0 <= b < k + 1 && (#[trigger] f.blocks[b]).uses(
                    id,
                ) implies seen2[v] == Some(b as BlockId) by {
                    if b < k {
                        assert(seen[v] == Some(b as BlockId));
                    }
                }
            }
        }
    }
}

impl<'t> Func<'t> {
    /// Looks over the block `blk` for the values that it uses. `seen` says
    /// of each value the block that it is known to live in. A value that
    /// the block uses and that is known to live in another block is marked
    /// as living in more than one; one that is not known to live anywhere
    /// lives in `blk` from now on.
    pub fn check_val_life(&mut self, blk: BlockId, seen: &mut Vec<Option<BlockId>>)
        requires
            old(self)@.wf(),
            blk < old(self)@.blocks.len(),
            old(seen)@.len() == old(self)@.vals.len(),
        ensures
            final(seen)@.len() == old(seen)@.len(),
            final(self)@.vals.len() == old(self)@.vals.len(),
            final(self)@ == (FuncModel { vals: final(self)@.vals, ..old(self)@ }),
            forall|v: int|
                0 <= v < old(self)@.vals.len() ==> (#[trigger] final(self)@.vals[v]) == (ValModel {
                    live_across_blocks: final(self)@.vals[v].live_across_blocks,
                    ..old(self)@.vals[v]
                }),
            forall|v: int|
                0 <= v < old(self)@.vals.len() ==> (
                    (#[trigger] final(self)@.vals[v]).live_across_blocks,
                    #[trigger] final(seen)@[v],
                ) == after_use(
                    old(self)@.vals[v].live_across_blocks,
                    old(seen)@[v],
                    blk,
                    old(self)@.blocks[blk as int].uses(v as ValId),
                ),
    {
        let ghost f = self@;
        let ghost isns = f.blocks[blk as int].isns;
        let ghost seen0 = seen@;
        let n = self.blocks[blk].isns().len();
        let nv = self.vals.len();
        assert(n == isns.len());
        assert(f.block_in_range(f.blocks[blk as int]));
        let mut j: usize = 0;
        while j < n
            invariant
                j <= n,
                n == isns.len(),
                nv == f.vals.len(),
                blk < f.blocks.len(),
                isns == f.blocks[blk as int].isns,
                f.wf(),
                self@ == (FuncModel { vals: self@.vals, ..f }),
                self@.vals.len() == f.vals.len(),
                seen@.len() == f.vals.len(),
                seen0.len() == f.vals.len(),
                forall|v: int|
                    0 <= v < f.vals.len() ==> (#[trigger] self@.vals[v]) == (ValModel {
                        live_across_blocks: self@.vals[v].live_across_blocks,
                        ..f.vals[v]
                    }),
                forall|v: int|
                    0 <= v < f.vals.len() ==> (
                        (#[trigger] self@.vals[v]).live_across_blocks,
                        #[trigger] seen@[v],
                    ) == after_use(
                        f.vals[v].live_across_blocks,
                        seen0[v],
                        blk,
                        used_in(isns, j as int, 0, v as ValId),
                    ),
            decreases n - j,
        {
            let vals = self.blocks[blk].isns()[j].kind.vals();
            assert(vals@ == isns[j as int].kind.vals());
            assert(f.isn_in_range(isns[j as int].kind));
            let mut m: usize = 0;
            while m < vals.len()
                invariant
                    m <= vals@.len(),
                    j < n,
                    n == isns.len(),
                    nv == f.vals.len(),
                    blk < f.blocks.len(),
                    vals@ == isns[j as int].kind.vals(),
                    forall|q: int| 0 <= q < vals@.len() ==> vals@[q] < f.vals.len(),
                    self@ == (FuncModel { vals: self@.vals, ..f }),
                    self@.vals.len() == f.vals.len(),
                    seen@.len() == f.vals.len(),
                    seen0.len() == f.vals.len(),
                    forall|v: int|
                        0 <= v < f.vals.len() ==> (#[trigger] self@.vals[v]) == (ValModel {
                            live_across_blocks: self@.vals[v].live_across_blocks,
                            ..f.vals[v]
                        }),
                    forall|v: int|
                        0 <= v < f.vals.len() ==> (
                            (#[trigger] self@.vals[v]).live_across_blocks,
                            #[trigger] seen@[v],
                        ) == after_use(
                            f.vals[v].live_across_blocks,
                            seen0[v],
                            blk,
                            used_in(isns, j as int, m as int, v as ValId),
                        ),
                decreases vals@.len() - m,
            {
                let v0 = vals[m];
                let ghost before = self@;
                let ghost seen_before = seen@;
                if !self.vals[v0].live_across_blocks() {
                    match seen[v0] {
                        Some(b) => {
                            if b != blk {
                                self.vals[v0].set_live_across_blocks();
                            }
                        },
                        None => {
                            seen[v0] = Some(blk);
                        },
                    }
                }
                proof {
                    assert(self@.blocks =~= f.blocks);
                    assert forall|v: int| 0 <= v < f.vals.len() implies (#[trigger] self@.vals[v]) == (
                    ValModel {
                        live_across_blocks: self@.vals[v].live_across_blocks,
                        ..f.vals[v]
                    }) by {
                        assert(before.vals[v] == (ValModel {
                            live_across_blocks: before.vals[v].live_across_blocks,
                            ..f.vals[v]
                        }));
                        if v != v0 {
                            assert(self@.vals[v] == before.vals[v]);
                        }
                    }
                    assert forall|v: int| 0 <= v < f.vals.len() implies (
                        (#[trigger] self@.vals[v]).live_across_blocks,
                        #[trigger] seen@[v],
                    ) == after_use(
                        f.vals[v].live_across_blocks,
                        seen0[v],
                        blk,
                        used_in(isns, j as int, m + 1, v as ValId),
                    ) by {
                        assert((before.vals[v].live_across_blocks, seen_before[v]) == after_use(
                            f.vals[v].live_across_blocks,
                            seen0[v],
                            blk,
                            used_in(isns, j as int, m as int, v as ValId),
                        ));
                        assert(isns[j as int].kind.vals()[m as int] == v0);
                        if v == v0 {
                            assert(used_in(isns, j as int, m + 1, v as ValId));
                        } else {
                            assert(self@.vals[v] == before.vals[v]);
                            assert(seen@[v] == seen_before[v]);
                            if used_in(isns, j as int, m + 1, v as ValId) {
                                if !(exists|i: int|
                                    0 <= i < j && i < isns.len() && (
                                    #[trigger] isns[i]).kind.vals().contains(v as ValId)) {
                                    let q = choose|q: int|
                                        0 <= q < m + 1 && q < isns[j as int].kind.vals().len()
                                            && #[trigger] isns[j as int].kind.vals()[q] == v as ValId;
                                    assert(q != m);
                                }
                                assert(used_in(isns, j as int, m as int, v as ValId));
                            }
                        }
                    }
                }
                m += 1;
            }
            proof {
                assert forall|id: ValId| #[trigger]
                    used_in(isns, j as int, vals@.len() as int, id) == used_in(
                        isns,
                        j + 1,
                        0,
                        id,
                    ) by {
                    if used_in(isns, j as int, vals@.len() as int, id) {
                        if !(exists|i: int|
                            0 <= i < j && i < isns.len() && (#[trigger] isns[i]).kind.vals().contains(
                                id,
                            )) {
                            assert(isns[j as int].kind.vals().contains(id));
                        }
                    }
                    if used_in(isns, j + 1, 0, id) {
                        let i = choose|i: int|
                            0 <= i < j + 1 && i < isns.len() && (
                            #[trigger] isns[i]).kind.vals().contains(id);
                        if i == j {
                            let q = choose|q: int|
                                0 <= q < isns[j as int].kind.vals().len() && isns[j as int].kind.vals()[q]
                                    == id;
                            assert(isns[j as int].kind.vals()[q] == id);
                        }
                    }
                }
            }
            j += 1;
        }
        proof {
            assert forall|id: ValId| #[trigger]
                used_in(isns, n as int, 0, id) == f.blocks[blk as int].uses(id) by {
                if f.blocks[blk as int].uses(id) {
                    let i = choose|i: int|
                        0 <= i < isns.len() && (#[trigger] isns[i]).kind.vals().contains(id);
                    assert(isns[i].kind.vals().contains(id));
                }
            }
        }
    }

    /// Looks every value of the function over and marks each that lives in
    /// more than one block. The arguments live in the entry block from the
    /// start.
    pub fn finalize(&mut self)
        requires
            old(self)@.wf(),
        ensures
            final(self)@ == old(self)@.finalized(),
            final(self)@.wf(),
    {
        let ghost f = self@;
        let entry = match self.entry {
            Some(e) => e,
            None => {
                return ;
            },
        };
        let nvals = self.vals.len();
        let mut seen: Vec<Option<BlockId>> = Vec::new();
        while seen.len() < nvals
            invariant
                seen@.len() <= nvals,
                forall|v: int| 0 <= v < seen@.len() ==> seen@[v] is None,
            decreases nvals - seen@.len(),
        {
            seen.push(None);
        }
        let mut i: usize = 0;
        while i < self.arg_vals.len()
            invariant
                *self == *old(self),
                f == self@,
                f.wf(),
                f.entry == Some(entry),
                i <= f.arg_vals.len(),
                nvals == f.vals.len(),
                seen@.len() == nvals,
                forall|v: int|
                    0 <= v < nvals ==> #[trigger] seen@[v] == (if exists|k: int|
                        0 <= k < i && #[trigger] f.arg_vals[k] == Some(v as ValId) {
                        Some(entry)
                    } else {
                        None::<BlockId>
                    }),
            decreases f.arg_vals.len() - i,
        {
            let ghost before = seen@;
            match self.arg_vals[i] {
                Some(v) => {
                    assert(f.arg_vals[i as int] == Some(v));
                    seen[v] = Some(entry);
                },
                None => {},
            }
            proof {
                assert forall|v: int| 0 <= v < nvals implies #[trigger] seen@[v] == (if exists|
                    k: int,
                |
                    0 <= k < i + 1 && #[trigger] f.arg_vals[k] == Some(v as ValId) {
                    Some(entry)
                } else {
                    None::<BlockId>
                }) by {
                    if exists|k: int| 0 <= k < i + 1 && #[trigger] f.arg_vals[k] == Some(v as ValId) {
                        let k = choose|k: int|
                            0 <= k < i + 1 && #[trigger] f.arg_vals[k] == Some(v as ValId);
                        if k < i {
                            assert(before[v] == Some(entry));
                        }
                    } else {
                        assert(!(exists|k: int|
                            0 <= k < i && #[trigger] f.arg_vals[k] == Some(v as ValId)));
                    }
                }
            }
            i += 1;
        }
        let ghost live0 = Seq::new(nvals as nat, |v: int| f.vals[v].live_across_blocks);
        proof {
            assert forall|v: int| 0 <= v < nvals implies seen@[v] == f.home(v as ValId) by {
                if f.is_arg_val(v as ValId) {
                    let k = choose|k: int|
                        0 <= k < f.arg_vals.len() && #[trigger] f.arg_vals[k] == Some(v as ValId);
                    assert(f.arg_vals[k] == Some(v as ValId));
                }
            }
            assert(f.lives_known(0, live0, seen@));
        }
        let nblocks = self.blocks.len();
        let mut k: usize = 0;
        while k < nblocks
            invariant
                k <= nblocks,
                nblocks == f.blocks.len(),
                nvals == f.vals.len(),
                f.wf(),
                f.entry == Some(entry),
                self@ == (FuncModel { vals: self@.vals, ..f }),
                self@.vals.len() == f.vals.len(),
                seen@.len() == nvals,
                forall|v: int|
                    0 <= v < f.vals.len() ==> (#[trigger] self@.vals[v]) == (ValModel {
                        live_across_blocks: self@.vals[v].live_across_blocks,
                        ..f.vals[v]
                    }),
                f.lives_known(
                    k as int,
                    Seq::new(nvals as nat, |v: int| self@.vals[v].live_across_blocks),
                    seen@,
                ),
            decreases nblocks - k,
        {
            let ghost live = Seq::new(nvals as nat, |v: int| self@.vals[v].live_across_blocks);
            let ghost seen_k = seen@;
            let ghost g = self@;
            proof {
                lemma_same_but_live(f, g);
            }
            self.check_val_life(k, &mut seen);
            proof {
                let live2 = Seq::new(nvals as nat, |v: int| self@.vals[v].live_across_blocks);
                assert forall|v: int| 0 <= v < live.len() implies (
                    #[trigger] live2[v],
                    #[trigger] seen@[v],
                ) == after_use(live[v], seen_k[v], k, f.blocks[k as int].uses(v as ValId)) by {
                    assert(g.blocks[k as int] == f.blocks[k as int]);
                }
                lemma_lives_step(f, k as int, live, seen_k, live2, seen@);
                assert forall|v: int| 0 <= v < f.vals.len() implies (#[trigger] self@.vals[v]) == (
                ValModel { live_across_blocks: self@.vals[v].live_across_blocks, ..f.vals[v] }) by {
                    assert(self@.vals[v] == (ValModel {
                        live_across_blocks: self@.vals[v].live_across_blocks,
                        ..g.vals[v]
                    }));
                }
            }
            k += 1;
        }
        proof {
            let live = Seq::new(nvals as nat, |v: int| self@.vals[v].live_across_blocks);
            assert forall|v: int| 0 <= v < f.vals.len() implies self@.vals[v]
                == f.finalized().vals[v] by {
                assert(live[v] == (f.vals[v].live_across_blocks || f.spans_upto(
                    v as ValId,
                    nblocks as int,
                )));
                assert(self@.vals[v] == (ValModel {
                    live_across_blocks: self@.vals[v].live_across_blocks,
                    ..f.vals[v]
                }));
            }
            assert(self@.vals =~= f.finalized().vals);
            lemma_same_but_live(f, self@);
        }
    }
}

/// After the values were looked over, a value that two blocks use is
/// marked as living in more than one block.
pub proof fn lemma_finalized_marks_shared(f: FuncModel, v: ValId, a: BlockId, b: BlockId)
    requires
        f.entry is Some,
        v < f.vals.len(),
        a < f.blocks.len(),
        b < f.blocks.len(),
        a != b,
        f.blocks[a as int].uses(v),
        f.blocks[b as int].uses(v),
    ensures
        f.finalized().vals[v as int].live_across_blocks,
{
    assert(f.blocks[a as int].uses(v) && f.blocks[b as int].uses(v));
    assert(f.spans_upto(v, f.blocks.len() as int));
}

/// A function that differs from a well-formed one in the marks on its
/// values alone is well-formed.
pub proof fn lemma_same_but_live(f: FuncModel, g: FuncModel)
    requires
        f.wf(),
        g == (FuncModel { vals: g.vals, ..f }),
        g.vals.len() == f.vals.len(),
        forall|v: int|
            0 <= v < f.vals.len() ==> (#[trigger] g.vals[v]) == (ValModel {
                live_across_blocks: g.vals[v].live_across_blocks,
                ..f.vals[v]
            }),
    ensures
        g.wf(),
{
    assert forall|i: int| 0 <= i < g.blocks.len() implies g.block_in_range(#[trigger] g.blocks[i]) by {
        assert(f.block_in_range(f.blocks[i]));
        let b = f.blocks[i];
        assert forall|k: int| 0 <= k < b.isns.len() implies g.isn_in_range((#[trigger] b.isns[k]).kind) by {
            assert(f.isn_in_range(b.isns[k].kind));
        }
    }
    assert forall|i: int, j: int|
        0 <= i < g.label_map.len() && 0 <= j < g.label_map.len() && g.label_at(i) == g.label_at(
            j,
        ) implies i == j by {
        assert(f.label_at(i) == f.label_at(j));
    }
    assert forall|i: int| 0 <= i < g.vals.len() implies (#[trigger] g.vals[i]).ty.wf() by {
        assert(f.vals[i].ty.wf());
    }
}

} // verus!
