//! The order in which the blocks of a function are gone through.

use vstd::prelude::*;

use crate::block::BlockKind;
use crate::func::{Func, FuncModel};
use crate::isn::BlockId;

verus! {

impl FuncModel {
    /// The blocks that a walk from `blk` along jumps and branches comes to,
    /// behind those in `visited`, each once and in the order in which the
    /// walk first comes to them: a block, then what is reached through its
    /// first way out, then what is reached through its second. `fuel` is how
    /// deep the walk may go.
    pub open spec fn dfs(self, fuel: nat, blk: BlockId, visited: Seq<BlockId>) -> Seq<BlockId>
        decreases fuel,
    {
        if fuel == 0 || blk >= self.blocks.len() || visited.contains(blk) {
            visited
        } else {
            let seen = visited.push(blk);
            match self.blocks[blk as int].kind {
                BlockKind::Branch { t, f, .. } => self.dfs(
                    (fuel - 1) as nat,
                    f,
                    self.dfs((fuel - 1) as nat, t, seen),
                ),
                BlockKind::Jmp { target } => self.dfs((fuel - 1) as nat, target, seen),
                _ => seen,
            }
        }
    }

    /// The blocks before `k` that are not in `visited` and are not the exit
    /// block, behind those in `visited`.
    pub open spec fn sweep(self, visited: Seq<BlockId>, k: nat) -> Seq<BlockId>
        decreases k,
    {
        if k == 0 {
            visited
        } else {
            let before = self.sweep(visited, (k - 1) as nat);
            let b = (k - 1) as BlockId;
            if before.contains(b) || self.exit == Some(b) {
                before
            } else {
                before.push(b)
            }
        }
    }

    /// The order in which the blocks are gone through: first those that a
    /// walk from the entry block comes to, then every other block but the
    /// exit block, in the order in which they were made. The second part
    /// is for the blocks that only a computed jump can reach.
    pub open spec fn traversal(self) -> Seq<BlockId> {
        let walked = match self.entry {
            Some(e) => self.dfs(self.blocks.len(), e, Seq::empty()),
            None => Seq::empty(),
        };
        self.sweep(walked, self.blocks.len())
    }
}

/// A walk keeps what was visited, visits blocks of the function only, and
/// visits none twice.
pub proof fn lemma_dfs(f: FuncModel, fuel: nat, blk: BlockId, visited: Seq<BlockId>)
    requires
        visited.no_duplicates(),
        forall|i: int| 0 <= i < visited.len() ==> visited[i] < f.blocks.len(),
    ensures
        f.dfs(fuel, blk, visited).no_duplicates(),
        forall|i: int|
            0 <= i < f.dfs(fuel, blk, visited).len() ==> #[trigger] f.dfs(fuel, blk, visited)[i]
                < f.blocks.len(),
        visited.len() <= f.dfs(fuel, blk, visited).len(),
        forall|i: int|
            0 <= i < visited.len() ==> #[trigger] f.dfs(fuel, blk, visited)[i] == visited[i],
    decreases fuel,
{
    if fuel == 0 || blk >= f.blocks.len() || visited.contains(blk) {
    } else {
        let seen = visited.push(blk);
        assert(seen.no_duplicates()) by {
            assert forall|i: int, j: int| 0 <= i < seen.len() && 0 <= j < seen.len() && i
                != j implies seen[i] != seen[j] by {
                if i < visited.len() && j < visited.len() {
                } else if i < visited.len() {
                    assert(visited.contains(visited[i]));
                } else {
                    assert(visited.contains(visited[j]));
                }
            }
        }
        assert(forall|i: int| 0 <= i < visited.len() ==> seen[i] == visited[i]);
        assert forall|i: int| 0 <= i < seen.len() implies seen[i] < f.blocks.len() by {
            if i < visited.len() {
                assert(seen[i] == visited[i]);
            }
        }
        match f.blocks[blk as int].kind {
            BlockKind::Branch { t, f: e, .. } => {
                lemma_dfs(f, (fuel - 1) as nat, t, seen);
                let mid = f.dfs((fuel - 1) as nat, t, seen);
                lemma_dfs(f, (fuel - 1) as nat, e, mid);
                let last = f.dfs((fuel - 1) as nat, e, mid);
                assert(f.dfs(fuel, blk, visited) == last);
                assert forall|i: int| 0 <= i < visited.len() implies last[i] == visited[i] by {
                    assert(mid[i] == seen[i]);
                    assert(last[i] == mid[i]);
                }
            },
            BlockKind::Jmp { target } => {
                lemma_dfs(f, (fuel - 1) as nat, target, seen);
                let last = f.dfs((fuel - 1) as nat, target, seen);
                assert(f.dfs(fuel, blk, visited) == last);
                assert forall|i: int| 0 <= i < visited.len() implies last[i] == visited[i] by {
                    assert(last[i] == seen[i]);
                }
            },
            _ => {
                assert(f.dfs(fuel, blk, visited) == seen);
            },
        }
    }
}

/// A sweep keeps what was visited, and adds each block before `k` that is
/// not the exit block; it visits blocks of the function only, none twice.
pub proof fn lemma_sweep(f: FuncModel, visited: Seq<BlockId>, k: nat)
    requires
        visited.no_duplicates(),
        forall|i: int| 0 <= i < visited.len() ==> visited[i] < f.blocks.len(),
        k <= f.blocks.len() <= usize::MAX,
    ensures
        f.sweep(visited, k).no_duplicates(),
        forall|i: int|
            0 <= i < f.sweep(visited, k).len() ==> #[trigger] f.sweep(visited, k)[i]
                < f.blocks.len(),
        forall|b: BlockId| visited.contains(b) ==> f.sweep(visited, k).contains(b),
        forall|b: BlockId| b < k && f.exit != Some(b) ==> f.sweep(visited, k).contains(b),
        forall|b: BlockId|
            f.sweep(visited, k).contains(b) ==> visited.contains(b) || (b < k && f.exit != Some(b)),
    decreases k,
{
    if k > 0 {
        lemma_sweep(f, visited, (k - 1) as nat);
        let before = f.sweep(visited, (k - 1) as nat);
        let b = (k - 1) as BlockId;
        let after = f.sweep(visited, k);
        if before.contains(b) || f.exit == Some(b) {
        } else {
            assert(after == before.push(b));
            assert(after[before.len() as int] == b);
            assert forall|i: int, j: int| 0 <= i < after.len() && 0 <= j < after.len() && i
                != j implies after[i] != after[j] by {
                if i < before.len() && j < before.len() {
                } else if i < before.len() {
                    assert(before.contains(before[i]));
                } else {
                    assert(before.contains(before[j]));
                }
            }
            assert forall|x: BlockId| before.contains(x) implies after.contains(x) by {
                let i = choose|i: int| 0 <= i < before.len() && before[i] == x;
                assert(after[i] == x);
            }
            assert forall|x: BlockId| after.contains(x) implies visited.contains(x) || (x < k
                && f.exit != Some(x)) by {
                let i = choose|i: int| 0 <= i < after.len() && after[i] == x;
                if i < before.len() {
                    assert(before.contains(x));
                }
            }
        }
    }
}

/// Every block but the exit block is gone through, and none is gone
/// through twice: each is reached by the walk from the entry block, or is
/// taken in behind it.
pub proof fn lemma_traversal_covers(f: FuncModel)
    requires
        f.blocks.len() <= usize::MAX,
    ensures
        f.traversal().no_duplicates(),
        forall|i: int| 0 <= i < f.traversal().len() ==> #[trigger] f.traversal()[i] < f.blocks.len(),
        forall|b: BlockId| b < f.blocks.len() && f.exit != Some(b) ==> f.traversal().contains(b),
{
    let walked = match f.entry {
        Some(e) => f.dfs(f.blocks.len(), e, Seq::empty()),
        None => Seq::empty(),
    };
    match f.entry {
        Some(e) => {
            lemma_dfs(f, f.blocks.len(), e, Seq::empty());
        },
        None => {},
    }
    lemma_sweep(f, walked, f.blocks.len());
}

impl<'t> Func<'t> {
    /// The walk from `blk`: see [`FuncModel::dfs`]. `marks` says of each
    /// block whether it is in `visited`.
    fn walk(&self, fuel: usize, blk: BlockId, visited: &mut Vec<BlockId>, marks: &mut Vec<bool>)
        requires
            old(marks)@.len() == self@.blocks.len(),
            forall|b: int| 0 <= b < old(marks)@.len() ==> old(marks)@[b] == old(visited)@.contains(
                b as BlockId,
            ),
        ensures
            final(visited)@ == self@.dfs(fuel as nat, blk, old(visited)@),
            final(marks)@.len() == self@.blocks.len(),
            forall|b: int|
                0 <= b < final(marks)@.len() ==> final(marks)@[b] == final(visited)@.contains(
                    b as BlockId,
                ),
        decreases fuel,
    {
        if fuel == 0 || blk >= self.blocks.len() || marks[blk] {
            return ;
        }
        let ghost before = visited@;
        visited.push(blk);
        marks[blk] = true;
        proof {
            assert(visited@[before.len() as int] == blk);
            assert forall|b: int| 0 <= b < marks@.len() implies marks@[b] == visited@.contains(
                b as BlockId,
            ) by {
                if before.contains(b as BlockId) {
                    let i = choose|i: int| 0 <= i < before.len() && before[i] == b as BlockId;
                    assert(visited@[i] == b as BlockId);
                }
                if visited@.contains(b as BlockId) && b != blk {
                    let i = choose|i: int| 0 <= i < visited@.len() && visited@[i] == b as BlockId;
                    assert(before[i] == b as BlockId);
                }
            }
        }
        match *self.blocks[blk].kind() {
            BlockKind::Branch { t, f, .. } => {
                self.walk(fuel - 1, t, visited, marks);
                self.walk(fuel - 1, f, visited, marks);
            },
            BlockKind::Jmp { target } => {
                self.walk(fuel - 1, target, visited, marks);
            },
            _ => {},
        }
    }

    /// The blocks in the order in which they are gone through. Every block
    /// but the exit block is among them, once.
    pub fn traverse(&self) -> (r: Vec<BlockId>)
        ensures
            r@ == self@.traversal(),
            r@.no_duplicates(),
            forall|i: int| 0 <= i < r@.len() ==> #[trigger] r@[i] < self@.blocks.len(),
            forall|b: BlockId| b < self@.blocks.len() && self@.exit != Some(b) ==> r@.contains(b),
    {
        let n = self.blocks.len();
        proof {
            lemma_traversal_covers(self@);
        }
        let mut marks: Vec<bool> = Vec::new();
        while marks.len() < n
            invariant
                marks@.len() <= n,
                forall|b: int| 0 <= b < marks@.len() ==> !marks@[b],
            decreases n - marks@.len(),
        {
            marks.push(false);
        }
        let mut visited: Vec<BlockId> = Vec::new();
        match self.entry {
            Some(e) => {
                self.walk(n, e, &mut visited, &mut marks);
            },
            None => {
                assert(visited@ =~= Seq::empty());
            },
        }
        let ghost walked = visited@;
        let mut k: usize = 0;
        while k < n
            invariant
                k <= n,
                n == self@.blocks.len(),
                marks@.len() == n,
                visited@ == self@.sweep(walked, k as nat),
                forall|b: int| 0 <= b < marks@.len() ==> marks@[b] == visited@.contains(
                    b as BlockId,
                ),
            decreases n - k,
        {
            let is_exit = match self.exit {
                Some(x) => x == k,
                None => false,
            };
            if !marks[k] && !is_exit {
                let ghost before = visited@;
                visited.push(k);
                marks[k] = true;
                proof {
                    assert(visited@[before.len() as int] == k);
                    assert forall|b: int| 0 <= b < marks@.len() implies marks@[b]
                        == visited@.contains(b as BlockId) by {
                        if before.contains(b as BlockId) {
                            let i = choose|i: int|
                                0 <= i < before.len() && before[i] == b as BlockId;
                            assert(visited@[i] == b as BlockId);
                        }
                        if visited@.contains(b as BlockId) && b != k {
                            let i = choose|i: int|
                                0 <= i < visited@.len() && visited@[i] == b as BlockId;
                            assert(before[i] == b as BlockId);
                        }
                    }
                }
            }
            k += 1;
        }
        visited
    }
}

} // verus!
