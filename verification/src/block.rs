//! Basic blocks: a label, instructions, and how the block ends.

use vstd::prelude::*;

use crate::isn::{isn_models, BlockId, Isn, IsnKindModel, IsnModel};
use crate::val::ValId;

verus! {

/// How a block ends. `Unknown` and `Entry` are blocks that do not end yet:
/// `Entry` is the first block of its function, `Unknown` any other.
#[derive(Debug, Clone, Copy, PartialEq, Eq, Structural)]
pub enum BlockKind {
    Unknown,
    Entry,
    Exit,
    EntryExit,
    Branch { cond: ValId, t: BlockId, f: BlockId },
    Jmp { target: BlockId },
    JmpComp { target: ValId },
}

/// The data dependencies among the instructions of a block: an edge leads
/// from the place of an instruction to the place of one whose result it needs.
#[derive(Debug)]
pub struct Dag {
    pub edges: Vec<(usize, usize)>,
}

/// A basic block: instructions that run one after the other, and one way out.
#[derive(Debug)]
pub struct Block {
    isns: Vec<Isn>,
    /// None on the entry block.
    label: Option<String>,
    dag: Option<Dag>,
    kind: BlockKind,
    preds: Vec<BlockId>,
    emitted: bool,
}

/// The model of a [`Block`].
pub struct BlockModel {
    pub isns: Seq<IsnModel>,
    pub label: Option<Seq<char>>,
    pub dag: Option<Seq<(usize, usize)>>,
    pub kind: BlockKind,
    pub preds: Seq<BlockId>,
    pub emitted: bool,
}

impl BlockKind {
    /// Whether the block does not end yet.
    pub open spec fn open_ended(self) -> bool {
        self is Unknown || self is Entry
    }

    /// The instruction that ends a block of this kind and was read from
    /// source text; `val` is what a block that returns gives back.
    pub open spec fn is_ended_by(self, isn: IsnKindModel) -> bool {
        match self {
            BlockKind::Unknown | BlockKind::Entry => false,
            BlockKind::Exit | BlockKind::EntryExit => isn is Ret,
            BlockKind::Branch { cond, t, f } => isn == (IsnKindModel::Br { cond, t, f }),
            BlockKind::Jmp { target } => isn == (IsnKindModel::Jmp { target }),
            BlockKind::JmpComp { target } => isn == (IsnKindModel::JmpComputed { target }),
        }
    }
}

impl View for Block {
    type V = BlockModel;

    closed spec fn view(&self) -> BlockModel {
        BlockModel {
            isns: isn_models(self.isns@),
            label: match self.label {
                Some(l) => Some(l@),
                None => None,
            },
            dag: match self.dag {
                Some(d) => Some(d.edges@),
                None => None,
            },
            kind: self.kind,
            preds: self.preds@,
            emitted: self.emitted,
        }
    }
}

impl BlockModel {
    /// A block as it is made: empty, with no predecessor.
    pub open spec fn fresh(label: Option<Seq<char>>, kind: BlockKind) -> BlockModel {
        BlockModel {
            isns: Seq::empty(),
            label,
            dag: None,
            kind,
            preds: Seq::empty(),
            emitted: false,
        }
    }

    /// Whether the instructions agree with the kind: a block that does not
    /// end yet holds no terminator, and any other holds one, which is its
    /// last instruction and the one that its kind names.
    pub open spec fn ends_well(self) -> bool {
        &&& forall|i: int|
            0 <= i < self.isns.len() - 1 ==> !(#[trigger] self.isns[i]).kind.is_terminator()
        &&& if self.kind.open_ended() {
            self.isns.len() > 0 ==> !self.isns.last().kind.is_terminator()
        } else {
            self.isns.len() > 0 && self.kind.is_ended_by(self.isns.last().kind)
        }
    }

    /// Whether some instruction of the block reads or writes the value `v`.
    pub open spec fn uses(self, v: ValId) -> bool {
        exists|i: int| 0 <= i < self.isns.len() && (#[trigger] self.isns[i]).kind.vals().contains(v)
    }

    /// The block after an instruction was put at its end.
    pub open spec fn with_isn(self, isn: IsnModel) -> BlockModel {
        BlockModel { isns: self.isns.push(isn), ..self }
    }

    /// The block that ends by returning: the entry block becomes the only
    /// block of a function that returns at once.
    pub open spec fn exited(self) -> BlockModel {
        BlockModel {
            kind: if self.kind is Entry {
                BlockKind::EntryExit
            } else {
                BlockKind::Exit
            },
            ..self
        }
    }
}

/// The place of the last of the instructions `isns[..i]` that touches
/// memory.
pub open spec fn last_memory(isns: Seq<IsnModel>, i: int) -> Option<usize>
    decreases i,
{
    if i <= 0 || i > isns.len() {
        None
    } else if isns[i - 1].kind.touches_memory() {
        Some((i - 1) as usize)
    } else {
        last_memory(isns, i - 1)
    }
}

/// Whether the instruction at `i` must come behind the one at `j`: it reads
/// what that one defines, or both touch memory and no instruction between
/// them does.
pub open spec fn depends(isns: Seq<IsnModel>, i: int, j: int) -> bool {
    ||| isns[j].kind.output() is Some && isns[i].kind.inputs().contains(isns[j].kind.output()->0)
    ||| isns[i].kind.touches_memory() && last_memory(isns, i) == Some(j as usize)
}

/// The edges from the instruction at `i` to those before `k` that it
/// depends on, in the order of these.
pub open spec fn dag_row(isns: Seq<IsnModel>, i: int, k: int) -> Seq<(usize, usize)>
    decreases k,
{
    if k <= 0 {
        Seq::empty()
    } else if depends(isns, i, k - 1) {
        dag_row(isns, i, k - 1).push((i as usize, (k - 1) as usize))
    } else {
        dag_row(isns, i, k - 1)
    }
}

/// The edges from the instructions before `n`, in the order of these.
pub open spec fn dag_upto(isns: Seq<IsnModel>, n: int) -> Seq<(usize, usize)>
    decreases n,
{
    if n <= 0 {
        Seq::empty()
    } else {
        dag_upto(isns, n - 1) + dag_row(isns, n - 1, n - 1)
    }
}

/// The graph of dependencies of a block with the instructions `isns`: an
/// edge leads from each instruction to each earlier one that it depends on.
pub open spec fn dag_of(isns: Seq<IsnModel>) -> Seq<(usize, usize)> {
    dag_upto(isns, isns.len() as int)
}

impl BlockModel {
    /// The block with its graph of dependencies: the one that it has, or,
    /// where it has none, the one of its instructions.
    pub open spec fn with_dag(self) -> BlockModel {
        BlockModel {
            dag: match self.dag {
                Some(d) => Some(d),
                None => Some(dag_of(self.isns)),
            },
            ..self
        }
    }
}

impl BlockKind {
    /// The kind that goes with the end of a block to the block that is
    /// split off it: how the block ends, but that the split-off block is no
    /// entry block.
    pub open spec fn moved(self) -> BlockKind {
        match self {
            BlockKind::Entry => BlockKind::Unknown,
            BlockKind::EntryExit => BlockKind::Exit,
            k => k,
        }
    }

    /// The kind that a block is left with once its end was split off: it
    /// does not end yet.
    pub open spec fn left(self) -> BlockKind {
        match self {
            BlockKind::Entry | BlockKind::EntryExit => BlockKind::Entry,
            _ => BlockKind::Unknown,
        }
    }
}

impl BlockModel {
    /// What is left of a block whose instructions from `first_new` on were
    /// split off: the instructions before, and no end.
    pub open spec fn head(self, first_new: int) -> BlockModel {
        BlockModel {
            isns: self.isns.subrange(0, first_new),
            kind: self.kind.left(),
            dag: None,
            ..self
        }
    }

    /// The block that is split off a block at `first_new`: under the label
    /// `label`, the instructions from `first_new` on, and the end of the
    /// block. It has no predecessors yet.
    pub open spec fn tail(self, first_new: int, label: Seq<char>) -> BlockModel {
        BlockModel {
            isns: self.isns.subrange(first_new, self.isns.len() as int),
            label: Some(label),
            dag: None,
            kind: self.kind.moved(),
            preds: Seq::empty(),
            emitted: false,
        }
    }
}

impl Block {
    /// Splits the block before the instruction at `first_new`: the
    /// instructions from there on, and the end of the block, go to a new
    /// block under the label `label`, which is returned.
    pub fn split(&mut self, first_new: usize, label: String) -> (r: Block)
        requires
            first_new <= old(self)@.isns.len(),
        ensures
            final(self)@ == old(self)@.head(first_new as int),
            r@ == old(self)@.tail(first_new as int, label@),
    {
        let isns = self.isns.split_off(first_new);
        let kind = match self.kind {
            BlockKind::Entry => BlockKind::Unknown,
            BlockKind::EntryExit => BlockKind::Exit,
            k => k,
        };
        self.kind = match self.kind {
            BlockKind::Entry | BlockKind::EntryExit => BlockKind::Entry,
            _ => BlockKind::Unknown,
        };
        self.dag = None;
        let r = Block { isns, label: Some(label), dag: None, kind, preds: Vec::new(), emitted: false };
        proof {
            assert(self@.isns =~= old(self)@.isns.subrange(0, first_new as int));
            assert(r@.isns =~= old(self)@.isns.subrange(
                first_new as int,
                old(self)@.isns.len() as int,
            ));
        }
        r
    }

    /// A block under the label `s`, which does not end yet.
    pub fn new_labelled(s: String) -> (b: Self)
        ensures
            b@ == BlockModel::fresh(Some(s@), BlockKind::Unknown),
    {
        Self::new(Some(s), BlockKind::Unknown)
    }

    /// The first block of a function. It has no label.
    pub fn new_entry() -> (b: Self)
        ensures
            b@ == BlockModel::fresh(None, BlockKind::Entry),
    {
        Self::new(None, BlockKind::Entry)
    }

    fn new(label: Option<String>, kind: BlockKind) -> (b: Self)
        ensures
            b@ == BlockModel::fresh(
                match label {
                    Some(l) => Some(l@),
                    None => None,
                },
                kind,
            ),
    {
        let b = Block { isns: Vec::new(), dag: None, label, kind, preds: Vec::new(), emitted: false };
        assert(b@.isns =~= Seq::empty());
        b
    }

    /// The label of the block; none, for an entry block.
    pub fn label(&self) -> (l: &Option<String>)
        ensures
            self@.label == (match *l {
                Some(s) => Some(s@),
                None => None,
            }),
    {
        &self.label
    }

    /// How the block ends.
    pub fn kind(&self) -> (k: &BlockKind)
        ensures
            *k == self@.kind,
    {
        &self.kind
    }

    /// Whether the block holds no instruction yet: it was named, by a jump
    /// to it, before it was written.
    pub fn is_tenative(&self) -> (r: bool)
        ensures
            r == (self@.isns.len() == 0),
    {
        self.isns.len() == 0
    }

    /// Whether the block does not end yet.
    pub fn is_unknown_ending(&self) -> (r: bool)
        ensures
            r == self@.kind.open_ended(),
    {
        match self.kind {
            BlockKind::Unknown | BlockKind::Entry => true,
            _ => false,
        }
    }

    /// Puts `isn` behind the instructions of the block.
    pub fn add_isn(&mut self, isn: Isn)
        ensures
            final(self)@ == old(self)@.with_isn(isn@),
    {
        self.isns.push(isn);
        assert(self@.isns =~= old(self)@.isns.push(isn@));
    }

    /// The instructions of the block, in order.
    pub fn isns(&self) -> (r: &Vec<Isn>)
        ensures
            isn_models(r@) == self@.isns,
    {
        &self.isns
    }

    /// The instructions of the block, to be changed.
    pub fn isns_mut(&mut self) -> (r: &mut Vec<Isn>)
        ensures
            isn_models(r@) == old(self)@.isns,
            final(self)@ == (BlockModel { isns: isn_models(final(r)@), ..old(self)@ }),
    {
        &mut self.isns
    }

    /// The blocks that control can come from.
    pub fn preds(&self) -> (r: &Vec<BlockId>)
        ensures
            r@ == self@.preds,
    {
        &self.preds
    }

    /// Ends the block with a jump to one of `t` and `f`, as `cond` decides.
    /// A block knows the others by their numbers only: that `t` and `f`
    /// gain this block as a predecessor is the work of `Func::set_branch`.
    pub fn set_branch(&mut self, cond: ValId, t: BlockId, f: BlockId)
        requires
            old(self)@.kind.open_ended(),
        ensures
            final(self)@ == (BlockModel { kind: BlockKind::Branch { cond, t, f }, ..old(self)@ }),
    {
        self.kind = BlockKind::Branch { cond, t, f };
    }

    /// Ends the block with a jump to `target`. A block knows the others by
    /// their numbers only: that `target` gains this block as a predecessor
    /// is the work of `Func::set_jmp`.
    pub fn set_jmp(&mut self, target: BlockId)
        requires
            old(self)@.kind.open_ended(),
        ensures
            final(self)@ == (BlockModel { kind: BlockKind::Jmp { target }, ..old(self)@ }),
    {
        self.kind = BlockKind::Jmp { target };
    }

    /// Ends the block with a return.
    pub fn set_exit(&mut self)
        ensures
            final(self)@ == old(self)@.exited(),
    {
        self.kind = match self.kind {
            BlockKind::Entry => BlockKind::EntryExit,
            _ => BlockKind::Exit,
        };
    }

    /// Ends the block with a jump to the block whose address `target` holds.
    pub fn set_computed_jmp(&mut self, target: ValId)
        requires
            old(self)@.kind.open_ended(),
        ensures
            final(self)@ == (BlockModel { kind: BlockKind::JmpComp { target }, ..old(self)@ }),
    {
        self.kind = BlockKind::JmpComp { target };
    }

    /// Gives the block its graph of dependencies. It gets one once.
    pub fn set_dag(&mut self, dag: Dag)
        requires
            old(self)@.dag is None,
        ensures
            final(self)@ == (BlockModel { dag: Some(dag.edges@), ..old(self)@ }),
    {
        self.dag = Some(dag);
    }

    /// Records that control can come from `pred`.
    pub fn add_pred(&mut self, pred: BlockId)
        ensures
            final(self)@ == (BlockModel { preds: old(self)@.preds.push(pred), ..old(self)@ }),
    {
        self.preds.push(pred);
    }

    /// The graph of dependencies, once the block has one.
    pub fn dag(&self) -> (r: &Option<Dag>)
        ensures
            self@.dag == (match *r {
                Some(d) => Some(d.edges@),
                None => None,
            }),
    {
        &self.dag
    }

    /// Whether `v` is among `vals`.
    fn holds(vals: &Vec<ValId>, v: ValId) -> (r: bool)
        ensures
            r == vals@.contains(v),
    {
        let mut i: usize = 0;
        while i < vals.len()
            invariant
                i <= vals@.len(),
                forall|k: int| 0 <= k < i ==> vals@[k] != v,
            decreases vals@.len() - i,
        {
            if vals[i] == v {
                return true;
            }
            i += 1;
        }
        false
    }

    /// Works out the graph of dependencies of the instructions of the block.
    pub fn build_dag(&self) -> (r: Dag)
        ensures
            r.edges@ == dag_of(self@.isns),
    {
        let ghost isns = self@.isns;
        let mut edges: Vec<(usize, usize)> = Vec::new();
        let mut last_mem: Option<usize> = None;
        let n = self.isns.len();
        let mut i: usize = 0;
        while i < n
            invariant
                i <= n,
                n == isns.len(),
                isns == self@.isns,
                edges@ == dag_upto(isns, i as int),
                last_mem == last_memory(isns, i as int),
            decreases n - i,
        {
            let inputs = self.isns[i].kind.inputs();
            let mem = self.isns[i].kind.touches_memory();
            assert(isns[i as int] == self.isns@[i as int]@);
            let ghost done = edges@;
            let mut j: usize = 0;
            assert(edges@ =~= done + dag_row(isns, i as int, 0));
            while j < i
                invariant
                    j <= i < n,
                    n == isns.len(),
                    isns == self@.isns,
                    inputs@ == isns[i as int].kind.inputs(),
                    mem == isns[i as int].kind.touches_memory(),
                    last_mem == last_memory(isns, i as int),
                    edges@ == done + dag_row(isns, i as int, j as int),
                decreases i - j,
            {
                assert(isns[j as int] == self.isns@[j as int]@);
                let data = match self.isns[j].kind.output() {
                    Some(v) => Self::holds(&inputs, v),
                    None => false,
                };
                let order = mem && match last_mem {
                    Some(l) => l == j,
                    None => false,
                };
                if data || order {
                    edges.push((i, j));
                }
                j += 1;
                assert(edges@ =~= done + dag_row(isns, i as int, j as int));
            }
            if mem {
                last_mem = Some(i);
            }
            i += 1;
        }
        Dag { edges }
    }

    /// Gives the block the graph of dependencies of its instructions,
    /// unless it has a graph.
    pub fn to_dag(&mut self)
        ensures
            final(self)@ == old(self)@.with_dag(),
    {
        if self.dag.is_none() {
            let dag = self.build_dag();
            self.set_dag(dag);
        }
    }

    /// Whether the block was written out.
    pub fn emitted(&self) -> (r: bool)
        ensures
            r == self@.emitted,
    {
        self.emitted
    }

    /// Records whether the block was written out.
    pub fn set_emitted(&mut self, emitted: bool)
        ensures
            final(self)@ == (BlockModel { emitted, ..old(self)@ }),
    {
        self.emitted = emitted;
    }
}

} // verus!
