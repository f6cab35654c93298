//! Functions: a type, blocks and the values that the blocks work on.
//!
//! A function owns its blocks and its values. Both are spoken of by their
//! place in the function's lists, which never changes once it is given.

use vstd::prelude::*;

use crate::block::{Block, BlockKind, BlockModel};
use crate::isn::{BlockId, Isn, IsnKindModel, IsnModel};
use crate::lbl::new_private;
use crate::size_align::{gap, gap_for_alignment};
use crate::text::{decimal, str_eq};
use crate::ty::{Ty, Type, TypeS};
use crate::val::{Val, ValId, ValModel};

pub mod dag;
pub mod life;
pub mod split;
pub mod walk;

verus! {

/// How a function is linked.
#[derive(Debug, Clone, Copy, PartialEq, Eq, Structural)]
pub struct FuncAttr {
    pub internal: bool,
    pub weak: bool,
}

impl FuncAttr {
    /// No attribute.
    pub fn none() -> (r: Self)
        ensures
            r == (FuncAttr { internal: false, weak: false }),
    {
        FuncAttr { internal: false, weak: false }
    }

    /// The attributes of either.
    pub open spec fn or(self, other: Self) -> Self {
        FuncAttr { internal: self.internal || other.internal, weak: self.weak || other.weak }
    }

    /// The attributes of either.
    pub fn union(self, other: Self) -> (r: Self)
        ensures
            r == self.or(other),
    {
        FuncAttr { internal: self.internal || other.internal, weak: self.weak || other.weak }
    }

    /// Whether every attribute of `other` is set.
    pub fn contains(self, other: Self) -> (r: bool)
        ensures
            r == ((other.internal ==> self.internal) && (other.weak ==> self.weak)),
    {
        (!other.internal || self.internal) && (!other.weak || self.weak)
    }
}

impl Default for FuncAttr {
    fn default() -> (r: Self)
        ensures
            r == (FuncAttr { internal: false, weak: false }),
    {
        FuncAttr::none()
    }
}

/// A function: its name and type, and, where it has a body, its blocks and
/// values.
#[derive(Debug)]
pub struct Func<'t> {
    name: String,
    mangled: Option<String>,
    ty: Type<'t>,
    arg_names: Vec<String>,
    attr: FuncAttr,
    blocks: Vec<Block>,
    /// The blocks that source text can name, in the order in which they were named first.
    label_map: Vec<BlockId>,
    entry: Option<BlockId>,
    exit: Option<BlockId>,
    /// For each argument, the value that stands for it once it was used.
    arg_vals: Vec<Option<ValId>>,
    vals: Vec<Val<'t>>,
    stackspace: u32,
    lifetime_filled: bool,
}

/// The model of a [`Func`].
pub struct FuncModel {
    pub name: Seq<char>,
    pub mangled: Option<Seq<char>>,
    pub ty: Ty,
    pub arg_names: Seq<Seq<char>>,
    pub attr: FuncAttr,
    pub blocks: Seq<BlockModel>,
    pub label_map: Seq<BlockId>,
    pub entry: Option<BlockId>,
    pub exit: Option<BlockId>,
    pub arg_vals: Seq<Option<ValId>>,
    pub vals: Seq<ValModel>,
    pub stackspace: u32,
    pub lifetime_filled: bool,
}

/// The texts of a list of strings.
pub open spec fn texts(strings: Seq<String>) -> Seq<Seq<char>> {
    Seq::new(strings.len(), |i: int| strings[i]@)
}

/// The place of the first of `names` that is `name`.
pub open spec fn index_of(names: Seq<Seq<char>>, name: Seq<char>) -> Option<int>
    decreases names.len(),
{
    if names.len() == 0 {
        None
    } else if names[0] == name {
        Some(0)
    } else {
        match index_of(names.drop_first(), name) {
            Some(i) => Some(i + 1),
            None => None,
        }
    }
}

/// `index_of` finds the first place of a name, and finds one where there is any.
pub proof fn lemma_index_of(names: Seq<Seq<char>>, name: Seq<char>)
    ensures
        match index_of(names, name) {
            Some(i) => 0 <= i < names.len() && names[i] == name && forall|k: int|
                0 <= k < i ==> names[k] != name,
            None => forall|k: int| 0 <= k < names.len() ==> names[k] != name,
        },
    decreases names.len(),
{
    if names.len() > 0 && names[0] != name {
        let rest = names.drop_first();
        lemma_index_of(rest, name);
        match index_of(rest, name) {
            Some(i) => {
                assert(rest[i] == names[i + 1]);
                assert forall|k: int| 0 <= k < i + 1 implies names[k] != name by {
                    if k > 0 {
                        assert(rest[k - 1] == names[k]);
                    }
                }
            },
            None => {
                assert forall|k: int| 0 <= k < names.len() implies names[k] != name by {
                    if k > 0 {
                        assert(rest[k - 1] == names[k]);
                    }
                }
            },
        }
    }
}

/// The first place of a name is found by `index_of`.
pub proof fn lemma_index_of_first(names: Seq<Seq<char>>, name: Seq<char>, i: int)
    requires
        0 <= i < names.len(),
        names[i] == name,
        forall|k: int| 0 <= k < i ==> names[k] != name,
    ensures
        index_of(names, name) == Some(i),
{
    lemma_index_of(names, name);
}

impl<'t> View for Func<'t> {
    type V = FuncModel;

    closed spec fn view(&self) -> FuncModel {
        FuncModel {
            name: self.name@,
            mangled: match self.mangled {
                Some(m) => Some(m@),
                None => None,
            },
            ty: self.ty@,
            arg_names: texts(self.arg_names@),
            attr: self.attr,
            blocks: Seq::new(self.blocks@.len(), |i: int| self.blocks@[i]@),
            label_map: self.label_map@,
            entry: self.entry,
            exit: self.exit,
            arg_vals: self.arg_vals@,
            vals: Seq::new(self.vals@.len(), |i: int| self.vals@[i]@),
            stackspace: self.stackspace,
            lifetime_filled: self.lifetime_filled,
        }
    }
}

impl FuncModel {
    /// A function as it is made: of the given name and type, without blocks or values.
    pub open spec fn fresh(name: Seq<char>, ty: Ty, arg_names: Seq<Seq<char>>) -> FuncModel {
        FuncModel {
            name,
            mangled: None,
            ty,
            arg_names,
            attr: FuncAttr { internal: false, weak: false },
            blocks: Seq::empty(),
            label_map: Seq::empty(),
            entry: None,
            exit: None,
            arg_vals: Seq::new(ty->Func_args.len(), |i: int| None),
            vals: Seq::empty(),
            stackspace: 0,
            lifetime_filled: false,
        }
    }

    /// Whether every handle in a block of the kind `kind` is one of this function.
    pub open spec fn kind_in_range(self, kind: BlockKind) -> bool {
        match kind {
            BlockKind::Branch { cond, t, f } => cond < self.vals.len() && t < self.blocks.len() && f
                < self.blocks.len(),
            BlockKind::Jmp { target } => target < self.blocks.len(),
            BlockKind::JmpComp { target } => target < self.vals.len(),
            _ => true,
        }
    }

    /// Whether every handle in the instruction is one of this function.
    pub open spec fn isn_in_range(self, isn: IsnKindModel) -> bool {
        &&& forall|k: int| 0 <= k < isn.vals().len() ==> #[trigger] isn.vals()[k] < self.vals.len()
        &&& match isn {
            IsnKindModel::Jmp { target } => target < self.blocks.len(),
            IsnKindModel::Br { t, f, .. } => t < self.blocks.len() && f < self.blocks.len(),
            _ => true,
        }
    }

    /// Whether every handle in the block is one of this function.
    pub open spec fn block_in_range(self, b: BlockModel) -> bool {
        &&& self.kind_in_range(b.kind)
        &&& forall|k: int| 0 <= k < b.preds.len() ==> #[trigger] b.preds[k] < self.blocks.len()
        &&& forall|k: int| 0 <= k < b.isns.len() ==> self.isn_in_range((#[trigger] b.isns[k]).kind)
    }

    /// The label of the `i`-th block that source text can name.
    pub open spec fn label_at(self, i: int) -> Seq<char> {
        self.blocks[self.label_map[i] as int].label->0
    }

    /// The labels that source text can name, in the order of the label map.
    pub open spec fn labels(self) -> Seq<Seq<char>> {
        Seq::new(self.label_map.len(), |i: int| self.label_at(i))
    }

    /// The function holds together: it is of a function type, names all of
    /// its arguments or none, every handle in it is one of its own, no label
    /// names two blocks, and each block ends as its kind says.
    pub open spec fn wf(self) -> bool {
        &&& self.ty is Func
        &&& self.ty.wf()
        &&& self.arg_names.len() == 0 || self.arg_names.len() == self.ty->Func_args.len()
        &&& self.arg_vals.len() == self.ty->Func_args.len()
        &&& forall|i: int|
            0 <= i < self.arg_vals.len() && (#[trigger] self.arg_vals[i]) is Some
                ==> self.arg_vals[i]->0 < self.vals.len()
        &&& self.entry is Some ==> self.entry->0 < self.blocks.len()
        &&& self.exit is Some ==> self.exit->0 < self.blocks.len()
            && self.blocks[self.exit->0 as int].label is Some
        &&& forall|i: int| 0 <= i < self.vals.len() ==> (#[trigger] self.vals[i]).ty.wf()
        &&& forall|i: int|
            0 <= i < self.blocks.len() ==> self.block_in_range(#[trigger] self.blocks[i])
        &&& forall|i: int| 0 <= i < self.blocks.len() ==> (#[trigger] self.blocks[i]).ends_well()
        &&& forall|i: int|
            0 <= i < self.label_map.len() ==> (#[trigger] self.label_map[i]) < self.blocks.len()
                && self.blocks[self.label_map[i] as int].label is Some
        &&& forall|i: int, j: int|
            0 <= i < self.label_map.len() && 0 <= j < self.label_map.len() && self.label_at(i)
                == self.label_at(j) ==> i == j
    }

    /// The function with one more value, which gets the next handle.
    pub open spec fn with_val(self, v: ValModel) -> FuncModel {
        FuncModel { vals: self.vals.push(v), ..self }
    }

    /// The function with the block `blk` replaced.
    pub open spec fn with_block(self, blk: BlockId, b: BlockModel) -> FuncModel {
        FuncModel { blocks: self.blocks.update(blk as int, b), ..self }
    }

    /// The function with a new block at the end of its list.
    pub open spec fn with_new_block(self, b: BlockModel) -> FuncModel {
        FuncModel { blocks: self.blocks.push(b), ..self }
    }

    /// The function after `isn` was put at the end of the block `blk`.
    pub open spec fn with_isn(self, blk: BlockId, isn: IsnModel) -> FuncModel {
        self.with_block(blk, self.blocks[blk as int].with_isn(isn))
    }

    /// The function after the block `blk` was given the kind `kind`.
    pub open spec fn with_kind(self, blk: BlockId, kind: BlockKind) -> FuncModel {
        self.with_block(blk, BlockModel { kind, ..self.blocks[blk as int] })
    }

    /// The function after the block `blk` was recorded as a way into `to`.
    pub open spec fn with_pred(self, to: BlockId, blk: BlockId) -> FuncModel {
        self.with_block(
            to,
            BlockModel { preds: self.blocks[to as int].preds.push(blk), ..self.blocks[to as int] },
        )
    }

    /// The function after the block `from` was ended by a jump to `to`,
    /// which gains `from` as a predecessor.
    pub open spec fn jumping(self, from: BlockId, to: BlockId) -> FuncModel {
        self.with_kind(from, BlockKind::Jmp { target: to }).with_pred(to, from)
    }

    /// The function after the block `from` was ended by a branch to `t` or
    /// `f`, each of which gains `from` as a predecessor.
    pub open spec fn branching(self, from: BlockId, cond: ValId, t: BlockId, f: BlockId) -> FuncModel {
        self.with_kind(from, BlockKind::Branch { cond, t, f }).with_pred(t, from).with_pred(f, from)
    }

    /// The function after the block `blk` was ended by a return.
    pub open spec fn exiting(self, blk: BlockId) -> FuncModel {
        self.with_block(blk, self.blocks[blk as int].exited())
    }

    /// The function with an entry block, which is made where there is none.
    pub open spec fn with_entry(self) -> FuncModel {
        if self.entry is Some {
            self
        } else {
            FuncModel {
                entry: Some(self.blocks.len() as usize),
                ..self.with_new_block(BlockModel::fresh(None, BlockKind::Entry))
            }
        }
    }

    /// The block that source text names `label`, if there is one.
    pub open spec fn block_named(self, label: Seq<char>) -> Option<BlockId> {
        match index_of(self.labels(), label) {
            Some(i) => Some(self.label_map[i]),
            None => None,
        }
    }

    /// The function with a block named `label`, which is made where there is none.
    pub open spec fn with_label(self, label: Seq<char>) -> FuncModel {
        if self.block_named(label) is Some {
            self
        } else {
            FuncModel {
                label_map: self.label_map.push(self.blocks.len() as usize),
                ..self.with_new_block(BlockModel::fresh(Some(label), BlockKind::Unknown))
            }
        }
    }

    /// The handle of the block named `label` in `with_label(label)`.
    pub open spec fn labelled(self, label: Seq<char>) -> BlockId {
        match self.block_named(label) {
            Some(b) => b,
            None => self.blocks.len() as usize,
        }
    }

    /// The place and type of the argument named `name`.
    pub open spec fn arg_named(self, name: Seq<char>) -> Option<(usize, Ty)> {
        match index_of(self.arg_names, name) {
            Some(i) => Some((i as usize, self.ty->Func_args[i])),
            None => None,
        }
    }
}

/// Putting an instruction that is no terminator at the end of a block that
/// does not end yet leaves the function in order.
pub proof fn lemma_with_isn_wf(f: FuncModel, blk: BlockId, isn: IsnModel)
    requires
        f.wf(),
        blk < f.blocks.len(),
        f.isn_in_range(isn.kind),
        !isn.kind.is_terminator(),
        f.blocks[blk as int].kind.open_ended(),
    ensures
        f.with_isn(blk, isn).wf(),
{
    let g = f.with_isn(blk, isn);
    let b = f.blocks[blk as int];
    let nb = b.with_isn(isn);
    assert(nb.ends_well()) by {
        assert forall|i: int| 0 <= i < nb.isns.len() - 1 implies !(#[trigger] nb.isns[i]).kind.is_terminator() by {
            if i < b.isns.len() - 1 {
                assert(nb.isns[i] == b.isns[i]);
            } else {
                assert(nb.isns[i] == b.isns.last());
            }
        }
    }
    assert(g.block_in_range(nb)) by {
        assert(f.block_in_range(b));
        assert forall|k: int| 0 <= k < nb.isns.len() implies g.isn_in_range((#[trigger] nb.isns[k]).kind) by {
            if k < b.isns.len() {
                assert(nb.isns[k] == b.isns[k]);
                assert(f.isn_in_range(b.isns[k].kind));
            }
        }
    }
    lemma_frame(f, g, blk);
}

/// A function that differs from a well-formed one in the block `blk` alone,
/// whose new state is in range, ends well and keeps its label, is well-formed.
pub proof fn lemma_frame(f: FuncModel, g: FuncModel, blk: BlockId)
    requires
        f.wf(),
        blk < f.blocks.len(),
        g == f.with_block(blk, g.blocks[blk as int]),
        g.blocks.len() == f.blocks.len(),
        g.block_in_range(g.blocks[blk as int]),
        g.blocks[blk as int].ends_well(),
        g.blocks[blk as int].label == f.blocks[blk as int].label,
    ensures
        g.wf(),
{
    assert forall|i: int| 0 <= i < g.blocks.len() implies g.block_in_range(#[trigger] g.blocks[i])
        && g.blocks[i].ends_well() by {
        if i != blk {
            assert(g.blocks[i] == f.blocks[i]);
            assert(f.block_in_range(f.blocks[i]));
        }
    }
    assert forall|i: int| 0 <= i < g.label_map.len() implies g.label_at(i) == f.label_at(i) by {
        assert(f.label_map[i] < f.blocks.len());
    }
    assert forall|i: int, j: int|
        0 <= i < g.label_map.len() && 0 <= j < g.label_map.len() && g.label_at(i) == g.label_at(
            j,
        ) implies i == j by {
        assert(f.label_at(i) == f.label_at(j));
    }
}

/// A new value leaves the function in order.
pub proof fn lemma_with_val_wf(f: FuncModel, v: ValModel)
    requires
        f.wf(),
        v.ty.wf(),
    ensures
        f.with_val(v).wf(),
{
    let g = f.with_val(v);
    assert forall|i: int| 0 <= i < g.blocks.len() implies g.block_in_range(#[trigger] g.blocks[i]) by {
        assert(f.block_in_range(f.blocks[i]));
        let b = f.blocks[i];
        assert forall|k: int| 0 <= k < b.isns.len() implies g.isn_in_range((#[trigger] b.isns[k]).kind) by {
            assert(f.isn_in_range(b.isns[k].kind));
        }
    }
    assert forall|i: int, j: int|
        0 <= i < g.label_map.len() && 0 <= j < g.label_map.len() && g.label_at(i) == g.label_at(
            j,
        ) implies i == j by {
        assert(f.label_at(i) == f.label_at(j));
    }
}

/// A new, empty block that does not end yet, and that no label of the map
/// names, leaves the function in order.
pub proof fn lemma_with_new_block_wf(f: FuncModel, b: BlockModel)
    requires
        f.wf(),
        b == BlockModel::fresh(b.label, b.kind),
        b.kind.open_ended(),
    ensures
        f.with_new_block(b).wf(),
{
    let g = f.with_new_block(b);
    assert forall|i: int| 0 <= i < g.blocks.len() implies g.block_in_range(#[trigger] g.blocks[i])
        && g.blocks[i].ends_well() by {
        if i < f.blocks.len() {
            assert(g.blocks[i] == f.blocks[i]);
            assert(f.block_in_range(f.blocks[i]));
            let fb = f.blocks[i];
            assert forall|k: int| 0 <= k < fb.isns.len() implies g.isn_in_range((#[trigger] fb.isns[k]).kind) by {
                assert(f.isn_in_range(fb.isns[k].kind));
            }
        }
    }
    assert forall|i: int| 0 <= i < g.label_map.len() implies g.label_at(i) == f.label_at(i) by {
        assert(f.label_map[i] < f.blocks.len());
    }
    assert forall|i: int, j: int|
        0 <= i < g.label_map.len() && 0 <= j < g.label_map.len() && g.label_at(i) == g.label_at(
            j,
        ) implies i == j by {
        assert(f.label_at(i) == f.label_at(j));
    }
}

impl<'t> Func<'t> {
    /// A function of the type `ty`, whose arguments are named by `arg_names`
    /// where any is named.
    pub fn new(name: String, ty: Type<'t>, arg_names: Vec<String>) -> (f: Self)
        requires
            ty@ is Func,
            ty@.wf(),
            arg_names@.len() == 0 || arg_names@.len() == ty@->Func_args.len(),
        ensures
            f@ == FuncModel::fresh(name@, ty@, texts(arg_names@)),
            f@.wf(),
    {
        let n = match ty {
            TypeS::Func { args, .. } => args.len(),
            _ => 0,
        };
        let mut arg_vals: Vec<Option<ValId>> = Vec::new();
        while arg_vals.len() < n
            invariant
                arg_vals@.len() <= n,
                forall|i: int| 0 <= i < arg_vals@.len() ==> arg_vals@[i] is None,
            decreases n - arg_vals@.len(),
        {
            arg_vals.push(None);
        }
        let f = Self {
            name,
            mangled: None,
            ty,
            arg_names,
            attr: FuncAttr::none(),
            blocks: Vec::new(),
            label_map: Vec::new(),
            entry: None,
            exit: None,
            arg_vals,
            vals: Vec::new(),
            stackspace: 0,
            lifetime_filled: false,
        };
        proof {
            let m = FuncModel::fresh(name@, ty@, texts(arg_names@));
            assert(f@.arg_vals =~= m.arg_vals);
            assert(f@.blocks =~= m.blocks);
            assert(f@.vals =~= m.vals);
            assert(f@.label_map =~= m.label_map);
        }
        f
    }

    /// The name of the function.
    pub fn name(&self) -> (r: &str)
        ensures
            r@ == self@.name,
    {
        self.name.as_str()
    }

    /// The name of the function in assembly, once it was worked out.
    pub fn mangled_name(&self) -> (r: Option<&str>)
        ensures
            self@.mangled == (match r {
                Some(s) => Some(s@),
                None => None,
            }),
    {
        match &self.mangled {
            Some(s) => Some(s.as_str()),
            None => None,
        }
    }

    /// The type of the function.
    pub fn ty(&self) -> (r: Type<'t>)
        ensures
            r@ == self@.ty,
    {
        self.ty
    }

    /// The names of the arguments; none, where the arguments are not named.
    pub fn arg_names(&self) -> (r: &Vec<String>)
        ensures
            texts(r@) == self@.arg_names,
    {
        &self.arg_names
    }

    /// How the function is linked.
    pub fn attr(&self) -> (r: FuncAttr)
        ensures
            r == self@.attr,
    {
        self.attr
    }

    /// The entry block, if the function has a body.
    pub fn entry(&self) -> (r: Option<BlockId>)
        ensures
            r == self@.entry,
    {
        self.entry
    }

    /// The exit block, once it was made.
    pub fn exit(&self) -> (r: Option<BlockId>)
        ensures
            r == self@.exit,
    {
        self.exit
    }

    /// The number of blocks.
    pub fn block_count(&self) -> (n: usize)
        ensures
            n == self@.blocks.len(),
    {
        self.blocks.len()
    }

    /// The block `blk`.
    pub fn block(&self, blk: BlockId) -> (b: &Block)
        requires
            blk < self@.blocks.len(),
        ensures
            b@ == self@.blocks[blk as int],
    {
        &self.blocks[blk]
    }

    /// The number of values.
    pub fn val_count(&self) -> (n: usize)
        ensures
            n == self@.vals.len(),
    {
        self.vals.len()
    }

    /// The value `v`.
    pub fn val(&self, v: ValId) -> (r: &Val<'t>)
        requires
            v < self@.vals.len(),
        ensures
            r@ == self@.vals[v as int],
    {
        &self.vals[v]
    }

    /// The value that stands for the argument at `idx`, once there is one.
    pub fn arg_val(&self, idx: usize) -> (r: Option<ValId>)
        requires
            idx < self@.arg_vals.len(),
        ensures
            r == self@.arg_vals[idx as int],
    {
        self.arg_vals[idx]
    }

    /// The place and type of the argument named `name`: of the first, where
    /// several have the name.
    pub fn arg_by_name(&self, name: &str) -> (r: Option<(usize, Type<'t>)>)
        requires
            self@.wf(),
        ensures
            match r {
                Some((i, t)) => self@.arg_named(name@) == Some((i, t@)) && i < self@.arg_vals.len()
                    && t@.wf(),
                None => self@.arg_named(name@) is None,
            },
    {
        proof {
            lemma_index_of(self@.arg_names, name@);
        }
        let mut i: usize = 0;
        while i < self.arg_names.len()
            invariant
                i <= self.arg_names@.len(),
                self@.wf(),
                forall|k: int| 0 <= k < i ==> self@.arg_names[k] != name@,
            decreases self.arg_names@.len() - i,
        {
            if str_eq(self.arg_names[i].as_str(), name) {
                assert(self@.arg_names[i as int] == name@);
                proof {
                    lemma_index_of_first(self@.arg_names, name@, i as int);
                }
                match self.ty {
                    TypeS::Func { args, .. } => {
                        return Some((i, args[i]));
                    },
                    _ => {
                        return None;
                    },
                }
            }
            i += 1;
        }
        proof {
            lemma_index_of(self@.arg_names, name@);
        }
        None
    }

    /// Records that the value `v` stands for the argument at `idx`.
    pub fn register_arg_val(&mut self, idx: usize, v: ValId)
        requires
            old(self)@.wf(),
            idx < old(self)@.arg_vals.len(),
            old(self)@.arg_vals[idx as int] is None,
            v < old(self)@.vals.len(),
        ensures
            final(self)@ == (FuncModel {
                arg_vals: old(self)@.arg_vals.update(idx as int, Some(v)),
                ..old(self)@
            }),
            final(self)@.wf(),
    {
        self.arg_vals[idx] = Some(v);
        proof {
            assert(self@.blocks =~= old(self)@.blocks);
            assert(self@.vals =~= old(self)@.vals);
            assert forall|i: int, j: int|
                0 <= i < self@.label_map.len() && 0 <= j < self@.label_map.len()
                    && self@.label_at(i) == self@.label_at(j) implies i == j by {
                assert(old(self)@.label_at(i) == old(self)@.label_at(j));
            }
        }
    }

    /// Sets the attributes `attr`, besides those that are set.
    pub fn add_attr(&mut self, attr: FuncAttr)
        ensures
            final(self)@ == (FuncModel { attr: old(self)@.attr.or(attr), ..old(self)@ }),
            old(self)@.wf() ==> final(self)@.wf(),
    {
        self.attr = self.attr.union(attr);
        proof {
            assert(self@.blocks =~= old(self)@.blocks);
            assert(self@.vals =~= old(self)@.vals);
            if old(self)@.wf() {
                lemma_attr_wf(old(self)@, self@);
            }
        }
    }

    /// Takes `v` into the function and returns its handle.
    pub fn add_val(&mut self, v: Val<'t>) -> (id: ValId)
        requires
            old(self)@.wf(),
            v@.ty.wf(),
        ensures
            id == old(self)@.vals.len(),
            final(self)@ == old(self)@.with_val(v@),
            final(self)@.wf(),
    {
        let id = self.vals.len();
        self.vals.push(v);
        proof {
            assert(self@.blocks =~= old(self)@.blocks);
            assert(self@.vals =~= old(self)@.vals.push(v@));
            lemma_with_val_wf(old(self)@, v@);
        }
        id
    }

    fn push_block(&mut self, b: Block) -> (id: BlockId)
        ensures
            id == old(self)@.blocks.len(),
            final(self)@ == old(self)@.with_new_block(b@),
    {
        let id = self.blocks.len();
        self.blocks.push(b);
        proof {
            assert(self@.blocks =~= old(self)@.blocks.push(b@));
            assert(self@.vals =~= old(self)@.vals);
        }
        id
    }

    /// The block that source text names `ident`, and whether it was made by
    /// this call: a label names a block from its first mention on.
    pub fn get_block(&mut self, ident: String) -> (r: (BlockId, bool))
        requires
            old(self)@.wf(),
        ensures
            final(self)@ == old(self)@.with_label(ident@),
            r.0 == old(self)@.labelled(ident@),
            r.1 == (old(self)@.block_named(ident@) is None),
            final(self)@.wf(),
            r.0 < final(self)@.blocks.len(),
    {
        proof {
            lemma_index_of(self@.labels(), ident@);
        }
        let mut i: usize = 0;
        while i < self.label_map.len()
            invariant
                *self == *old(self),
                self@.wf(),
                i <= self.label_map@.len(),
                forall|k: int| 0 <= k < i ==> self@.labels()[k] != ident@,
            decreases self.label_map@.len() - i,
        {
            let id = self.label_map[i];
            assert(self@.label_map[i as int] == id);
            let found = match self.blocks[id].label() {
                Some(l) => str_eq(l.as_str(), ident.as_str()),
                None => false,
            };
            if found {
                assert(self@.labels()[i as int] == ident@);
                proof {
                    lemma_index_of_first(self@.labels(), ident@, i as int);
                }
                return (id, false);
            }
            assert(self@.labels()[i as int] == self@.label_at(i as int));
            i += 1;
        }
        let ghost label = ident@;
        proof {
            lemma_index_of(self@.labels(), ident@);
        }
        let id = self.push_block(Block::new_labelled(ident));
        self.label_map.push(id);
        proof {
            let f = old(self)@;
            let mid = f.with_new_block(BlockModel::fresh(Some(label), BlockKind::Unknown));
            lemma_with_new_block_wf(f, BlockModel::fresh(Some(label), BlockKind::Unknown));
            let g = self@;
            assert(g.blocks =~= mid.blocks);
            assert(g.vals =~= mid.vals);
            assert(g == f.with_label(label));
            assert forall|k: int| 0 <= k < f.label_map.len() implies g.label_at(k) == f.label_at(
                k,
            ) by {
                assert(f.label_map[k] < f.blocks.len());
            }
            assert forall|k: int, j: int|
                0 <= k < g.label_map.len() && 0 <= j < g.label_map.len() && g.label_at(k)
                    == g.label_at(j) implies k == j by {
                if k < f.label_map.len() && j < f.label_map.len() {
                    assert(f.label_at(k) == f.label_at(j));
                } else if k < f.label_map.len() {
                    assert(f.labels()[k] == f.label_at(k));
                } else if j < f.label_map.len() {
                    assert(f.labels()[j] == f.label_at(j));
                }
            }
            assert forall|k: int| 0 <= k < g.blocks.len() implies g.block_in_range(
                #[trigger] g.blocks[k],
            ) by {
                assert(mid.block_in_range(mid.blocks[k]));
            }
        }
        (id, true)
    }

    /// Makes `entry` the entry block. A function gets one once.
    pub fn set_entry(&mut self, entry: BlockId)
        requires
            old(self)@.entry is None,
        ensures
            final(self)@ == (FuncModel { entry: Some(entry), ..old(self)@ }),
            old(self)@.wf() && entry < old(self)@.blocks.len() ==> final(self)@.wf(),
    {
        self.entry = Some(entry);
        proof {
            assert(self@.blocks =~= old(self)@.blocks);
            assert(self@.vals =~= old(self)@.vals);
            if old(self)@.wf() && entry < old(self)@.blocks.len() {
                let f = old(self)@;
                let g = self@;
                assert forall|i: int| 0 <= i < g.blocks.len() implies g.block_in_range(
                    #[trigger] g.blocks[i],
                ) by {
                    assert(f.block_in_range(f.blocks[i]));
                    let b = f.blocks[i];
                    assert forall|k: int| 0 <= k < b.isns.len() implies g.isn_in_range(
                        (#[trigger] b.isns[k]).kind,
                    ) by {
                        assert(f.isn_in_range(b.isns[k].kind));
                    }
                }
                assert forall|i: int, j: int|
                    0 <= i < g.label_map.len() && 0 <= j < g.label_map.len() && g.label_at(i)
                        == g.label_at(j) implies i == j by {
                    assert(f.label_at(i) == f.label_at(j));
                }
            }
        }
    }

    /// The entry block, which is made where there is none.
    pub fn get_entry(&mut self) -> (r: BlockId)
        requires
            old(self)@.wf(),
        ensures
            final(self)@ == old(self)@.with_entry(),
            Some(r) == final(self)@.entry,
            final(self)@.wf(),
            r < final(self)@.blocks.len(),
    {
        match self.entry {
            Some(e) => e,
            None => {
                let id = self.push_block(Block::new_entry());
                self.entry = Some(id);
                proof {
                    let f = old(self)@;
                    let mid = f.with_new_block(BlockModel::fresh(None, BlockKind::Entry));
                    lemma_with_new_block_wf(f, BlockModel::fresh(None, BlockKind::Entry));
                    let g = self@;
                    assert(g.blocks =~= mid.blocks);
                    assert(g.vals =~= mid.vals);
                    assert forall|k: int| 0 <= k < g.label_map.len() implies g.label_at(k)
                        == mid.label_at(k) by {}
                    assert forall|k: int, j: int|
                        0 <= k < g.label_map.len() && 0 <= j < g.label_map.len() && g.label_at(k)
                            == g.label_at(j) implies k == j by {
                        assert(mid.label_at(k) == mid.label_at(j));
                    }
                    assert forall|k: int| 0 <= k < g.blocks.len() implies g.block_in_range(
                        #[trigger] g.blocks[k],
                    ) by {
                        assert(mid.block_in_range(mid.blocks[k]));
                    }
                }
                id
            },
        }
    }

    /// The entry block, if there is one; with `create`, it is made where
    /// there is none.
    pub fn entry_block(&mut self, create: bool) -> (r: Option<BlockId>)
        requires
            old(self)@.wf(),
        ensures
            final(self)@ == if create {
                old(self)@.with_entry()
            } else {
                old(self)@
            },
            r == final(self)@.entry,
            final(self)@.wf(),
    {
        if create {
            Some(self.get_entry())
        } else {
            self.entry
        }
    }

    /// Puts `isn`, which is no terminator, at the end of the block `blk`,
    /// which does not end yet.
    pub fn add_isn(&mut self, blk: BlockId, isn: Isn)
        requires
            old(self)@.wf(),
            blk < old(self)@.blocks.len(),
            old(self)@.isn_in_range(isn@.kind),
            !isn@.kind.is_terminator(),
            old(self)@.blocks[blk as int].kind.open_ended(),
        ensures
            final(self)@ == old(self)@.with_isn(blk, isn@),
            final(self)@.wf(),
    {
        self.blocks[blk].add_isn(isn);
        proof {
            assert(self@.blocks =~= old(self)@.with_isn(blk, isn@).blocks);
            assert(self@.vals =~= old(self)@.vals);
            lemma_with_isn_wf(old(self)@, blk, isn@);
        }
    }

    /// Makes the block `from`, which does not end yet, one that jumps to
    /// `to`, and records `from` once more among the blocks that control can
    /// come to `to` from. Nothing else changes: the instruction that jumps
    /// is put by `terminate`.
    pub fn set_jmp(&mut self, from: BlockId, to: BlockId)
        requires
            from < old(self)@.blocks.len(),
            to < old(self)@.blocks.len(),
            old(self)@.blocks[from as int].kind.open_ended(),
        ensures
            final(self)@ == old(self)@.jumping(from, to),
    {
        self.blocks[from].set_jmp(to);
        self.blocks[to].add_pred(from);
        proof {
            assert(self@.blocks =~= old(self)@.jumping(from, to).blocks);
            assert(self@.vals =~= old(self)@.vals);
        }
    }

    /// Makes the block `from`, which does not end yet, one that goes on at
    /// `t` or at `f`, as `cond` decides, and records `from` once more among
    /// the blocks that control can come from, first at `t` and then at `f`.
    /// Nothing else changes: the instruction that branches is put by
    /// `terminate`.
    pub fn set_branch(&mut self, from: BlockId, cond: ValId, t: BlockId, f: BlockId)
        requires
            from < old(self)@.blocks.len(),
            t < old(self)@.blocks.len(),
            f < old(self)@.blocks.len(),
            old(self)@.blocks[from as int].kind.open_ended(),
        ensures
            final(self)@ == old(self)@.branching(from, cond, t, f),
    {
        self.blocks[from].set_branch(cond, t, f);
        self.blocks[t].add_pred(from);
        self.blocks[f].add_pred(from);
        proof {
            assert(self@.blocks =~= old(self)@.branching(from, cond, t, f).blocks);
            assert(self@.vals =~= old(self)@.vals);
        }
    }

    /// Ends the block `blk` with `isn`, a terminator read from source text,
    /// and gives the block the kind that the terminator makes of it.
    pub fn terminate(&mut self, blk: BlockId, isn: Isn)
        requires
            old(self)@.wf(),
            blk < old(self)@.blocks.len(),
            old(self)@.isn_in_range(isn@.kind),
            isn@.kind.is_terminator(),
            old(self)@.blocks[blk as int].kind.open_ended(),
        ensures
            final(self)@ == old(self)@.terminated(blk, isn@),
            final(self)@.wf(),
    {
        let ghost f = old(self)@;
        let ghost m = isn@;
        let kind = match &isn.kind {
            crate::isn::IsnKind::Ret { .. } => None,
            crate::isn::IsnKind::Jmp { target } => Some(BlockKind::Jmp { target: *target }),
            crate::isn::IsnKind::Br { cond, t, f } => Some(
                BlockKind::Branch { cond: *cond, t: *t, f: *f },
            ),
            crate::isn::IsnKind::JmpComputed { target } => Some(
                BlockKind::JmpComp { target: *target },
            ),
            _ => None,
        };
        self.blocks[blk].add_isn(isn);
        match kind {
            None => {
                self.blocks[blk].set_exit();
            },
            Some(BlockKind::Jmp { target }) => {
                self.set_jmp(blk, target);
            },
            Some(BlockKind::Branch { cond, t, f }) => {
                self.set_branch(blk, cond, t, f);
            },
            Some(BlockKind::JmpComp { target }) => {
                self.blocks[blk].set_computed_jmp(target);
            },
            Some(_) => {},
        }
        proof {
            assert(self@.blocks =~= f.terminated(blk, m).blocks);
            assert(self@.vals =~= f.vals);
            lemma_terminated_wf(f, blk, m);
        }
    }
}

impl FuncModel {
    /// The function after the block `blk` was ended by the terminator `isn`:
    /// the instruction comes last in the block, the block gets the kind that
    /// the instruction makes of it, and each block that it may pass control
    /// to gains `blk` as a predecessor.
    pub open spec fn terminated(self, blk: BlockId, isn: IsnModel) -> FuncModel {
        let f = self.with_isn(blk, isn);
        match isn.kind {
            IsnKindModel::Jmp { target } => f.jumping(blk, target),
            IsnKindModel::Br { cond, t, f: e } => f.branching(blk, cond, t, e),
            IsnKindModel::JmpComputed { target } => f.with_kind(
                blk,
                BlockKind::JmpComp { target },
            ),
            _ => f.exiting(blk),
        }
    }
}

/// Whether `g` is `f` with other predecessors, and each block of `g` is in range.
pub open spec fn same_but_preds(f: FuncModel, g: FuncModel) -> bool {
    &&& g.blocks.len() == f.blocks.len()
    &&& g.vals == f.vals
    &&& g.label_map == f.label_map
    &&& g.ty == f.ty
    &&& g.arg_names == f.arg_names
    &&& g.arg_vals == f.arg_vals
    &&& g.entry == f.entry
    &&& g.exit == f.exit
    &&& forall|i: int|
        0 <= i < g.blocks.len() ==> (#[trigger] g.blocks[i]).label == f.blocks[i].label
            && g.blocks[i].isns == f.blocks[i].isns && g.blocks[i].kind == f.blocks[i].kind
}

/// A function that differs from a well-formed one in the predecessors of
/// its blocks alone, all of them blocks of the function, is well-formed.
pub proof fn lemma_same_but_preds(f: FuncModel, g: FuncModel)
    requires
        f.wf(),
        same_but_preds(f, g),
        forall|i: int, k: int|
            0 <= i < g.blocks.len() && 0 <= k < g.blocks[i].preds.len() ==> #[trigger] g.blocks[i].preds[k]
                < g.blocks.len(),
    ensures
        g.wf(),
{
    assert forall|i: int| 0 <= i < g.blocks.len() implies g.block_in_range(#[trigger] g.blocks[i])
        && g.blocks[i].ends_well() by {
        let fb = f.blocks[i];
        let gb = g.blocks[i];
        assert(f.block_in_range(fb));
        assert(fb.ends_well());
        assert forall|k: int| 0 <= k < gb.isns.len() implies g.isn_in_range(
            (#[trigger] gb.isns[k]).kind,
        ) by {
            assert(f.isn_in_range(fb.isns[k].kind));
        }
    }
    assert forall|i: int| 0 <= i < g.label_map.len() implies g.label_at(i) == f.label_at(i) by {
        assert(f.label_map[i] < f.blocks.len());
    }
    assert forall|i: int, j: int|
        0 <= i < g.label_map.len() && 0 <= j < g.label_map.len() && g.label_at(i) == g.label_at(
            j,
        ) implies i == j by {
        assert(f.label_at(i) == f.label_at(j));
    }
}

/// A terminator at the end of a block that did not end yet leaves the
/// function in order.
pub proof fn lemma_terminated_wf(f: FuncModel, blk: BlockId, isn: IsnModel)
    requires
        f.wf(),
        blk < f.blocks.len(),
        f.isn_in_range(isn.kind),
        isn.kind.is_terminator(),
        f.blocks[blk as int].kind.open_ended(),
    ensures
        f.terminated(blk, isn).wf(),
{
    let b = f.blocks[blk as int];
    assert(f.block_in_range(b));
    assert(b.ends_well());
    let kind = match isn.kind {
        IsnKindModel::Jmp { target } => BlockKind::Jmp { target },
        IsnKindModel::Br { cond, t, f: e } => BlockKind::Branch { cond, t, f: e },
        IsnKindModel::JmpComputed { target } => BlockKind::JmpComp { target },
        _ => b.exited().kind,
    };
    let nb = BlockModel { kind, ..b.with_isn(isn) };
    // The block with its terminator and its kind, before any predecessor is recorded.
    let h = f.with_block(blk, nb);
    assert(h.wf()) by {
        assert(isn.kind.vals().len() > 0 ==> isn.kind.vals()[0] < f.vals.len());
        assert(h.kind_in_range(kind));
        assert forall|k: int| 0 <= k < nb.isns.len() implies h.isn_in_range(
            (#[trigger] nb.isns[k]).kind,
        ) by {
            if k < b.isns.len() {
                assert(nb.isns[k] == b.isns[k]);
                assert(f.isn_in_range(b.isns[k].kind));
            }
        }
        assert forall|k: int| 0 <= k < nb.isns.len() - 1 implies !(
        #[trigger] nb.isns[k]).kind.is_terminator() by {
            assert(nb.isns[k] == b.isns[k]);
            if k == b.isns.len() - 1 {
                assert(b.isns[k] == b.isns.last());
            }
        }
        assert(nb.isns.last() == isn);
        assert(h.block_in_range(nb));
        assert(nb.ends_well());
        lemma_frame(f, h, blk);
    }
    let g = f.terminated(blk, isn);
    assert(same_but_preds(h, g));
    assert forall|i: int, k: int|
        0 <= i < g.blocks.len() && 0 <= k < g.blocks[i].preds.len() implies #[trigger] g.blocks[i].preds[k]
            < g.blocks.len() by {
        assert(h.block_in_range(h.blocks[i]));
        if k < h.blocks[i].preds.len() {
            assert(g.blocks[i].preds[k] == h.blocks[i].preds[k]);
        }
    }
    lemma_same_but_preds(h, g);
}

/// A function that differs from a well-formed one in its attributes, its
/// use of the stack and what is recorded of its lifetimes alone is
/// well-formed.
pub proof fn lemma_attr_wf(f: FuncModel, g: FuncModel)
    requires
        f.wf(),
        g == (FuncModel {
            attr: g.attr,
            stackspace: g.stackspace,
            lifetime_filled: g.lifetime_filled,
            ..f
        }),
    ensures
        g.wf(),
{
    assert forall|i: int| 0 <= i < g.blocks.len() implies g.block_in_range(#[trigger] g.blocks[i]) by {
        assert(f.block_in_range(f.blocks[i]));
        let b = f.blocks[i];
        assert forall|k: int| 0 <= k < b.isns.len() implies g.isn_in_range((#[trigger] b.isns[k]).kind) by {
            assert(f.isn_in_range(b.isns[k].kind));
        }
    }
    assert forall|i: int, j: int|
        0 <= i < g.label_map.len() && 0 <= j < g.label_map.len() && g.label_at(i) == g.label_at(
            j,
        ) implies i == j by {
        assert(f.label_at(i) == f.label_at(j));
    }
}

/// In a function that holds together, each block ends as its kind says: a
/// block that does not end yet holds no terminator, and any other ends
/// with one terminator, the one that its kind names.
pub proof fn lemma_blocks_end_well(f: FuncModel, blk: BlockId)
    requires
        f.wf(),
        blk < f.blocks.len(),
    ensures
        f.blocks[blk as int].ends_well(),
{
}

impl<'t> Func<'t> {
    /// The exit block, which is made where there is none: a block under a
    /// private label, the prefix and the counter, that no source text can
    /// name. The counter goes up where the block is made.
    pub fn exit_block(&mut self, prefix: &str, counter: &mut u32) -> (r: BlockId)
        requires
            old(self)@.wf(),
            old(self)@.exit is None ==> *old(counter) < u32::MAX,
        ensures
            final(self)@.wf(),
            final(self)@.exit == Some(r),
            r < final(self)@.blocks.len(),
            final(self)@.blocks[r as int].label is Some,
            match old(self)@.exit {
                Some(x) => r == x && final(self)@ == old(self)@ && *final(counter) == *old(counter),
                None => final(self)@ == (FuncModel {
                    exit: Some(r),
                    ..old(self)@.with_new_block(
                        BlockModel::fresh(
                            Some(prefix@ + decimal(*old(counter) as nat)),
                            BlockKind::Unknown,
                        ),
                    )
                }) && r == old(self)@.blocks.len() && *final(counter) == *old(counter) + 1,
            },
    {
        match self.exit {
            Some(x) => {
                x
            },
            None => {
                let label = new_private(counter, prefix);
                let ghost text = label@;
                let id = self.push_block(Block::new_labelled(label));
                self.exit = Some(id);
                proof {
                    let f = old(self)@;
                    let b = BlockModel::fresh(Some(text), BlockKind::Unknown);
                    let mid = f.with_new_block(b);
                    lemma_with_new_block_wf(f, b);
                    let g = self@;
                    assert(g.blocks =~= mid.blocks);
                    assert(g.vals =~= mid.vals);
                    assert forall|k: int| 0 <= k < g.label_map.len() implies g.label_at(k)
                        == mid.label_at(k) by {}
                    assert forall|k: int, j: int|
                        0 <= k < g.label_map.len() && 0 <= j < g.label_map.len() && g.label_at(k)
                            == g.label_at(j) implies k == j by {
                        assert(mid.label_at(k) == mid.label_at(j));
                    }
                    assert forall|k: int| 0 <= k < g.blocks.len() implies g.block_in_range(
                        #[trigger] g.blocks[k],
                    ) by {
                        assert(mid.block_in_range(mid.blocks[k]));
                    }
                }
                id
            },
        }
    }

    /// Room on the stack for a value of the type `ty`: the stack grows by
    /// the size of the type and then up to a multiple of its alignment.
    /// Gives where the room ends, or nothing where the type has no size or
    /// the stack would grow past what 32 bits can count; then nothing changes.
    pub fn alloc_stack_space(&mut self, ty: Type<'t>) -> (r: Option<u32>)
        requires
            ty@.wf(),
        ensures
            old(self)@.wf() ==> final(self)@.wf(),
            match r {
                Some(end) => ty@.known_size() is Some && end == stack_after(
                    old(self)@.stackspace as nat,
                    ty@,
                ) && final(self)@ == (FuncModel { stackspace: end, ..old(self)@ }),
                None => final(self)@ == old(self)@ && (ty@.known_size() is None || stack_after(
                    old(self)@.stackspace as nat,
                    ty@,
                ) > u32::MAX),
            },
    {
        proof {
            crate::ty::lemma_align_fits(ty@);
        }
        if !ty.is_sized() {
            return None;
        }
        let sa = match ty.try_size_align() {
            Some(sa) => sa,
            None => {
                return None;
            },
        };
        if sa.size > u32::MAX as usize {
            return None;
        }
        let grown: u64 = self.stackspace as u64 + sa.size as u64;
        let gap = gap_for_alignment(grown as usize, sa.align);
        proof {
            crate::size_align::lemma_gap_is_least_padding(grown as nat, sa.align as nat);
        }
        let end: u64 = grown + gap as u64;
        if end > u32::MAX as u64 {
            return None;
        }
        self.stackspace = end as u32;
        proof {
            assert(self@.blocks =~= old(self)@.blocks);
            assert(self@.vals =~= old(self)@.vals);
            if old(self)@.wf() {
                lemma_attr_wf(old(self)@, self@);
            }
        }
        Some(end as u32)
    }

    /// How much of the stack the function uses.
    pub fn get_stack_use(&self) -> (r: u32)
        ensures
            r == self@.stackspace,
    {
        self.stackspace
    }
}

/// Where the stack ends once room for a value of the type `ty` was made
/// on a stack of `used` bytes.
pub open spec fn stack_after(used: nat, ty: Ty) -> nat {
    let grown = used + ty.layout().size;
    grown + gap(grown, ty.layout().align)
}

impl<'t> Func<'t> {
    /// Whether the lifetimes of the values were worked out. Once they
    /// were, no block is split.
    pub fn lifetime_filled(&self) -> (r: bool)
        ensures
            r == self@.lifetime_filled,
    {
        self.lifetime_filled
    }

    /// Records that the lifetimes of the values were worked out. This is
    /// the one place where the mark is set: it is for the scan that gives
    /// each value the span of instructions over which it lives, before
    /// registers are given out. `finalize`, which only marks the values
    /// that live in more than one block, leaves the mark as it is, so that
    /// blocks can still be split once a function has been read.
    pub fn set_lifetime_filled(&mut self)
        ensures
            final(self)@ == (FuncModel { lifetime_filled: true, ..old(self)@ }),
            old(self)@.wf() ==> final(self)@.wf(),
    {
        self.lifetime_filled = true;
        proof {
            assert(self@.blocks =~= old(self)@.blocks);
            assert(self@.vals =~= old(self)@.vals);
            if old(self)@.wf() {
                lemma_attr_wf(old(self)@, self@);
            }
        }
    }
}

} // verus!
