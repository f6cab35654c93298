//! Instructions.

use vstd::prelude::*;

use crate::token::{Cmp, Op};
use crate::val::ValId;

verus! {

/// A handle on a block: its place in the list of the function that owns it.
pub type BlockId = usize;

/// What an instruction does, and to which values.
#[derive(Debug)]
pub enum IsnKind {
    /// A value read through a pointer.
    Load { to: ValId, from: ValId },
    /// A value written through a pointer.
    Store { from: ValId, to: ValId },
    /// Room on the stack; `out` points to it.
    Alloca { out: ValId },
    /// The address of an element of an array or struct.
    Elem { base: ValId, index: ValId, out: ValId },
    /// A pointer moved by a number of elements.
    Ptradd { lhs: ValId, rhs: ValId, out: ValId },
    /// The distance between two pointers.
    Ptrsub { lhs: ValId, rhs: ValId, out: ValId },
    /// An integer widened with zeros.
    Zext { from: ValId, to: ValId },
    /// An integer widened with its sign.
    Sext { from: ValId, to: ValId },
    /// An integer cut to fewer bytes.
    Trunc { from: ValId, to: ValId },
    Int2Ptr { from: ValId, to: ValId },
    Ptr2Int { from: ValId, to: ValId },
    Ptrcast { from: ValId, to: ValId },
    Op { op: Op, lhs: ValId, rhs: ValId, res: ValId },
    Cmp { rel: Cmp, lhs: ValId, rhs: ValId, res: ValId },
    Copy { from: ValId, to: ValId },
    Call { into: ValId, callee: ValId, args: Vec<ValId> },
    Ret { val: ValId },
    Jmp { target: BlockId },
    Br { cond: ValId, t: BlockId, f: BlockId },
    /// A jump to the block whose address `target` holds.
    JmpComputed { target: ValId },
    /// The address of a block, taken as a value.
    Label { val: ValId },
    /// Assembly passed through as it is.
    Asm { text: Vec<u8> },
    Memcpy { dst: ValId, src: ValId },
}

/// The model of an [`IsnKind`].
pub enum IsnKindModel {
    Load { to: ValId, from: ValId },
    Store { from: ValId, to: ValId },
    Alloca { out: ValId },
    Elem { base: ValId, index: ValId, out: ValId },
    Ptradd { lhs: ValId, rhs: ValId, out: ValId },
    Ptrsub { lhs: ValId, rhs: ValId, out: ValId },
    Zext { from: ValId, to: ValId },
    Sext { from: ValId, to: ValId },
    Trunc { from: ValId, to: ValId },
    Int2Ptr { from: ValId, to: ValId },
    Ptr2Int { from: ValId, to: ValId },
    Ptrcast { from: ValId, to: ValId },
    Op { op: Op, lhs: ValId, rhs: ValId, res: ValId },
    Cmp { rel: Cmp, lhs: ValId, rhs: ValId, res: ValId },
    Copy { from: ValId, to: ValId },
    Call { into: ValId, callee: ValId, args: Seq<ValId> },
    Ret { val: ValId },
    Jmp { target: BlockId },
    Br { cond: ValId, t: BlockId, f: BlockId },
    JmpComputed { target: ValId },
    Label { val: ValId },
    Asm { text: Seq<u8> },
    Memcpy { dst: ValId, src: ValId },
}

impl View for IsnKind {
    type V = IsnKindModel;

    open spec fn view(&self) -> IsnKindModel {
        match self {
            IsnKind::Load { to, from } => IsnKindModel::Load { to: *to, from: *from },
            IsnKind::Store { from, to } => IsnKindModel::Store { from: *from, to: *to },
            IsnKind::Alloca { out } => IsnKindModel::Alloca { out: *out },
            IsnKind::Elem { base, index, out } => IsnKindModel::Elem { base: *base, index: *index, out: *out },
            IsnKind::Ptradd { lhs, rhs, out } => IsnKindModel::Ptradd { lhs: *lhs, rhs: *rhs, out: *out },
            IsnKind::Ptrsub { lhs, rhs, out } => IsnKindModel::Ptrsub { lhs: *lhs, rhs: *rhs, out: *out },
            IsnKind::Zext { from, to } => IsnKindModel::Zext { from: *from, to: *to },
            IsnKind::Sext { from, to } => IsnKindModel::Sext { from: *from, to: *to },
            IsnKind::Trunc { from, to } => IsnKindModel::Trunc { from: *from, to: *to },
            IsnKind::Int2Ptr { from, to } => IsnKindModel::Int2Ptr { from: *from, to: *to },
            IsnKind::Ptr2Int { from, to } => IsnKindModel::Ptr2Int { from: *from, to: *to },
            IsnKind::Ptrcast { from, to } => IsnKindModel::Ptrcast { from: *from, to: *to },
            IsnKind::Op { op, lhs, rhs, res } => IsnKindModel::Op { op: *op, lhs: *lhs, rhs: *rhs, res: *res },
            IsnKind::Cmp { rel, lhs, rhs, res } => IsnKindModel::Cmp { rel: *rel, lhs: *lhs, rhs: *rhs, res: *res },
            IsnKind::Copy { from, to } => IsnKindModel::Copy { from: *from, to: *to },
            IsnKind::Call { into, callee, args } => IsnKindModel::Call { into: *into, callee: *callee, args: args@ },
            IsnKind::Ret { val } => IsnKindModel::Ret { val: *val },
            IsnKind::Jmp { target } => IsnKindModel::Jmp { target: *target },
            IsnKind::Br { cond, t, f } => IsnKindModel::Br { cond: *cond, t: *t, f: *f },
            IsnKind::JmpComputed { target } => IsnKindModel::JmpComputed { target: *target },
            IsnKind::Label { val } => IsnKindModel::Label { val: *val },
            IsnKind::Asm { text } => IsnKindModel::Asm { text: text@ },
            IsnKind::Memcpy { dst, src } => IsnKindModel::Memcpy { dst: *dst, src: *src },
        }
    }
}

impl IsnKindModel {
    /// Whether the instruction ends its block.
    pub open spec fn is_terminator(self) -> bool {
        self is Ret || self is Jmp || self is Br || self is JmpComputed
    }

    /// The values that the instruction reads or writes.
    pub open spec fn vals(self) -> Seq<ValId> {
        match self {
            IsnKindModel::Load { to, from } => seq![to, from],
            IsnKindModel::Store { from, to } => seq![from, to],
            IsnKindModel::Alloca { out } => seq![out],
            IsnKindModel::Elem { base, index, out } => seq![base, index, out],
            IsnKindModel::Ptradd { lhs, rhs, out } => seq![lhs, rhs, out],
            IsnKindModel::Ptrsub { lhs, rhs, out } => seq![lhs, rhs, out],
            IsnKindModel::Zext { from, to } => seq![from, to],
            IsnKindModel::Sext { from, to } => seq![from, to],
            IsnKindModel::Trunc { from, to } => seq![from, to],
            IsnKindModel::Int2Ptr { from, to } => seq![from, to],
            IsnKindModel::Ptr2Int { from, to } => seq![from, to],
            IsnKindModel::Ptrcast { from, to } => seq![from, to],
            IsnKindModel::Op { op: _, lhs, rhs, res } => seq![lhs, rhs, res],
            IsnKindModel::Cmp { rel: _, lhs, rhs, res } => seq![lhs, rhs, res],
            IsnKindModel::Copy { from, to } => seq![from, to],
            IsnKindModel::Call { into, callee, args } => seq![into, callee] + args,
            IsnKindModel::Ret { val } => seq![val],
            IsnKindModel::Jmp { target: _ } => Seq::empty(),
            IsnKindModel::Br { cond, t: _, f: _ } => seq![cond],
            IsnKindModel::JmpComputed { target } => seq![target],
            IsnKindModel::Label { val } => seq![val],
            IsnKindModel::Asm { text: _ } => Seq::empty(),
            IsnKindModel::Memcpy { dst, src } => seq![dst, src],
        }
    }

    /// The value that the instruction defines, if it defines one.
    pub open spec fn output(self) -> Option<ValId> {
        match self {
            IsnKindModel::Load { to, .. } => Some(to),
            IsnKindModel::Store { .. } => None,
            IsnKindModel::Alloca { out, .. } => Some(out),
            IsnKindModel::Elem { out, .. } => Some(out),
            IsnKindModel::Ptradd { out, .. } => Some(out),
            IsnKindModel::Ptrsub { out, .. } => Some(out),
            IsnKindModel::Zext { to, .. } => Some(to),
            IsnKindModel::Sext { to, .. } => Some(to),
            IsnKindModel::Trunc { to, .. } => Some(to),
            IsnKindModel::Int2Ptr { to, .. } => Some(to),
            IsnKindModel::Ptr2Int { to, .. } => Some(to),
            IsnKindModel::Ptrcast { to, .. } => Some(to),
            IsnKindModel::Op { res, .. } => Some(res),
            IsnKindModel::Cmp { res, .. } => Some(res),
            IsnKindModel::Copy { to, .. } => Some(to),
            IsnKindModel::Call { into, .. } => Some(into),
            IsnKindModel::Ret { .. } => None,
            IsnKindModel::Jmp { .. } => None,
            IsnKindModel::Br { .. } => None,
            IsnKindModel::JmpComputed { .. } => None,
            IsnKindModel::Label { val, .. } => Some(val),
            IsnKindModel::Asm { .. } => None,
            IsnKindModel::Memcpy { .. } => None,
        }
    }

    /// The values that the instruction reads, in the order of its operands.
    pub open spec fn inputs(self) -> Seq<ValId> {
        match self {
            IsnKindModel::Load { from, .. } => seq![from],
            IsnKindModel::Store { from, to, .. } => seq![from, to],
            IsnKindModel::Alloca { .. } => Seq::empty(),
            IsnKindModel::Elem { base, index, .. } => seq![base, index],
            IsnKindModel::Ptradd { lhs, rhs, .. } => seq![lhs, rhs],
            IsnKindModel::Ptrsub { lhs, rhs, .. } => seq![lhs, rhs],
            IsnKindModel::Zext { from, .. } => seq![from],
            IsnKindModel::Sext { from, .. } => seq![from],
            IsnKindModel::Trunc { from, .. } => seq![from],
            IsnKindModel::Int2Ptr { from, .. } => seq![from],
            IsnKindModel::Ptr2Int { from, .. } => seq![from],
            IsnKindModel::Ptrcast { from, .. } => seq![from],
            IsnKindModel::Op { lhs, rhs, .. } => seq![lhs, rhs],
            IsnKindModel::Cmp { lhs, rhs, .. } => seq![lhs, rhs],
            IsnKindModel::Copy { from, .. } => seq![from],
            IsnKindModel::Call { callee, args, .. } => seq![callee] + args,
            IsnKindModel::Ret { val, .. } => seq![val],
            IsnKindModel::Jmp { .. } => Seq::empty(),
            IsnKindModel::Br { cond, .. } => seq![cond],
            IsnKindModel::JmpComputed { target, .. } => seq![target],
            IsnKindModel::Label { .. } => Seq::empty(),
            IsnKindModel::Asm { .. } => Seq::empty(),
            IsnKindModel::Memcpy { dst, src, .. } => seq![dst, src],
        }
    }

    /// Whether the instruction reads or writes memory, or may do so: a
    /// load, a store, a call, a copy of memory, or assembly passed through.
    pub open spec fn touches_memory(self) -> bool {
        match self {
            IsnKindModel::Load { .. } | IsnKindModel::Store { .. } | IsnKindModel::Call { .. } | IsnKindModel::Asm { .. } | IsnKindModel::Memcpy { .. } => true,
            _ => false,
        }
    }
}

impl IsnKind {
    /// Whether the instruction ends its block.
    pub fn is_terminator(&self) -> (r: bool)
        ensures
            r == self@.is_terminator(),
    {
        match self {
            IsnKind::Ret { .. } | IsnKind::Jmp { .. } | IsnKind::Br { .. } | IsnKind::JmpComputed {
                ..
            } => true,
            _ => false,
        }
    }

    /// The values that the instruction reads or writes.
    pub fn vals(&self) -> (r: Vec<ValId>)
        ensures
            r@ == self@.vals(),
    {
        let mut r: Vec<ValId> = Vec::new();
        match self {
            IsnKind::Load { to, from } => {
                r.push(*to);
                r.push(*from);
                assert(r@ =~= seq![*to, *from]);
            },
            IsnKind::Store { from, to } => {
                r.push(*from);
                r.push(*to);
                assert(r@ =~= seq![*from, *to]);
            },
            IsnKind::Alloca { out } => {
                r.push(*out);
                assert(r@ =~= seq![*out]);
            },
            IsnKind::Elem { base, index, out } => {
                r.push(*base);
                r.push(*index);
                r.push(*out);
                assert(r@ =~= seq![*base, *index, *out]);
            },
            IsnKind::Ptradd { lhs, rhs, out } => {
                r.push(*lhs);
                r.push(*rhs);
                r.push(*out);
                assert(r@ =~= seq![*lhs, *rhs, *out]);
            },
            IsnKind::Ptrsub { lhs, rhs, out } => {
                r.push(*lhs);
                r.push(*rhs);
                r.push(*out);
                assert(r@ =~= seq![*lhs, *rhs, *out]);
            },
            IsnKind::Zext { from, to } => {
                r.push(*from);
                r.push(*to);
                assert(r@ =~= seq![*from, *to]);
            },
            IsnKind::Sext { from, to } => {
                r.push(*from);
                r.push(*to);
                assert(r@ =~= seq![*from, *to]);
            },
            IsnKind::Trunc { from, to } => {
                r.push(*from);
                r.push(*to);
                assert(r@ =~= seq![*from, *to]);
            },
            IsnKind::Int2Ptr { from, to } => {
                r.push(*from);
                r.push(*to);
                assert(r@ =~= seq![*from, *to]);
            },
            IsnKind::Ptr2Int { from, to } => {
                r.push(*from);
                r.push(*to);
                assert(r@ =~= seq![*from, *to]);
            },
            IsnKind::Ptrcast { from, to } => {
                r.push(*from);
                r.push(*to);
                assert(r@ =~= seq![*from, *to]);
            },
            IsnKind::Op { op: _, lhs, rhs, res } => {
                r.push(*lhs);
                r.push(*rhs);
                r.push(*res);
                assert(r@ =~= seq![*lhs, *rhs, *res]);
            },
            IsnKind::Cmp { rel: _, lhs, rhs, res } => {
                r.push(*lhs);
                r.push(*rhs);
                r.push(*res);
                assert(r@ =~= seq![*lhs, *rhs, *res]);
            },
            IsnKind::Copy { from, to } => {
                r.push(*from);
                r.push(*to);
                assert(r@ =~= seq![*from, *to]);
            },
            IsnKind::Call { into, callee, args } => {
                r.push(*into);
                r.push(*callee);
                assert(r@ =~= seq![*into, *callee]);
                let ghost head = r@;
                let mut i: usize = 0;
                while i < args.len()
                    invariant
                        i <= args@.len(),
                        r@ == head + args@.subrange(0, i as int),
                    decreases args@.len() - i,
                {
                    r.push(args[i]);
                    i += 1;
                    assert(r@ =~= head + args@.subrange(0, i as int));
                }
                assert(args@.subrange(0, args@.len() as int) =~= args@);
            },
            IsnKind::Ret { val } => {
                r.push(*val);
                assert(r@ =~= seq![*val]);
            },
            IsnKind::Jmp { target: _ } => {
            },
            IsnKind::Br { cond, t: _, f: _ } => {
                r.push(*cond);
                assert(r@ =~= seq![*cond]);
            },
            IsnKind::JmpComputed { target } => {
                r.push(*target);
                assert(r@ =~= seq![*target]);
            },
            IsnKind::Label { val } => {
                r.push(*val);
                assert(r@ =~= seq![*val]);
            },
            IsnKind::Asm { text: _ } => {
            },
            IsnKind::Memcpy { dst, src } => {
                r.push(*dst);
                r.push(*src);
                assert(r@ =~= seq![*dst, *src]);
            },
        }
        r
    }

    /// The value that the instruction defines, if it defines one.
    pub fn output(&self) -> (r: Option<ValId>)
        ensures
            r == self@.output(),
    {
        match self {
            IsnKind::Load { to, .. } => Some(*to),
            IsnKind::Store { .. } => None,
            IsnKind::Alloca { out, .. } => Some(*out),
            IsnKind::Elem { out, .. } => Some(*out),
            IsnKind::Ptradd { out, .. } => Some(*out),
            IsnKind::Ptrsub { out, .. } => Some(*out),
            IsnKind::Zext { to, .. } => Some(*to),
            IsnKind::Sext { to, .. } => Some(*to),
            IsnKind::Trunc { to, .. } => Some(*to),
            IsnKind::Int2Ptr { to, .. } => Some(*to),
            IsnKind::Ptr2Int { to, .. } => Some(*to),
            IsnKind::Ptrcast { to, .. } => Some(*to),
            IsnKind::Op { res, .. } => Some(*res),
            IsnKind::Cmp { res, .. } => Some(*res),
            IsnKind::Copy { to, .. } => Some(*to),
            IsnKind::Call { into, .. } => Some(*into),
            IsnKind::Ret { .. } => None,
            IsnKind::Jmp { .. } => None,
            IsnKind::Br { .. } => None,
            IsnKind::JmpComputed { .. } => None,
            IsnKind::Label { val, .. } => Some(*val),
            IsnKind::Asm { .. } => None,
            IsnKind::Memcpy { .. } => None,
        }
    }

    /// The values that the instruction reads, in the order of its operands.
    pub fn inputs(&self) -> (r: Vec<ValId>)
        ensures
            r@ == self@.inputs(),
    {
        let mut r: Vec<ValId> = Vec::new();
        match self {
            IsnKind::Load { from, .. } => {
                r.push(*from);
                assert(r@ =~= seq![*from]);
            },
            IsnKind::Store { from, to, .. } => {
                r.push(*from);
                r.push(*to);
                assert(r@ =~= seq![*from, *to]);
            },
            IsnKind::Alloca { .. } => {
            },
            IsnKind::Elem { base, index, .. } => {
                r.push(*base);
                r.push(*index);
                assert(r@ =~= seq![*base, *index]);
            },
            IsnKind::Ptradd { lhs, rhs, .. } => {
                r.push(*lhs);
                r.push(*rhs);
                assert(r@ =~= seq![*lhs, *rhs]);
            },
            IsnKind::Ptrsub { lhs, rhs, .. } => {
                r.push(*lhs);
                r.push(*rhs);
                assert(r@ =~= seq![*lhs, *rhs]);
            },
            IsnKind::Zext { from, .. } => {
                r.push(*from);
                assert(r@ =~= seq![*from]);
            },
            IsnKind::Sext { from, .. } => {
                r.push(*from);
                assert(r@ =~= seq![*from]);
            },
            IsnKind::Trunc { from, .. } => {
                r.push(*from);
                assert(r@ =~= seq![*from]);
            },
            IsnKind::Int2Ptr { from, .. } => {
                r.push(*from);
                assert(r@ =~= seq![*from]);
            },
            IsnKind::Ptr2Int { from, .. } => {
                r.push(*from);
                assert(r@ =~= seq![*from]);
            },
            IsnKind::Ptrcast { from, .. } => {
                r.push(*from);
                assert(r@ =~= seq![*from]);
            },
            IsnKind::Op { lhs, rhs, .. } => {
                r.push(*lhs);
                r.push(*rhs);
                assert(r@ =~= seq![*lhs, *rhs]);
            },
            IsnKind::Cmp { lhs, rhs, .. } => {
                r.push(*lhs);
                r.push(*rhs);
                assert(r@ =~= seq![*lhs, *rhs]);
            },
            IsnKind::Copy { from, .. } => {
                r.push(*from);
                assert(r@ =~= seq![*from]);
            },
            IsnKind::Call { callee, args, .. } => {
                r.push(*callee);
                assert(r@ =~= seq![*callee]);
                let ghost head = r@;
                let mut i: usize = 0;
                while i < args.len()
                    invariant
                        i <= args@.len(),
                        r@ == head + args@.subrange(0, i as int),
                    decreases args@.len() - i,
                {
                    r.push(args[i]);
                    i += 1;
                    assert(r@ =~= head + args@.subrange(0, i as int));
                }
                assert(args@.subrange(0, args@.len() as int) =~= args@);
            },
            IsnKind::Ret { val, .. } => {
                r.push(*val);
                assert(r@ =~= seq![*val]);
            },
            IsnKind::Jmp { .. } => {
            },
            IsnKind::Br { cond, .. } => {
                r.push(*cond);
                assert(r@ =~= seq![*cond]);
            },
            IsnKind::JmpComputed { target, .. } => {
                r.push(*target);
                assert(r@ =~= seq![*target]);
            },
            IsnKind::Label { .. } => {
            },
            IsnKind::Asm { .. } => {
            },
            IsnKind::Memcpy { dst, src, .. } => {
                r.push(*dst);
                r.push(*src);
                assert(r@ =~= seq![*dst, *src]);
            },
        }
        r
    }

    /// Whether the instruction reads or writes memory, or may do so.
    pub fn touches_memory(&self) -> (r: bool)
        ensures
            r == self@.touches_memory(),
    {
        match self {
            IsnKind::Load { .. } | IsnKind::Store { .. } | IsnKind::Call { .. } | IsnKind::Asm { .. } | IsnKind::Memcpy { .. } => true,
            _ => false,
        }
    }
}

/// An instruction, and how it came to be.
#[derive(Debug)]
pub struct Isn {
    pub kind: IsnKind,
    /// Unset on an instruction that was read from source text, set on one
    /// that a pass has made.
    pub compiler_generated: bool,
    /// A mark for whatever walks the instructions.
    pub flag: bool,
}

/// The model of an [`Isn`].
pub struct IsnModel {
    pub kind: IsnKindModel,
    pub compiler_generated: bool,
    pub flag: bool,
}

impl View for Isn {
    type V = IsnModel;

    open spec fn view(&self) -> IsnModel {
        IsnModel { kind: self.kind@, compiler_generated: self.compiler_generated, flag: self.flag }
    }
}

impl IsnModel {
    /// An instruction as the reader of source text makes it.
    pub open spec fn parsed(kind: IsnKindModel) -> IsnModel {
        IsnModel { kind, compiler_generated: false, flag: false }
    }
}

impl Isn {
    /// An instruction that was read from source text.
    pub fn parsed(kind: IsnKind) -> (r: Isn)
        ensures
            r@ == IsnModel::parsed(kind@),
    {
        Isn { kind, compiler_generated: false, flag: false }
    }

    /// An instruction that a pass has made.
    pub fn generated(kind: IsnKind) -> (r: Isn)
        ensures
            r@ == (IsnModel { kind: kind@, compiler_generated: true, flag: false }),
    {
        Isn { kind, compiler_generated: true, flag: false }
    }
}

/// The models of a list of instructions.
pub open spec fn isn_models(isns: Seq<Isn>) -> Seq<IsnModel> {
    Seq::new(isns.len(), |i: int| isns[i]@)
}

} // verus!
