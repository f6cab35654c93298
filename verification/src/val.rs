//! Values: what instructions read and write, and where they are kept.

use vstd::prelude::*;

use crate::global::Global;
use crate::reg::Reg;
use crate::ty_uniq::TyUniq;
use crate::ty::{Ty, Type, TypeQueries};

verus! {

/// A handle on a value: its place in the table of the function that owns it.
/// Two values are the same where their handles are.
pub type ValId = usize;

/// Where a value is.
#[derive(Debug, Clone, Copy, PartialEq, Eq, Structural)]
pub enum Loc {
    Nowhere,
    AnyReg,
    Reg(Reg),
    SpillSlot(u32),
}

/// Where a value must be.
#[derive(Debug, Clone, Copy, PartialEq, Eq, Structural)]
pub struct Constraint {
    pub reg: bool,
    pub mem: bool,
    pub konst: bool,
}

/// Where a value is, and where it must be.
#[derive(Debug, Clone, Copy, PartialEq, Eq, Structural)]
pub struct Location {
    pub loc: Loc,
    pub constraint: Constraint,
}

/// What a value is.
#[derive(Debug)]
pub enum ValKind {
    Literal(i32),
    /// The address of the global of this name.
    Global(String),
    Label(String),
    Undef,
    Local { loc: Location, name: String },
    Alloca { loc: u32, name: String },
}

/// A value: what instructions read and write.
#[derive(Debug)]
pub struct Val<'t> {
    ty: Type<'t>,
    kind: ValKind,
    /// Set on a value that a calling convention has put in its place.
    abi: bool,
    /// Set on an argument of the function.
    arg: bool,
    /// Set once the value is used in more than one block.
    live_across_blocks: bool,
}

/// The model of a [`ValKind`].
pub enum ValKindModel {
    Literal(i32),
    Global(Seq<char>),
    Label(Seq<char>),
    Undef,
    Local { loc: Location, name: Seq<char> },
    Alloca { loc: u32, name: Seq<char> },
}

/// The model of a [`Val`].
pub struct ValModel {
    pub ty: Ty,
    pub kind: ValKindModel,
    pub abi: bool,
    pub arg: bool,
    pub live_across_blocks: bool,
}

impl View for ValKind {
    type V = ValKindModel;

    open spec fn view(&self) -> ValKindModel {
        match self {
            ValKind::Literal(n) => ValKindModel::Literal(*n),
            ValKind::Global(s) => ValKindModel::Global(s@),
            ValKind::Label(s) => ValKindModel::Label(s@),
            ValKind::Undef => ValKindModel::Undef,
            ValKind::Local { loc, name } => ValKindModel::Local { loc: *loc, name: name@ },
            ValKind::Alloca { loc, name } => ValKindModel::Alloca { loc: *loc, name: name@ },
        }
    }
}

impl<'t> View for Val<'t> {
    type V = ValModel;

    closed spec fn view(&self) -> ValModel {
        ValModel {
            ty: self.ty@,
            kind: self.kind@,
            abi: self.abi,
            arg: self.arg,
            live_across_blocks: self.live_across_blocks,
        }
    }
}

impl Constraint {
    /// No constraint.
    pub open spec fn none_spec() -> Constraint {
        Constraint { reg: false, mem: false, konst: false }
    }

    /// No constraint.
    pub fn none() -> (r: Self)
        ensures
            r == Self::none_spec(),
    {
        Constraint { reg: false, mem: false, konst: false }
    }
}

impl Location {
    /// The place of a value that any register will do for.
    pub open spec fn any_reg() -> Location {
        Location { loc: Loc::AnyReg, constraint: Constraint::none_spec() }
    }

    /// The place of a value that is held in `reg`, and must be.
    pub open spec fn in_reg(reg: Reg) -> Location {
        Location {
            loc: Loc::Reg(reg),
            constraint: Constraint { reg: true, mem: false, konst: false },
        }
    }

    /// Whether the place is a register.
    pub fn is_reg(&self) -> (r: bool)
        ensures
            r == (self.loc is AnyReg || self.loc is Reg),
    {
        match self.loc {
            Loc::AnyReg | Loc::Reg(_) => true,
            _ => false,
        }
    }

    /// Whether the place is on the stack.
    pub fn is_spilt(&self) -> (r: bool)
        ensures
            r == (self.loc is SpillSlot),
    {
        match self.loc {
            Loc::SpillSlot(_) => true,
            _ => false,
        }
    }
}

impl ValModel {
    /// A value as it is first made: of no calling convention, no argument,
    /// and not known to outlive its block.
    pub open spec fn plain(ty: Ty, kind: ValKindModel) -> ValModel {
        ValModel { ty, kind, abi: false, arg: false, live_across_blocks: false }
    }

    /// The value of a `ret` that returns nothing.
    pub open spec fn void(tvoid: Ty) -> ValModel {
        Self::plain(tvoid, ValKindModel::Literal(0))
    }

    /// The number `n`, of the type `ty`.
    pub open spec fn literal(n: i32, ty: Ty) -> ValModel {
        Self::plain(ty, ValKindModel::Literal(n))
    }

    /// A value of the type `ty` that is not defined.
    pub open spec fn undef(ty: Ty) -> ValModel {
        Self::plain(ty, ValKindModel::Undef)
    }

    /// The argument `name` of the function.
    pub open spec fn argument(name: Seq<char>, ty: Ty) -> ValModel {
        ValModel { arg: true, ..Self::local(name, ty, false) }
    }

    /// The address of the global `name`.
    pub open spec fn global(name: Seq<char>, ty: Ty) -> ValModel {
        Self::plain(ty, ValKindModel::Global(name))
    }

    /// The address of the block `name`.
    pub open spec fn label(name: Seq<char>, ty: Ty) -> ValModel {
        Self::plain(ty, ValKindModel::Label(name))
    }

    /// The value `name` of the function: storage on the stack where `alloca` is
    /// set.
    pub open spec fn local(name: Seq<char>, ty: Ty, alloca: bool) -> ValModel {
        Self::plain(
            ty,
            if alloca {
                ValKindModel::Alloca { loc: 0, name }
            } else {
                ValKindModel::Local { loc: Location::any_reg(), name }
            },
        )
    }

    /// A value that a calling convention holds in `reg`.
    pub open spec fn reg(reg: Reg, ty: Ty) -> ValModel {
        ValModel {
            abi: true,
            ..Self::plain(
                ty,
                ValKindModel::Local { loc: Location::in_reg(reg), name: Seq::empty() },
            )
        }
    }

    /// Where the value is, for the kinds that have a place of their own.
    pub open spec fn location(self) -> Option<Location> {
        match self.kind {
            ValKindModel::Local { loc, .. } => Some(loc),
            ValKindModel::Alloca { loc, .. } => Some(
                Location {
                    loc: Loc::SpillSlot(loc),
                    constraint: Constraint { reg: false, mem: true, konst: false },
                },
            ),
            _ => None,
        }
    }

    /// Whether the value is in a register, or will be in one.
    pub open spec fn is_reg(self) -> bool {
        match self.kind {
            ValKindModel::Local { loc, .. } => loc.loc is AnyReg || loc.loc is Reg,
            _ => false,
        }
    }

    /// Whether the value is in memory: a global, stack storage, a number
    /// taken as a pointer, or a local that was spilt.
    pub open spec fn is_mem(self) -> bool {
        match self.kind {
            ValKindModel::Global(_) | ValKindModel::Alloca { .. } => true,
            ValKindModel::Literal(_) => self.ty.deref() is Some,
            ValKindModel::Local { loc, .. } => loc.loc is SpillSlot,
            ValKindModel::Undef | ValKindModel::Label(_) => false,
        }
    }

    /// Whether a register may be given to the value.
    pub open spec fn can_be_assigned_reg(self) -> bool {
        self.kind is Undef || self.kind is Local
    }
}

impl<'t> Val<'t> {
    /// The value of a `ret` that returns nothing.
    pub fn new_void(tvoid: Type<'t>) -> (v: Val<'t>)
        ensures
            v@ == ValModel::void(tvoid@),
    {
        Self { ty: tvoid, kind: ValKind::Literal(0), abi: false, arg: false, live_across_blocks: false }
    }

    /// The number `n`, of the type `ty`.
    pub fn new_i(n: i32, ty: Type<'t>) -> (v: Self)
        ensures
            v@ == ValModel::literal(n, ty@),
    {
        Self { ty, kind: ValKind::Literal(n), abi: false, arg: false, live_across_blocks: false }
    }

    /// A value of the type `ty` that is not defined.
    pub fn new_undef(ty: Type<'t>) -> (v: Self)
        ensures
            v@ == ValModel::undef(ty@),
    {
        Self { ty, kind: ValKind::Undef, abi: false, arg: false, live_across_blocks: false }
    }

    /// The argument `name` of the function.
    pub fn new_argument(name: String, ty: Type<'t>) -> (v: Self)
        ensures
            v@ == ValModel::argument(name@, ty@),
    {
        Self {
            ty,
            kind: ValKind::Local {
                loc: Location { loc: Loc::AnyReg, constraint: Constraint::none() },
                name,
            },
            abi: false,
            arg: true,
            live_across_blocks: false,
        }
    }

    /// The address of the global `glob`: a value of the type of a pointer to it.
    pub fn new_global(ut: &mut TyUniq<'t>, glob: &Global<'t>) -> (v: Self)
        requires
            old(ut).wf(),
            glob@.ty().wf(),
        ensures
            v@ == ValModel::global(
                glob@.name(),
                Ty::Ptr { pointee: Box::new(glob@.ty()), sz: old(ut).ptr() },
            ),
            v@.ty.wf(),
            final(ut).wf(),
            final(ut).ptr() == old(ut).ptr(),
            final(ut).alias_list() == old(ut).alias_list(),
            final(ut).handles() == crate::ty_uniq::with_type(old(ut).handles(), v@.ty),
            final(ut).holds(v@.ty),
            final(ut).keeps(*old(ut)),
    {
        let ty = ut.ptr_to(glob.ty());
        Self {
            ty,
            kind: ValKind::Global(String::from_str(glob.name())),
            abi: false,
            arg: false,
            live_across_blocks: false,
        }
    }

    /// The address of the block `name`.
    pub fn new_label(name: String, ty: Type<'t>) -> (v: Self)
        ensures
            v@ == ValModel::label(name@, ty@),
    {
        Self { ty, kind: ValKind::Label(name), abi: false, arg: false, live_across_blocks: false }
    }

    /// A named value of the function: stack storage where `alloca` is set,
    /// which any register will do for where it is not.
    pub fn new_local(name: String, ty: Type<'t>, alloca: bool) -> (v: Self)
        ensures
            v@ == ValModel::local(name@, ty@, alloca),
    {
        let kind = if alloca {
            ValKind::Alloca { loc: 0, name }
        } else {
            ValKind::Local {
                loc: Location { loc: Loc::AnyReg, constraint: Constraint::none() },
                name,
            }
        };
        Self { ty, kind, abi: false, arg: false, live_across_blocks: false }
    }

    /// A value that a calling convention holds in `reg`.
    pub fn new_reg(reg: Reg, ty: Type<'t>) -> (v: Self)
        ensures
            v@ == ValModel::reg(reg, ty@),
    {
        Self {
            ty,
            kind: ValKind::Local {
                loc: Location {
                    loc: Loc::Reg(reg),
                    constraint: Constraint { reg: true, mem: false, konst: false },
                },
                name: String::new(),
            },
            abi: true,
            arg: false,
            live_across_blocks: false,
        }
    }

    /// The type of the value.
    pub fn ty(&self) -> (t: Type<'t>)
        ensures
            t@ == self@.ty,
    {
        self.ty
    }

    /// What the value is.
    pub fn kind(&self) -> (k: &ValKind)
        ensures
            k@ == self@.kind,
    {
        &self.kind
    }

    /// Whether a calling convention has put the value in its place.
    pub fn is_abi(&self) -> (r: bool)
        ensures
            r == self@.abi,
    {
        self.abi
    }

    /// Whether the value is an argument of the function.
    pub fn is_arg(&self) -> (r: bool)
        ensures
            r == self@.arg,
    {
        self.arg
    }

    /// Whether the value is known to be used in more than one block.
    pub fn live_across_blocks(&self) -> (r: bool)
        ensures
            r == self@.live_across_blocks,
    {
        self.live_across_blocks
    }

    /// Records that the value is used in more than one block.
    pub fn set_live_across_blocks(&mut self)
        ensures
            final(self)@ == (ValModel { live_across_blocks: true, ..old(self)@ }),
    {
        self.live_across_blocks = true;
    }

    /// Where the value is, for the kinds that have a place of their own.
    pub fn location(&self) -> (r: Option<Location>)
        ensures
            r == self@.location(),
    {
        match &self.kind {
            ValKind::Local { loc, .. } => Some(*loc),
            ValKind::Alloca { loc, .. } => Some(
                Location {
                    loc: Loc::SpillSlot(*loc),
                    constraint: Constraint { reg: false, mem: true, konst: false },
                },
            ),
            _ => None,
        }
    }

    /// Whether the value is in a register, or will be in one.
    pub fn is_reg(&self) -> (r: bool)
        ensures
            r == self@.is_reg(),
    {
        match &self.kind {
            ValKind::Local { loc, .. } => loc.is_reg(),
            _ => false,
        }
    }

    /// Whether the value is in memory.
    pub fn is_mem(&self) -> (r: bool)
        ensures
            r == self@.is_mem(),
    {
        match &self.kind {
            ValKind::Global(_) | ValKind::Alloca { .. } => true,
            ValKind::Literal(_) => self.ty.deref().is_some(),
            ValKind::Local { loc, .. } => loc.is_spilt(),
            ValKind::Undef | ValKind::Label(_) => false,
        }
    }

    /// Whether a register may be given to the value.
    pub fn can_be_assigned_reg(&self) -> (r: bool)
        ensures
            r == self@.can_be_assigned_reg(),
    {
        match &self.kind {
            ValKind::Undef | ValKind::Local { .. } => true,
            _ => false,
        }
    }

    /// The literal number, where the value is one.
    pub fn as_int(&self) -> (r: Option<i32>)
        ensures
            r == (match self@.kind {
                ValKindModel::Literal(n) => Some(n),
                _ => None,
            }),
    {
        match &self.kind {
            ValKind::Literal(n) => Some(*n),
            _ => None,
        }
    }
}

} // verus!
