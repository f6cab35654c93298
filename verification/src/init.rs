//! Initial values of global variables.

use vstd::prelude::*;

use crate::ty::{Ty, Type};

verus! {

/// What a variable, or a part of one, starts out as.
#[derive(Debug, PartialEq, Eq)]
pub enum Init<'t> {
    Str(Vec<u8>),
    Array(Vec<Init<'t>>),
    Struct(Vec<Init<'t>>),
    Ptr(PtrInit),
    Int(u64),
    /// An initialiser written for the type `as_`, which the variable's own
    /// type has room for.
    Alias { as_: Type<'t>, init: Box<Init<'t>> },
}

/// What a pointer starts out as: an address, or a symbol and an offset from it.
#[derive(Debug, PartialEq, Eq)]
pub enum PtrInit {
    Int(u64),
    Label { label: String, offset: i64, is_anyptr: bool },
}

/// How a variable is linked.
#[derive(Debug, PartialEq, Eq, Structural, Clone, Copy)]
pub struct InitFlags {
    pub internal: bool,
    pub constant: bool,
    pub weak: bool,
}

/// The initialiser of a variable, and how the variable is linked.
#[derive(Debug, PartialEq, Eq)]
pub struct InitTopLevel<'t> {
    pub init: Init<'t>,
    pub flags: InitFlags,
}

/// The model of a [`PtrInit`].
pub enum PtrInitModel {
    Int(u64),
    Label { label: Seq<char>, offset: i64, is_anyptr: bool },
}

/// The model of an [`Init`].
pub enum InitModel {
    Str(Seq<u8>),
    Array(Seq<InitModel>),
    Struct(Seq<InitModel>),
    Ptr(PtrInitModel),
    Int(u64),
    Alias { as_: Ty, init: Box<InitModel> },
}

/// The model of an [`InitTopLevel`].
pub struct InitTopModel {
    pub init: InitModel,
    pub flags: InitFlags,
}

impl View for PtrInit {
    type V = PtrInitModel;

    open spec fn view(&self) -> PtrInitModel {
        match self {
            PtrInit::Int(n) => PtrInitModel::Int(*n),
            PtrInit::Label { label, offset, is_anyptr } => PtrInitModel::Label {
                label: label@,
                offset: *offset,
                is_anyptr: *is_anyptr,
            },
        }
    }
}

impl<'t> Init<'t> {
    /// The model of the initialiser.
    pub open spec fn model(&self) -> InitModel
        decreases self,
    {
        match self {
            Init::Str(s) => InitModel::Str(s@),
            Init::Array(elems) => InitModel::Array(
                Seq::new(
                    elems@.len(),
                    |i: int|
                        if 0 <= i < elems@.len() {
                            elems@[i].model()
                        } else {
                            InitModel::Int(0)
                        },
                ),
            ),
            Init::Struct(elems) => InitModel::Struct(
                Seq::new(
                    elems@.len(),
                    |i: int|
                        if 0 <= i < elems@.len() {
                            elems@[i].model()
                        } else {
                            InitModel::Int(0)
                        },
                ),
            ),
            Init::Ptr(p) => InitModel::Ptr(p@),
            Init::Int(n) => InitModel::Int(*n),
            Init::Alias { as_, init } => InitModel::Alias {
                as_: as_@,
                init: Box::new(init.model()),
            },
        }
    }
}

impl<'t> Init<'t> {
    /// Every type in the initialiser is well-formed.
    pub open spec fn types_wf(&self) -> bool
        decreases self,
    {
        match self {
            Init::Array(elems) => forall|i: int|
                0 <= i < elems@.len() ==> (#[trigger] elems@[i]).types_wf(),
            Init::Struct(elems) => forall|i: int|
                0 <= i < elems@.len() ==> (#[trigger] elems@[i]).types_wf(),
            Init::Alias { as_, init } => as_@.wf() && init.types_wf(),
            _ => true,
        }
    }
}

impl<'t> View for Init<'t> {
    type V = InitModel;

    open spec fn view(&self) -> InitModel {
        self.model()
    }
}

/// The models of a list of initialisers.
pub open spec fn init_models<'t>(inits: Seq<Init<'t>>) -> Seq<InitModel> {
    Seq::new(inits.len(), |i: int| inits[i]@)
}

impl<'t> View for InitTopLevel<'t> {
    type V = InitTopModel;

    open spec fn view(&self) -> InitTopModel {
        InitTopModel { init: self.init@, flags: self.flags }
    }
}

impl InitFlags {
    /// No flag: a variable that other units see, that can be written, and
    /// that is defined for good.
    pub fn none() -> (r: Self)
        ensures
            r == (InitFlags { internal: false, constant: false, weak: false }),
    {
        InitFlags { internal: false, constant: false, weak: false }
    }

    /// The flags of either.
    pub fn union(self, other: Self) -> (r: Self)
        ensures
            r == (InitFlags {
                internal: self.internal || other.internal,
                constant: self.constant || other.constant,
                weak: self.weak || other.weak,
            }),
    {
        InitFlags {
            internal: self.internal || other.internal,
            constant: self.constant || other.constant,
            weak: self.weak || other.weak,
        }
    }

    /// Whether every flag of `other` is set.
    pub fn contains(self, other: Self) -> (r: bool)
        ensures
            r == ((other.internal ==> self.internal) && (other.constant ==> self.constant) && (
            other.weak ==> self.weak)),
    {
        (!other.internal || self.internal) && (!other.constant || self.constant) && (!other.weak
            || self.weak)
    }
}

impl Default for InitFlags {
    fn default() -> (r: Self)
        ensures
            r == (InitFlags { internal: false, constant: false, weak: false }),
    {
        InitFlags::none()
    }
}

} // verus!
