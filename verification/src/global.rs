//! What a unit holds at its top level.

use vstd::prelude::*;

use crate::func::{Func, FuncModel};
use crate::ty::{Ty, Type};
use crate::variable::{Var, VarModel};

verus! {

/// A global: a type under a name, a function or a variable.
#[derive(Debug)]
pub enum Global<'t> {
    Type { name: String, ty: Type<'t> },
    Func(Func<'t>),
    Var(Var<'t>),
}

/// The model of a [`Global`].
pub enum GlobalModel {
    Type { name: Seq<char>, ty: Ty },
    Func(FuncModel),
    Var(VarModel),
}

impl<'t> View for Global<'t> {
    type V = GlobalModel;

    open spec fn view(&self) -> GlobalModel {
        match self {
            Global::Type { name, ty } => GlobalModel::Type { name: name@, ty: ty@ },
            Global::Func(f) => GlobalModel::Func(f@),
            Global::Var(v) => GlobalModel::Var(v@),
        }
    }
}

impl GlobalModel {
    /// The type of the global.
    pub open spec fn ty(self) -> Ty {
        match self {
            GlobalModel::Type { ty, .. } => ty,
            GlobalModel::Func(f) => f.ty,
            GlobalModel::Var(v) => v.ty,
        }
    }

    /// The name of the global.
    pub open spec fn name(self) -> Seq<char> {
        match self {
            GlobalModel::Type { name, .. } => name,
            GlobalModel::Func(f) => f.name,
            GlobalModel::Var(v) => v.name,
        }
    }
}

impl GlobalModel {
    /// The global with a graph of dependencies in each block, where it is
    /// a function.
    pub open spec fn with_dags(self) -> GlobalModel {
        match self {
            GlobalModel::Func(f) => GlobalModel::Func(f.with_dags()),
            g => g,
        }
    }
}

impl<'t> Global<'t> {
    /// Gives each block of a function that has none the graph of
    /// dependencies of its instructions.
    pub fn to_dag(&mut self)
        ensures
            final(self)@ == old(self)@.with_dags(),
            old(self).wf() ==> final(self).wf(),
    {
        match self {
            Global::Func(f) => f.to_dag(),
            _ => {},
        }
    }
}

impl<'t> Global<'t> {
    /// Functions and variables hold together, and every type is well-formed.
    pub open spec fn wf(&self) -> bool {
        match self {
            Global::Type { ty, .. } => ty@.wf(),
            Global::Func(f) => f@.wf(),
            Global::Var(v) => v.wf(),
        }
    }

    /// The type of the global: of an alias, the type that it is a name for.
    pub fn ty(&self) -> (r: Type<'t>)
        ensures
            r@ == self@.ty(),
    {
        match self {
            Global::Type { ty, .. } => *ty,
            Global::Func(f) => f.ty(),
            Global::Var(v) => v.ty,
        }
    }

    /// The name of the global.
    pub fn name(&self) -> (r: &str)
        ensures
            r@ == self@.name(),
    {
        match self {
            Global::Type { name, .. } => name.as_str(),
            Global::Func(f) => f.name(),
            Global::Var(v) => v.name.orig(),
        }
    }
}

} // verus!
