//! Global variables.

use vstd::prelude::*;

use crate::init::{InitTopLevel, InitTopModel};
use crate::name::Name;
use crate::ty::{Ty, Type};

verus! {

/// A global variable.
#[derive(Debug, PartialEq, Eq)]
pub struct Var<'t> {
    pub name: Name,
    pub ty: Type<'t>,
    pub init: Option<InitTopLevel<'t>>,
}

/// The model of a [`Var`].
pub struct VarModel {
    pub name: Seq<char>,
    pub ty: Ty,
    pub init: Option<InitTopModel>,
}

impl<'t> View for Var<'t> {
    type V = VarModel;

    open spec fn view(&self) -> VarModel {
        VarModel {
            name: self.name.text(),
            ty: self.ty@,
            init: match self.init {
                Some(i) => Some(i@),
                None => None,
            },
        }
    }
}

impl<'t> Var<'t> {
    /// The name is in order, and every type in the variable is well-formed.
    pub open spec fn wf(&self) -> bool {
        &&& self.name.wf()
        &&& self.ty@.wf()
        &&& self.init is Some ==> self.init->0.init.types_wf()
    }
}

} // verus!
