//! Machine registers.

use vstd::prelude::*;

verus! {

/// A register: its number within its class.
#[derive(Debug, Clone, Copy, PartialEq, Eq, Structural)]
pub struct Reg {
    pub idx: u32,
    pub class: Class,
}

/// The classes of register.
#[derive(Debug, Clone, Copy, PartialEq, Eq, Structural)]
pub enum Class {
    Int,
    Float,
}

impl Reg {
    /// The register of the number `idx` in the class `class`.
    pub fn new(idx: u32, class: Class) -> (r: Self)
        ensures
            r.idx == idx,
            r.class == class,
    {
        Self { idx, class }
    }

    /// Whether the register holds integers.
    pub fn is_int(&self) -> (r: bool)
        ensures
            r == (self.class == Class::Int),
    {
        match self.class {
            Class::Int => true,
            Class::Float => false,
        }
    }

    /// Whether the register holds floating-point numbers.
    pub fn is_fp(&self) -> (r: bool)
        ensures
            r == (self.class == Class::Float),
    {
        match self.class {
            Class::Int => false,
            Class::Float => true,
        }
    }
}

} // verus!
