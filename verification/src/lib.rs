//! Back end for a small, typed, SSA-style intermediate representation:
//! the data model, the reader for its textual form and the assembly writer.

pub mod size_align;
pub mod srcloc;
pub mod text;
pub mod token;
pub mod tokenise;
pub mod ty;
pub mod ty_uniq;
pub mod lbl;
pub mod name;
pub mod reg;
pub mod regset;
pub mod target;
pub mod init;
pub mod val;
pub mod isn;
pub mod block;
pub mod func;
pub mod global;
pub mod unit;
pub mod variable;
pub mod parse;
pub mod pass;
pub mod emit;
