//! What the code is made for: a system and an architecture.

use vstd::prelude::*;

use crate::reg::{Class, Reg};
use crate::regset::RegSet;
use crate::size_align::SizeAlign;
use crate::text::{chars_of, concat3, string_of_bytes};
use crate::token::{has_prefix, prefix_at};

verus! {

/// A target: the system, the architecture and the calling convention.
#[derive(Debug)]
pub struct Target {
    pub sys: Sys,
    pub arch: Arch,
    pub abi: Abi,
}

/// What the code generator knows of an architecture.
#[derive(Debug)]
pub struct Arch {
    pub ptr: SizeAlign,
    pub op_isn_is_destructive: bool,
}

/// The conventions of a system.
#[derive(Debug)]
pub struct Sys {
    pub lbl_priv_prefix: &'static str,
    pub section_rodata: &'static str,
    pub weak_directive_var: &'static str,
    pub weak_directive_func: &'static str,
    pub align_is_pow2: bool,
    pub leading_underscore: bool,
    pub pic: Pic,
}

/// The conventions of a system, as values to reason about.
pub struct Conventions {
    pub lbl_priv_prefix: Seq<char>,
    pub section_rodata: Seq<char>,
    pub weak_directive_var: Seq<char>,
    pub weak_directive_func: Seq<char>,
    pub align_is_pow2: bool,
    pub leading_underscore: bool,
    pub pic_active: bool,
    pub call_requires_plt: bool,
}

impl View for Sys {
    type V = Conventions;

    open spec fn view(&self) -> Conventions {
        Conventions {
            lbl_priv_prefix: self.lbl_priv_prefix@,
            section_rodata: self.section_rodata@,
            weak_directive_var: self.weak_directive_var@,
            weak_directive_func: self.weak_directive_func@,
            align_is_pow2: self.align_is_pow2,
            leading_underscore: self.leading_underscore,
            pic_active: self.pic.active,
            call_requires_plt: self.pic.call_requires_plt,
        }
    }
}

/// Position-independent code: whether it is made, and what it needs.
#[derive(Debug)]
pub struct Pic {
    pub active: bool,
    pub call_requires_plt: bool,
}

/// A calling convention: which registers serve which purpose.
#[derive(Debug, Clone)]
pub struct Abi {
    pub scratch_regs: RegSet,
    pub ret_regs: RegSet,
    pub arg_regs: RegSet,
    pub callee_saves: RegSet,
}

/// The systems that code is made for.
#[derive(Debug, Clone, Copy, PartialEq, Eq, Structural)]
pub enum SysName {
    Linux,
    Darwin,
}

/// The architectures that code is made for.
#[derive(Debug, Clone, Copy, PartialEq, Eq, Structural)]
pub enum ArchName {
    X86_64,
}

/// Whether the bytes `bytes[from..to]` spell `word`.
pub open spec fn spells(bytes: Seq<u8>, from: int, to: int, word: Seq<char>) -> bool {
    to - from == word.len() && prefix_at(bytes, from, word)
}

impl SysName {
    pub open spec fn named(bytes: Seq<u8>, from: int, to: int) -> Option<SysName> {
        if spells(bytes, from, to, "linux"@) {
            Some(SysName::Linux)
        } else if spells(bytes, from, to, "darwin"@) {
            Some(SysName::Darwin)
        } else {
            None
        }
    }

    /// The system that `bytes[from..to]` names.
    pub fn parse(bytes: &[u8], from: usize, to: usize) -> (r: Option<SysName>)
        requires
            from <= to <= bytes@.len(),
        ensures
            r == Self::named(bytes@, from as int, to as int),
    {
        proof {
            reveal_strlit("linux");
            reveal_strlit("darwin");
        }
        if to - from == 5 && has_prefix(bytes, from, "linux") {
            Some(SysName::Linux)
        } else if to - from == 6 && has_prefix(bytes, from, "darwin") {
            Some(SysName::Darwin)
        } else {
            None
        }
    }
}

impl ArchName {
    pub open spec fn named(bytes: Seq<u8>, from: int, to: int) -> Option<ArchName> {
        if spells(bytes, from, to, "x86_64"@) {
            Some(ArchName::X86_64)
        } else {
            None
        }
    }

    /// The architecture that `bytes[from..to]` names.
    pub fn parse(bytes: &[u8], from: usize, to: usize) -> (r: Option<ArchName>)
        requires
            from <= to <= bytes@.len(),
        ensures
            r == Self::named(bytes@, from as int, to as int),
    {
        proof {
            reveal_strlit("x86_64");
        }
        if to - from == 6 && has_prefix(bytes, from, "x86_64") {
            Some(ArchName::X86_64)
        } else {
            None
        }
    }
}

impl Sys {
    /// The conventions of each system. Linux: private labels begin with
    /// `.L`, constants go to `.rodata`, a weak symbol is declared `.weak`,
    /// alignments are written in bytes, symbols are written as they are,
    /// and a call from position-independent code goes through the PLT.
    /// Darwin: private labels begin with `L`, constants go to
    /// `.section __TEXT,__const`, a weak variable is a `.weak_reference`
    /// and a weak function a `.weak_definition`, alignments are written as
    /// powers of two, symbols begin with an underscore, and code is
    /// position-independent.
    pub open spec fn conventions(name: SysName) -> Conventions {
        match name {
            SysName::Linux => Conventions {
                lbl_priv_prefix: ".L"@,
                section_rodata: ".rodata"@,
                weak_directive_var: ".weak"@,
                weak_directive_func: ".weak"@,
                align_is_pow2: false,
                leading_underscore: false,
                pic_active: false,
                call_requires_plt: true,
            },
            SysName::Darwin => Conventions {
                lbl_priv_prefix: "L"@,
                section_rodata: ".section __TEXT,__const"@,
                weak_directive_var: ".weak_reference"@,
                weak_directive_func: ".weak_definition"@,
                align_is_pow2: true,
                leading_underscore: true,
                pic_active: true,
                call_requires_plt: false,
            },
        }
    }

    /// The conventions of a system: how private labels begin, where constants
    /// go, how weak symbols are declared, whether alignments are written as
    /// powers of two, whether symbols begin with an underscore, and what
    /// position-independent code needs.
    pub fn of(name: SysName) -> (r: Sys)
        ensures
            r@ == Self::conventions(name),
    {
        match name {
            SysName::Linux => Sys {
                lbl_priv_prefix: ".L",
                section_rodata: ".rodata",
                weak_directive_var: ".weak",
                weak_directive_func: ".weak",
                align_is_pow2: false,
                leading_underscore: false,
                pic: Pic { active: false, call_requires_plt: true },
            },
            SysName::Darwin => Sys {
                lbl_priv_prefix: "L",
                section_rodata: ".section __TEXT,__const",
                weak_directive_var: ".weak_reference",
                weak_directive_func: ".weak_definition",
                align_is_pow2: true,
                leading_underscore: true,
                pic: Pic { active: true, call_requires_plt: false },
            },
        }
    }
}

/// The integer registers of the given numbers, in that order.
pub open spec fn int_regs(idx: Seq<u32>) -> Seq<Reg> {
    Seq::new(idx.len(), |i: int| Reg { idx: idx[i], class: Class::Int })
}

fn regs_of(idx: &[u32]) -> (r: RegSet)
    ensures
        r@ == int_regs(idx@),
{
    let mut v: Vec<Reg> = Vec::new();
    let mut i: usize = 0;
    while i < idx.len()
        invariant
            i <= idx@.len(),
            v@ == int_regs(idx@.subrange(0, i as int)),
        decreases idx@.len() - i,
    {
        v.push(Reg::new(idx[i], Class::Int));
        i += 1;
        assert(v@ =~= int_regs(idx@.subrange(0, i as int)));
    }
    assert(idx@.subrange(0, idx@.len() as int) =~= idx@);
    RegSet::new(v)
}

impl Abi {
    /// Whether this is the calling convention of the architecture `name`.
    /// On x86-64 the registers 0, 2, 3, 4 and 5 are scratch, results come
    /// in 0 and 3, arguments go in 4, 5, 3 and 2, and the callee saves 1.
    pub open spec fn is_of(&self, name: ArchName) -> bool {
        &&& self.scratch_regs@ == int_regs(seq![0u32, 2u32, 3u32, 4u32, 5u32])
        &&& self.ret_regs@ == int_regs(seq![0u32, 3u32])
        &&& self.arg_regs@ == int_regs(seq![4u32, 5u32, 3u32, 2u32])
        &&& self.callee_saves@ == int_regs(seq![1u32])
    }
}

impl Arch {
    /// Whether this is what is known of the architecture `name`. On x86-64
    /// a pointer is eight bytes wide and aligned, and an operation
    /// overwrites one of its operands.
    pub open spec fn is_of(&self, name: ArchName) -> bool {
        self.ptr == (SizeAlign { size: 8, align: 8 }) && self.op_isn_is_destructive
    }

    /// An architecture and its calling convention. On x86-64 a pointer is
    /// eight bytes wide, and an operation overwrites one of its operands.
    pub fn of(name: ArchName) -> (r: (Arch, Abi))
        ensures
            r.0.is_of(name),
            r.1.is_of(name),
    {
        match name {
            ArchName::X86_64 => {
                let scratch: [u32; 5] = [0, 2, 3, 4, 5];
                let ret: [u32; 2] = [0, 3];
                let arg: [u32; 4] = [4, 5, 3, 2];
                let saved: [u32; 1] = [1];
                let abi = Abi {
                    scratch_regs: regs_of(scratch.as_slice()),
                    ret_regs: regs_of(ret.as_slice()),
                    arg_regs: regs_of(arg.as_slice()),
                    callee_saves: regs_of(saved.as_slice()),
                };
                assert(scratch@ =~= seq![0u32, 2u32, 3u32, 4u32, 5u32]);
                assert(ret@ =~= seq![0u32, 3u32]);
                assert(arg@ =~= seq![4u32, 5u32, 3u32, 2u32]);
                assert(saved@ =~= seq![1u32]);
                (Arch { ptr: SizeAlign { size: 8, align: 8 }, op_isn_is_destructive: true }, abi)
            },
        }
    }
}

/// Reads the setting of position-independent code: `true` or `false`.
pub fn parse_pic(s: &str) -> (r: Result<bool, &'static str>)
    ensures
        match r {
            Ok(b) => s@ == (if b {
                "true"@
            } else {
                "false"@
            }),
            Err(msg) => s@ != "true"@ && s@ != "false"@ && msg@ == "expected `true` or `false`"@,
        },
{
    proof {
        reveal_strlit("true");
        reveal_strlit("false");
    }
    if crate::text::str_eq(s, "true") {
        Ok(true)
    } else if crate::text::str_eq(s, "false") {
        Ok(false)
    } else {
        Err("expected `true` or `false`")
    }
}

/// The byte that parts the names in a triple.
pub const DASH: u8 = 45;

/// Where the part of a triple that starts at `pos` ends: at the next dash,
/// or at the end of the text.
pub open spec fn part_end(bytes: Seq<u8>, pos: int) -> int
    decreases bytes.len() - pos,
{
    if 0 <= pos < bytes.len() && bytes[pos] != DASH {
        part_end(bytes, pos + 1)
    } else {
        pos
    }
}

/// What a triple names, or why it names nothing.
pub enum Named {
    Both(SysName, ArchName),
    /// A part that is neither a system nor an architecture.
    Unrecognised(Seq<u8>),
    MissingSys,
    MissingArch,
}

/// Reads the parts of `bytes` from `pos` on, which are parted by dashes.
/// Each names a system or an architecture, and takes the place of one named
/// before it. A part that names neither ends the reading.
pub open spec fn read_parts(
    bytes: Seq<u8>,
    pos: int,
    sys: Option<SysName>,
    arch: Option<ArchName>,
) -> Named
    decreases bytes.len() - pos,
{
    let e = part_end(bytes, pos);
    if pos < 0 || e < pos || e > bytes.len() {
        Named::MissingSys
    } else {
        let (sys, arch, known) = match SysName::named(bytes, pos, e) {
            Some(s) => (Some(s), arch, true),
            None => match ArchName::named(bytes, pos, e) {
                Some(a) => (sys, Some(a), true),
                None => (sys, arch, false),
            },
        };
        if !known {
            Named::Unrecognised(bytes.subrange(pos, e))
        } else if e < bytes.len() {
            read_parts(bytes, e + 1, sys, arch)
        } else {
            match (sys, arch) {
                (Some(s), Some(a)) => Named::Both(s, a),
                (None, _) => Named::MissingSys,
                (_, None) => Named::MissingArch,
            }
        }
    }
}

/// A part of a triple ends inside the text.
pub proof fn lemma_part_end(bytes: Seq<u8>, pos: int)
    requires
        0 <= pos <= bytes.len(),
    ensures
        pos <= part_end(bytes, pos) <= bytes.len(),
    decreases bytes.len() - pos,
{
    if pos < bytes.len() && bytes[pos] != DASH {
        lemma_part_end(bytes, pos + 1);
    }
}

impl Target {
    /// What the triple `s` names.
    pub open spec fn named(s: Seq<u8>) -> Named {
        read_parts(s, 0, None, None)
    }

    /// The message that tells why a triple names nothing.
    pub open spec fn complaint(n: Named) -> Seq<char> {
        match n {
            Named::Unrecognised(part) => "unrecognised target part '"@ + chars_of(part) + "'"@,
            Named::MissingSys => "missing sysname"@,
            Named::MissingArch => "missing arch/abi"@,
            Named::Both(_, _) => Seq::empty(),
        }
    }

    /// The target of a system and an architecture.
    pub fn of(sys: SysName, arch: ArchName) -> (r: Target)
        ensures
            r.sys@ == Sys::conventions(sys),
            r.arch.is_of(arch),
            r.abi.is_of(arch),
    {
        let (arch, abi) = Arch::of(arch);
        Target { sys: Sys::of(sys), arch, abi }
    }

    /// Reads a triple, `linux-x86_64` for one: the names of a system and of
    /// an architecture, in either order, with a dash between them.
    pub fn parse(s: &[u8]) -> (r: Result<(SysName, ArchName), String>)
        ensures
            match r {
                Ok((sys, arch)) => Self::named(s@) == Named::Both(sys, arch),
                Err(msg) => !(Self::named(s@) is Both) && msg@ == Self::complaint(Self::named(s@)),
            },
    {
        let mut sys: Option<SysName> = None;
        let mut arch: Option<ArchName> = None;
        let mut pos: usize = 0;
        loop
            invariant
                pos <= s@.len(),
                Self::named(s@) == read_parts(s@, pos as int, sys, arch),
            decreases s@.len() - pos,
        {
            let mut e: usize = pos;
            while e < s.len() && s[e] != DASH
                invariant
                    pos <= e <= s@.len(),
                    part_end(s@, pos as int) == part_end(s@, e as int),
                decreases s@.len() - e,
            {
                e += 1;
            }
            if let Some(name) = SysName::parse(s, pos, e) {
                sys = Some(name);
            } else if let Some(name) = ArchName::parse(s, pos, e) {
                arch = Some(name);
            } else {
                let part = string_of_bytes(s, pos, e);
                return Err(concat3("unrecognised target part '", part.as_str(), "'"));
            }
            if e < s.len() {
                pos = e + 1;
            } else {
                return match (sys, arch) {
                    (Some(sys), Some(arch)) => Ok((sys, arch)),
                    (None, _) => Err(String::from_str("missing sysname")),
                    (_, None) => Err(String::from_str("missing arch/abi")),
                };
            }
        }
    }
}

} // verus!
