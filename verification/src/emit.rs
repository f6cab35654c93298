//! Writing x86-64 assembly.
//!
//! What is written for a global is a function of the global and of the
//! system's conventions: [`var_text`] for a variable, [`func_text`] for a
//! function. The writers here compute them.

use vstd::prelude::*;

use crate::block::{BlockKind, BlockModel};
use crate::func::{Func, FuncModel};
use crate::global::{Global, GlobalModel};
use crate::init::{Init, InitModel, PtrInit, PtrInitModel};
use crate::isn::{BlockId, IsnKind, IsnKindModel};
use crate::target::{Conventions, Sys, Target};
use crate::text::{bytes_of, dec, decimal, hex, push_dec, push_hex, push_str};
use crate::ty::{lemma_parts_wf, models, Ty, Type, TypeQueries, TypeS};
use crate::variable::{Var, VarModel};

verus! {

/// Why a global could not be written.
#[derive(Debug, Clone, Copy, PartialEq, Eq, Structural)]
pub enum EmitError {
    /// The type of the variable has no size that a `usize` can hold.
    Unsized,
    /// An instruction that this writer knows no assembly for.
    Unsupported,
    /// The function has a body, and no exit block to return through.
    NoExit,
    /// No private label is left for the exit block.
    NoLabel,
}

/// The size of a type, or nothing for a type that has none.
pub open spec fn size_of(t: Ty) -> nat {
    match t.known_size() {
        Some(n) => n,
        None => 0,
    }
}

/// `.space N` and a line end, for a positive `N`; nothing for none.
pub open spec fn space(n: nat) -> Seq<u8> {
    if n == 0 {
        Seq::empty()
    } else {
        bytes_of(".space "@) + dec(n) + bytes_of("\n"@)
    }
}

/// The directive for a number of the given size: `.byte`, `.word`, `.long`
/// or, for anything wider, `.quad`.
pub open spec fn int_directive(size: nat) -> Seq<char> {
    if size == 1 {
        ".byte "@
    } else if size == 2 {
        ".word "@
    } else if size == 4 {
        ".long "@
    } else {
        ".quad "@
    }
}

/// A byte inside `.ascii "..."`: itself, where it prints and is neither
/// a quote nor a backslash, and else a backslash and its three octal digits.
pub open spec fn ascii_byte(b: u8) -> Seq<u8> {
    if 32 <= b < 127 && b != 34 && b != 92 {
        seq![b]
    } else {
        seq![92u8, (48 + b / 64) as u8, (48 + (b / 8) % 8) as u8, (48 + b % 8) as u8]
    }
}

/// The bytes `bytes[..k]` inside `.ascii "..."`.
pub open spec fn ascii_text(bytes: Seq<u8>, k: int) -> Seq<u8>
    decreases k,
{
    if k <= 0 {
        Seq::empty()
    } else {
        ascii_text(bytes, k - 1) + ascii_byte(bytes[k - 1])
    }
}

/// The name of a symbol in assembly: with an underscore before it where
/// the system asks for one.
pub open spec fn symbol(name: Seq<char>, leading_underscore: bool) -> Seq<u8> {
    if leading_underscore {
        bytes_of("_"@) + bytes_of(name)
    } else {
        bytes_of(name)
    }
}

/// The initialiser of a pointer: `.quad` and a number, or a symbol with
/// what is added to it or taken from it.
pub open spec fn ptr_text(p: PtrInitModel, leading_underscore: bool) -> Seq<u8> {
    match p {
        PtrInitModel::Int(n) => bytes_of(".quad 0x"@) + hex(n as nat) + bytes_of("\n"@),
        PtrInitModel::Label { label, offset, .. } => bytes_of(".quad "@) + symbol(
            label,
            leading_underscore,
        ) + offset_text(offset as int) + bytes_of("\n"@),
    }
}

/// What is added to a symbol, or taken from it where the offset is negative.
pub open spec fn offset_text(offset: int) -> Seq<u8> {
    if offset >= 0 {
        bytes_of(" + "@) + dec(offset as nat)
    } else {
        bytes_of(" - "@) + dec((-offset) as nat)
    }
}

/// What is written for the initialiser `init` of a variable, or of a part
/// of one, of the type `ty`, and the room that it takes.
///
/// A number is written with the directive of its size, and nothing but
/// room for a nought. A string is written as `.ascii`. The elements of an
/// array follow one another; each member of a struct stands behind the gap
/// that aligns it. An initialiser for another type is written as for that
/// type. Whatever room of `ty` is left behind the initialiser is left as
/// `.space`.
pub open spec fn init_text(init: InitModel, ty: Ty, leading_underscore: bool) -> Seq<u8>
    decreases init, 1nat,
{
    let body = init_body(init, ty, leading_underscore);
    body.0 + space(
        if size_of(ty) > body.1 {
            (size_of(ty) - body.1) as nat
        } else {
            0
        },
    )
}

/// What is written for an initialiser before the room behind it, and the
/// room that this takes.
pub open spec fn init_body(init: InitModel, ty: Ty, leading_underscore: bool) -> (Seq<u8>, nat)
    decreases init, 0nat,
{
    match init {
        InitModel::Int(v) => if v == 0 {
            (Seq::empty(), 0)
        } else {
            (
                bytes_of(int_directive(size_of(ty))) + bytes_of("0x"@) + hex(v as nat) + bytes_of(
                    "\n"@,
                ),
                size_of(ty),
            )
        },
        InitModel::Ptr(p) => (ptr_text(p, leading_underscore), size_of(ty)),
        InitModel::Str(bytes) => (
            bytes_of(".ascii \""@) + ascii_text(bytes, bytes.len() as int) + bytes_of("\"\n"@),
            bytes.len(),
        ),
        InitModel::Array(elems) => (
            array_text(elems, elem_of(ty), leading_underscore, elems.len()),
            size_of(elem_of(ty)) * elems.len(),
        ),
        InitModel::Struct(elems) => (
            struct_text(elems, members_of(ty.resolved()), leading_underscore, elems.len()),
            struct_room(members_of(ty.resolved()), elems.len()),
        ),
        InitModel::Alias { as_, init } => (init_text(*init, as_, leading_underscore), size_of(as_)),
    }
}

/// What is written for the elements `elems[..k]` of an array of `elem`.
pub open spec fn array_text(elems: Seq<InitModel>, elem: Ty, leading_underscore: bool, k: nat) -> Seq<
    u8,
>
    decreases elems, k,
{
    if k == 0 || k > elems.len() {
        Seq::empty()
    } else {
        array_text(elems, elem, leading_underscore, (k - 1) as nat) + init_text(
            elems[k - 1],
            elem,
            leading_underscore,
        )
    }
}

/// The members of a struct; none, of a type that is no struct.
pub open spec fn members_of(t: Ty) -> Seq<Ty> {
    match t {
        Ty::Struct { membs } => membs,
        _ => Seq::empty(),
    }
}

/// The type of the member at `i` of a struct with the members `membs`;
/// void, where it has no such member.
pub open spec fn member(membs: Seq<Ty>, i: int) -> Ty {
    if 0 <= i < membs.len() {
        membs[i]
    } else {
        Ty::Void
    }
}

/// The alignment of a type; one, for a type that cannot be laid out.
pub open spec fn align_of(t: Ty) -> nat {
    if t.known_size() is Some {
        t.layout().align
    } else {
        1
    }
}

/// Where the member at `k - 1` of a struct with the members `membs` ends:
/// each member stands behind the gap that aligns it.
pub open spec fn struct_room(membs: Seq<Ty>, k: nat) -> nat
    decreases k,
{
    if k == 0 {
        0
    } else {
        let before = struct_room(membs, (k - 1) as nat);
        let ty = member(membs, k - 1);
        before + crate::size_align::gap(before, align_of(ty)) + size_of(ty)
    }
}

/// What is written for the members `elems[..k]` of a struct with the
/// members `membs`.
pub open spec fn struct_text(
    elems: Seq<InitModel>,
    membs: Seq<Ty>,
    leading_underscore: bool,
    k: nat,
) -> Seq<u8>
    decreases elems, k,
{
    if k == 0 || k > elems.len() {
        Seq::empty()
    } else {
        let ty = member(membs, k - 1);
        struct_text(elems, membs, leading_underscore, (k - 1) as nat) + space(
            crate::size_align::gap(struct_room(membs, (k - 1) as nat), align_of(ty)),
        ) + init_text(elems[k - 1], ty, leading_underscore)
    }
}

/// The type of the elements of an array; void, of a type that is no array.
pub open spec fn elem_of(t: Ty) -> Ty {
    match t.array_elem() {
        Some(e) => e,
        None => Ty::Void,
    }
}

/// Whether the initialiser `init` of the type `ty` can be written: the
/// room that it takes, and that each part of it takes, can be held in a
/// `usize`.
pub open spec fn writable(init: InitModel, ty: Ty) -> bool
    decreases init,
{
    match init {
        InitModel::Array(elems) => size_of(elem_of(ty)) * elems.len() <= usize::MAX && forall|
            i: int,
        |
            0 <= i < elems.len() ==> writable(#[trigger] elems[i], elem_of(ty)),
        InitModel::Struct(elems) => struct_room(members_of(ty.resolved()), elems.len())
            <= usize::MAX && forall|i: int|
            0 <= i < elems.len() ==> writable(
                #[trigger] elems[i],
                member(members_of(ty.resolved()), i),
            ),
        InitModel::Alias { as_, init } => writable(*init, as_),
        _ => true,
    }
}

/// A struct takes no less room than its first members.
pub proof fn lemma_struct_room_grows(membs: Seq<Ty>, k: nat, n: nat)
    requires
        k <= n,
    ensures
        struct_room(membs, k) <= struct_room(membs, n),
    decreases n - k,
{
    if k < n {
        lemma_struct_room_grows(membs, k, (n - 1) as nat);
    }
}

/// The whole part of the logarithm of `n` to the base two.
pub open spec fn log2(n: nat) -> nat
    decreases n,
{
    if n <= 1 {
        0
    } else {
        1 + log2(n / 2)
    }
}

/// The line that names the section of a variable: that of constants for a
/// constant, `.data` for any other.
#[verifier::opaque]
pub open spec fn section_line(constant: bool, section_rodata: Seq<char>) -> Seq<u8> {
    (if constant {
        bytes_of(section_rodata)
    } else {
        bytes_of(".data"@)
    }) + bytes_of("\n"@)
}

/// The line that shows a symbol to other units; none for an internal one.
#[verifier::opaque]
pub open spec fn globl_line(internal: bool, name: Seq<u8>) -> Seq<u8> {
    if internal {
        Seq::empty()
    } else {
        bytes_of(".globl "@) + name + bytes_of("\n"@)
    }
}

/// The line that makes a symbol weak; none for one that is not.
#[verifier::opaque]
pub open spec fn weak_line(weak: bool, directive: Seq<char>, name: Seq<u8>) -> Seq<u8> {
    if weak {
        bytes_of(directive) + bytes_of(" "@) + name + bytes_of("\n"@)
    } else {
        Seq::empty()
    }
}

/// The line that aligns what follows: to `align` bytes, written as it is
/// or, where the system wants it so, as its logarithm to the base two.
#[verifier::opaque]
pub open spec fn align_line(align: nat, pow2: bool) -> Seq<u8> {
    bytes_of(".align "@) + dec(
        if pow2 {
            log2(align)
        } else {
            align
        },
    ) + bytes_of("\n"@)
}

/// The line that sets a label.
#[verifier::opaque]
pub open spec fn label_line(name: Seq<u8>) -> Seq<u8> {
    name + bytes_of(":\n"@)
}

/// What is written for a variable: for one without an initialiser, a
/// comment; for any other, its section, `.globl` unless it is internal,
/// the directive for weak symbols if it is weak, its alignment, its label
/// and its initialiser.
pub open spec fn var_text(v: VarModel, sys: Conventions) -> Seq<u8> {
    let name = symbol(v.name, sys.leading_underscore);
    match v.init {
        None => bytes_of("# forward decl "@) + name + bytes_of("\n"@),
        Some(top) => section_line(top.flags.constant, sys.section_rodata) + globl_line(
            top.flags.internal,
            name,
        ) + weak_line(top.flags.weak, sys.weak_directive_var, name) + align_line(
            align_of(v.ty),
            sys.align_is_pow2,
        ) + label_line(name) + init_text(top.init, v.ty, sys.leading_underscore),
    }
}

/// Writes the line that names a section.
fn push_section(out: &mut Vec<u8>, constant: bool, section_rodata: &str)
    ensures
        final(out)@ == old(out)@ + section_line(constant, section_rodata@),
{
    reveal(section_line);
    if constant {
        push_str(out, section_rodata);
    } else {
        push_str(out, ".data");
    }
    push_str(out, "\n");
    assert(out@ =~= old(out)@ + section_line(constant, section_rodata@));
}

/// Writes the line that shows a symbol to other units.
fn push_globl(out: &mut Vec<u8>, internal: bool, name: &str, lead: bool)
    ensures
        final(out)@ == old(out)@ + globl_line(internal, symbol(name@, lead)),
{
    reveal(globl_line);
    if !internal {
        push_str(out, ".globl ");
        push_symbol(out, name, lead);
        push_str(out, "\n");
    }
    assert(out@ =~= old(out)@ + globl_line(internal, symbol(name@, lead)));
}

/// Writes the line that makes a symbol weak.
fn push_weak(out: &mut Vec<u8>, weak: bool, directive: &str, name: &str, lead: bool)
    ensures
        final(out)@ == old(out)@ + weak_line(weak, directive@, symbol(name@, lead)),
{
    reveal(weak_line);
    if weak {
        push_str(out, directive);
        push_str(out, " ");
        push_symbol(out, name, lead);
        push_str(out, "\n");
    }
    assert(out@ =~= old(out)@ + weak_line(weak, directive@, symbol(name@, lead)));
}

/// Writes the line that aligns what follows.
fn push_align(out: &mut Vec<u8>, align: u32, pow2: bool)
    ensures
        final(out)@ == old(out)@ + align_line(align as nat, pow2),
{
    reveal(align_line);
    push_str(out, ".align ");
    if pow2 {
        push_dec(out, log2i(align) as u64);
    } else {
        push_dec(out, align as u64);
    }
    push_str(out, "\n");
    assert(out@ =~= old(out)@ + align_line(align as nat, pow2));
}

/// Writes the line that sets a label.
fn push_label(out: &mut Vec<u8>, name: &str, lead: bool)
    ensures
        final(out)@ == old(out)@ + label_line(symbol(name@, lead)),
{
    reveal(label_line);
    push_symbol(out, name, lead);
    push_str(out, ":\n");
    assert(out@ =~= old(out)@ + label_line(symbol(name@, lead)));
}

/// Writes `.space n`, for a positive `n`.
fn push_space(out: &mut Vec<u8>, n: usize)
    ensures
        final(out)@ == old(out)@ + space(n as nat),
{
    if n != 0 {
        push_str(out, ".space ");
        push_dec(out, n as u64);
        push_str(out, "\n");
    }
    assert(out@ =~= old(out)@ + space(n as nat));
}

/// Writes the name of a symbol.
fn push_symbol(out: &mut Vec<u8>, name: &str, leading_underscore: bool)
    ensures
        final(out)@ == old(out)@ + symbol(name@, leading_underscore),
{
    if leading_underscore {
        push_str(out, "_");
    }
    push_str(out, name);
    assert(out@ =~= old(out)@ + symbol(name@, leading_underscore));
}

/// Writes the bytes of a string literal.
fn push_ascii(out: &mut Vec<u8>, bytes: &Vec<u8>)
    ensures
        final(out)@ == old(out)@ + ascii_text(bytes@, bytes@.len() as int),
{
    let mut i: usize = 0;
    assert(out@ =~= old(out)@ + ascii_text(bytes@, 0));
    while i < bytes.len()
        invariant
            i <= bytes@.len(),
            out@ == old(out)@ + ascii_text(bytes@, i as int),
        decreases bytes@.len() - i,
    {
        let b = bytes[i];
        let ghost before = out@;
        if 32 <= b && b < 127 && b != 34 && b != 92 {
            out.push(b);
        } else {
            out.push(92);
            out.push(48 + b / 64);
            out.push(48 + (b / 8) % 8);
            out.push(48 + b % 8);
        }
        assert(out@ =~= before + ascii_byte(b));
        i += 1;
        assert(out@ =~= old(out)@ + ascii_text(bytes@, i as int));
    }
}

/// The size of a type, or nothing for a type that has none.
fn size_or_zero(t: Type<'_>) -> (n: usize)
    requires
        t@.wf(),
    ensures
        n == size_of(t@),
{
    match t.checked_size() {
        Some(n) => n,
        None => 0,
    }
}

/// The alignment of a type; one, for a type that cannot be laid out.
fn align_or_one(t: Type<'_>) -> (a: u32)
    requires
        t@.wf(),
    ensures
        a == align_of(t@),
        a > 0,
{
    proof {
        crate::ty::lemma_align_fits(t@);
    }
    if t.is_sized() {
        match t.try_size_align() {
            Some(sa) => sa.align,
            None => 1,
        }
    } else {
        1
    }
}

/// Writes the initialiser of a pointer.
fn push_ptr_init(out: &mut Vec<u8>, p: &PtrInit, leading_underscore: bool)
    ensures
        final(out)@ == old(out)@ + ptr_text(p@, leading_underscore),
{
    let ghost start = out@;
    match p {
        PtrInit::Int(n) => {
            push_str(out, ".quad 0x");
            push_hex(out, *n);
            push_str(out, "\n");
            assert(out@ =~= start + (bytes_of(".quad 0x"@) + hex(*n as nat) + bytes_of("\n"@)));
        },
        PtrInit::Label { label, offset, .. } => {
            push_str(out, ".quad ");
            push_symbol(out, label.as_str(), leading_underscore);
            let ghost head = bytes_of(".quad "@) + symbol(label@, leading_underscore);
            assert(out@ =~= start + head);
            push_offset(out, *offset);
            push_str(out, "\n");
            assert(out@ =~= start + (head + offset_text(*offset as int) + bytes_of("\n"@)));
        },
    }
}

/// Writes what is added to a symbol or taken from it.
fn push_offset(out: &mut Vec<u8>, offset: i64)
    ensures
        final(out)@ == old(out)@ + offset_text(offset as int),
{
    let ghost start = out@;
    if offset >= 0 {
        push_str(out, " + ");
        push_dec(out, offset as u64);
        assert(out@ =~= start + (bytes_of(" + "@) + dec(offset as nat)));
    } else {
        let minus: u64 = if offset == i64::MIN {
            0x8000_0000_0000_0000
        } else {
            (-offset) as u64
        };
        assert(minus as nat == (-offset) as nat);
        push_str(out, " - ");
        push_dec(out, minus);
        assert(out@ =~= start + (bytes_of(" - "@) + dec((-offset) as nat)));
    }
}

/// Writes what comes of the initialiser `init` before the room behind it,
/// and says how much room that takes; nothing is written, and the writer
/// fails, where that room cannot be held in a `usize`.
fn push_init_body(out: &mut Vec<u8>, init: &Init<'_>, ty: Type<'_>, leading_underscore: bool) -> (r:
    Option<usize>)
    requires
        ty@.wf(),
        init.types_wf(),
    ensures
        r is Some <==> writable(init@, ty@),
        r is Some ==> final(out)@ == old(out)@ + init_body(init@, ty@, leading_underscore).0
            && r->0 == init_body(init@, ty@, leading_underscore).1,
    decreases init, 1nat,
{
    match init {
        Init::Int(v) => {
            if *v == 0 {
                assert(out@ =~= old(out)@ + Seq::<u8>::empty());
                Some(0)
            } else {
                let size = size_or_zero(ty);
                push_str(
                    out,
                    if size == 1 {
                        ".byte "
                    } else if size == 2 {
                        ".word "
                    } else if size == 4 {
                        ".long "
                    } else {
                        ".quad "
                    },
                );
                push_str(out, "0x");
                push_hex(out, *v);
                push_str(out, "\n");
                assert(out@ =~= old(out)@ + init_body(init@, ty@, leading_underscore).0);
                Some(size)
            }
        },
        Init::Ptr(p) => {
            push_ptr_init(out, p, leading_underscore);
            Some(size_or_zero(ty))
        },
        Init::Str(bytes) => {
            push_str(out, ".ascii \"");
            push_ascii(out, bytes);
            push_str(out, "\"\n");
            assert(out@ =~= old(out)@ + init_body(init@, ty@, leading_underscore).0);
            Some(bytes.len())
        },
        Init::Array(elems) => push_array(out, init, elems, ty, leading_underscore),
        Init::Struct(elems) => push_struct(out, init, elems, ty, leading_underscore),
        Init::Alias { as_, init: inner } => {
            if !push_init(out, inner, as_, leading_underscore) {
                return None;
            }
            Some(size_or_zero(as_))
        },
    }
}

/// Writes the elements of an array.
fn push_array<'a>(
    out: &mut Vec<u8>,
    init: &Init<'a>,
    elems: &Vec<Init<'a>>,
    ty: Type<'_>,
    leading_underscore: bool,
) -> (r: Option<usize>)
    requires
        ty@.wf(),
        init.types_wf(),
        *init == Init::Array(*elems),
    ensures
        r is Some <==> writable(init@, ty@),
        r is Some ==> final(out)@ == old(out)@ + init_body(init@, ty@, leading_underscore).0
            && r->0 == init_body(init@, ty@, leading_underscore).1,
    decreases init, 0nat,
{
    proof {
        lemma_parts_wf(ty@);
    }
    let elem = match ty.array_elem() {
        Some(t) => Some(t),
        None => None,
    };
    let ghost elem_ty = elem_of(ty@);
    let size = match elem {
        Some(t) => size_or_zero(t),
        None => 0,
    };
    let ghost ms = init@->Array_0;
    assert(ms.len() == elems@.len());
    let total = match size.checked_mul(elems.len()) {
        Some(t) => t,
        None => {
            return None;
        },
    };
    let mut i: usize = 0;
    assert(out@ =~= old(out)@ + array_text(ms, elem_ty, leading_underscore, 0));
    while i < elems.len()
        invariant
            i <= elems@.len(),
            ty@.wf(),
            init.types_wf(),
            *init == Init::Array(*elems),
            ms == init@->Array_0,
            ms.len() == elems@.len(),
            forall|k: int| 0 <= k < elems@.len() ==> ms[k] == elems@[k]@,
            forall|k: int| 0 <= k < elems@.len() ==> decreases_to!(init => elems@[k]),
            model_of_opt(elem) == ty@.array_elem(),
            elem is Some ==> elem->0@.wf(),
            elem_ty == elem_of(ty@),
            size_of(elem_ty) * ms.len() <= usize::MAX,
            forall|k: int| 0 <= k < i ==> writable(#[trigger] ms[k], elem_ty),
            out@ == old(out)@ + array_text(ms, elem_ty, leading_underscore, i as nat),
        decreases elems@.len() - i,
    {
        assert(elems@[i as int].types_wf());
        let ok = match elem {
            Some(t) => push_init(out, &elems[i], t, leading_underscore),
            None => push_init_void(out, &elems[i], leading_underscore),
        };
        if !ok {
            assert(!writable(ms[i as int], elem_ty));
            return None;
        }
        i += 1;
        assert(out@ =~= old(out)@ + array_text(ms, elem_ty, leading_underscore, i as nat));
    }
    Some(total)
}

/// The type of the member at `i` of the struct `resolved`, if it is a
/// struct and has such a member, with the size and the alignment of the
/// member.
fn member_at<'a>(resolved: &'a TypeS<'a>, i: usize) -> (r: (Option<Type<'a>>, usize, u32))
    requires
        resolved@.wf(),
        !(resolved@ is Alias),
    ensures
        r.1 == size_of(member(members_of(resolved@), i as int)),
        r.2 == align_of(member(members_of(resolved@), i as int)),
        r.2 > 0,
        match r.0 {
            Some(t) => t@ == member(members_of(resolved@), i as int) && t@.wf(),
            None => member(members_of(resolved@), i as int) == Ty::Void,
        },
{
    let memb: Option<Type<'a>> = match resolved {
        TypeS::Struct { membs: ts } => {
            assert(members_of(resolved@) =~= models(ts@));
            if i < ts.len() {
                assert(members_of(resolved@)[i as int] == ts@[i as int]@);
                Some(ts[i])
            } else {
                None
            }
        },
        _ => None,
    };
    match memb {
        Some(t) => (Some(t), size_or_zero(t), align_or_one(t)),
        None => (None, 0, 1),
    }
}

/// Writes the member `elem` of a struct behind the gap that aligns it,
/// where `offset` bytes of the struct are written. Gives where the member
/// ends, or nothing where that cannot be held in a `usize`.
fn push_member<'a>(
    out: &mut Vec<u8>,
    elem: &Init<'a>,
    resolved: &TypeS<'_>,
    i: usize,
    offset: usize,
    leading_underscore: bool,
) -> (r: Option<usize>)
    requires
        resolved@.wf(),
        !(resolved@ is Alias),
        elem.types_wf(),
    ensures
        ({
            let ty = member(members_of(resolved@), i as int);
            let gap = crate::size_align::gap(offset as nat, align_of(ty));
            &&& r is Some <==> writable(elem@, ty) && offset + gap + size_of(ty) <= usize::MAX
            &&& r is Some ==> final(out)@ == old(out)@ + space(gap) + init_text(
                elem@,
                ty,
                leading_underscore,
            ) && r->0 == offset + gap + size_of(ty)
        }),
    decreases elem, 4nat,
{
    let (memb, size, align) = member_at(resolved, i);
    let gap = crate::size_align::gap_for_alignment(offset, align);
    let next = match offset.checked_add(gap) {
        Some(n) => match n.checked_add(size) {
            Some(n) => n,
            None => {
                return None;
            },
        },
        None => {
            return None;
        },
    };
    push_space(out, gap);
    let ok = match memb {
        Some(t) => push_init(out, elem, t, leading_underscore),
        None => push_init_void(out, elem, leading_underscore),
    };
    if ok {
        Some(next)
    } else {
        None
    }
}

/// Writes the members of a struct, each behind the gap that aligns it.
fn push_struct<'a>(
    out: &mut Vec<u8>,
    init: &Init<'a>,
    elems: &Vec<Init<'a>>,
    ty: Type<'_>,
    leading_underscore: bool,
) -> (r: Option<usize>)
    requires
        ty@.wf(),
        init.types_wf(),
        *init == Init::Struct(*elems),
    ensures
        r is Some <==> writable(init@, ty@),
        r is Some ==> final(out)@ == old(out)@ + init_body(init@, ty@, leading_underscore).0
            && r->0 == init_body(init@, ty@, leading_underscore).1,
    decreases init, 0nat,
{
    proof {
        crate::ty::lemma_resolved_wf(ty@);
    }
    let ghost ms = init@->Struct_0;
    let ghost membs = members_of(ty@.resolved());
    let resolved = ty.resolve();
    let mut offset: usize = 0;
    let mut i: usize = 0;
    assert(out@ =~= old(out)@ + struct_text(ms, membs, leading_underscore, 0));
    while i < elems.len()
        invariant
            i <= elems@.len(),
            ms.len() == elems@.len(),
            forall|k: int| 0 <= k < elems@.len() ==> ms[k] == elems@[k]@,
            forall|k: int| 0 <= k < elems@.len() ==> (#[trigger] elems@[k]).types_wf(),
            forall|k: int| 0 <= k < elems@.len() ==> decreases_to!(init => elems@[k]),
            resolved@.wf(),
            !(resolved@ is Alias),
            membs == members_of(resolved@),
            membs == members_of(ty@.resolved()),
            init@ == InitModel::Struct(ms),
            forall|k: int| 0 <= k < i ==> writable(#[trigger] ms[k], member(membs, k)),
            out@ == old(out)@ + struct_text(ms, membs, leading_underscore, i as nat),
            offset == struct_room(membs, i as nat),
        decreases elems@.len() - i,
    {
        match push_member(out, &elems[i], resolved, i, offset, leading_underscore) {
            Some(next) => {
                offset = next;
            },
            None => {
                proof {
                    lemma_struct_room_grows(membs, (i + 1) as nat, ms.len());
                    if writable(ms[i as int], member(membs, i as int)) {
                        assert(struct_room(membs, (i + 1) as nat) > usize::MAX);
                    }
                    assert(!writable(init@, ty@));
                }
                return None;
            },
        }
        i += 1;
        assert(out@ =~= old(out)@ + struct_text(ms, membs, leading_underscore, i as nat));
    }
    Some(offset)
}

/// The model of a type that may be missing.
pub open spec fn model_of_opt(t: Option<Type<'_>>) -> Option<Ty> {
    match t {
        Some(t) => Some(t@),
        None => None,
    }
}

/// Writes the initialiser `init` of a part of a variable that has no type.
fn push_init_void(out: &mut Vec<u8>, init: &Init<'_>, leading_underscore: bool) -> (ok: bool)
    requires
        init.types_wf(),
    ensures
        ok <==> writable(init@, Ty::Void),
        ok ==> final(out)@ == old(out)@ + init_text(init@, Ty::Void, leading_underscore),
    decreases init, 3nat,
{
    let void = TypeS::Void;
    push_init(out, init, &void, leading_underscore)
}

/// Writes the initialiser `init` of a variable, or of a part of one, of
/// the type `ty`. Says whether it was written: it is not where the room
/// that it takes cannot be held in a `usize`.
fn push_init(out: &mut Vec<u8>, init: &Init<'_>, ty: Type<'_>, leading_underscore: bool) -> (ok:
    bool)
    requires
        ty@.wf(),
        init.types_wf(),
    ensures
        ok <==> writable(init@, ty@),
        ok ==> final(out)@ == old(out)@ + init_text(init@, ty@, leading_underscore),
    decreases init, 2nat,
{
    match push_init_body(out, init, ty, leading_underscore) {
        Some(taken) => {
            let size = size_or_zero(ty);
            let ghost before = out@;
            if size > taken {
                push_space(out, size - taken);
            } else {
                assert(out@ =~= before + space(0));
            }
            assert(out@ =~= old(out)@ + init_text(init@, ty@, leading_underscore));
            true
        },
        None => false,
    }
}

/// The whole part of the logarithm of `n` to the base two.
fn log2i(n: u32) -> (r: u32)
    ensures
        r == log2(n as nat),
    decreases n,
{
    if n <= 1 {
        0
    } else {
        let r = log2i(n / 2);
        assert(r <= n / 2) by {
            lemma_log2_bound((n / 2) as nat);
        }
        1 + r
    }
}

proof fn lemma_log2_bound(n: nat)
    ensures
        log2(n) <= n,
    decreases n,
{
    if n > 1 {
        lemma_log2_bound(n / 2);
    }
}

/// Writes a variable. Fails where the variable has an initialiser that
/// takes more room than a `usize` can hold.
pub fn emit_var(v: &Var<'_>, sys: &Sys) -> (r: Result<Vec<u8>, EmitError>)
    requires
        v.wf(),
        v.init is Some ==> v.init->0.init.types_wf(),
    ensures
        match r {
            Ok(out) => out@ == var_text(v@, sys@) && (v@.init is Some ==> writable(
                v@.init->0.init,
                v@.ty,
            )),
            Err(e) => e == EmitError::Unsized && v@.init is Some && !writable(
                v@.init->0.init,
                v@.ty,
            ),
        },
{
    let mut out: Vec<u8> = Vec::new();
    let name = v.name.orig();
    let lead = sys.leading_underscore;
    match &v.init {
        None => {
            push_str(&mut out, "# forward decl ");
            push_symbol(&mut out, name, lead);
            push_str(&mut out, "\n");
            assert(out@ =~= var_text(v@, sys@));
            Ok(out)
        },
        Some(top) => {
            push_section(&mut out, top.flags.constant, sys.section_rodata);
            push_globl(&mut out, top.flags.internal, name, lead);
            push_weak(&mut out, top.flags.weak, sys.weak_directive_var, name, lead);
            push_align(&mut out, align_or_one(v.ty), sys.align_is_pow2);
            push_label(&mut out, name, lead);
            if !push_init(&mut out, &top.init, v.ty, lead) {
                return Err(EmitError::Unsized);
            }
            assert(out@ =~= var_text(v@, sys@));
            Ok(out)
        },
    }
}

/// What is written for one instruction. A jump goes to the label of its
/// target, a return to the label of the exit block; assembly is passed
/// through; room on the stack, the address of a block and a copy of memory
/// that was not lowered leave nothing. Nothing else can be written yet.
pub open spec fn isn_text(f: FuncModel, isn: IsnKindModel, exit_label: Seq<char>) -> Result<
    Seq<u8>,
    EmitError,
> {
    match isn {
        IsnKindModel::Jmp { target } => if target < f.blocks.len() && f.blocks[target as int].label is Some {
            Ok(bytes_of("\tjmp "@) + bytes_of(f.blocks[target as int].label->0) + bytes_of("\n"@))
        } else {
            Err(EmitError::Unsupported)
        },
        IsnKindModel::Ret { .. } => Ok(bytes_of("\tjmp "@) + bytes_of(exit_label) + bytes_of("\n"@)),
        IsnKindModel::Asm { text } => Ok(bytes_of("\t"@) + text + bytes_of("\n"@)),
        IsnKindModel::Alloca { .. } | IsnKindModel::Label { .. } | IsnKindModel::Memcpy { .. } => Ok(
            Seq::empty(),
        ),
        _ => Err(EmitError::Unsupported),
    }
}

/// What is written for the first `k` instructions of the block `blk`.
pub open spec fn isns_text(f: FuncModel, blk: BlockId, exit_label: Seq<char>, k: nat) -> Result<
    Seq<u8>,
    EmitError,
>
    decreases k,
{
    if k == 0 {
        Ok(Seq::empty())
    } else {
        match isns_text(f, blk, exit_label, (k - 1) as nat) {
            Err(e) => Err(e),
            Ok(before) => match isn_text(f, f.blocks[blk as int].isns[k - 1].kind, exit_label) {
                Err(e) => Err(e),
                Ok(t) => Ok(before + t),
            },
        }
    }
}

/// The line that sets the label of a block; none for a block without one.
pub open spec fn block_label_line(label: Option<Seq<char>>) -> Seq<u8> {
    match label {
        Some(l) => bytes_of(l) + bytes_of(":\n"@),
        None => Seq::empty(),
    }
}

/// What is written for the block `blk`: its label, if it has one, and its
/// instructions.
pub open spec fn block_text(f: FuncModel, blk: BlockId, exit_label: Seq<char>) -> Result<
    Seq<u8>,
    EmitError,
> {
    match isns_text(f, blk, exit_label, f.blocks[blk as int].isns.len()) {
        Err(e) => Err(e),
        Ok(t) => Ok(block_label_line(f.blocks[blk as int].label) + t),
    }
}

/// What is written for the first `k` of the blocks `order`. The exit block
/// is passed over: it is written last.
pub open spec fn blocks_text(f: FuncModel, order: Seq<BlockId>, exit_label: Seq<char>, k: nat) -> Result<
    Seq<u8>,
    EmitError,
>
    decreases k,
{
    if k == 0 || k > order.len() {
        Ok(Seq::empty())
    } else {
        match blocks_text(f, order, exit_label, (k - 1) as nat) {
            Err(e) => Err(e),
            Ok(before) => if f.exit == Some(order[k - 1]) {
                Ok(before)
            } else {
                match block_text(f, order[k - 1], exit_label) {
                    Err(e) => Err(e),
                    Ok(t) => Ok(before + t),
                }
            },
        }
    }
}

/// The lines that open a function: `.text`, `.globl` unless the function
/// is internal, its label, the frame, and room on the stack if it uses any.
/// `wide` says that pointers are eight bytes wide, not four.
#[verifier::opaque]
pub open spec fn prologue(f: FuncModel, sys: Conventions, wide: bool) -> Seq<u8> {
    let name = symbol(f.name, sys.leading_underscore);
    bytes_of(".text\n"@) + globl_line(f.attr.internal, name) + label_line(name) + frame(
        f.stackspace as nat,
        wide,
    )
}

/// The lines that set up the frame of a function that uses `stack` bytes
/// of the stack.
#[verifier::opaque]
pub open spec fn frame(stack: nat, wide: bool) -> Seq<u8> {
    (if wide {
        bytes_of("\tpush %rbp\n\tmov %rsp, %rbp\n"@)
    } else {
        bytes_of("\tpush %ebp\n\tmov %esp, %ebp\n"@)
    }) + (if stack == 0 {
        Seq::empty()
    } else {
        bytes_of("\tsub $"@) + dec(stack) + (if wide {
            bytes_of(", %rsp\n"@)
        } else {
            bytes_of(", %esp\n"@)
        })
    })
}

/// The lines that close a function: the label of the exit block, and the
/// return.
#[verifier::opaque]
pub open spec fn epilogue(exit_label: Seq<char>) -> Seq<u8> {
    bytes_of(exit_label) + bytes_of(":\n\tleave\n\tret\n"@)
}

/// What is written for a function that is declared and not defined.
#[verifier::opaque]
pub open spec fn forward_text(f: FuncModel, sys: Conventions) -> Seq<u8> {
    let name = symbol(f.name, sys.leading_underscore);
    bytes_of("# forward decl "@) + name + bytes_of("\n"@) + weak_line(
        f.attr.weak,
        sys.weak_directive_func,
        name,
    )
}

/// What is written for a function. One without a body is a comment, and
/// the directive for weak symbols if it is weak. One with a body is its
/// opening lines, its blocks in the order of [`FuncModel::traversal`], and
/// the exit block with the return.
pub open spec fn func_text(f: FuncModel, sys: Conventions, wide: bool) -> Result<Seq<u8>, EmitError> {
    if f.entry is None {
        Ok(forward_text(f, sys))
    } else if f.exit is None || f.exit->0 >= f.blocks.len() || f.blocks[f.exit->0 as int].label is None {
        Err(EmitError::NoExit)
    } else {
        let exit_label = f.blocks[f.exit->0 as int].label->0;
        let order = f.traversal();
        match blocks_text(f, order, exit_label, order.len()) {
            Err(e) => Err(e),
            Ok(body) => Ok(prologue(f, sys, wide) + body + epilogue(exit_label)),
        }
    }
}

/// Writes one instruction.
fn push_isn(out: &mut Vec<u8>, f: &Func<'_>, isn: &IsnKind, exit_label: &str) -> (r: Result<
    (),
    EmitError,
>)
    ensures
        match r {
            Ok(_) => isn_text(f@, isn@, exit_label@) is Ok && final(out)@ == old(out)@ + isn_text(
                f@,
                isn@,
                exit_label@,
            )->Ok_0,
            Err(e) => isn_text(f@, isn@, exit_label@) == Err::<Seq<u8>, EmitError>(e) && e
                == EmitError::Unsupported,
        },
{
    match isn {
        IsnKind::Jmp { target } => {
            if *target >= f.block_count() {
                return Err(EmitError::Unsupported);
            }
            match f.block(*target).label() {
                Some(l) => {
                    push_str(out, "\tjmp ");
                    push_str(out, l.as_str());
                    push_str(out, "\n");
                    assert(out@ =~= old(out)@ + isn_text(f@, isn@, exit_label@)->Ok_0);
                    Ok(())
                },
                None => Err(EmitError::Unsupported),
            }
        },
        IsnKind::Ret { .. } => {
            push_str(out, "\tjmp ");
            push_str(out, exit_label);
            push_str(out, "\n");
            assert(out@ =~= old(out)@ + isn_text(f@, isn@, exit_label@)->Ok_0);
            Ok(())
        },
        IsnKind::Asm { text } => {
            push_str(out, "\t");
            let ghost head = out@;
            let mut i: usize = 0;
            while i < text.len()
                invariant
                    i <= text@.len(),
                    out@ == head + text@.subrange(0, i as int),
                decreases text@.len() - i,
            {
                out.push(text[i]);
                i += 1;
                assert(out@ =~= head + text@.subrange(0, i as int));
            }
            assert(text@.subrange(0, text@.len() as int) =~= text@);
            push_str(out, "\n");
            assert(out@ =~= old(out)@ + isn_text(f@, isn@, exit_label@)->Ok_0);
            Ok(())
        },
        IsnKind::Alloca { .. } | IsnKind::Label { .. } | IsnKind::Memcpy { .. } => {
            assert(out@ =~= old(out)@ + Seq::<u8>::empty());
            Ok(())
        },
        _ => Err(EmitError::Unsupported),
    }
}

/// Writes a block.
fn push_block(out: &mut Vec<u8>, f: &Func<'_>, blk: BlockId, exit_label: &str) -> (r: Result<
    (),
    EmitError,
>)
    requires
        blk < f@.blocks.len(),
    ensures
        match r {
            Ok(_) => block_text(f@, blk, exit_label@) is Ok && final(out)@ == old(out)@ + block_text(
                f@,
                blk,
                exit_label@,
            )->Ok_0,
            Err(e) => block_text(f@, blk, exit_label@) == Err::<Seq<u8>, EmitError>(e) && e
                == EmitError::Unsupported,
        },
{
    let block = f.block(blk);
    match block.label() {
        Some(l) => {
            push_str(out, l.as_str());
            push_str(out, ":\n");
        },
        None => {},
    }
    assert(out@ =~= old(out)@ + block_label_line(f@.blocks[blk as int].label));
    let ghost head = out@;
    let isns = block.isns();
    let mut k: usize = 0;
    assert(out@ =~= head + Seq::<u8>::empty());
    while k < isns.len()
        invariant
            k <= isns@.len(),
            blk < f@.blocks.len(),
            crate::isn::isn_models(isns@) == f@.blocks[blk as int].isns,
            isns_text(f@, blk, exit_label@, k as nat) is Ok,
            out@ == head + isns_text(f@, blk, exit_label@, k as nat)->Ok_0,
        decreases isns@.len() - k,
    {
        assert(f@.blocks[blk as int].isns[k as int] == isns@[k as int]@);
        match push_isn(out, f, &isns[k].kind, exit_label) {
            Ok(()) => {},
            Err(e) => {
                proof {
                    lemma_isns_text_err(f@, blk, exit_label@, (k + 1) as nat, isns@.len() as nat);
                }
                return Err(e);
            },
        }
        k += 1;
        assert(out@ =~= head + isns_text(f@, blk, exit_label@, k as nat)->Ok_0);
    }
    assert(out@ =~= old(out)@ + block_text(f@, blk, exit_label@)->Ok_0);
    Ok(())
}

/// A fault among the first instructions is the fault of them all.
proof fn lemma_isns_text_err(f: FuncModel, blk: BlockId, exit_label: Seq<char>, k: nat, n: nat)
    requires
        k <= n,
        isns_text(f, blk, exit_label, k) is Err,
    ensures
        isns_text(f, blk, exit_label, n) == isns_text(f, blk, exit_label, k),
    decreases n - k,
{
    if k < n {
        lemma_isns_text_err(f, blk, exit_label, k, (n - 1) as nat);
    }
}

/// A fault among the first blocks is the fault of them all.
proof fn lemma_blocks_text_err(
    f: FuncModel,
    order: Seq<BlockId>,
    exit_label: Seq<char>,
    k: nat,
    n: nat,
)
    requires
        k <= n <= order.len(),
        blocks_text(f, order, exit_label, k) is Err,
    ensures
        blocks_text(f, order, exit_label, n) == blocks_text(f, order, exit_label, k),
    decreases n - k,
{
    if k < n {
        lemma_blocks_text_err(f, order, exit_label, k, (n - 1) as nat);
    }
}

/// Writes the lines that set up a frame.
fn push_frame(out: &mut Vec<u8>, stack: u32, wide: bool)
    ensures
        final(out)@ == old(out)@ + frame(stack as nat, wide),
{
    reveal(frame);
    if wide {
        push_str(out, "\tpush %rbp\n\tmov %rsp, %rbp\n");
    } else {
        push_str(out, "\tpush %ebp\n\tmov %esp, %ebp\n");
    }
    let ghost mid = out@;
    if stack != 0 {
        push_str(out, "\tsub $");
        push_dec(out, stack as u64);
        if wide {
            push_str(out, ", %rsp\n");
        } else {
            push_str(out, ", %esp\n");
        }
        assert(out@ =~= mid + (bytes_of("\tsub $"@) + dec(stack as nat) + (if wide {
            bytes_of(", %rsp\n"@)
        } else {
            bytes_of(", %esp\n"@)
        })));
    } else {
        assert(out@ =~= mid + Seq::<u8>::empty());
    }
    assert(out@ =~= old(out)@ + frame(stack as nat, wide));
}

/// Writes the lines that open a function.
fn push_prologue(out: &mut Vec<u8>, f: &Func<'_>, sys: &Sys, wide: bool)
    ensures
        final(out)@ == old(out)@ + prologue(f@, sys@, wide),
{
    reveal(prologue);
    let lead = sys.leading_underscore;
    push_str(out, ".text\n");
    push_globl(out, f.attr().internal, f.name(), lead);
    push_label(out, f.name(), lead);
    push_frame(out, f.get_stack_use(), wide);
    assert(out@ =~= old(out)@ + prologue(f@, sys@, wide));
}

/// Writes a function: see [`func_text`]. A function with a body must
/// have its exit block.
pub fn emit_func(f: &Func<'_>, sys: &Sys, wide: bool) -> (r: Result<Vec<u8>, EmitError>)
    ensures
        match r {
            Ok(out) => func_text(f@, sys@, wide) == Ok::<Seq<u8>, EmitError>(out@),
            Err(e) => func_text(f@, sys@, wide) == Err::<Seq<u8>, EmitError>(e) && (e
                == EmitError::Unsupported || e == EmitError::NoExit),
        },
{
    let mut out: Vec<u8> = Vec::new();
    let lead = sys.leading_underscore;
    if f.entry().is_none() {
        reveal(forward_text);
        push_str(&mut out, "# forward decl ");
        push_symbol(&mut out, f.name(), lead);
        push_str(&mut out, "\n");
        push_weak(&mut out, f.attr().weak, sys.weak_directive_func, f.name(), lead);
        assert(out@ =~= forward_text(f@, sys@));
        return Ok(out);
    }
    let exit = match f.exit() {
        Some(x) => x,
        None => {
            return Err(EmitError::NoExit);
        },
    };
    if exit >= f.block_count() {
        return Err(EmitError::NoExit);
    }
    let exit_label = match f.block(exit).label() {
        Some(l) => l.as_str(),
        None => {
            return Err(EmitError::NoExit);
        },
    };
    push_prologue(&mut out, f, sys, wide);
    let ghost head = out@;
    let order = f.traverse();
    let mut k: usize = 0;
    assert(out@ =~= head + Seq::<u8>::empty());
    while k < order.len()
        invariant
            k <= order@.len(),
            order@ == f@.traversal(),
            forall|i: int| 0 <= i < order@.len() ==> #[trigger] order@[i] < f@.blocks.len(),
            f@.exit == Some(exit),
            f@.entry is Some,
            exit < f@.blocks.len(),
            f@.blocks[exit as int].label == Some(exit_label@),
            blocks_text(f@, order@, exit_label@, k as nat) is Ok,
            out@ == head + blocks_text(f@, order@, exit_label@, k as nat)->Ok_0,
        decreases order@.len() - k,
    {
        if order[k] != exit {
            match push_block(&mut out, f, order[k], exit_label) {
                Ok(()) => {},
                Err(e) => {
                    proof {
                        lemma_blocks_text_err(
                            f@,
                            order@,
                            exit_label@,
                            (k + 1) as nat,
                            order@.len() as nat,
                        );
                    }
                    return Err(e);
                },
            }
        }
        k += 1;
        assert(out@ =~= head + blocks_text(f@, order@, exit_label@, k as nat)->Ok_0);
    }
    let ghost body = out@;
    reveal(epilogue);
    push_str(&mut out, exit_label);
    push_str(&mut out, ":\n\tleave\n\tret\n");
    assert(out@ =~= body + epilogue(exit_label@));
    assert(out@ =~= func_text(f@, sys@, wide)->Ok_0);
    Ok(out)
}

/// What is written for a global: nothing for a type.
pub open spec fn global_text(g: GlobalModel, sys: Conventions, wide: bool) -> Result<
    Seq<u8>,
    EmitError,
> {
    match g {
        GlobalModel::Type { .. } => Ok(Seq::empty()),
        GlobalModel::Var(v) => Ok(var_text(v, sys)),
        GlobalModel::Func(f) => func_text(f, sys, wide),
    }
}

/// Whether the global is a function with a body that has no exit block yet.
pub open spec fn wants_exit(g: GlobalModel) -> bool {
    g is Func && g->Func_0.entry is Some && g->Func_0.exit is None
}

/// The global as it is written: a function with a body that has no exit
/// block gets one, a new last block under the private label that takes
/// the number `counter`. Any other global is written as it is.
pub open spec fn with_exit(g: GlobalModel, prefix: Seq<char>, counter: u32) -> GlobalModel {
    if wants_exit(g) {
        let f = g->Func_0;
        GlobalModel::Func(
            FuncModel {
                exit: Some(f.blocks.len() as usize),
                ..f.with_new_block(
                    BlockModel::fresh(Some(prefix + decimal(counter as nat)), BlockKind::Unknown),
                )
            },
        )
    } else {
        g
    }
}

/// Whether the global is a variable whose initialiser cannot be written.
pub open spec fn unwritable(g: GlobalModel) -> bool {
    g is Var && g->Var_0.init is Some && !writable(g->Var_0.init->0.init, g->Var_0.ty)
}

/// Writes a global for `target`. A function with a body gets its exit
/// block first, under a private label that takes the number `counter`,
/// which then goes up by one. Where no label is left for the exit block,
/// nothing changes and nothing is written. Nothing is written either for
/// a variable whose initialiser fills more room than can be counted, or
/// for a function that holds an instruction without assembly.
pub fn emit(g: &mut Global<'_>, target: &Target, counter: &mut u32) -> (r: Result<
    Vec<u8>,
    EmitError,
>)
    requires
        old(g).wf(),
    ensures
        final(g).wf(),
        wants_exit(old(g)@) && *old(counter) == u32::MAX ==> {
            &&& r == Err::<Vec<u8>, EmitError>(EmitError::NoLabel)
            &&& final(g)@ == old(g)@
            &&& *final(counter) == *old(counter)
        },
        !(wants_exit(old(g)@) && *old(counter) == u32::MAX) ==> {
            &&& final(g)@ == with_exit(old(g)@, target.sys.lbl_priv_prefix@, *old(counter))
            &&& *final(counter) == if wants_exit(old(g)@) {
                (*old(counter) + 1) as u32
            } else {
                *old(counter)
            }
            &&& if unwritable(old(g)@) {
                r == Err::<Vec<u8>, EmitError>(EmitError::Unsized)
            } else {
                match global_text(final(g)@, target.sys@, target.arch.ptr.size == 8) {
                    Ok(text) => r is Ok && r->Ok_0@ == text,
                    Err(e) => r == Err::<Vec<u8>, EmitError>(e),
                }
            }
        },
{
    let wide = target.arch.ptr.size == 8;
    if !is_func(g) {
        return emit_data(g, &target.sys, wide);
    }
    match g {
        Global::Func(f) => {
            if f.entry().is_some() {
                if f.exit().is_none() && *counter == u32::MAX {
                    return Err(EmitError::NoLabel);
                }
                let _ = f.exit_block(target.sys.lbl_priv_prefix, counter);
            }
            emit_func(f, &target.sys, wide)
        },
        _ => Err(EmitError::Unsupported),
    }
}

/// Whether the global is a function.
fn is_func(g: &Global<'_>) -> (r: bool)
    ensures
        r == (g@ is Func),
{
    match g {
        Global::Func(_) => true,
        _ => false,
    }
}

/// Writes a global that is no function.
fn emit_data(g: &Global<'_>, sys: &Sys, wide: bool) -> (r: Result<Vec<u8>, EmitError>)
    requires
        g.wf(),
        !(g@ is Func),
    ensures
        match r {
            Ok(out) => global_text(g@, sys@, wide) == Ok::<Seq<u8>, EmitError>(out@),
            Err(e) => e == EmitError::Unsized,
        },
        r is Err <==> g@ is Var && g@->Var_0.init is Some && !writable(
            g@->Var_0.init->0.init,
            g@->Var_0.ty,
        ),
{
    match g {
        Global::Var(v) => emit_var(v, sys),
        _ => {
            let out: Vec<u8> = Vec::new();
            assert(out@ =~= Seq::<u8>::empty());
            Ok(out)
        },
    }
}

} // verus!
