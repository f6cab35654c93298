//! Reading the statements of a function.

use vstd::prelude::*;

use crate::func::{Func, FuncModel};
use crate::isn::{BlockId, IsnKind, IsnKindModel};
use crate::parse::{Out, PErr, PResult, PState, ParseError, Parser, SemaKind};
use crate::parse::body::{Body, BodyOut, ValOpts};
use crate::size_align::SizeAlign;
use crate::text::{concat, concat3, decimal, push_decimal};
use crate::token::{Cmp, Keyword, Op, Punctuation, Tok, Token};
use crate::ty::{Primitive, Ty, Type, TypeQueries, TypeS, lemma_parts_wf, model_of, models};
use crate::val::ValId;

verus! {

impl Body {
    /// The statement `ret` behind its keyword: the value returned, which
    /// must be of a type that the function can return.
    #[verifier::opaque]
    pub open spec fn ret(self) -> BodyOut<()> {
        let v = self.val();
        match v.res {
            Err(e) => v.b.fail(e),
            Ok(id) => {
                let expected = self.f.ty->Func_ret;
                v.b.sema_if(
                    !v.b.f.vals[id as int].ty.can_return_to(*expected),
                    SemaKind::ReturnTypeMismatch,
                    Seq::empty(),
                ).emit(IsnKindModel::Ret { val: id }).done(())
            },
        }
    }

    /// A label behind its colon. The label names a block, which is made
    /// where the label is new. A block in hand jumps to it. The block is in
    /// hand from now on, unless it was written before, which is a fault, or
    /// has just been ended by a jump to itself.
    #[verifier::opaque]
    pub open spec fn label(self, ident: Seq<char>) -> Body {
        let this = self.f.labelled(ident);
        let dup = self.f.block_named(ident) is Some && self.f.blocks[this as int].isns.len() > 0;
        let b = Body { f: self.f.with_label(ident), ..self }.sema_if(
            dup,
            SemaKind::BlockExists,
            ident,
        ).emit(IsnKindModel::Jmp { target: this });
        Body {
            cur: if dup || !b.f.blocks[this as int].kind.open_ended() {
                None
            } else {
                Some(this)
            },
            ..b
        }
    }
}

impl Body {
    /// The statement `jmp` behind its keyword: a label to jump to, or `*`
    /// and a value that holds the address of a block.
    #[verifier::opaque]
    pub open spec fn jmp(self) -> BodyOut<()> {
        let star = self.st.accept(Tok::Punctuation(Punctuation::Star));
        match star.res {
            Err(e) => self.with_st(star.st).fail(e),
            Ok(true) => {
                let v = self.with_st(star.st).val();
                match v.res {
                    Err(e) => v.b.fail(e),
                    Ok(target) => v.b.emit(IsnKindModel::JmpComputed { target }).done(()),
                }
            },
            Ok(false) => {
                let l = star.st.expect_ident("jmp label"@);
                match l.res {
                    Err(e) => self.with_st(l.st).fail(e),
                    Ok(lbl) => self.with_st(l.st).with_label(lbl).emit(
                        IsnKindModel::Jmp { target: self.f.labelled(lbl) },
                    ).done(()),
                }
            },
        }
    }

    /// The statement `br` behind its keyword: a condition, which must be an
    /// `i1`, the label to go to where it holds, and the label to go to
    /// where it does not.
    #[verifier::opaque]
    pub open spec fn br(self) -> BodyOut<()> {
        let v = self.val();
        match v.res {
            Err(e) => v.b.fail(e),
            Ok(cond) => {
                let b = v.b.sema_if(
                    v.b.ty_of(cond).as_primitive() != Some(Primitive::I1),
                    SemaKind::BrNotI1,
                    Seq::empty(),
                );
                let t = b.st.comma_ident("br true"@);
                match t.res {
                    Err(e) => b.with_st(t.st).fail(e),
                    Ok(ltrue) => {
                        let e = t.st.comma_ident("br false"@);
                        match e.res {
                            Err(err) => b.with_st(e.st).fail(err),
                            Ok(lfalse) => {
                                let b1 = b.with_st(e.st).with_label(ltrue);
                                let b2 = b1.with_label(lfalse);
                                b2.emit(
                                    IsnKindModel::Br {
                                        cond,
                                        t: b.f.labelled(ltrue),
                                        f: b1.f.labelled(lfalse),
                                    },
                                ).done(())
                            },
                        }
                    },
                }
            },
        }
    }

    /// The statement `store` behind its keyword: a pointer and the value to
    /// write through it, which must be of the type pointed to.
    #[verifier::opaque]
    pub open spec fn store(self) -> BodyOut<()> {
        let p = self.val_pair();
        match p.res {
            Err(e) => p.b.fail(e),
            Ok((lval, rval)) => p.b.sema_if(
                match p.b.ty_of(lval).deref() {
                    Some(t) => !t.equal(p.b.ty_of(rval)),
                    None => true,
                },
                SemaKind::StoreMismatch,
                Seq::empty(),
            ).emit(IsnKindModel::Store { from: rval, to: lval }).done(()),
        }
    }

    /// The statement `memcpy` behind its keyword: where to copy to and
    /// where from, two pointers of one type.
    #[verifier::opaque]
    pub open spec fn memcpy(self) -> BodyOut<()> {
        let p = self.val_pair();
        match p.res {
            Err(e) => p.b.fail(e),
            Ok((dst, src)) => {
                let same = p.b.ty_of(dst).equal(p.b.ty_of(src));
                p.b.sema_if(!same, SemaKind::MemcpyMismatch, Seq::empty()).sema_if(
                    same && p.b.ty_of(dst).deref() is None,
                    SemaKind::MemcpyNotPointer,
                    Seq::empty(),
                ).emit(IsnKindModel::Memcpy { dst, src }).done(())
            },
        }
    }

    /// The statement `asm` behind its keyword: a string, which goes into
    /// the assembly as it is.
    #[verifier::opaque]
    pub open spec fn asm_stmt(self) -> BodyOut<()> {
        let n = self.st.next();
        match n.res {
            Err(e) => self.with_st(n.st).fail(e),
            Ok(Tok::String(text)) => self.with_st(n.st).emit(IsnKindModel::Asm { text }).done(()),
            Ok(tok) => self.with_st(n.st).fail(PErr::Expected("asm string"@, tok)),
        }
    }

    /// The statement `label` behind its keyword: a name, which from now on
    /// means the address of the block of that name, a pointer to void.
    #[verifier::opaque]
    pub open spec fn label_decl(self) -> BodyOut<()> {
        let l = self.st.expect_ident("label decl"@);
        match l.res {
            Err(e) => self.with_st(l.st).fail(e),
            Ok(lbl) => {
                let v = self.with_st(l.st).uniq_val(
                    lbl,
                    Some(Ty::Ptr { pointee: Box::new(Ty::Void), sz: self.st.ptr }),
                    ValOpts { create: true, alloca: false, label: true },
                );
                match v.res {
                    Err(e) => v.b.fail(e),
                    Ok(val) => v.b.emit(IsnKindModel::Label { val }).with_label(lbl).done(()),
                }
            },
        }
    }
}

impl PState {
    /// A comma and a `$` identifier; `desc` says what the identifier is for.
    pub open spec fn comma_ident(self, desc: Seq<char>) -> Out<Seq<char>> {
        let c = self.eat(Tok::Punctuation(Punctuation::Comma));
        match c.res {
            Err(e) => c.st.fail(e),
            Ok(_) => c.st.expect_ident(desc),
        }
    }
}

/// The integer that is as wide as a pointer of the size `ptr`.
pub open spec fn sizet(ptr: SizeAlign) -> Primitive {
    if ptr.size == 1 {
        Primitive::I1
    } else if ptr.size == 2 {
        Primitive::I2
    } else if ptr.size == 4 {
        Primitive::I4
    } else {
        Primitive::I8
    }
}

/// Whether a value of the type `t` is as wide as a pointer of the size `ptr`.
pub open spec fn pointer_sized(ptr: SizeAlign, t: Ty) -> bool {
    t.known_size() == Some(sizet(ptr).width())
}

/// Whether the type stands for an integer.
pub open spec fn is_int(t: Ty) -> bool {
    match t.as_primitive() {
        Some(p) => p.integral(),
        None => false,
    }
}

/// Whether the type stands for a number, whole or not.
pub open spec fn is_number(t: Ty) -> bool {
    t.as_primitive() is Some
}

/// The type that stands in where one was refused.
pub open spec fn default_ty() -> Ty {
    Ty::Primitive(Primitive::I4)
}

/// The ways to change the width of an integer.
#[derive(Clone, Copy, Debug, PartialEq, Eq, Structural)]
pub enum ExtKind {
    Zext,
    Sext,
    Trunc,
}

/// The ways to take a value for one of another type.
#[derive(Clone, Copy, Debug, PartialEq, Eq, Structural)]
pub enum CastKind {
    Ptr2Int,
    Int2Ptr,
    Ptrcast,
}

impl Body {
    /// `spel = load p`: what `p` points to, which is no array.
    #[verifier::opaque]
    pub open spec fn load(self, spel: Seq<char>) -> BodyOut<()> {
        let v = self.val();
        match v.res {
            Err(e) => v.b.fail(e),
            Ok(from) => {
                let d = v.b.ty_of(from).deref();
                let of_array = d is Some && d->0.array_elem() is Some;
                let b = v.b.sema_if(d is None, SemaKind::LoadNotPointer, Seq::empty()).sema_if(
                    of_array,
                    SemaKind::LoadOfArray,
                    Seq::empty(),
                );
                let ty = if d is None || of_array {
                    default_ty()
                } else {
                    d->0
                };
                let o = b.define(spel, ty, false);
                match o.res {
                    Err(e) => o.b.fail(e),
                    Ok(to) => o.b.emit(IsnKindModel::Load { to, from }).done(()),
                }
            },
        }
    }

    /// `spel = alloca t`: room on the stack for a value of the type `t`,
    /// which is no function; `spel` points to it.
    #[verifier::opaque]
    pub open spec fn alloca(self, spel: Seq<char>) -> BodyOut<()> {
        let t = self.st.ty();
        match t.res {
            Err(e) => self.with_st(t.st).fail(e),
            Ok(ty) => {
                let is_fn = ty.resolved() is Func;
                let b = self.with_st(t.st).sema_if(is_fn, SemaKind::AllocaOfFunction, Seq::empty());
                let ty = if is_fn {
                    default_ty()
                } else {
                    ty
                };
                let o = b.define(spel, b.ptr_to(ty), true);
                match o.res {
                    Err(e) => o.b.fail(e),
                    Ok(out) => o.b.emit(IsnKindModel::Alloca { out }).done(()),
                }
            },
        }
    }

    /// The type of the element that `elem` finds in a value of the type
    /// `agg` at `index`: the element type of an array, or the member of a
    /// struct at a literal index, for which `i4` stands in where the struct
    /// has no such member. Anything else has no elements.
    pub open spec fn elem_ty(f: FuncModel, agg: Ty, index: ValId) -> Option<Ty> {
        match agg.array_elem() {
            Some(t) => Some(t),
            None => match (agg.resolved(), f.vals[index as int].kind) {
                (Ty::Struct { membs }, crate::val::ValKindModel::Literal(n)) => if 0 <= n
                    < membs.len() {
                    Some(membs[n as int])
                } else {
                    Some(default_ty())
                },
                _ => None,
            },
        }
    }

    /// Whether `elem` steps outside a struct: `agg` is a struct, `index` a
    /// literal, and the struct has no member at it.
    pub open spec fn elem_out_of_bounds(f: FuncModel, agg: Ty, index: ValId) -> bool {
        agg.array_elem() is None && match (agg.resolved(), f.vals[index as int].kind) {
            (Ty::Struct { membs }, crate::val::ValKindModel::Literal(n)) => !(0 <= n < membs.len()),
            _ => false,
        }
    }

    /// `spel = elem p, i`: the address of the element at `i` of the array
    /// or struct that `p` points to. The index is as wide as a pointer, and
    /// into a struct it is a literal.
    #[verifier::opaque]
    pub open spec fn elem(self, spel: Seq<char>) -> BodyOut<()> {
        let p = self.val_pair();
        match p.res {
            Err(e) => p.b.fail(e),
            Ok((base, index)) => {
                let d = p.b.ty_of(base).deref();
                let agg = match d {
                    Some(t) => t,
                    None => Ty::Array { elem: Box::new(default_ty()), n: 1 },
                };
                let found = Self::elem_ty(p.b.f, agg, index);
                let b = p.b.sema_if(d is None, SemaKind::ElemNotPointer, Seq::empty()).sema_if(
                    Self::elem_out_of_bounds(p.b.f, agg, index),
                    SemaKind::ElemOutOfBounds,
                    Seq::empty(),
                ).sema_if(found is None, SemaKind::ElemNotAggregate, Seq::empty()).sema_if(
                    !pointer_sized(p.b.st.ptr, p.b.ty_of(index)),
                    SemaKind::ElemIndexSize,
                    Seq::empty(),
                );
                let ty = match found {
                    Some(t) => t,
                    None => default_ty(),
                };
                let o = b.define(spel, b.ptr_to(ty), false);
                match o.res {
                    Err(e) => o.b.fail(e),
                    Ok(out) => o.b.emit(IsnKindModel::Elem { base, index, out }).done(()),
                }
            },
        }
    }

    /// `spel = ptradd p, n` and `spel = ptrsub p, q`: a pointer moved by a
    /// number as wide as a pointer, and the distance between two pointers
    /// of one type. Neither is done to pointers to void.
    #[verifier::opaque]
    pub open spec fn ptr_arith(self, spel: Seq<char>, add: bool) -> BodyOut<()> {
        let p = self.val_pair();
        match p.res {
            Err(e) => p.b.fail(e),
            Ok((lhs, rhs)) => {
                let l = p.b.ty_of(lhs);
                let r = p.b.ty_of(rhs);
                let d = l.deref();
                let b = p.b.sema_if(d is None, SemaKind::PtrArithNotPointer, Seq::empty()).sema_if(
                    add && !is_int(r),
                    SemaKind::PtraddNotInteger,
                    Seq::empty(),
                ).sema_if(add && !pointer_sized(p.b.st.ptr, r), SemaKind::PtraddIndexSize, Seq::empty()).sema_if(
                    !add && !l.equal(r),
                    SemaKind::PtrsubMismatch,
                    Seq::empty(),
                ).sema_if(
                    d is Some && d->0.resolved() is Void,
                    SemaKind::PtrArithVoid,
                    Seq::empty(),
                );
                let ty = if add {
                    l
                } else {
                    Ty::Primitive(sizet(p.b.st.ptr))
                };
                let o = b.define(spel, ty, false);
                match o.res {
                    Err(e) => o.b.fail(e),
                    Ok(out) => o.b.emit(
                        if add {
                            IsnKindModel::Ptradd { lhs, rhs, out }
                        } else {
                            IsnKindModel::Ptrsub { lhs, rhs, out }
                        },
                    ).done(()),
                }
            },
        }
    }

    /// Whether the sizes of two types suit a change of width: to widen, the
    /// first is narrower than the second; to cut, it is wider.
    pub open spec fn widths_suit(kind: ExtKind, from: Ty, to: Ty) -> bool {
        match (from.known_size(), to.known_size()) {
            (Some(a), Some(b)) => if kind is Trunc {
                a > b
            } else {
                a < b
            },
            _ => false,
        }
    }

    /// `spel = zext t, v`, and the same with `sext` and `trunc`: the
    /// integer `v` made as wide as the integer type `t`.
    #[verifier::opaque]
    pub open spec fn ext(self, spel: Seq<char>, kind: ExtKind) -> BodyOut<()> {
        let t = self.st.ty();
        match t.res {
            Err(e) => self.with_st(t.st).fail(e),
            Ok(ty) => {
                let to_ty = if is_int(ty) {
                    ty
                } else {
                    Ty::Primitive(Primitive::I8)
                };
                let st = t.st.sema_if(!is_int(ty), SemaKind::ExtNotInteger, Seq::empty());
                let c = st.eat(Tok::Punctuation(Punctuation::Comma));
                match c.res {
                    Err(e) => self.with_st(c.st).fail(e),
                    Ok(_) => {
                        let v = self.with_st(c.st).val();
                        match v.res {
                            Err(e) => v.b.fail(e),
                            Ok(from) => {
                                let from_ty = v.b.ty_of(from);
                                let o = v.b.sema_if(
                                    !is_int(from_ty),
                                    SemaKind::ExtArgNotInteger,
                                    Seq::empty(),
                                ).define(spel, to_ty, false);
                                match o.res {
                                    Err(e) => o.b.fail(e),
                                    Ok(to) => o.b.sema_if(
                                        !Self::widths_suit(kind, from_ty, to_ty),
                                        SemaKind::ExtSizes,
                                        Seq::empty(),
                                    ).emit(
                                        match kind {
                                            ExtKind::Zext => IsnKindModel::Zext { from, to },
                                            ExtKind::Sext => IsnKindModel::Sext { from, to },
                                            ExtKind::Trunc => IsnKindModel::Trunc { from, to },
                                        },
                                    ).done(()),
                                }
                            },
                        }
                    },
                }
            },
        }
    }

    /// `spel = ptr2int t, v`, and the same with `int2ptr` and `ptrcast`:
    /// the value `v` taken for one of the type `t`, an integer type for
    /// `ptr2int` and a pointer type for the others.
    #[verifier::opaque]
    pub open spec fn cast(self, spel: Seq<char>, kind: CastKind) -> BodyOut<()> {
        let t = self.st.ty();
        match t.res {
            Err(e) => self.with_st(t.st).fail(e),
            Ok(ty) => {
                let suits = if kind is Ptr2Int {
                    is_int(ty)
                } else {
                    ty.deref() is Some
                };
                let st = t.st.sema_if(!suits, SemaKind::CastType, Seq::empty());
                let c = st.eat(Tok::Punctuation(Punctuation::Comma));
                match c.res {
                    Err(e) => self.with_st(c.st).fail(e),
                    Ok(_) => {
                        let v = self.with_st(c.st).val();
                        match v.res {
                            Err(e) => v.b.fail(e),
                            Ok(from) => {
                                let o = v.b.define(spel, ty, false);
                                match o.res {
                                    Err(e) => o.b.fail(e),
                                    Ok(to) => o.b.emit(
                                        match kind {
                                            CastKind::Ptr2Int => IsnKindModel::Ptr2Int { from, to },
                                            CastKind::Int2Ptr => IsnKindModel::Int2Ptr { from, to },
                                            CastKind::Ptrcast => IsnKindModel::Ptrcast { from, to },
                                        },
                                    ).done(()),
                                }
                            },
                        }
                    },
                }
            },
        }
    }

    /// `spel = add a, b`, and the same with the other operators: the
    /// operands are two numbers of one type, but that a shift takes any.
    #[verifier::opaque]
    pub open spec fn op(self, spel: Seq<char>, op: Op) -> BodyOut<()> {
        let p = self.val_pair();
        match p.res {
            Err(e) => p.b.fail(e),
            Ok((lhs, rhs)) => {
                let l = p.b.ty_of(lhs);
                let shift = op == Op::Shiftl || op == Op::ShiftRLogic || op == Op::ShiftRArith;
                let o = p.b.sema_if(
                    !shift && !(is_number(l) && l.equal(p.b.ty_of(rhs))),
                    SemaKind::OpTypes,
                    Seq::empty(),
                ).define(spel, l, false);
                match o.res {
                    Err(e) => o.b.fail(e),
                    Ok(res) => o.b.emit(IsnKindModel::Op { op, lhs, rhs, res }).done(()),
                }
            },
        }
    }

    /// `spel = eq a, b`, and the same with the other comparisons: the
    /// operands are of one type, and the result is an `i1`.
    #[verifier::opaque]
    pub open spec fn compare(self, spel: Seq<char>, rel: Cmp) -> BodyOut<()> {
        let p = self.val_pair();
        match p.res {
            Err(e) => p.b.fail(e),
            Ok((lhs, rhs)) => {
                let o = p.b.sema_if(
                    !p.b.ty_of(lhs).equal(p.b.ty_of(rhs)),
                    SemaKind::CmpMismatch,
                    Seq::empty(),
                ).define(spel, Ty::Primitive(Primitive::I1), false);
                match o.res {
                    Err(e) => o.b.fail(e),
                    Ok(res) => o.b.emit(IsnKindModel::Cmp { rel, lhs, rhs, res }).done(()),
                }
            },
        }
    }

    /// `spel = $from`: a copy of the value named `from`.
    #[verifier::opaque]
    pub open spec fn copy(self, spel: Seq<char>, from_name: Seq<char>) -> BodyOut<()> {
        let v = self.uniq_val(
            from_name,
            None,
            ValOpts { create: false, alloca: false, label: false },
        );
        match v.res {
            Err(e) => v.b.fail(e),
            Ok(from) => {
                let o = v.b.define(spel, v.b.ty_of(from), false);
                match o.res {
                    Err(e) => o.b.fail(e),
                    Ok(to) => o.b.emit(IsnKindModel::Copy { from, to }).done(()),
                }
            },
        }
    }

    /// The function type behind the value called: what a pointer to a
    /// function points to.
    pub open spec fn callee_ty(self, target: ValId) -> Option<Ty> {
        match self.ty_of(target).deref() {
            Some(p) => if p.resolved() is Func {
                Some(p.resolved())
            } else {
                None
            },
            None => None,
        }
    }

    /// `spel = call f(a, ...)`: `f` is a pointer to a function, and the
    /// arguments are of the types of its parameters, as many as it has or,
    /// for a variadic function, more. A struct is returned into room on the
    /// stack that `spel` points to.
    #[verifier::opaque]
    pub open spec fn call(self, spel: Seq<char>) -> BodyOut<()> {
        let v = self.val();
        match v.res {
            Err(e) => v.b.fail(e),
            Ok(callee) => {
                let fnty = v.b.callee_ty(callee);
                let retty = match fnty {
                    Some(f) => *f->Func_ret,
                    None => default_ty(),
                };
                let stret = retty.resolved() is Struct;
                let b = v.b.sema_if(fnty is None, SemaKind::CallNotFunction, Seq::empty());
                let o = b.define(
                    spel,
                    if stret {
                        b.ptr_to(retty)
                    } else {
                        retty
                    },
                    stret,
                );
                match o.res {
                    Err(e) => o.b.fail(e),
                    Ok(into) => {
                        let open = o.b.st.eat(Tok::Punctuation(Punctuation::LParen));
                        match open.res {
                            Err(e) => o.b.with_st(open.st).fail(e),
                            Ok(_) => {
                                let a = o.b.with_st(open.st).call_args(fnty, Seq::empty());
                                match a.res {
                                    Err(e) => a.b.fail(e),
                                    Ok(args) => a.b.sema_if(
                                        fnty is Some && args.len() < fnty->0->Func_args.len(),
                                        SemaKind::CallTooFewArgs,
                                        Seq::empty(),
                                    ).emit(IsnKindModel::Call { into, callee, args }).done(()),
                                }
                            },
                        }
                    },
                }
            },
        }
    }

    /// The arguments of a call behind those in `args`, up to the closing
    /// bracket, with commas between them.
    #[verifier::opaque]
    pub open spec fn call_args(self, fnty: Option<Ty>, args: Seq<ValId>) -> BodyOut<Seq<ValId>>
        decreases self.st.weight(),
    {
        let close = self.st.accept(Tok::Punctuation(Punctuation::RParen));
        match close.res {
            Err(e) => self.with_st(close.st).fail(e),
            Ok(true) => self.with_st(close.st).done(args),
            Ok(false) => {
                let comma = if args.len() == 0 {
                    close.st.done(())
                } else {
                    close.st.eat(Tok::Punctuation(Punctuation::Comma))
                };
                match comma.res {
                    Err(e) => self.with_st(comma.st).fail(e),
                    Ok(_) => {
                        let v = self.with_st(comma.st).val();
                        match v.res {
                            Err(e) => v.b.fail(e),
                            Ok(arg) => {
                                let b = v.b.arg_checked(fnty, args.len(), arg);
                                if b.st.weight() < self.st.weight() {
                                    b.call_args(fnty, args.push(arg))
                                } else {
                                    b.fail(PErr::UnexpectedEof)
                                }
                            },
                        }
                    },
                }
            },
        }
    }

    /// The faults of the argument `arg` at the place `i` of a call of a
    /// function of the type `fnty`: it is not of the type of the parameter,
    /// or the function has no parameter there and is not variadic.
    pub open spec fn arg_checked(self, fnty: Option<Ty>, i: nat, arg: ValId) -> Body {
        match fnty {
            None => self,
            Some(f) => if i < f->Func_args.len() {
                self.sema_if(
                    f->Func_args[i as int] != self.ty_of(arg),
                    SemaKind::CallArgMismatch,
                    decimal(i + 1),
                )
            } else {
                self.sema_if(!f->Func_variadic, SemaKind::CallTooManyArgs, Seq::empty())
            },
        }
    }

    /// A definition behind the name that it defines: `=`, and what the
    /// value is made by.
    #[verifier::opaque]
    pub open spec fn assign(self, spel: Seq<char>) -> BodyOut<()> {
        let e = self.st.eat(Tok::Punctuation(Punctuation::Equal));
        match e.res {
            Err(err) => self.with_st(e.st).fail(err),
            Ok(_) => {
                let n = e.st.next();
                let b = self.with_st(n.st);
                match n.res {
                    Err(err) => b.fail(err),
                    Ok(tok) => match tok {
                        Tok::Keyword(Keyword::Load) => b.load(spel),
                        Tok::Keyword(Keyword::Alloca) => b.alloca(spel),
                        Tok::Keyword(Keyword::Elem) => b.elem(spel),
                        Tok::Keyword(Keyword::Ptradd) => b.ptr_arith(spel, true),
                        Tok::Keyword(Keyword::Ptrsub) => b.ptr_arith(spel, false),
                        Tok::Keyword(Keyword::Zext) => b.ext(spel, ExtKind::Zext),
                        Tok::Keyword(Keyword::Sext) => b.ext(spel, ExtKind::Sext),
                        Tok::Keyword(Keyword::Trunc) => b.ext(spel, ExtKind::Trunc),
                        Tok::Keyword(Keyword::Ptr2int) => b.cast(spel, CastKind::Ptr2Int),
                        Tok::Keyword(Keyword::Int2ptr) => b.cast(spel, CastKind::Int2Ptr),
                        Tok::Keyword(Keyword::Ptrcast) => b.cast(spel, CastKind::Ptrcast),
                        Tok::Keyword(Keyword::Call) => b.call(spel),
                        Tok::Op(o) => b.op(spel, o),
                        Tok::Cmp(c) => b.compare(spel, c),
                        Tok::Identifier(from) => b.copy(spel, from),
                        _ => b.fail(
                            PErr::Generic(
                                "expected load, alloca, elem or operator (got "@ + tok.desc() + ")"@,
                            ),
                        ),
                    },
                }
            },
        }
    }

    /// One statement, or a label. At the end of the text there is nothing
    /// to read, and nothing is read.
    #[verifier::opaque]
    pub open spec fn stmt(self) -> BodyOut<()> {
        let n = self.st.next();
        let b = self.with_st(n.st);
        match n.res {
            Err(e) => b.fail(e),
            Ok(tok) => match tok {
                Tok::Eof => b.done(()),
                Tok::Keyword(Keyword::Ret) => b.ret(),
                Tok::Identifier(ident) => {
                    let c = n.st.accept(Tok::Punctuation(Punctuation::Colon));
                    match c.res {
                        Err(e) => self.with_st(c.st).fail(e),
                        Ok(true) => self.with_st(c.st).label(ident).done(()),
                        Ok(false) => self.with_st(c.st).assign(ident),
                    }
                },
                Tok::Keyword(Keyword::Jmp) => b.jmp(),
                Tok::Keyword(Keyword::Br) => b.br(),
                Tok::Keyword(Keyword::Store) => b.store(),
                Tok::Keyword(Keyword::Label) => b.label_decl(),
                Tok::Keyword(Keyword::Asm) => b.asm_stmt(),
                Tok::Keyword(Keyword::Memcpy) => b.memcpy(),
                _ => b.fail(PErr::Generic("unexpected token "@ + tok.desc())),
            },
        }
    }
}

impl<'t> Parser<'t> {
    /// A comma and a `$` identifier.
    pub(crate) fn comma_ident(&mut self, desc: &'static str) -> (r: PResult<String>)
        requires
            old(self).wf(),
        ensures
            final(self).furthers(*old(self)),
            final(self).wf(),
            final(self).names2vals == old(self).names2vals,
            final(self)@ == old(self)@.comma_ident(desc@).st,
            match r {
                Ok(v) => old(self)@.comma_ident(desc@).res == Ok::<Seq<char>, PErr>(v@),
                Err(e) => old(self)@.comma_ident(desc@).res == Err::<Seq<char>, PErr>(e@),
            },
            final(self).unit == old(self).unit,
            final(self)@.weight() <= old(self)@.weight(),
    {
        self.eat(Token::Punctuation(Punctuation::Comma))?;
        self.expect_ident(desc)
    }

    /// The statement `ret` behind its keyword.
    pub fn parse_ret(&mut self, func: &mut Func<'t>, block: &mut Option<BlockId>) -> (r: PResult<()>)
        requires
            old(self).wf(),
            old(self).body(old(func), *old(block)).wf(),
        ensures
            final(func)@.ty == old(func)@.ty,
            final(self).furthers(*old(self)),
            final(self).wf(),
            final(self).body(final(func), *final(block)).wf(),
            ({
                let o = old(self).body(old(func), *old(block)).ret();
                &&& o.b == final(self).body(final(func), *final(block))
                &&& match r {
                    Ok(_) => o.res is Ok,
                    Err(e) => o.res is Err && o.res->Err_0 == e@,
                }
            }),
            final(self).unit.globals == old(self).unit.globals,
            final(self)@.weight() <= old(self)@.weight(),
            r is Ok ==> final(self)@.weight() < old(self)@.weight(),
    {
        reveal(Body::ret);
        let expected_ty = match func.ty() {
            TypeS::Func { ret, .. } => *ret,
            _ => func.ty(),
        };
        let v = self.parse_operand(func, block)?;
        if !func.val(v).ty().can_return_to(expected_ty) {
            self.sema_error(SemaKind::ReturnTypeMismatch, String::new());
        }
        self.emit(func, block, IsnKind::Ret { val: v });
        Ok(())
    }

    /// The statement `jmp` behind its keyword.
    pub(crate) fn parse_jmp(&mut self, func: &mut Func<'t>, block: &mut Option<BlockId>) -> (r: PResult<()>)
        requires
            old(self).wf(),
            old(self).body(old(func), *old(block)).wf(),
        ensures
            final(func)@.ty == old(func)@.ty,
            final(self).furthers(*old(self)),
            final(self).wf(),
            final(self).body(final(func), *final(block)).wf(),
            ({
                let o = old(self).body(old(func), *old(block)).jmp();
                &&& o.b == final(self).body(final(func), *final(block))
                &&& match r {
                    Ok(_) => o.res is Ok,
                    Err(e) => o.res is Err && o.res->Err_0 == e@,
                }
            }),
            final(self).unit.globals == old(self).unit.globals,
            final(self)@.weight() <= old(self)@.weight(),
    {
        reveal(Body::jmp);
        if self.accept(Token::Punctuation(Punctuation::Star))? {
            let target = self.parse_operand(func, block)?;
            self.emit(func, block, IsnKind::JmpComputed { target });
        } else {
            let lbl = self.expect_ident("jmp label")?;
            let target = self.find_block(func, block, lbl);
            self.emit(func, block, IsnKind::Jmp { target });
        }
        Ok(())
    }

    /// The statement `br` behind its keyword.
    pub(crate) fn parse_br(&mut self, func: &mut Func<'t>, block: &mut Option<BlockId>) -> (r: PResult<()>)
        requires
            old(self).wf(),
            old(self).body(old(func), *old(block)).wf(),
        ensures
            final(func)@.ty == old(func)@.ty,
            final(self).furthers(*old(self)),
            final(self).wf(),
            final(self).body(final(func), *final(block)).wf(),
            ({
                let o = old(self).body(old(func), *old(block)).br();
                &&& o.b == final(self).body(final(func), *final(block))
                &&& match r {
                    Ok(_) => o.res is Ok,
                    Err(e) => o.res is Err && o.res->Err_0 == e@,
                }
            }),
            final(self).unit.globals == old(self).unit.globals,
            final(self)@.weight() <= old(self)@.weight(),
    {
        reveal(Body::br);
        let cond = self.parse_operand(func, block)?;
        let is_i1 = match func.val(cond).ty().as_primitive() {
            Some(Primitive::I1) => true,
            _ => false,
        };
        if !is_i1 {
            self.sema_error(SemaKind::BrNotI1, String::new());
        }
        let ltrue = self.comma_ident("br true")?;
        let lfalse = self.comma_ident("br false")?;
        let t = self.find_block(func, block, ltrue);
        let f = self.find_block(func, block, lfalse);
        self.emit(func, block, IsnKind::Br { cond, t, f });
        Ok(())
    }

    /// The statement `store` behind its keyword.
    pub(crate) fn parse_store(&mut self, func: &mut Func<'t>, block: &mut Option<BlockId>) -> (r: PResult<()>)
        requires
            old(self).wf(),
            old(self).body(old(func), *old(block)).wf(),
        ensures
            final(func)@.ty == old(func)@.ty,
            final(self).furthers(*old(self)),
            final(self).wf(),
            final(self).body(final(func), *final(block)).wf(),
            ({
                let o = old(self).body(old(func), *old(block)).store();
                &&& o.b == final(self).body(final(func), *final(block))
                &&& match r {
                    Ok(_) => o.res is Ok,
                    Err(e) => o.res is Err && o.res->Err_0 == e@,
                }
            }),
            final(self).unit.globals == old(self).unit.globals,
            final(self)@.weight() <= old(self)@.weight(),
    {
        reveal(Body::store);
        let (lval, rval) = self.parse_val_pair(func, block)?;
        let fits = match func.val(lval).ty().deref() {
            Some(t) => *t == *func.val(rval).ty(),
            None => false,
        };
        if !fits {
            self.sema_error(SemaKind::StoreMismatch, String::new());
        }
        self.emit(func, block, IsnKind::Store { from: rval, to: lval });
        Ok(())
    }

    /// The statement `memcpy` behind its keyword.
    pub(crate) fn parse_memcpy(&mut self, func: &mut Func<'t>, block: &mut Option<BlockId>) -> (r: PResult<()>)
        requires
            old(self).wf(),
            old(self).body(old(func), *old(block)).wf(),
        ensures
            final(func)@.ty == old(func)@.ty,
            final(self).furthers(*old(self)),
            final(self).wf(),
            final(self).body(final(func), *final(block)).wf(),
            ({
                let o = old(self).body(old(func), *old(block)).memcpy();
                &&& o.b == final(self).body(final(func), *final(block))
                &&& match r {
                    Ok(_) => o.res is Ok,
                    Err(e) => o.res is Err && o.res->Err_0 == e@,
                }
            }),
            final(self).unit.globals == old(self).unit.globals,
            final(self)@.weight() <= old(self)@.weight(),
    {
        reveal(Body::memcpy);
        let (dst, src) = self.parse_val_pair(func, block)?;
        let same = *func.val(dst).ty() == *func.val(src).ty();
        if !same {
            self.sema_error(SemaKind::MemcpyMismatch, String::new());
        } else if func.val(dst).ty().deref().is_none() {
            self.sema_error(SemaKind::MemcpyNotPointer, String::new());
        }
        self.emit(func, block, IsnKind::Memcpy { dst, src });
        Ok(())
    }

    /// The statement `asm` behind its keyword.
    pub(crate) fn parse_asm(&mut self, func: &mut Func<'t>, block: &mut Option<BlockId>) -> (r: PResult<()>)
        requires
            old(self).wf(),
            old(self).body(old(func), *old(block)).wf(),
        ensures
            final(func)@.ty == old(func)@.ty,
            final(self).furthers(*old(self)),
            final(self).wf(),
            final(self).body(final(func), *final(block)).wf(),
            ({
                let o = old(self).body(old(func), *old(block)).asm_stmt();
                &&& o.b == final(self).body(final(func), *final(block))
                &&& match r {
                    Ok(_) => o.res is Ok,
                    Err(e) => o.res is Err && o.res->Err_0 == e@,
                }
            }),
            final(self).unit.globals == old(self).unit.globals,
            final(self)@.weight() <= old(self)@.weight(),
    {
        reveal(Body::asm_stmt);
        let tok = self.next()?;
        match tok {
            Token::String(text) => {
                self.emit(func, block, IsnKind::Asm { text });
                Ok(())
            },
            tok => Err(ParseError::Expected("asm string", tok)),
        }
    }

    /// The statement `label` behind its keyword.
    pub(crate) fn parse_label(&mut self, func: &mut Func<'t>, block: &mut Option<BlockId>) -> (r: PResult<()>)
        requires
            old(self).wf(),
            old(self).body(old(func), *old(block)).wf(),
        ensures
            final(func)@.ty == old(func)@.ty,
            final(self).furthers(*old(self)),
            final(self).wf(),
            final(self).body(final(func), *final(block)).wf(),
            ({
                let o = old(self).body(old(func), *old(block)).label_decl();
                &&& o.b == final(self).body(final(func), *final(block))
                &&& match r {
                    Ok(_) => o.res is Ok,
                    Err(e) => o.res is Err && o.res->Err_0 == e@,
                }
            }),
            final(self).unit.globals == old(self).unit.globals,
            final(self)@.weight() <= old(self)@.weight(),
    {
        reveal(Body::label_decl);
        let lbl = self.expect_ident("label decl")?;
        let void = self.unit.types.void();
        let blkty = self.unit.types.ptr_to(void);
        let val = self.name_val(
            func,
            block,
            lbl.clone(),
            Some(blkty),
            ValOpts { create: true, alloca: false, label: true },
        )?;
        self.emit(func, block, IsnKind::Label { val });
        let _ = self.find_block(func, block, lbl);
        Ok(())
    }

    /// Whether the type stands for an integer.
    pub(crate) fn is_int_ty(t: Type<'t>) -> (r: bool)
        ensures
            r == is_int(t@),
    {
        match t.as_primitive() {
            Some(p) => p.is_integral(),
            None => false,
        }
    }

    /// Whether a value of the type `t` is as wide as a pointer.
    pub(crate) fn pointer_sized(&self, t: Type<'t>) -> (r: bool)
        requires
            t@.wf(),
        ensures
            r == pointer_sized(self@.ptr, t@),
    {
        let ptr = self.unit.types.ptr_size_align();
        let width: usize = if ptr.size == 1 {
            1
        } else if ptr.size == 2 {
            2
        } else if ptr.size == 4 {
            4
        } else {
            8
        };
        match t.checked_size() {
            Some(n) => n == width,
            None => false,
        }
    }

    /// The integer type that is as wide as a pointer.
    pub(crate) fn sizet_ty(&mut self) -> (r: Type<'t>)
        requires
            old(self).wf(),
        ensures
            final(self).furthers(*old(self)),
            final(self).wf(),
            final(self)@ == old(self)@,
            final(self).tok == old(self).tok,
            final(self).names2vals == old(self).names2vals,
            final(self).unit.globals == old(self).unit.globals,
            r@ == Ty::Primitive(sizet(old(self)@.ptr)),
    {
        let ptr = self.unit.types.ptr_size_align();
        let p = if ptr.size == 1 {
            Primitive::I1
        } else if ptr.size == 2 {
            Primitive::I2
        } else if ptr.size == 4 {
            Primitive::I4
        } else {
            Primitive::I8
        };
        self.unit.types.primitive(p)
    }

    /// `spel = load p`, behind `load`.
    pub(crate) fn parse_load(&mut self, func: &mut Func<'t>, block: &mut Option<BlockId>, spel: String) -> (r: PResult<()>)
        requires
            old(self).wf(),
            old(self).body(old(func), *old(block)).wf(),
        ensures
            final(func)@.ty == old(func)@.ty,
            final(self).furthers(*old(self)),
            final(self).wf(),
            final(self).body(final(func), *final(block)).wf(),
            ({
                let o = old(self).body(old(func), *old(block)).load(spel@);
                &&& o.b == final(self).body(final(func), *final(block))
                &&& match r {
                    Ok(_) => o.res is Ok,
                    Err(e) => o.res is Err && o.res->Err_0 == e@,
                }
            }),
            final(self).unit.globals == old(self).unit.globals,
            final(self)@.weight() <= old(self)@.weight(),
    {
        reveal(Body::load);
        let from = self.parse_operand(func, block)?;
        proof {
            lemma_parts_wf(func@.vals[from as int].ty);
        }
        let d = func.val(from).ty().deref();
        let ty = match d {
            None => {
                self.sema_error(SemaKind::LoadNotPointer, String::new());
                self.unit.types.default()
            },
            Some(t) => {
                proof {
                    lemma_parts_wf(t@);
                }
                if t.array_elem().is_some() {
                    self.sema_error(SemaKind::LoadOfArray, String::new());
                    self.unit.types.default()
                } else {
                    t
                }
            },
        };
        let to = self.define(func, block, spel, ty, false)?;
        self.emit(func, block, IsnKind::Load { to, from });
        Ok(())
    }

    /// `spel = alloca t`, behind `alloca`.
    pub(crate) fn parse_alloca(&mut self, func: &mut Func<'t>, block: &mut Option<BlockId>, spel: String) -> (r: PResult<()>)
        requires
            old(self).wf(),
            old(self).body(old(func), *old(block)).wf(),
        ensures
            final(func)@.ty == old(func)@.ty,
            final(self).furthers(*old(self)),
            final(self).wf(),
            final(self).body(final(func), *final(block)).wf(),
            ({
                let o = old(self).body(old(func), *old(block)).alloca(spel@);
                &&& o.b == final(self).body(final(func), *final(block))
                &&& match r {
                    Ok(_) => o.res is Ok,
                    Err(e) => o.res is Err && o.res->Err_0 == e@,
                }
            }),
            final(self).unit.globals == old(self).unit.globals,
            final(self)@.weight() <= old(self)@.weight(),
    {
        reveal(Body::alloca);
        let mut ty = self.parse_type()?;
        let is_fn = match ty.resolve() {
            TypeS::Func { .. } => true,
            _ => false,
        };
        if is_fn {
            self.sema_error(SemaKind::AllocaOfFunction, String::new());
            ty = self.unit.types.default();
        }
        let p = self.unit.types.ptr_to(ty);
        let out = self.define(func, block, spel, p, true)?;
        self.emit(func, block, IsnKind::Alloca { out });
        Ok(())
    }

    /// The type of the element that `elem` finds in a value of the type
    /// `agg` at `index`, and whether it steps outside a struct.
    pub(crate) fn elem_ty(&mut self, func: &Func<'t>, agg: Type<'t>, index: ValId) -> (r: (
        Option<Type<'t>>,
        bool,
    ))
        requires
            old(self).wf(),
            agg@.wf(),
            index < func@.vals.len(),
        ensures
            final(self).furthers(*old(self)),
            final(self).wf(),
            final(self)@ == old(self)@,
            final(self).tok == old(self).tok,
            final(self).names2vals == old(self).names2vals,
            final(self).unit.globals == old(self).unit.globals,
            model_of(r.0) == Body::elem_ty(func@, agg@, index),
            r.1 == Body::elem_out_of_bounds(func@, agg@, index),
            r.0 is Some ==> r.0->0@.wf(),
    {
        proof {
            lemma_parts_wf(agg@);
        }
        match agg.array_elem() {
            Some(t) => (Some(t), false),
            None => match (agg.resolve(), func.val(index).as_int()) {
                (TypeS::Struct { membs }, Some(n)) => {
                    let ghost r = agg@.resolved();
                    assert(r->Struct_membs =~= models(membs@));
                    if n >= 0 && (n as usize) < membs.len() {
                        assert(r->Struct_membs[n as int] == membs@[n as int]@);
                        (Some(membs[n as usize]), false)
                    } else {
                        (Some(self.unit.types.default()), true)
                    }
                },
                _ => (None, false),
            },
        }
    }

    /// `spel = elem p, i`, behind `elem`.
    pub(crate) fn parse_elem(&mut self, func: &mut Func<'t>, block: &mut Option<BlockId>, spel: String) -> (r: PResult<()>)
        requires
            old(self).wf(),
            old(self).body(old(func), *old(block)).wf(),
        ensures
            final(func)@.ty == old(func)@.ty,
            final(self).furthers(*old(self)),
            final(self).wf(),
            final(self).body(final(func), *final(block)).wf(),
            ({
                let o = old(self).body(old(func), *old(block)).elem(spel@);
                &&& o.b == final(self).body(final(func), *final(block))
                &&& match r {
                    Ok(_) => o.res is Ok,
                    Err(e) => o.res is Err && o.res->Err_0 == e@,
                }
            }),
            final(self).unit.globals == old(self).unit.globals,
            final(self)@.weight() <= old(self)@.weight(),
    {
        reveal(Body::elem);
        let (base, index) = self.parse_val_pair(func, block)?;
        proof {
            lemma_parts_wf(func@.vals[base as int].ty);
        }
        let d = func.val(base).ty().deref();
        let agg = match d {
            Some(t) => t,
            None => {
                let i4 = self.unit.types.default();
                self.unit.types.array_of(i4, 1)
            },
        };
        let (found, out_of_bounds) = self.elem_ty(func, agg, index);
        if d.is_none() {
            self.sema_error(SemaKind::ElemNotPointer, String::new());
        }
        if out_of_bounds {
            self.sema_error(SemaKind::ElemOutOfBounds, String::new());
        }
        if found.is_none() {
            self.sema_error(SemaKind::ElemNotAggregate, String::new());
        }
        if !self.pointer_sized(func.val(index).ty()) {
            self.sema_error(SemaKind::ElemIndexSize, String::new());
        }
        let ty = match found {
            Some(t) => t,
            None => self.unit.types.default(),
        };
        let p = self.unit.types.ptr_to(ty);
        let out = self.define(func, block, spel, p, false)?;
        self.emit(func, block, IsnKind::Elem { base, index, out });
        Ok(())
    }

    /// `spel = ptradd p, n` and `spel = ptrsub p, q`, behind the keyword.
    pub(crate) fn parse_ptr_arith(&mut self, func: &mut Func<'t>, block: &mut Option<BlockId>, spel: String, add: bool) -> (r: PResult<()>)
        requires
            old(self).wf(),
            old(self).body(old(func), *old(block)).wf(),
        ensures
            final(func)@.ty == old(func)@.ty,
            final(self).furthers(*old(self)),
            final(self).wf(),
            final(self).body(final(func), *final(block)).wf(),
            ({
                let o = old(self).body(old(func), *old(block)).ptr_arith(spel@, add);
                &&& o.b == final(self).body(final(func), *final(block))
                &&& match r {
                    Ok(_) => o.res is Ok,
                    Err(e) => o.res is Err && o.res->Err_0 == e@,
                }
            }),
            final(self).unit.globals == old(self).unit.globals,
            final(self)@.weight() <= old(self)@.weight(),
    {
        reveal(Body::ptr_arith);
        let (lhs, rhs) = self.parse_val_pair(func, block)?;
        let l = func.val(lhs).ty();
        let r = func.val(rhs).ty();
        let d = l.deref();
        if d.is_none() {
            self.sema_error(SemaKind::PtrArithNotPointer, String::new());
        }
        if add {
            if !Self::is_int_ty(r) {
                self.sema_error(SemaKind::PtraddNotInteger, String::new());
            }
            if !self.pointer_sized(r) {
                self.sema_error(SemaKind::PtraddIndexSize, String::new());
            }
        } else if !(*l == *r) {
            self.sema_error(SemaKind::PtrsubMismatch, String::new());
        }
        let to_void = match d {
            Some(t) => match t.resolve() {
                TypeS::Void => true,
                _ => false,
            },
            None => false,
        };
        if to_void {
            self.sema_error(SemaKind::PtrArithVoid, String::new());
        }
        let ty = if add {
            l
        } else {
            self.sizet_ty()
        };
        let out = self.define(func, block, spel, ty, false)?;
        if add {
            self.emit(func, block, IsnKind::Ptradd { lhs, rhs, out });
        } else {
            self.emit(func, block, IsnKind::Ptrsub { lhs, rhs, out });
        }
        Ok(())
    }

    /// Whether the sizes of two types suit a change of width.
    pub(crate) fn widths_suit(kind: ExtKind, from: Type<'t>, to: Type<'t>) -> (r: bool)
        requires
            from@.wf(),
            to@.wf(),
        ensures
            r == Body::widths_suit(kind, from@, to@),
    {
        match (from.checked_size(), to.checked_size()) {
            (Some(a), Some(b)) => match kind {
                ExtKind::Trunc => a > b,
                _ => a < b,
            },
            _ => false,
        }
    }

    /// `spel = zext t, v`, and the same with `sext` and `trunc`, behind the keyword.
    pub(crate) fn parse_ext(&mut self, func: &mut Func<'t>, block: &mut Option<BlockId>, spel: String, kind: ExtKind) -> (r: PResult<()>)
        requires
            old(self).wf(),
            old(self).body(old(func), *old(block)).wf(),
        ensures
            final(func)@.ty == old(func)@.ty,
            final(self).furthers(*old(self)),
            final(self).wf(),
            final(self).body(final(func), *final(block)).wf(),
            ({
                let o = old(self).body(old(func), *old(block)).ext(spel@, kind);
                &&& o.b == final(self).body(final(func), *final(block))
                &&& match r {
                    Ok(_) => o.res is Ok,
                    Err(e) => o.res is Err && o.res->Err_0 == e@,
                }
            }),
            final(self).unit.globals == old(self).unit.globals,
            final(self)@.weight() <= old(self)@.weight(),
    {
        reveal(Body::ext);
        let mut ty_to = self.parse_type()?;
        if !Self::is_int_ty(ty_to) {
            self.sema_error(SemaKind::ExtNotInteger, String::new());
            ty_to = self.unit.types.primitive(Primitive::I8);
        }
        self.eat(Token::Punctuation(Punctuation::Comma))?;
        let from = self.parse_operand(func, block)?;
        let from_ty = func.val(from).ty();
        if !Self::is_int_ty(from_ty) {
            self.sema_error(SemaKind::ExtArgNotInteger, String::new());
        }
        let to = self.define(func, block, spel, ty_to, false)?;
        if !Self::widths_suit(kind, from_ty, ty_to) {
            self.sema_error(SemaKind::ExtSizes, String::new());
        }
        match kind {
            ExtKind::Zext => self.emit(func, block, IsnKind::Zext { from, to }),
            ExtKind::Sext => self.emit(func, block, IsnKind::Sext { from, to }),
            ExtKind::Trunc => self.emit(func, block, IsnKind::Trunc { from, to }),
        }
        Ok(())
    }

    /// `spel = ptr2int t, v`, and the same with `int2ptr` and `ptrcast`, behind the keyword.
    pub(crate) fn parse_cast(&mut self, func: &mut Func<'t>, block: &mut Option<BlockId>, spel: String, kind: CastKind) -> (r: PResult<()>)
        requires
            old(self).wf(),
            old(self).body(old(func), *old(block)).wf(),
        ensures
            final(func)@.ty == old(func)@.ty,
            final(self).furthers(*old(self)),
            final(self).wf(),
            final(self).body(final(func), *final(block)).wf(),
            ({
                let o = old(self).body(old(func), *old(block)).cast(spel@, kind);
                &&& o.b == final(self).body(final(func), *final(block))
                &&& match r {
                    Ok(_) => o.res is Ok,
                    Err(e) => o.res is Err && o.res->Err_0 == e@,
                }
            }),
            final(self).unit.globals == old(self).unit.globals,
            final(self)@.weight() <= old(self)@.weight(),
    {
        reveal(Body::cast);
        let ty = self.parse_type()?;
        let suits = match kind {
            CastKind::Ptr2Int => Self::is_int_ty(ty),
            _ => ty.deref().is_some(),
        };
        if !suits {
            self.sema_error(SemaKind::CastType, String::new());
        }
        self.eat(Token::Punctuation(Punctuation::Comma))?;
        let from = self.parse_operand(func, block)?;
        let to = self.define(func, block, spel, ty, false)?;
        match kind {
            CastKind::Ptr2Int => self.emit(func, block, IsnKind::Ptr2Int { from, to }),
            CastKind::Int2Ptr => self.emit(func, block, IsnKind::Int2Ptr { from, to }),
            CastKind::Ptrcast => self.emit(func, block, IsnKind::Ptrcast { from, to }),
        }
        Ok(())
    }

    /// `spel = add a, b`, and the same with the other operators, behind the operator.
    pub(crate) fn parse_op(&mut self, func: &mut Func<'t>, block: &mut Option<BlockId>, spel: String, op: Op) -> (r: PResult<()>)
        requires
            old(self).wf(),
            old(self).body(old(func), *old(block)).wf(),
        ensures
            final(func)@.ty == old(func)@.ty,
            final(self).furthers(*old(self)),
            final(self).wf(),
            final(self).body(final(func), *final(block)).wf(),
            ({
                let o = old(self).body(old(func), *old(block)).op(spel@, op);
                &&& o.b == final(self).body(final(func), *final(block))
                &&& match r {
                    Ok(_) => o.res is Ok,
                    Err(e) => o.res is Err && o.res->Err_0 == e@,
                }
            }),
            final(self).unit.globals == old(self).unit.globals,
            final(self)@.weight() <= old(self)@.weight(),
    {
        reveal(Body::op);
        let (lhs, rhs) = self.parse_val_pair(func, block)?;
        let l = func.val(lhs).ty();
        let shift = match op {
            Op::Shiftl | Op::ShiftRLogic | Op::ShiftRArith => true,
            _ => false,
        };
        if !shift && !(l.as_primitive().is_some() && *l == *func.val(rhs).ty()) {
            self.sema_error(SemaKind::OpTypes, String::new());
        }
        let res = self.define(func, block, spel, l, false)?;
        self.emit(func, block, IsnKind::Op { op, lhs, rhs, res });
        Ok(())
    }

    /// `spel = eq a, b`, and the same with the other comparisons, behind the comparison.
    pub(crate) fn parse_compare(&mut self, func: &mut Func<'t>, block: &mut Option<BlockId>, spel: String, rel: Cmp) -> (r: PResult<()>)
        requires
            old(self).wf(),
            old(self).body(old(func), *old(block)).wf(),
        ensures
            final(func)@.ty == old(func)@.ty,
            final(self).furthers(*old(self)),
            final(self).wf(),
            final(self).body(final(func), *final(block)).wf(),
            ({
                let o = old(self).body(old(func), *old(block)).compare(spel@, rel);
                &&& o.b == final(self).body(final(func), *final(block))
                &&& match r {
                    Ok(_) => o.res is Ok,
                    Err(e) => o.res is Err && o.res->Err_0 == e@,
                }
            }),
            final(self).unit.globals == old(self).unit.globals,
            final(self)@.weight() <= old(self)@.weight(),
    {
        reveal(Body::compare);
        let (lhs, rhs) = self.parse_val_pair(func, block)?;
        if !(*func.val(lhs).ty() == *func.val(rhs).ty()) {
            self.sema_error(SemaKind::CmpMismatch, String::new());
        }
        let i1 = self.unit.types.primitive(Primitive::I1);
        let res = self.define(func, block, spel, i1, false)?;
        self.emit(func, block, IsnKind::Cmp { rel, lhs, rhs, res });
        Ok(())
    }

    /// `spel = $from`, behind the name copied.
    pub(crate) fn parse_copy(&mut self, func: &mut Func<'t>, block: &mut Option<BlockId>, spel: String, from_name: String) -> (r: PResult<()>)
        requires
            old(self).wf(),
            old(self).body(old(func), *old(block)).wf(),
        ensures
            final(func)@.ty == old(func)@.ty,
            final(self).furthers(*old(self)),
            final(self).wf(),
            final(self).body(final(func), *final(block)).wf(),
            ({
                let o = old(self).body(old(func), *old(block)).copy(spel@, from_name@);
                &&& o.b == final(self).body(final(func), *final(block))
                &&& match r {
                    Ok(_) => o.res is Ok,
                    Err(e) => o.res is Err && o.res->Err_0 == e@,
                }
            }),
            final(self).unit.globals == old(self).unit.globals,
            final(self)@.weight() <= old(self)@.weight(),
    {
        reveal(Body::copy);
        let from = self.name_val(
            func,
            block,
            from_name,
            None,
            ValOpts { create: false, alloca: false, label: false },
        )?;
        let ty = func.val(from).ty();
        let to = self.define(func, block, spel, ty, false)?;
        self.emit(func, block, IsnKind::Copy { from, to });
        Ok(())
    }

    /// Records the faults of the argument `arg` at the place `i` of a call.
    pub(crate) fn check_arg(&mut self, func: &Func<'t>, fnty: Option<Type<'t>>, i: usize, arg: ValId)
        requires
            old(self).wf(),
            arg < func@.vals.len(),
            fnty is Some ==> fnty->0@ is Func,
        ensures
            final(self).furthers(*old(self)),
            final(self).wf(),
            final(self).tok == old(self).tok,
            final(self).unit == old(self).unit,
            final(self).names2vals == old(self).names2vals,
            forall|cur: Option<BlockId>|
                #[trigger] (Body { st: old(self)@, f: func@, cur }).arg_checked(
                    model_of(fnty),
                    i as nat,
                    arg,
                ) == (Body { st: final(self)@, f: func@, cur }),
    {
        match fnty {
            Some(TypeS::Func { args, variadic, .. }) => {
                let ghost f = fnty->0@;
                assert(f->Func_args =~= models(args@));
                if i < args.len() {
                    assert(f->Func_args[i as int] == args@[i as int]@);
                    if !args[i].same(func.val(arg).ty()) {
                        let mut detail = String::new();
                        push_decimal(&mut detail, (i + 1) as u64);
                        assert(detail@ =~= decimal((i + 1) as nat));
                        self.sema_error(SemaKind::CallArgMismatch, detail);
                    }
                } else if !*variadic {
                    self.sema_error(SemaKind::CallTooManyArgs, String::new());
                }
            },
            _ => {},
        }
    }

    /// One step among the arguments of a call: the closing bracket is met,
    /// or an argument is read. Says whether the bracket was met.
    pub(crate) fn parse_call_arg(
        &mut self,
        func: &mut Func<'t>,
        block: &Option<BlockId>,
        fnty: Option<Type<'t>>,
        args: &mut Vec<ValId>,
    ) -> (r: PResult<bool>)
        requires
            old(self).wf(),
            old(self).body(old(func), *block).wf(),
            fnty is Some ==> fnty->0@ is Func,
            forall|k: int| 0 <= k < old(args)@.len() ==> old(args)@[k] < old(func)@.vals.len(),
        ensures
            final(func)@.ty == old(func)@.ty,
            final(self).furthers(*old(self)),
            final(self).wf(),
            final(self).body(final(func), *block).wf(),
            forall|k: int| 0 <= k < final(args)@.len() ==> final(args)@[k] < final(func)@.vals.len(),
            final(func)@.vals.len() >= old(func)@.vals.len(),
            ({
                let o = old(self).body(old(func), *block).call_args(model_of(fnty), old(args)@);
                match r {
                    Ok(true) => o == (BodyOut {
                        res: Ok(final(args)@),
                        b: final(self).body(final(func), *block),
                    }),
                    Ok(false) => o == final(self).body(final(func), *block).call_args(
                        model_of(fnty),
                        final(args)@,
                    ) && final(self)@.weight() < old(self)@.weight(),
                    Err(e) => o == (BodyOut::<Seq<ValId>> {
                        res: Err(e@),
                        b: final(self).body(final(func), *block),
                    }),
                }
            }),
            final(self).unit.globals == old(self).unit.globals,
            final(self)@.weight() <= old(self)@.weight(),
    {
        reveal(Body::call_args);
        if self.accept(Token::Punctuation(Punctuation::RParen))? {
            return Ok(true);
        }
        if args.len() > 0 {
            self.eat(Token::Punctuation(Punctuation::Comma))?;
        }
        let mut here = *block;
        let arg = self.parse_operand(func, &mut here)?;
        self.check_arg(func, fnty, args.len(), arg);
        args.push(arg);
        Ok(false)
    }

    /// `spel = call f(a, ...)`, behind `call`.
    pub(crate) fn parse_call(&mut self, func: &mut Func<'t>, block: &mut Option<BlockId>, spel: String) -> (r: PResult<()>)
        requires
            old(self).wf(),
            old(self).body(old(func), *old(block)).wf(),
        ensures
            final(func)@.ty == old(func)@.ty,
            final(self).furthers(*old(self)),
            final(self).wf(),
            final(self).body(final(func), *final(block)).wf(),
            ({
                let o = old(self).body(old(func), *old(block)).call(spel@);
                &&& o.b == final(self).body(final(func), *final(block))
                &&& match r {
                    Ok(_) => o.res is Ok,
                    Err(e) => o.res is Err && o.res->Err_0 == e@,
                }
            }),
            final(self).unit.globals == old(self).unit.globals,
            final(self)@.weight() <= old(self)@.weight(),
    {
        reveal(Body::call);
        let callee = self.parse_operand(func, block)?;
        proof {
            lemma_parts_wf(func@.vals[callee as int].ty);
        }
        let fnty: Option<Type<'t>> = match func.val(callee).ty().deref() {
            Some(p) => {
                proof {
                    lemma_parts_wf(p@);
                    crate::ty::lemma_resolved_wf(p@);
                }
                match p.resolve() {
                    TypeS::Func { .. } => Some(p.resolve()),
                    _ => None,
                }
            },
            None => None,
        };
        let retty = match fnty {
            Some(TypeS::Func { ret, .. }) => *ret,
            _ => self.unit.types.default(),
        };
        let stret = match retty.resolve() {
            TypeS::Struct { .. } => true,
            _ => false,
        };
        if fnty.is_none() {
            self.sema_error(SemaKind::CallNotFunction, String::new());
        }
        let into_ty = if stret {
            self.unit.types.ptr_to(retty)
        } else {
            retty
        };
        let into = self.define(func, block, spel, into_ty, stret)?;
        self.eat(Token::Punctuation(Punctuation::LParen))?;
        let mut args: Vec<ValId> = Vec::new();
        let ghost goal = self.body(func, *block).call_args(model_of(fnty), args@);
        let ghost whole = old(self).body(old(func), *old(block)).call(spel@);
        assert(args@ =~= Seq::empty());
        assert(whole == match goal.res {
            Err(e) => goal.b.fail::<()>(e),
            Ok(a) => goal.b.sema_if(
                model_of(fnty) is Some && a.len() < model_of(fnty)->0->Func_args.len(),
                SemaKind::CallTooFewArgs,
                Seq::empty(),
            ).emit(IsnKindModel::Call { into, callee, args: a }).done(()),
        });
        loop
            invariant_except_break
                goal == self.body(func, *block).call_args(model_of(fnty), args@),
            invariant
                self.wf(),
                self.furthers(*old(self)),
                self.body(func, *block).wf(),
                func@.ty == old(func)@.ty,
                self.unit.globals == old(self).unit.globals,
                self@.weight() <= old(self)@.weight(),
                fnty is Some ==> fnty->0@ is Func,
                into < func@.vals.len(),
                callee < func@.vals.len(),
                forall|k: int| 0 <= k < args@.len() ==> args@[k] < func@.vals.len(),
                whole == old(self).body(old(func), *old(block)).call(spel@),
                whole == match goal.res {
                    Err(e) => goal.b.fail::<()>(e),
                    Ok(a) => goal.b.sema_if(
                        model_of(fnty) is Some && a.len() < model_of(fnty)->0->Func_args.len(),
                        SemaKind::CallTooFewArgs,
                        Seq::empty(),
                    ).emit(IsnKindModel::Call { into, callee, args: a }).done(()),
                },
            ensures
                goal == (BodyOut { res: Ok(args@), b: self.body(func, *block) }),
            decreases self@.weight(),
        {
            if self.parse_call_arg(func, block, fnty, &mut args)? {
                break ;
            }
        }
        let too_few = match fnty {
            Some(TypeS::Func { args: params, .. }) => {
                let ghost f = fnty->0@;
                assert(f->Func_args =~= models(params@));
                args.len() < params.len()
            },
            _ => false,
        };
        if too_few {
            self.sema_error(SemaKind::CallTooFewArgs, String::new());
        }
        let kind = IsnKind::Call { into, callee, args };
        assert forall|k: int| 0 <= k < kind@.vals().len() implies #[trigger] kind@.vals()[k]
            < func@.vals.len() by {
            if k >= 2 {
                assert(kind@.vals()[k] == args@[k - 2]);
            }
        }
        self.emit(func, block, kind);
        Ok(())
    }

    /// A definition behind the name that it defines.
    pub(crate) fn parse_ident(&mut self, func: &mut Func<'t>, block: &mut Option<BlockId>, ident: String) -> (r: PResult<()>)
        requires
            old(self).wf(),
            old(self).body(old(func), *old(block)).wf(),
        ensures
            final(func)@.ty == old(func)@.ty,
            final(self).furthers(*old(self)),
            final(self).wf(),
            final(self).body(final(func), *final(block)).wf(),
            ({
                let o = old(self).body(old(func), *old(block)).assign(ident@);
                &&& o.b == final(self).body(final(func), *final(block))
                &&& match r {
                    Ok(_) => o.res is Ok,
                    Err(e) => o.res is Err && o.res->Err_0 == e@,
                }
            }),
            final(self).unit.globals == old(self).unit.globals,
            final(self)@.weight() <= old(self)@.weight(),
    {
        reveal(Body::assign);
        self.eat(Token::Punctuation(Punctuation::Equal))?;
        let tok = self.next()?;
        match tok {
            Token::Keyword(Keyword::Load) => self.parse_load(func, block, ident),
            Token::Keyword(Keyword::Alloca) => self.parse_alloca(func, block, ident),
            Token::Keyword(Keyword::Elem) => self.parse_elem(func, block, ident),
            Token::Keyword(Keyword::Ptradd) => self.parse_ptr_arith(func, block, ident, true),
            Token::Keyword(Keyword::Ptrsub) => self.parse_ptr_arith(func, block, ident, false),
            Token::Keyword(Keyword::Zext) => self.parse_ext(func, block, ident, ExtKind::Zext),
            Token::Keyword(Keyword::Sext) => self.parse_ext(func, block, ident, ExtKind::Sext),
            Token::Keyword(Keyword::Trunc) => self.parse_ext(func, block, ident, ExtKind::Trunc),
            Token::Keyword(Keyword::Ptr2int) => self.parse_cast(
                func,
                block,
                ident,
                CastKind::Ptr2Int,
            ),
            Token::Keyword(Keyword::Int2ptr) => self.parse_cast(
                func,
                block,
                ident,
                CastKind::Int2Ptr,
            ),
            Token::Keyword(Keyword::Ptrcast) => self.parse_cast(
                func,
                block,
                ident,
                CastKind::Ptrcast,
            ),
            Token::Keyword(Keyword::Call) => self.parse_call(func, block, ident),
            Token::Op(o) => self.parse_op(func, block, ident, o),
            Token::Cmp(c) => self.parse_compare(func, block, ident, c),
            Token::Identifier(from) => self.parse_copy(func, block, ident, from),
            tok => Err(
                ParseError::Generic(
                    concat3("expected load, alloca, elem or operator (got ", tok.desc(), ")"),
                ),
            ),
        }
    }

    /// A label behind its colon.
    pub(crate) fn enter_label(&mut self, func: &mut Func<'t>, block: &mut Option<BlockId>, ident: String)
        requires
            old(self).wf(),
            old(self).body(old(func), *old(block)).wf(),
        ensures
            final(func)@.ty == old(func)@.ty,
            final(self).furthers(*old(self)),
            final(self).wf(),
            final(self).body(final(func), *final(block)).wf(),
            final(self).body(final(func), *final(block)) == old(self).body(
                old(func),
                *old(block),
            ).label(ident@),
            final(self).tok == old(self).tok,
            final(self).unit.globals == old(self).unit.globals,
    {
        reveal(Body::label);
        let (this_block, created) = func.get_block(ident.clone());
        let dup = !created && !func.block(this_block).is_tenative();
        if dup {
            self.sema_error(SemaKind::BlockExists, ident);
        }
        self.emit(func, block, IsnKind::Jmp { target: this_block });
        *block = if dup || !func.block(this_block).is_unknown_ending() {
            None
        } else {
            Some(this_block)
        };
    }

    /// One statement of the body of `func`, or a label. `block` is the block
    /// that instructions go to, if there is one.
    pub fn parse_block(&mut self, func: &mut Func<'t>, block: &mut Option<BlockId>) -> (r: PResult<()>)
        requires
            old(self).wf(),
            old(self).body(old(func), *old(block)).wf(),
        ensures
            final(func)@.ty == old(func)@.ty,
            final(self).furthers(*old(self)),
            final(self).wf(),
            final(self).body(final(func), *final(block)).wf(),
            ({
                let o = old(self).body(old(func), *old(block)).stmt();
                &&& o.b == final(self).body(final(func), *final(block))
                &&& match r {
                    Ok(_) => o.res is Ok,
                    Err(e) => o.res is Err && o.res->Err_0 == e@,
                }
            }),
            final(self).unit.globals == old(self).unit.globals,
            final(self)@.weight() <= old(self)@.weight(),
            (r is Ok && old(self)@.next().res != Ok::<Tok, PErr>(Tok::Eof)) ==> final(self)@.weight()
                < old(self)@.weight(),
    {
        reveal(Body::stmt);
        let tok = self.next()?;
        match tok {
            Token::Eof => Ok(()),
            Token::Keyword(Keyword::Ret) => self.parse_ret(func, block),
            Token::Identifier(ident) => {
                if self.accept(Token::Punctuation(Punctuation::Colon))? {
                    self.enter_label(func, block, ident);
                    Ok(())
                } else {
                    self.parse_ident(func, block, ident)
                }
            },
            Token::Keyword(Keyword::Jmp) => self.parse_jmp(func, block),
            Token::Keyword(Keyword::Br) => self.parse_br(func, block),
            Token::Keyword(Keyword::Store) => self.parse_store(func, block),
            Token::Keyword(Keyword::Label) => self.parse_label(func, block),
            Token::Keyword(Keyword::Asm) => self.parse_asm(func, block),
            Token::Keyword(Keyword::Memcpy) => self.parse_memcpy(func, block),
            tok => Err(ParseError::Generic(concat("unexpected token ", tok.desc()))),
        }
    }
}

} // verus!
