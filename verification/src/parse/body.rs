//! Reading values inside the body of a function.

use vstd::prelude::*;

use crate::func::{Func, FuncModel};
use crate::isn::{BlockId, Isn, IsnKind, IsnKindModel, IsnModel};
use crate::parse::{PErr, PResult, PState, ParseError, Parser, Sema, SemaKind};
use crate::text::{concat3, str_eq};
use crate::token::{Keyword, Punctuation, Tok, Token};
use crate::ty::{Ty, Type, TypeQueries, model_of};
use crate::ty_uniq::find_alias;
use crate::unit::last_named;
use crate::val::{Val, ValId, ValModel};

verus! {

/// What [`Parser::uniq_val`] may do for a name that is not known.
#[derive(Clone, Copy, Debug, PartialEq, Eq, Structural)]
pub struct ValOpts {
    /// The name is being defined: a value is made for it.
    pub create: bool,
    /// The value made is storage on the stack.
    pub alloca: bool,
    /// The value made is the address of a block.
    pub label: bool,
}

/// The value that the function in hand has given the name `name`.
pub open spec fn lookup_name(names: Seq<(Seq<char>, ValId)>, name: Seq<char>) -> Option<ValId>
    decreases names.len(),
{
    if names.len() == 0 {
        None
    } else if names[0].0 == name {
        Some(names[0].1)
    } else {
        lookup_name(names.drop_first(), name)
    }
}

/// Every value that has a name is a value of the function.
pub open spec fn names_ok(names: Seq<(Seq<char>, ValId)>, f: FuncModel) -> bool {
    forall|i: int| 0 <= i < names.len() ==> (#[trigger] names[i]).1 < f.vals.len()
}

/// A reader inside the body of a function: the reader, the function, and
/// the block that instructions go to. There is no such block behind an
/// instruction that ends a block, until a label opens another: what is
/// written there is read and dropped.
pub struct Body {
    pub st: PState,
    pub f: FuncModel,
    pub cur: Option<BlockId>,
}

/// A result and the reader in a body that it leaves.
pub struct BodyOut<T> {
    pub res: Result<T, PErr>,
    pub b: Body,
}

impl Body {
    /// The reader, the function and the names are in order, and the block in
    /// hand does not end yet.
    pub open spec fn wf(self) -> bool {
        &&& self.st.wf()
        &&& self.f.wf()
        &&& names_ok(self.st.names, self.f)
        &&& match self.cur {
            Some(c) => c < self.f.blocks.len() && self.f.blocks[c as int].kind.open_ended(),
            None => true,
        }
    }

    /// The fault `e`, in this state.
    pub open spec fn fail<T>(self, e: PErr) -> BodyOut<T> {
        BodyOut { res: Err(e), b: self }
    }

    /// The result `v`, in this state.
    pub open spec fn done<T>(self, v: T) -> BodyOut<T> {
        BodyOut { res: Ok(v), b: self }
    }

    /// The same body with the reader `st`.
    pub open spec fn with_st(self, st: PState) -> Body {
        Body { st, ..self }
    }

    /// The state with the fault recorded, if `cond` holds.
    pub open spec fn sema_if(self, cond: bool, kind: SemaKind, detail: Seq<char>) -> Body {
        self.with_st(self.st.sema_if(cond, kind, detail))
    }

    /// The body with one more value; the value's handle is the number of
    /// values before.
    pub open spec fn with_val(self, v: ValModel) -> Body {
        Body { f: self.f.with_val(v), ..self }
    }

    /// The body after the instruction `kind` was written: it goes to the end
    /// of the block in hand, and where it ends the block, no block is in hand
    /// afterwards. With no block in hand it is dropped.
    pub open spec fn emit(self, kind: IsnKindModel) -> Body {
        match self.cur {
            None => self,
            Some(c) => if kind.is_terminator() {
                Body { f: self.f.terminated(c, IsnModel::parsed(kind)), cur: None, ..self }
            } else {
                Body { f: self.f.with_isn(c, IsnModel::parsed(kind)), ..self }
            },
        }
    }

    /// The value that `name` means. A name means, in this order: the value
    /// that the function has given the name; an argument of the function,
    /// for which a value is made and named; the address of a global, for
    /// which a value is made. With `create`, any of these is a fault, and a
    /// name that means nothing yet gets a value of the type `ty`; without,
    /// a name that means nothing ends the reading.
    #[verifier::opaque]
    pub open spec fn uniq_val(self, name: Seq<char>, ty: Option<Ty>, opts: ValOpts) -> BodyOut<
        ValId,
    > {
        let id = self.f.vals.len() as ValId;
        let checked = self.sema_if(opts.create, SemaKind::PreExistingIdentifier, name);
        match lookup_name(self.st.names, name) {
            Some(v) => checked.done(v),
            None => match self.f.arg_named(name) {
                Some((idx, arg_ty)) => {
                    let b = checked.with_val(ValModel::argument(name, arg_ty));
                    let f = if b.f.arg_vals[idx as int] is None {
                        FuncModel { arg_vals: b.f.arg_vals.update(idx as int, Some(id)), ..b.f }
                    } else {
                        b.f
                    };
                    (Body {
                        f,
                        st: PState { names: b.st.names.push((name, id)), ..b.st },
                        ..b
                    }).done(id)
                },
                None => match last_named(self.st.globals, name) {
                    Some(gi) => checked.with_val(
                        ValModel::global(
                            name,
                            Ty::Ptr {
                                pointee: Box::new(self.st.globals[gi].ty()),
                                sz: self.st.ptr,
                            },
                        ),
                    ).done(id),
                    None => if !opts.create || ty is None {
                        self.fail(PErr::Generic("undeclared identifier '"@ + name + "'"@))
                    } else {
                        let v = if opts.label {
                            ValModel::label(name, ty->0)
                        } else {
                            ValModel::local(name, ty->0, opts.alloca)
                        };
                        let b = self.with_val(v);
                        b.with_st(PState { names: b.st.names.push((name, id)), ..b.st }).done(id)
                    },
                },
            },
        }
    }

    /// A value: a name, or a type and what is of the type, a number or
    /// `undef`. Behind `void` nothing stands. A name that is the name of a
    /// type begins a type.
    #[verifier::opaque]
    pub open spec fn val(self) -> BodyOut<ValId> {
        let a = self.st.accept_ident();
        match a.res {
            Err(e) => self.with_st(a.st).fail(e),
            Ok(None) => self.with_st(a.st).typed_val(),
            Ok(Some(ident)) => if find_alias(a.st.aliases, ident) is Some {
                self.with_st(a.st.unget(Tok::Identifier(ident))).typed_val()
            } else {
                self.with_st(a.st).uniq_val(
                    ident,
                    None,
                    ValOpts { create: false, alloca: false, label: false },
                )
            },
        }
    }

    /// A type and a value of the type.
    #[verifier::opaque]
    pub open spec fn typed_val(self) -> BodyOut<ValId> {
        let id = self.f.vals.len() as ValId;
        let t = self.st.ty();
        match t.res {
            Err(e) => self.with_st(t.st).fail(e),
            Ok(ty) => if ty.is_void() {
                self.with_st(t.st).with_val(ValModel::void(Ty::Void)).done(id)
            } else {
                let n = t.st.accept_integer();
                match n.res {
                    Err(e) => self.with_st(n.st).fail(e),
                    Ok(Some(i)) => self.with_st(n.st).with_val(ValModel::literal(i, ty)).done(id),
                    Ok(None) => {
                        let u = n.st.accept(Tok::Keyword(Keyword::Undef));
                        match u.res {
                            Err(e) => self.with_st(u.st).fail(e),
                            Ok(true) => self.with_st(u.st).with_val(ValModel::undef(ty)).done(id),
                            Ok(false) => self.with_st(u.st).fail(
                                PErr::Generic("value operand expected"@),
                            ),
                        }
                    },
                }
            },
        }
    }
}

impl Body {
    /// Two values with a comma between them.
    #[verifier::opaque]
    pub open spec fn val_pair(self) -> BodyOut<(ValId, ValId)> {
        let a = self.val();
        match a.res {
            Err(e) => a.b.fail(e),
            Ok(x) => {
                let c = a.b.st.eat(Tok::Punctuation(Punctuation::Comma));
                match c.res {
                    Err(e) => a.b.with_st(c.st).fail(e),
                    Ok(_) => {
                        let b = a.b.with_st(c.st).val();
                        match b.res {
                            Err(e) => b.b.fail(e),
                            Ok(y) => b.b.done((x, y)),
                        }
                    },
                }
            },
        }
    }

    /// The body with a block named `label`, which is made where there is none.
    pub open spec fn with_label(self, label: Seq<char>) -> Body {
        Body { f: self.f.with_label(label), ..self }
    }

    /// The type of the value `v`.
    pub open spec fn ty_of(self, v: ValId) -> Ty {
        self.f.vals[v as int].ty
    }
}

/// What a value is does not depend on the block in hand.
pub proof fn lemma_val_any_block(b: Body, cur: Option<BlockId>)
    ensures
        (Body { cur, ..b }).val() == (BodyOut { res: b.val().res, b: Body { cur, ..b.val().b } }),
        (Body { cur, ..b }).typed_val() == (BodyOut {
            res: b.typed_val().res,
            b: Body { cur, ..b.typed_val().b },
        }),
        b.val().b.cur == b.cur,
        b.typed_val().b.cur == b.cur,
{
    reveal(Body::val);
    reveal(Body::typed_val);
    let a = b.st.accept_ident();
    match a.res {
        Ok(Some(ident)) => {
            if find_alias(a.st.aliases, ident) is None {
                lemma_uniq_val_any_block(
                    b.with_st(a.st),
                    cur,
                    ident,
                    None,
                    ValOpts { create: false, alloca: false, label: false },
                );
            }
        },
        _ => {},
    }
}

/// What a name means does not depend on the block in hand.
pub proof fn lemma_uniq_val_any_block(
    b: Body,
    cur: Option<BlockId>,
    name: Seq<char>,
    ty: Option<Ty>,
    opts: ValOpts,
)
    ensures
        (Body { cur, ..b }).uniq_val(name, ty, opts) == (BodyOut {
            res: b.uniq_val(name, ty, opts).res,
            b: Body { cur, ..b.uniq_val(name, ty, opts).b },
        }),
        b.uniq_val(name, ty, opts).b.cur == b.cur,
{
    reveal(Body::uniq_val);
}

/// To define a name that is taken, by a value of the function, by one of
/// its arguments or by a global, is a fault in the meaning of the text and
/// does not end the reading: one fault more is recorded, that the
/// identifier was there before, with the name; a value is given all the
/// same, and the reader stands in the text where it stood.
pub proof fn lemma_defining_a_taken_name(b: Body, name: Seq<char>, ty: Ty, alloca: bool)
    requires
        lookup_name(b.st.names, name) is Some || b.f.arg_named(name) is Some || last_named(
            b.st.globals,
            name,
        ) is Some,
    ensures
        b.define(name, ty, alloca).res is Ok,
        b.define(name, ty, alloca).b.st.errors == b.st.errors.push(
            Sema { kind: SemaKind::PreExistingIdentifier, detail: name },
        ),
        b.define(name, ty, alloca).b.st.tok == b.st.tok,
{
    reveal(Body::uniq_val);
}

impl Body {
    /// Gives `spel` a value of the type `ty`: `spel` is being defined.
    pub open spec fn define(self, spel: Seq<char>, ty: Ty, alloca: bool) -> BodyOut<ValId> {
        self.uniq_val(spel, Some(ty), ValOpts { create: true, alloca, label: false })
    }

    /// A pointer to `t`.
    pub open spec fn ptr_to(self, t: Ty) -> Ty {
        Ty::Ptr { pointee: Box::new(t), sz: self.st.ptr }
    }
}

/// `lookup_name` finds a value that is in the list.
pub proof fn lemma_lookup_name(names: Seq<(Seq<char>, ValId)>, name: Seq<char>)
    ensures
        match lookup_name(names, name) {
            Some(v) => exists|i: int| 0 <= i < names.len() && (#[trigger] names[i]).1 == v,
            None => true,
        },
    decreases names.len(),
{
    if names.len() > 0 && names[0].0 != name {
        lemma_lookup_name(names.drop_first(), name);
        match lookup_name(names.drop_first(), name) {
            Some(v) => {
                let i = choose|i: int|
                    0 <= i < names.drop_first().len() && (#[trigger] names.drop_first()[i]).1 == v;
                assert(names[i + 1].1 == v);
            },
            None => {},
        }
    } else if names.len() > 0 {
        assert(names[0].1 == lookup_name(names, name)->0);
    }
}

impl<'t> Parser<'t> {
    /// The value that the function in hand has given the name `name`.
    pub(crate) fn lookup(&self, name: &str) -> (r: Option<ValId>)
        ensures
            r == lookup_name(self@.names, name@),
    {
        let mut i: usize = 0;
        assert(self@.names.subrange(0, self@.names.len() as int) =~= self@.names);
        while i < self.names2vals.len()
            invariant
                i <= self.names2vals@.len(),
                lookup_name(self@.names, name@) == lookup_name(
                    self@.names.subrange(i as int, self@.names.len() as int),
                    name@,
                ),
            decreases self.names2vals@.len() - i,
        {
            let ghost rest = self@.names.subrange(i as int, self@.names.len() as int);
            assert(rest[0] == self@.names[i as int]);
            assert(rest.drop_first() =~= self@.names.subrange(i + 1, self@.names.len() as int));
            if str_eq(self.names2vals[i].0.as_str(), name) {
                return Some(self.names2vals[i].1);
            }
            i += 1;
        }
        None
    }

    /// Takes `v` into the function and gives it the name `name`.
    pub(crate) fn map_val(&mut self, func: &mut Func<'t>, name: String, v: Val<'t>) -> (id: ValId)
        requires
            old(func)@.wf(),
            names_ok(old(self)@.names, old(func)@),
            v@.ty.wf(),
        ensures
            final(func)@.ty == old(func)@.ty,
            final(self).furthers(*old(self)),
            id == old(func)@.vals.len(),
            final(func)@ == old(func)@.with_val(v@),
            final(func)@.wf(),
            final(self)@ == (PState { names: old(self)@.names.push((name@, id)), ..old(self)@ }),
            names_ok(final(self)@.names, final(func)@),
            final(self).tok == old(self).tok,
            final(self).unit == old(self).unit,
    {
        let id = func.add_val(v);
        self.names2vals.push((name, id));
        assert(self@.names =~= old(self)@.names.push((name@, id)));
        assert(self@.errors =~= old(self)@.errors);
        id
    }

    /// The value that `name` means in the function `func`.
    pub fn uniq_val(
        &mut self,
        func: &mut Func<'t>,
        name: String,
        ty: Option<Type<'t>>,
        opts: ValOpts,
    ) -> (r: PResult<ValId>)
        requires
            old(self).wf(),
            old(func)@.wf(),
            names_ok(old(self)@.names, old(func)@),
            opts.create == ty.is_some(),
            ty is Some ==> ty->0@.wf(),
        ensures
            final(func)@.ty == old(func)@.ty,
            final(self).furthers(*old(self)),
            final(self).wf(),
            final(func)@.wf(),
            names_ok(final(self)@.names, final(func)@),
            ({
                let o = (Body { st: old(self)@, f: old(func)@, cur: None }).uniq_val(
                    name@,
                    model_of(ty),
                    opts,
                );
                &&& o.b == (Body { st: final(self)@, f: final(func)@, cur: None })
                &&& match r {
                    Ok(id) => o.res == Ok::<ValId, PErr>(id) && id < final(func)@.vals.len(),
                    Err(e) => o.res == Err::<ValId, PErr>(e@),
                }
            }),
            final(self).tok == old(self).tok,
            final(self).unit.globals == old(self).unit.globals,
            final(func)@.blocks == old(func)@.blocks,
            final(func)@.vals.len() >= old(func)@.vals.len(),
    {
        reveal(Body::uniq_val);
        proof {
            crate::unit::lemma_last_named(self@.globals, name@);
            lemma_lookup_name(self@.names, name@);
        }
        if let Some(id) = self.lookup(name.as_str()) {
            if opts.create {
                self.sema_error(SemaKind::PreExistingIdentifier, name);
            }
            return Ok(id);
        }
        if let Some((idx, arg_ty)) = func.arg_by_name(name.as_str()) {
            if opts.create {
                self.sema_error(SemaKind::PreExistingIdentifier, name.clone());
            }
            let v = Val::new_argument(name.clone(), arg_ty);
            let id = self.map_val(func, name, v);
            if func.arg_val(idx).is_none() {
                func.register_arg_val(idx, id);
            }
            return Ok(id);
        }
        if let Some(gi) = self.unit.globals.find(name.as_str()) {
            if opts.create {
                self.sema_error(SemaKind::PreExistingIdentifier, name);
            }
            let glob = self.unit.globals.at(gi);
            let v = Val::new_global(&mut self.unit.types, glob);
            let id = func.add_val(v);
            return Ok(id);
        }
        let ty = match ty {
            Some(ty) => ty,
            None => {
                return Err(
                    ParseError::Generic(concat3("undeclared identifier '", name.as_str(), "'")),
                );
            },
        };
        let v = if opts.label {
            Val::new_label(name.clone(), ty)
        } else {
            Val::new_local(name.clone(), ty, opts.alloca)
        };
        Ok(self.map_val(func, name, v))
    }

    /// A type and a value of the type.
    pub(crate) fn parse_typed_val(&mut self, func: &mut Func<'t>) -> (r: PResult<ValId>)
        requires
            old(self).wf(),
            old(func)@.wf(),
            names_ok(old(self)@.names, old(func)@),
        ensures
            final(func)@.ty == old(func)@.ty,
            final(self).furthers(*old(self)),
            final(self).wf(),
            final(func)@.wf(),
            names_ok(final(self)@.names, final(func)@),
            ({
                let o = (Body { st: old(self)@, f: old(func)@, cur: None }).typed_val();
                &&& o.b == (Body { st: final(self)@, f: final(func)@, cur: None })
                &&& match r {
                    Ok(id) => o.res == Ok::<ValId, PErr>(id) && id < final(func)@.vals.len(),
                    Err(e) => o.res == Err::<ValId, PErr>(e@),
                }
            }),
            final(self).unit.globals == old(self).unit.globals,
            final(self)@.weight() <= old(self)@.weight(),
            r is Ok ==> final(self)@.weight() < old(self)@.weight(),
            final(func)@.blocks == old(func)@.blocks,
            final(func)@.vals.len() >= old(func)@.vals.len(),
    {
        reveal(Body::typed_val);
        let ty = self.parse_type()?;
        let v = if ty.is_void() {
            Val::new_void(self.unit.types.void())
        } else if let Some(n) = self.accept_integer()? {
            Val::new_i(n, ty)
        } else if self.accept(Token::Keyword(Keyword::Undef))? {
            Val::new_undef(ty)
        } else {
            return Err(ParseError::Generic(String::from_str("value operand expected")));
        };
        Ok(func.add_val(v))
    }

    /// A value: a name, or a type and what is of the type.
    pub fn parse_val(&mut self, func: &mut Func<'t>) -> (r: PResult<ValId>)
        requires
            old(self).wf(),
            old(func)@.wf(),
            names_ok(old(self)@.names, old(func)@),
        ensures
            final(func)@.ty == old(func)@.ty,
            final(self).furthers(*old(self)),
            final(self).wf(),
            final(func)@.wf(),
            names_ok(final(self)@.names, final(func)@),
            ({
                let o = (Body { st: old(self)@, f: old(func)@, cur: None }).val();
                &&& o.b == (Body { st: final(self)@, f: final(func)@, cur: None })
                &&& match r {
                    Ok(id) => o.res == Ok::<ValId, PErr>(id) && id < final(func)@.vals.len(),
                    Err(e) => o.res == Err::<ValId, PErr>(e@),
                }
            }),
            final(self).unit.globals == old(self).unit.globals,
            final(self)@.weight() <= old(self)@.weight(),
            r is Ok ==> final(self)@.weight() < old(self)@.weight(),
            final(func)@.blocks == old(func)@.blocks,
            final(func)@.vals.len() >= old(func)@.vals.len(),
    {
        reveal(Body::val);
        match self.accept_ident()? {
            Some(ident) => {
                if self.unit.types.resolve_alias(ident.as_str()).is_some() {
                    self.tok.unget(Token::Identifier(ident));
                    self.parse_typed_val(func)
                } else {
                    self.uniq_val(
                        func,
                        ident,
                        None,
                        ValOpts { create: false, alloca: false, label: false },
                    )
                }
            },
            None => self.parse_typed_val(func),
        }
    }

    /// The reader and a function as one: the reader in the body of `func`,
    /// with the block `cur` in hand.
    pub open spec fn body(&self, func: &Func<'t>, cur: Option<BlockId>) -> Body {
        Body { st: self@, f: func@, cur }
    }

    /// Writes the instruction `kind` to the block in hand, if one is.
    pub(crate) fn emit(&self, func: &mut Func<'t>, block: &mut Option<BlockId>, kind: IsnKind)
        requires
            self.body(old(func), *old(block)).wf(),
            old(func)@.isn_in_range(kind@),
        ensures
            final(func)@.ty == old(func)@.ty,
            self.body(final(func), *final(block)) == self.body(old(func), *old(block)).emit(kind@),
            self.body(final(func), *final(block)).wf(),
            final(func)@.vals == old(func)@.vals,
    {
        match *block {
            None => {},
            Some(c) => {
                if kind.is_terminator() {
                    func.terminate(c, Isn::parsed(kind));
                    *block = None;
                } else {
                    func.add_isn(c, Isn::parsed(kind));
                }
            },
        }
    }

    /// Finds or makes the block named `label`.
    pub(crate) fn find_block(&self, func: &mut Func<'t>, block: &Option<BlockId>, label: String) -> (r: BlockId)
        requires
            self.body(old(func), *block).wf(),
        ensures
            final(func)@.ty == old(func)@.ty,
            self.body(final(func), *block) == self.body(old(func), *block).with_label(label@),
            self.body(final(func), *block).wf(),
            r == old(func)@.labelled(label@),
            r < final(func)@.blocks.len(),
            final(func)@.vals == old(func)@.vals,
    {
        let (id, _created) = func.get_block(label);
        id
    }

    /// A value in the body of `func`.
    pub(crate) fn parse_operand(&mut self, func: &mut Func<'t>, block: &mut Option<BlockId>) -> (r: PResult<ValId>)
        requires
            old(self).wf(),
            old(self).body(old(func), *old(block)).wf(),
        ensures
            final(func)@.ty == old(func)@.ty,
            final(self).furthers(*old(self)),
            final(self).wf(),
            final(self).body(final(func), *final(block)).wf(),
            ({
                let o = old(self).body(old(func), *old(block)).val();
                &&& o.b == final(self).body(final(func), *final(block))
                &&& match r {
                    Ok(v) => o.res == Ok::<ValId, PErr>(v) && v < final(func)@.vals.len(),
                    Err(e) => o.res is Err && o.res->Err_0 == e@,
                }
            }),
            final(self).unit.globals == old(self).unit.globals,
            final(self)@.weight() <= old(self)@.weight(),
            r is Ok ==> final(self)@.weight() < old(self)@.weight(),
            *final(block) == *old(block),
            final(func)@.vals.len() >= old(func)@.vals.len(),
    {
        proof {
            lemma_val_any_block(self.body(func, None), *block);
        }
        self.parse_val(func)
    }

    /// What `name` means in the body of `func`.
    pub(crate) fn name_val(&mut self, func: &mut Func<'t>, block: &mut Option<BlockId>, name: String, ty: Option<Type<'t>>, opts: ValOpts) -> (r: PResult<ValId>)
        requires
            old(self).wf(),
            old(self).body(old(func), *old(block)).wf(),
            opts.create == ty.is_some(),
            ty is Some ==> ty->0@.wf(),
        ensures
            final(func)@.ty == old(func)@.ty,
            final(self).furthers(*old(self)),
            final(self).wf(),
            final(self).body(final(func), *final(block)).wf(),
            ({
                let o = old(self).body(old(func), *old(block)).uniq_val(name@, model_of(ty), opts);
                &&& o.b == final(self).body(final(func), *final(block))
                &&& match r {
                    Ok(v) => o.res == Ok::<ValId, PErr>(v) && v < final(func)@.vals.len(),
                    Err(e) => o.res is Err && o.res->Err_0 == e@,
                }
            }),
            final(self).unit.globals == old(self).unit.globals,
            final(self)@.weight() <= old(self)@.weight(),
            *final(block) == *old(block),
            final(self).tok == old(self).tok,
            final(func)@.vals.len() >= old(func)@.vals.len(),
    {
        proof {
            lemma_uniq_val_any_block(self.body(func, None), *block, name@, model_of(ty), opts);
        }
        self.uniq_val(func, name, ty, opts)
    }

    /// Two values with a comma between them.
    pub(crate) fn parse_val_pair(&mut self, func: &mut Func<'t>, block: &mut Option<BlockId>) -> (r: PResult<(ValId, ValId)>)
        requires
            old(self).wf(),
            old(self).body(old(func), *old(block)).wf(),
        ensures
            final(func)@.ty == old(func)@.ty,
            final(self).furthers(*old(self)),
            final(self).wf(),
            final(self).body(final(func), *final(block)).wf(),
            ({
                let o = old(self).body(old(func), *old(block)).val_pair();
                &&& o.b == final(self).body(final(func), *final(block))
                &&& match r {
                    Ok((x, y)) => o.res == Ok::<(ValId, ValId), PErr>((x, y)) && x < final(func)@.vals.len()
                        && y < final(func)@.vals.len(),
                    Err(e) => o.res is Err && o.res->Err_0 == e@,
                }
            }),
            final(self).unit.globals == old(self).unit.globals,
            final(self)@.weight() <= old(self)@.weight(),
            r is Ok ==> final(self)@.weight() < old(self)@.weight(),
            *final(block) == *old(block),
    {
        reveal(Body::val_pair);
        let x = self.parse_operand(func, block)?;
        self.eat(Token::Punctuation(Punctuation::Comma))?;
        let y = self.parse_operand(func, block)?;
        Ok((x, y))
    }

    /// Gives `spel` a value of the type `ty`.
    pub(crate) fn define(&mut self, func: &mut Func<'t>, block: &mut Option<BlockId>, spel: String, ty: Type<'t>, alloca: bool) -> (r: PResult<ValId>)
        requires
            old(self).wf(),
            old(self).body(old(func), *old(block)).wf(),
            ty@.wf(),
        ensures
            final(func)@.ty == old(func)@.ty,
            final(self).furthers(*old(self)),
            final(self).wf(),
            final(self).body(final(func), *final(block)).wf(),
            ({
                let o = old(self).body(old(func), *old(block)).define(spel@, ty@, alloca);
                &&& o.b == final(self).body(final(func), *final(block))
                &&& match r {
                    Ok(v) => o.res == Ok::<ValId, PErr>(v) && v < final(func)@.vals.len(),
                    Err(e) => o.res is Err && o.res->Err_0 == e@,
                }
            }),
            final(self).unit.globals == old(self).unit.globals,
            final(self)@.weight() <= old(self)@.weight(),
            *final(block) == *old(block),
            final(self).tok == old(self).tok,
            final(func)@.vals.len() >= old(func)@.vals.len(),
    {
        self.name_val(func, block, spel, Some(ty), ValOpts { create: true, alloca, label: false })
    }
}

} // verus!
