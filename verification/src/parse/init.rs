//! Reading the initialisers of variables.

use vstd::prelude::*;

use crate::init::{Init, InitFlags, InitModel, InitTopLevel, InitTopModel, PtrInit, PtrInitModel, init_models};
use crate::name::Name;
use crate::parse::{Out, PErr, PResult, PState, ParseError, Parser, SemaKind};
use crate::text::{concat, concat3, decimal, push_decimal, str_eq};
use crate::token::{Keyword, Op, Punctuation, Tok, Token};
use crate::ty::{Primitive, Ty, Type, TypeQueries, TypeS, models};
use crate::unit::last_named;
use crate::variable::{Var, VarModel};

verus! {

/// The types of the elements that an initialiser in braces is read for.
pub enum ElemTypes {
    /// The members of a struct.
    Each(Seq<Ty>),
    /// An array: every element is of this type.
    All(Ty),
}

/// Whether a value of the type `a` may be too large for the room of a value
/// of the type `b`: it is larger, or the size of one of them is not known.
pub open spec fn size_exceeds(a: Ty, b: Ty) -> bool {
    match (a.known_size(), b.known_size()) {
        (Some(x), Some(y)) => x > y,
        _ => true,
    }
}

/// A number of 32 bits taken as an address: a negative one counts down from
/// the top of the 64 bits.
pub open spec fn as_address(i: i32) -> u64 {
    if i >= 0 {
        i as u64
    } else {
        (u64::MAX + 1 + i) as u64
    }
}

/// How a mismatch of counts is told: the count wanted, ` vs `, the count found.
pub open spec fn counts(wanted: nat, found: nat) -> Seq<char> {
    decimal(wanted) + " vs "@ + decimal(found)
}

impl PState {
    /// The initialiser of a pointer to `pointee`: a number, or the name of
    /// a global, which may be followed by `add` or `sub` and a number, and
    /// by the bare word `anyptr`. Without `anyptr` the global must be of the
    /// type `pointee`.
    #[verifier::opaque]
    pub open spec fn init_ptr(self, pointee: Ty) -> Out<PtrInitModel> {
        let n = self.next();
        match n.res {
            Err(e) => n.st.fail(e),
            Ok(Tok::Identifier(label)) => match last_named(n.st.globals, label) {
                None => n.st.fail(
                    PErr::Generic("no such (global) identifier \""@ + label + "\""@),
                ),
                Some(gi) => n.st.init_ptr_label(pointee, label, n.st.globals[gi].ty()),
            },
            Ok(Tok::Integer(i)) => n.st.done(PtrInitModel::Int(as_address(i))),
            Ok(tok) => n.st.fail(PErr::Generic("pointer initialiser expected, got "@ + tok.desc())),
        }
    }

    /// What follows the name of a global in the initialiser of a pointer.
    #[verifier::opaque]
    pub open spec fn init_ptr_label(self, pointee: Ty, label: Seq<char>, ty_global: Ty) -> Out<
        PtrInitModel,
    > {
        let o = self.init_ptr_offset();
        match o.res {
            Err(e) => o.st.fail(e),
            Ok(offset) => {
                let w = o.st.accept_bareword();
                match w.res {
                    Err(e) => w.st.fail(e),
                    Ok(Some(word)) => if word == "anyptr"@ {
                        w.st.done(PtrInitModel::Label { label, offset, is_anyptr: true })
                    } else {
                        w.st.fail(PErr::Generic("unexpected \""@ + word + "\""@))
                    },
                    Ok(None) => w.st.sema_if(
                        !pointee.equal(ty_global),
                        SemaKind::InitTypeMismatch,
                        label,
                    ).done(PtrInitModel::Label { label, offset, is_anyptr: false }),
                }
            },
        }
    }

    /// The offset behind the name of a global: `add` and a number, `sub` and
    /// a number, or nothing.
    #[verifier::opaque]
    pub open spec fn init_ptr_offset(self) -> Out<i64> {
        let n = self.next();
        match n.res {
            Err(e) => n.st.fail(e),
            Ok(Tok::Op(Op::Add)) => {
                let i = n.st.expect_integer();
                match i.res {
                    Err(e) => i.st.fail(e),
                    Ok(v) => i.st.done(v as i64),
                }
            },
            Ok(Tok::Op(Op::Sub)) => {
                let i = n.st.expect_integer();
                match i.res {
                    Err(e) => i.st.fail(e),
                    Ok(v) => i.st.done((-(v as int)) as i64),
                }
            },
            Ok(tok) => n.st.unget(tok).done(0i64),
        }
    }

    /// The initialiser of a variable of the type `ty`. Behind `aliasinit`
    /// stand a type and an initialiser of that type, which must need no
    /// more room than `ty`.
    #[verifier::opaque]
    pub open spec fn init(self, ty: Ty) -> Out<InitModel>
        decreases self.weight(), 4nat,
    {
        let a = self.accept(Tok::Keyword(Keyword::Aliasinit));
        match a.res {
            Err(e) => a.st.fail(e),
            Ok(false) => if a.st.weight() <= self.weight() {
                a.st.init_plain(ty)
            } else {
                a.st.fail(PErr::UnexpectedEof)
            },
            Ok(true) => {
                let t = a.st.ty();
                match t.res {
                    Err(e) => t.st.fail(e),
                    Ok(as_) => {
                        let st = t.st.sema_if(
                            size_exceeds(as_, ty),
                            SemaKind::AliasInitTooLarge,
                            Seq::empty(),
                        );
                        if st.weight() < self.weight() {
                            let i = st.init(as_);
                            match i.res {
                                Err(e) => i.st.fail(e),
                                Ok(inner) => i.st.done(
                                    InitModel::Alias { as_, init: Box::new(inner) },
                                ),
                            }
                        } else {
                            st.fail(PErr::UnexpectedEof)
                        }
                    },
                }
            },
        }
    }

    /// An initialiser that is written out: a number for a number, what
    /// [`PState::init_ptr`] reads for a pointer, a string or elements in
    /// braces for an array, members in braces for a struct. Nothing
    /// initialises void or a function. The count of elements must be that
    /// of the type, and a string initialises bytes only.
    #[verifier::opaque]
    pub open spec fn init_plain(self, ty: Ty) -> Out<InitModel>
        decreases self.weight(), 3nat,
    {
        match ty.resolved() {
            Ty::Void | Ty::Alias { .. } | Ty::Func { .. } => self.fail(
                PErr::Generic("no initialiser for this type"@),
            ),
            Ty::Ptr { pointee, .. } => {
                let p = self.init_ptr(*pointee);
                match p.res {
                    Err(e) => p.st.fail(e),
                    Ok(i) => p.st.done(InitModel::Ptr(i)),
                }
            },
            Ty::Primitive(_) => {
                let i = self.expect_integer();
                match i.res {
                    Err(e) => i.st.fail(e),
                    Ok(v) => if v < 0 {
                        i.st.fail(PErr::Overflow)
                    } else {
                        i.st.done(InitModel::Int(v as u64))
                    },
                }
            },
            Ty::Array { elem, n } => self.init_array(*elem, n),
            Ty::Struct { membs } => self.init_struct(membs),
        }
    }

    /// The initialiser of an array of `n` elements of the type `elem`: a
    /// string, or elements in braces.
    #[verifier::opaque]
    pub open spec fn init_array(self, elem: Ty, n: nat) -> Out<InitModel>
        decreases self.weight(), 2nat,
    {
        let s = self.accept_string();
        match s.res {
            Err(e) => s.st.fail(e),
            Ok(Some(bytes)) => s.st.sema_if(
                elem.as_primitive() != Some(Primitive::I1),
                SemaKind::StringInitNotI1Array,
                Seq::empty(),
            ).done(InitModel::Str(bytes)),
            Ok(None) => if s.st.weight() <= self.weight() {
                let e = s.st.elem_inits(ElemTypes::All(elem));
                match e.res {
                    Err(err) => e.st.fail(err),
                    Ok(elems) => e.st.sema_if(
                        n != elems.len(),
                        SemaKind::InitCountMismatch,
                        counts(n, elems.len()),
                    ).done(InitModel::Array(elems)),
                }
            } else {
                s.st.fail(PErr::UnexpectedEof)
            },
        }
    }

    /// The initialiser of a struct with the members `membs`.
    #[verifier::opaque]
    pub open spec fn init_struct(self, membs: Seq<Ty>) -> Out<InitModel>
        decreases self.weight(), 2nat,
    {
        let e = self.elem_inits(ElemTypes::Each(membs));
        match e.res {
            Err(err) => e.st.fail(err),
            Ok(elems) => e.st.sema_if(
                membs.len() != elems.len(),
                SemaKind::InitCountMismatch,
                counts(membs.len(), elems.len()),
            ).done(InitModel::Struct(elems)),
        }
    }

    /// Initialisers in braces, with commas between them; a comma may stand
    /// behind the last. For a struct no more are read than it has members.
    #[verifier::opaque]
    pub open spec fn elem_inits(self, types: ElemTypes) -> Out<Seq<InitModel>>
        decreases self.weight(), 1nat,
    {
        let open = self.eat(Tok::Punctuation(Punctuation::LBrace));
        match open.res {
            Err(e) => open.st.fail(e),
            Ok(_) => if open.st.weight() < self.weight() {
                open.st.elem_inits_rest(types, Seq::empty())
            } else {
                open.st.fail(PErr::UnexpectedEof)
            },
        }
    }

    /// The rest of the initialisers in braces, behind those in `acc`.
    #[verifier::opaque]
    pub open spec fn elem_inits_rest(self, types: ElemTypes, acc: Seq<InitModel>) -> Out<
        Seq<InitModel>,
    >
        decreases self.weight(), 5nat,
    {
        let ty = match types {
            ElemTypes::Each(ts) => if acc.len() < ts.len() {
                Some(ts[acc.len() as int])
            } else {
                None
            },
            ElemTypes::All(t) => Some(t),
        };
        match ty {
            None => {
                let c = self.eat(Tok::Punctuation(Punctuation::RBrace));
                match c.res {
                    Err(e) => c.st.fail(e),
                    Ok(_) => c.st.done(acc),
                }
            },
            Some(ty) => {
                let e = self.init(ty);
                match e.res {
                    Err(err) => e.st.fail(err),
                    Ok(elem) => e.st.elem_inits_tail(types, acc.push(elem), self.weight()),
                }
            },
        }
    }

    /// What follows an initialiser in braces: the closing brace, or a comma
    /// and then the closing brace or more initialisers. `limit` is what was
    /// left of the text before the initialiser.
    #[verifier::opaque]
    pub open spec fn elem_inits_tail(self, types: ElemTypes, acc: Seq<InitModel>, limit: nat) -> Out<
        Seq<InitModel>,
    >
        decreases limit, 0nat,
    {
        let c = self.accept(Tok::Punctuation(Punctuation::RBrace));
        match c.res {
            Err(e) => c.st.fail(e),
            Ok(true) => c.st.done(acc),
            Ok(false) => {
                let comma = c.st.eat(Tok::Punctuation(Punctuation::Comma));
                match comma.res {
                    Err(e) => comma.st.fail(e),
                    Ok(_) => {
                        let c2 = comma.st.accept(Tok::Punctuation(Punctuation::RBrace));
                        match c2.res {
                            Err(e) => c2.st.fail(e),
                            Ok(true) => c2.st.done(acc),
                            Ok(false) => {
                                let end = c2.st.at_eof();
                                match end.res {
                                    Err(e) => end.st.fail(e),
                                    Ok(true) => end.st.fail(PErr::UnexpectedEof),
                                    Ok(false) => if end.st.weight() < limit {
                                        end.st.elem_inits_rest(types, acc)
                                    } else {
                                        end.st.fail(PErr::UnexpectedEof)
                                    },
                                }
                            },
                        }
                    },
                }
            },
        }
    }

    /// A global variable of the name `name` and the type `ty`: its linkage,
    /// `global` or `internal`, then its modifiers and its initialiser; or
    /// nothing, for a variable that is declared and not defined.
    #[verifier::opaque]
    pub open spec fn variable(self, name: Seq<char>, ty: Ty) -> Out<VarModel> {
        let g = self.accept(Tok::Keyword(Keyword::Global));
        match g.res {
            Err(e) => g.st.fail(e),
            Ok(true) => g.st.var_modifiers(
                name,
                ty,
                InitFlags { internal: false, constant: false, weak: false },
            ),
            Ok(false) => {
                let i = g.st.accept(Tok::Keyword(Keyword::Internal));
                match i.res {
                    Err(e) => i.st.fail(e),
                    Ok(true) => i.st.var_modifiers(
                        name,
                        ty,
                        InitFlags { internal: true, constant: false, weak: false },
                    ),
                    Ok(false) => i.st.done(VarModel { name, ty, init: None }),
                }
            },
        }
    }

    /// The modifiers of a variable, `const` and `weak`, in any order and
    /// number, and its initialiser behind them.
    #[verifier::opaque]
    pub open spec fn var_modifiers(self, name: Seq<char>, ty: Ty, flags: InitFlags) -> Out<VarModel>
        decreases self.weight(),
    {
        let w = self.accept_bareword();
        match w.res {
            Err(e) => w.st.fail(e),
            Ok(Some(word)) => if w.st.weight() >= self.weight() {
                w.st.fail(PErr::UnexpectedEof)
            } else if word == "const"@ {
                w.st.var_modifiers(name, ty, InitFlags { constant: true, ..flags })
            } else if word == "weak"@ {
                w.st.var_modifiers(name, ty, InitFlags { weak: true, ..flags })
            } else {
                w.st.fail(PErr::Generic("unknown variable modifier '"@ + word + "'"@))
            },
            Ok(None) => {
                let i = w.st.init(ty);
                match i.res {
                    Err(e) => i.st.fail(e),
                    Ok(init) => i.st.done(
                        VarModel { name, ty, init: Some(InitTopModel { init, flags }) },
                    ),
                }
            },
        }
    }
}

/// The types of the elements that an initialiser in braces is read for.
pub enum ElemTys<'a, 't> {
    /// The members of a struct.
    Each(&'a Vec<Type<'t>>),
    /// An array: every element is of this type.
    All(Type<'t>),
}

impl<'a, 't> View for ElemTys<'a, 't> {
    type V = ElemTypes;

    open spec fn view(&self) -> ElemTypes {
        match self {
            ElemTys::Each(ts) => ElemTypes::Each(models(ts@)),
            ElemTys::All(t) => ElemTypes::All(t@),
        }
    }
}

impl<'a, 't> ElemTys<'a, 't> {
    /// Every type is well-formed.
    pub open spec fn wf(&self) -> bool {
        match self {
            ElemTys::Each(ts) => forall|i: int| 0 <= i < ts@.len() ==> (#[trigger] ts@[i])@.wf(),
            ElemTys::All(t) => t@.wf(),
        }
    }
}

impl<'t> Parser<'t> {
    /// Records a mismatch of counts.
    pub(crate) fn count_mismatch(&mut self, wanted: usize, found: usize)
        ensures
            final(self).furthers(*old(self)),
            final(self)@ == old(self)@.sema(
                SemaKind::InitCountMismatch,
                counts(wanted as nat, found as nat),
            ),
            final(self).tok == old(self).tok,
            final(self).unit == old(self).unit,
            final(self).names2vals == old(self).names2vals,
    {
        let mut detail = String::new();
        push_decimal(&mut detail, wanted as u64);
        detail.append(" vs ");
        push_decimal(&mut detail, found as u64);
        assert(detail@ =~= counts(wanted as nat, found as nat));
        self.sema_error(SemaKind::InitCountMismatch, detail);
    }

    /// The offset behind the name of a global in the initialiser of a pointer.
    pub(crate) fn parse_init_ptr_offset(&mut self) -> (r: PResult<i64>)
        requires
            old(self).wf(),
        ensures
            final(self).furthers(*old(self)),
            final(self).wf(),
            final(self).names2vals == old(self).names2vals,
            final(self)@ == old(self)@.init_ptr_offset().st,
            match r {
                Ok(v) => old(self)@.init_ptr_offset().res == Ok::<i64, PErr>(v),
                Err(e) => old(self)@.init_ptr_offset().res == Err::<i64, PErr>(e@),
            },
            final(self).unit == old(self).unit,
            final(self)@.weight() <= old(self)@.weight(),
    {
        reveal(PState::init_ptr_offset);
        let tok = self.next()?;
        match tok {
            Token::Op(Op::Add) => {
                let i = self.expect_integer()?;
                Ok(i as i64)
            },
            Token::Op(Op::Sub) => {
                let i = self.expect_integer()?;
                Ok(-(i as i64))
            },
            tok => {
                self.tok.unget(tok);
                Ok(0)
            },
        }
    }

    /// The initialiser of a pointer to `ty`.
    pub fn parse_init_ptr(&mut self, ty: Type<'t>) -> (r: PResult<PtrInit>)
        requires
            old(self).wf(),
        ensures
            final(self).furthers(*old(self)),
            final(self).wf(),
            final(self).names2vals == old(self).names2vals,
            final(self)@ == old(self)@.init_ptr(ty@).st,
            match r {
                Ok(v) => old(self)@.init_ptr(ty@).res == Ok::<PtrInitModel, PErr>(v@),
                Err(e) => old(self)@.init_ptr(ty@).res == Err::<PtrInitModel, PErr>(e@),
            },
            final(self).unit == old(self).unit,
            final(self)@.weight() <= old(self)@.weight(),
            r is Ok ==> final(self)@.weight() < old(self)@.weight(),
    {
        reveal(PState::init_ptr);
        reveal(PState::ty);
        reveal(PState::init_ptr_label);
        reveal(PState::init_ptr_offset);
        let tok = self.next()?;
        match tok {
            Token::Identifier(label) => {
                let ty_global = match self.unit.globals.by_name(label.as_str()) {
                    Some(glob) => glob.ty(),
                    None => {
                        return Err(
                            ParseError::Generic(
                                concat3("no such (global) identifier \"", label.as_str(), "\""),
                            ),
                        );
                    },
                };
                let offset = self.parse_init_ptr_offset()?;
                let is_anyptr = match self.accept_bareword()? {
                    Some(bw) => {
                        if str_eq(bw.as_str(), "anyptr") {
                            true
                        } else {
                            return Err(
                                ParseError::Generic(concat3("unexpected \"", bw.as_str(), "\"")),
                            );
                        }
                    },
                    None => false,
                };
                if !is_anyptr && !(*ty == *ty_global) {
                    self.sema_error(SemaKind::InitTypeMismatch, label.clone());
                }
                Ok(PtrInit::Label { label, offset, is_anyptr })
            },
            Token::Integer(i) => {
                let v: u64 = if i >= 0 {
                    i as u64
                } else {
                    u64::MAX - ((-(i as i64) - 1) as u64)
                };
                Ok(PtrInit::Int(v))
            },
            tok => Err(
                ParseError::Generic(concat("pointer initialiser expected, got ", tok.desc())),
            ),
        }
    }

    /// The initialiser of a variable of the type `ty`.
    pub fn parse_init(&mut self, ty: Type<'t>) -> (r: PResult<Init<'t>>)
        requires
            old(self).wf(),
            ty@.wf(),
        ensures
            final(self).furthers(*old(self)),
            final(self).wf(),
            r is Ok ==> r->Ok_0.types_wf(),
            final(self).names2vals == old(self).names2vals,
            final(self)@ == old(self)@.init(ty@).st,
            match r {
                Ok(v) => old(self)@.init(ty@).res == Ok::<InitModel, PErr>(v@),
                Err(e) => old(self)@.init(ty@).res == Err::<InitModel, PErr>(e@),
            },
            final(self).unit.globals == old(self).unit.globals,
            final(self)@.weight() <= old(self)@.weight(),
            r is Ok ==> final(self)@.weight() < old(self)@.weight(),
        decreases old(self)@.weight(), 4nat,
    {
        reveal(PState::init);
        reveal(PState::ty);
        reveal(PState::init_plain);
        if self.accept(Token::Keyword(Keyword::Aliasinit))? {
            let as_ = self.parse_type()?;
            let too_large = match (as_.checked_size(), ty.checked_size()) {
                (Some(a), Some(b)) => a > b,
                _ => true,
            };
            if too_large {
                self.sema_error(SemaKind::AliasInitTooLarge, String::new());
            }
            let init = self.parse_init(as_)?;
            return Ok(Init::Alias { as_, init: Box::new(init) });
        }
        self.parse_init_plain(ty)
    }

    /// An initialiser that is written out.
    pub(crate) fn parse_init_plain(&mut self, ty: Type<'t>) -> (r: PResult<Init<'t>>)
        requires
            old(self).wf(),
            ty@.wf(),
        ensures
            final(self).furthers(*old(self)),
            final(self).wf(),
            r is Ok ==> r->Ok_0.types_wf(),
            final(self).names2vals == old(self).names2vals,
            final(self)@ == old(self)@.init_plain(ty@).st,
            match r {
                Ok(v) => old(self)@.init_plain(ty@).res == Ok::<InitModel, PErr>(v@),
                Err(e) => old(self)@.init_plain(ty@).res == Err::<InitModel, PErr>(e@),
            },
            final(self).unit.globals == old(self).unit.globals,
            final(self)@.weight() <= old(self)@.weight(),
            r is Ok ==> final(self)@.weight() < old(self)@.weight(),
        decreases old(self)@.weight(), 3nat,
    {
        reveal(PState::init_plain);
        reveal(PState::init_ptr);
        reveal(PState::init_array);
        reveal(PState::init_struct);
        proof {
            crate::ty::lemma_resolved_wf(ty@);
        }
        match ty.resolve() {
            TypeS::Void | TypeS::Alias { .. } | TypeS::Func { .. } => Err(
                ParseError::Generic(String::from_str("no initialiser for this type")),
            ),
            TypeS::Ptr { pointee, .. } => {
                let p = self.parse_init_ptr(pointee)?;
                Ok(Init::Ptr(p))
            },
            TypeS::Primitive(_) => {
                let i = self.expect_integer()?;
                if i < 0 {
                    return Err(ParseError::Overflow);
                }
                Ok(Init::Int(i as u64))
            },
            TypeS::Array { elem, n } => self.parse_init_array(*elem, *n),
            TypeS::Struct { membs } => {
                let ghost r = ty@.resolved();
                assert(r->Struct_membs =~= models(membs@));
                assert forall|i: int| 0 <= i < membs@.len() implies (#[trigger] membs@[i])@.wf() by {
                    assert(r->Struct_membs[i] == membs@[i]@);
                }
                self.parse_init_struct(membs)
            },
        }
    }

    /// The initialiser of an array of `n` elements of the type `elem`.
    pub(crate) fn parse_init_array(&mut self, elem: Type<'t>, n: usize) -> (r: PResult<Init<'t>>)
        requires
            old(self).wf(),
            elem@.wf(),
        ensures
            final(self).furthers(*old(self)),
            final(self).wf(),
            r is Ok ==> r->Ok_0.types_wf(),
            final(self).names2vals == old(self).names2vals,
            final(self)@ == old(self)@.init_array(elem@, n as nat).st,
            match r {
                Ok(v) => old(self)@.init_array(elem@, n as nat).res == Ok::<InitModel, PErr>(v@),
                Err(e) => old(self)@.init_array(elem@, n as nat).res == Err::<InitModel, PErr>(e@),
            },
            final(self).unit.globals == old(self).unit.globals,
            final(self)@.weight() <= old(self)@.weight(),
            r is Ok ==> final(self)@.weight() < old(self)@.weight(),
        decreases old(self)@.weight(), 2nat,
    {
        reveal(PState::init_array);
        reveal(PState::elem_inits);
        match self.accept_string()? {
            Some(s) => {
                let bytes = match elem.as_primitive() {
                    Some(Primitive::I1) => true,
                    _ => false,
                };
                if !bytes {
                    self.sema_error(SemaKind::StringInitNotI1Array, String::new());
                }
                Ok(Init::Str(s))
            },
            None => {
                let elem_inits = self.parse_elem_inits(ElemTys::All(elem))?;
                if n != elem_inits.len() {
                    self.count_mismatch(n, elem_inits.len());
                }
                let ghost m = init_models(elem_inits@);
                let init = Init::Array(elem_inits);
                assert(init@->Array_0 =~= m);
                Ok(init)
            },
        }
    }

    /// The initialiser of a struct with the members `membs`.
    pub(crate) fn parse_init_struct(&mut self, membs: &Vec<Type<'t>>) -> (r: PResult<Init<'t>>)
        requires
            old(self).wf(),
            forall|i: int| 0 <= i < membs@.len() ==> (#[trigger] membs@[i])@.wf(),
        ensures
            final(self).furthers(*old(self)),
            final(self).wf(),
            r is Ok ==> r->Ok_0.types_wf(),
            final(self).names2vals == old(self).names2vals,
            final(self)@ == old(self)@.init_struct(models(membs@)).st,
            match r {
                Ok(v) => old(self)@.init_struct(models(membs@)).res == Ok::<InitModel, PErr>(v@),
                Err(e) => old(self)@.init_struct(models(membs@)).res == Err::<InitModel, PErr>(e@),
            },
            final(self).unit.globals == old(self).unit.globals,
            final(self)@.weight() <= old(self)@.weight(),
            r is Ok ==> final(self)@.weight() < old(self)@.weight(),
        decreases old(self)@.weight(), 2nat,
    {
        reveal(PState::init_struct);
        reveal(PState::elem_inits);
        let elem_inits = self.parse_elem_inits(ElemTys::Each(membs))?;
        if membs.len() != elem_inits.len() {
            self.count_mismatch(membs.len(), elem_inits.len());
        }
        let ghost m = init_models(elem_inits@);
        let init = Init::Struct(elem_inits);
        assert(init@->Struct_0 =~= m);
        Ok(init)
    }

    /// One step among initialisers in braces: the brace that closes them is
    /// met, or one of them is read with what follows it. Says whether the
    /// closing brace was met.
    pub(crate) fn parse_elem_init_step(&mut self, types: &ElemTys<'_, 't>, elems: &mut Vec<Init<'t>>) -> (r:
        PResult<bool>)
        requires
            old(self).wf(),
            forall|k: int| 0 <= k < old(elems)@.len() ==> (#[trigger] old(elems)@[k]).types_wf(),
            types.wf(),
        ensures
            final(self).furthers(*old(self)),
            final(self).wf(),
            forall|k: int| 0 <= k < final(elems)@.len() ==> (#[trigger] final(elems)@[k]).types_wf(),
            final(self).names2vals == old(self).names2vals,
            match r {
                Ok(true) => old(self)@.elem_inits_rest(types@, init_models(old(elems)@)) == (Out {
                    res: Ok(init_models(final(elems)@)),
                    st: final(self)@,
                }),
                Ok(false) => old(self)@.elem_inits_rest(types@, init_models(old(elems)@))
                    == final(self)@.elem_inits_rest(types@, init_models(final(elems)@))
                    && final(self)@.weight() < old(self)@.weight(),
                Err(e) => old(self)@.elem_inits_rest(types@, init_models(old(elems)@)) == (Out::<
                    Seq<InitModel>,
                > { res: Err(e@), st: final(self)@ }),
            },
            final(self).unit.globals == old(self).unit.globals,
            final(self)@.weight() <= old(self)@.weight(),
        decreases old(self)@.weight(), 5nat,
    {
        reveal(PState::elem_inits_rest);
        reveal(PState::init);
        reveal(PState::elem_inits_tail);
        let ghost acc = init_models(elems@);
        let ty = match types {
            ElemTys::Each(ts) => {
                assert(models(ts@).len() == ts@.len());
                if elems.len() < ts.len() {
                    assert(models(ts@)[elems@.len() as int] == ts@[elems@.len() as int]@);
                    Some(ts[elems.len()])
                } else {
                    None
                }
            },
            ElemTys::All(t) => Some(*t),
        };
        let ty = match ty {
            None => {
                self.eat(Token::Punctuation(Punctuation::RBrace))?;
                return Ok(true);
            },
            Some(ty) => ty,
        };
        let elem = self.parse_init(ty)?;
        elems.push(elem);
        assert(init_models(elems@) =~= acc.push(elem@));
        if self.accept(Token::Punctuation(Punctuation::RBrace))? {
            return Ok(true);
        }
        self.eat(Token::Punctuation(Punctuation::Comma))?;
        if self.accept(Token::Punctuation(Punctuation::RBrace))? {
            return Ok(true);
        }
        if self.eof()? {
            return Err(ParseError::UnexpectedEof);
        }
        Ok(false)
    }

    /// Initialisers in braces, for elements of the types `types`.
    pub fn parse_elem_inits(&mut self, types: ElemTys<'_, 't>) -> (r: PResult<Vec<Init<'t>>>)
        requires
            old(self).wf(),
            types.wf(),
        ensures
            final(self).furthers(*old(self)),
            final(self).wf(),
            r is Ok ==> forall|k: int| 0 <= k < r->Ok_0@.len() ==> (#[trigger] r->Ok_0@[k]).types_wf(),
            final(self).names2vals == old(self).names2vals,
            final(self)@ == old(self)@.elem_inits(types@).st,
            match r {
                Ok(v) => old(self)@.elem_inits(types@).res == Ok::<Seq<InitModel>, PErr>(
                    init_models(v@),
                ),
                Err(e) => old(self)@.elem_inits(types@).res == Err::<Seq<InitModel>, PErr>(e@),
            },
            final(self).unit.globals == old(self).unit.globals,
            final(self)@.weight() <= old(self)@.weight(),
            r is Ok ==> final(self)@.weight() < old(self)@.weight(),
        decreases old(self)@.weight(), 1nat,
    {
        reveal(PState::elem_inits);
        reveal(PState::elem_inits_rest);
        let ghost goal = old(self)@.elem_inits(types@);
        self.eat(Token::Punctuation(Punctuation::LBrace))?;
        let mut elem_inits: Vec<Init<'t>> = Vec::new();
        assert(init_models(elem_inits@) =~= Seq::empty());
        loop
            invariant
                self.wf(),
                self.furthers(*old(self)),
                types.wf(),
                self.unit.globals == old(self).unit.globals,
                self.names2vals == old(self).names2vals,
                self@.weight() < old(self)@.weight(),
                goal == old(self)@.elem_inits(types@),
                goal == self@.elem_inits_rest(types@, init_models(elem_inits@)),
                forall|k: int| 0 <= k < elem_inits@.len() ==> (#[trigger] elem_inits@[k]).types_wf(),
            decreases self@.weight(),
        {
            if self.parse_elem_init_step(&types, &mut elem_inits)? {
                return Ok(elem_inits);
            }
        }
    }

    /// A global variable of the name `name` and the type `ty`.
    pub fn parse_variable(&mut self, name: String, ty: Type<'t>) -> (r: PResult<Var<'t>>)
        requires
            old(self).wf(),
            ty@.wf(),
        ensures
            final(self).furthers(*old(self)),
            final(self).wf(),
            final(self).names2vals == old(self).names2vals,
            final(self)@ == old(self)@.variable(name@, ty@).st,
            match r {
                Ok(v) => old(self)@.variable(name@, ty@).res == Ok::<VarModel, PErr>(v@) && v.wf()
                    && v@.ty == ty@,
                Err(e) => old(self)@.variable(name@, ty@).res == Err::<VarModel, PErr>(e@),
            },
            final(self).unit.globals == old(self).unit.globals,
            final(self)@.weight() <= old(self)@.weight(),
    {
        reveal(PState::variable);
        reveal(PState::var_modifiers);
        reveal(PState::init);
        let ghost goal = old(self)@.variable(name@, ty@);
        let mut flags = InitFlags::none();
        if self.accept(Token::Keyword(Keyword::Global))? {
        } else if self.accept(Token::Keyword(Keyword::Internal))? {
            flags.internal = true;
        } else {
            return Ok(Var { name: Name::new(name), ty, init: None });
        }
        loop
            invariant
                self.wf(),
                self.furthers(*old(self)),
                ty@.wf(),
                self.unit.globals == old(self).unit.globals,
                self.names2vals == old(self).names2vals,
                self@.weight() <= old(self)@.weight(),
                goal == old(self)@.variable(name@, ty@),
                goal == self@.var_modifiers(name@, ty@, flags),
            decreases self@.weight(),
        {
            reveal(PState::variable);
            reveal(PState::var_modifiers);
            reveal(PState::init);
            match self.accept_bareword()? {
                Some(bareword) => {
                    if str_eq(bareword.as_str(), "const") {
                        flags.constant = true;
                    } else if str_eq(bareword.as_str(), "weak") {
                        flags.weak = true;
                    } else {
                        return Err(
                            ParseError::Generic(
                                concat3("unknown variable modifier '", bareword.as_str(), "'"),
                            ),
                        );
                    }
                },
                None => {
                    let init = self.parse_init(ty)?;
                    return Ok(
                        Var { name: Name::new(name), ty, init: Some(InitTopLevel { init, flags }) },
                    );
                },
            }
        }
    }
}

} // verus!
