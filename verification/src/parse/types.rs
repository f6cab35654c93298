//! Reading types.

use vstd::prelude::*;

use crate::func::texts;
use crate::parse::{Out, PErr, PResult, PState, ParseError, Parser, SemaKind};
use crate::text::{concat, str_eq};
use crate::token::{Keyword, Punctuation, Tok, Token};
use crate::ty::{Primitive, Ty, Type, TypeQueries, models};
use crate::ty_uniq::{find_alias, lemma_find_alias};

verus! {

/// What came of reading a list of types: the types, whether the list ends
/// in an ellipsis, and the names given to the types, if they were named.
pub struct TypeList {
    pub types: Seq<Ty>,
    pub variadic: bool,
    pub names: Seq<Seq<char>>,
}

impl PState {
    /// The type that a keyword names.
    pub open spec fn keyword_type(kw: Keyword) -> Option<Ty> {
        match kw {
            Keyword::I1 => Some(Ty::Primitive(Primitive::I1)),
            Keyword::I2 => Some(Ty::Primitive(Primitive::I2)),
            Keyword::I4 => Some(Ty::Primitive(Primitive::I4)),
            Keyword::I8 => Some(Ty::Primitive(Primitive::I8)),
            Keyword::F4 => Some(Ty::Primitive(Primitive::F4)),
            Keyword::F8 => Some(Ty::Primitive(Primitive::F8)),
            Keyword::FLarge => Some(Ty::Primitive(Primitive::FLarge)),
            Keyword::Void => Some(Ty::Void),
            _ => None,
        }
    }

    /// A type, which may be a function type with named arguments. An array
    /// of functions and a function that returns an array are faults: `i4`
    /// stands in for either.
    #[verifier::opaque]
    pub open spec fn type_maybe_func(self) -> Out<(Ty, Seq<Seq<char>>)>
        decreases self.weight(), 4nat,
    {
        let o = self.type_nochk();
        match o.res {
            Err(e) => o.st.fail(e),
            Ok((ty, names)) => {
                let array_of_fn = match ty.array_elem() {
                    Some(e) => e.is_fn(),
                    None => false,
                };
                let fn_of_array = match ty.called() {
                    Some(r) => r.array_elem() is Some,
                    None => false,
                };
                let st = o.st.sema_if(array_of_fn, SemaKind::ArrayOfFunctions, Seq::empty()).sema_if(
                    fn_of_array,
                    SemaKind::FunctionReturningArray,
                    Seq::empty(),
                );
                if array_of_fn || fn_of_array {
                    st.done((Ty::Primitive(Primitive::I4), Seq::empty()))
                } else {
                    st.done((ty, names))
                }
            },
        }
    }

    /// A type.
    #[verifier::opaque]
    pub open spec fn ty(self) -> Out<Ty>
        decreases self.weight(), 5nat,
    {
        let o = self.type_maybe_func();
        match o.res {
            Err(e) => o.st.fail(e),
            Ok((ty, _)) => o.st.done(ty),
        }
    }

    /// A type without the checks of [`PState::type_maybe_func`]: a head and
    /// what follows it of `*` and argument lists.
    #[verifier::opaque]
    pub open spec fn type_nochk(self) -> Out<(Ty, Seq<Seq<char>>)>
        decreases self.weight(), 3nat,
    {
        let h = self.type_head();
        match h.res {
            Err(e) => h.st.fail(e),
            Ok(t) => if h.st.weight() < self.weight() {
                h.st.type_suffixes(t, Seq::empty())
            } else {
                h.st.fail(PErr::UnexpectedEof)
            },
        }
    }

    /// The head of a type: the name of an alias, a keyword, a struct in
    /// braces, or an array in square brackets.
    #[verifier::opaque]
    pub open spec fn type_head(self) -> Out<Ty>
        decreases self.weight(), 2nat,
    {
        let n = self.next();
        match n.res {
            Err(e) => n.st.fail(e),
            Ok(tok) => if n.st.weight() >= self.weight() {
                n.st.fail(PErr::Generic("type expected, got "@ + tok.desc()))
            } else {
                match tok {
                    Tok::Identifier(spel) => match find_alias(n.st.aliases, spel) {
                        Some(t) => n.st.done(t),
                        None => n.st.sema(SemaKind::NoSuchType, spel).done(Ty::Void),
                    },
                    Tok::Keyword(kw) => match Self::keyword_type(kw) {
                        Some(t) => n.st.done(t),
                        None => n.st.fail(PErr::Generic("type expected"@)),
                    },
                    Tok::Punctuation(Punctuation::LBrace) => {
                        let l = n.st.type_list(Tok::Punctuation(Punctuation::RBrace), false);
                        match l.res {
                            Err(e) => l.st.fail(e),
                            Ok(list) => if list.variadic {
                                l.st.fail(PErr::Generic("structs can't be variadic"@))
                            } else {
                                l.st.done(Ty::Struct { membs: list.types })
                            },
                        }
                    },
                    Tok::Punctuation(Punctuation::LSquare) => n.st.array_type(),
                    _ => n.st.fail(PErr::Generic("type expected, got "@ + tok.desc())),
                }
            },
        }
    }

    /// An array type behind its opening bracket: the type of the elements,
    /// the bare word `x`, the number of elements, and the closing bracket.
    #[verifier::opaque]
    pub open spec fn array_type(self) -> Out<Ty>
        decreases self.weight(), 6nat,
    {
        let e = self.ty();
        match e.res {
            Err(err) => e.st.fail(err),
            Ok(elem) => {
                let n = e.st.next();
                match n.res {
                    Err(err) => n.st.fail(err),
                    Ok(Tok::Bareword(mul)) => if mul != "x"@ {
                        n.st.fail(
                            PErr::Generic("'x' expected for array multiplier, got "@ + mul),
                        )
                    } else {
                        let c = n.st.expect_integer();
                        match c.res {
                            Err(err) => c.st.fail(err),
                            Ok(count) => if count < 0 {
                                c.st.fail(PErr::Overflow)
                            } else {
                                let close = c.st.eat(Tok::Punctuation(Punctuation::RSquare));
                                match close.res {
                                    Err(err) => close.st.fail(err),
                                    Ok(_) => close.st.done(
                                        Ty::Array { elem: Box::new(elem), n: count as nat },
                                    ),
                                }
                            },
                        }
                    },
                    Ok(tok) => n.st.fail(PErr::Expected("\"x\" for array multiplier"@, tok)),
                }
            },
        }
    }

    /// What follows the head of a type: each `*` makes a pointer to the type
    /// so far, each list of arguments a function that returns it. The names
    /// are those of the last list that gave names; a second list that gives
    /// names is a fault.
    #[verifier::opaque]
    pub open spec fn type_suffixes(self, t: Ty, names: Seq<Seq<char>>) -> Out<(Ty, Seq<Seq<char>>)>
        decreases self.weight(), 2nat,
    {
        let star = self.accept(Tok::Punctuation(Punctuation::Star));
        match star.res {
            Err(e) => star.st.fail(e),
            Ok(true) => if star.st.weight() < self.weight() {
                star.st.type_suffixes(
                    Ty::Ptr { pointee: Box::new(t), sz: self.ptr },
                    names,
                )
            } else {
                star.st.fail(PErr::UnexpectedEof)
            },
            Ok(false) => {
                let paren = star.st.accept(Tok::Punctuation(Punctuation::LParen));
                match paren.res {
                    Err(e) => paren.st.fail(e),
                    Ok(false) => paren.st.done((t, names)),
                    Ok(true) => if paren.st.weight() < self.weight() {
                        let l = paren.st.type_list(Tok::Punctuation(Punctuation::RParen), true);
                        match l.res {
                            Err(e) => l.st.fail(e),
                            Ok(list) => {
                                let st = l.st.sema_if(
                                    list.names.len() > 0 && names.len() > 0,
                                    SemaKind::MultipleArgNames,
                                    Seq::empty(),
                                );
                                let f = Ty::Func {
                                    ret: Box::new(t),
                                    args: list.types,
                                    variadic: list.variadic,
                                };
                                let names = if list.names.len() > 0 {
                                    list.names
                                } else {
                                    names
                                };
                                if st.weight() < self.weight() {
                                    st.type_suffixes(f, names)
                                } else {
                                    st.fail(PErr::UnexpectedEof)
                                }
                            },
                        }
                    } else {
                        paren.st.fail(PErr::UnexpectedEof)
                    },
                }
            },
        }
    }

    /// A list of types up to the token `closer`, with commas between them:
    /// the members of a struct, or the arguments of a function. An ellipsis
    /// may stand alone in the list or behind its last comma. Where
    /// `toplvl_args` is set and an identifier follows the first type, every
    /// type is followed by one, its name.
    #[verifier::opaque]
    pub open spec fn type_list(self, closer: Tok, toplvl_args: bool) -> Out<TypeList>
        decreases self.weight(), 9nat,
    {
        let dots = self.accept(Tok::Punctuation(Punctuation::Ellipses));
        match dots.res {
            Err(e) => dots.st.fail(e),
            Ok(true) => {
                let c = dots.st.eat(closer);
                match c.res {
                    Err(e) => c.st.fail(e),
                    Ok(_) => c.st.done(
                        TypeList { types: Seq::empty(), variadic: true, names: Seq::empty() },
                    ),
                }
            },
            Ok(false) => if dots.st.weight() <= self.weight() {
                dots.st.type_list_rest(
                    closer,
                    toplvl_args,
                    TypeList { types: Seq::empty(), variadic: false, names: Seq::empty() },
                )
            } else {
                dots.st.fail(PErr::UnexpectedEof)
            },
        }
    }

    /// The rest of a list of types, behind the types and names in `acc`.
    #[verifier::opaque]
    pub open spec fn type_list_rest(self, closer: Tok, toplvl_args: bool, acc: TypeList) -> Out<
        TypeList,
    >
        decreases self.weight(), 8nat,
    {
        let close = self.accept(closer);
        match close.res {
            Err(e) => close.st.fail(e),
            Ok(true) => close.st.done(acc),
            Ok(false) => if close.st.weight() > self.weight() {
                close.st.fail(PErr::UnexpectedEof)
            } else {
                let m = close.st.ty();
                match m.res {
                    Err(e) => m.st.fail(e),
                    Ok(memb) => {
                        let st = m.st.sema_if(
                            memb.is_fn(),
                            SemaKind::FunctionInAggregate,
                            Seq::empty(),
                        );
                        let memb = if memb.is_fn() {
                            Ty::Void
                        } else {
                            memb
                        };
                        let named = st.arg_name(toplvl_args, acc);
                        match named.res {
                            Err(e) => named.st.fail(e),
                            Ok((name, comma_taken)) => {
                                let acc = TypeList {
                                    types: acc.types.push(memb),
                                    variadic: false,
                                    names: match name {
                                        Some(n) => acc.names.push(n),
                                        None => acc.names,
                                    },
                                };
                                let comma = if comma_taken {
                                    named.st.done(true)
                                } else {
                                    named.st.accept(Tok::Punctuation(Punctuation::Comma))
                                };
                                match comma.res {
                                    Err(e) => comma.st.fail(e),
                                    Ok(false) => {
                                        let c = comma.st.eat(closer);
                                        match c.res {
                                            Err(e) => c.st.fail(e),
                                            Ok(_) => c.st.done(acc),
                                        }
                                    },
                                    Ok(true) => {
                                        let dots = comma.st.accept(
                                            Tok::Punctuation(Punctuation::Ellipses),
                                        );
                                        match dots.res {
                                            Err(e) => dots.st.fail(e),
                                            Ok(true) => {
                                                let c = dots.st.eat(closer);
                                                match c.res {
                                                    Err(e) => c.st.fail(e),
                                                    Ok(_) => c.st.done(
                                                        TypeList { variadic: true, ..acc },
                                                    ),
                                                }
                                            },
                                            Ok(false) => if dots.st.weight() < self.weight() {
                                                dots.st.type_list_rest(closer, toplvl_args, acc)
                                            } else {
                                                dots.st.fail(PErr::UnexpectedEof)
                                            },
                                        }
                                    },
                                }
                            },
                        }
                    },
                }
            },
        }
    }

    /// The name behind a type in a list of arguments, and whether the comma
    /// behind the type was taken on the way. Behind the first type an
    /// identifier is a name, and a comma says that no argument is named;
    /// behind a later type a name must follow where the first had one.
    #[verifier::opaque]
    pub open spec fn arg_name(self, toplvl_args: bool, acc: TypeList) -> Out<
        (Option<Seq<char>>, bool),
    > {
        if !toplvl_args {
            self.done((None, false))
        } else if acc.types.len() == 0 {
            let n = self.next();
            match n.res {
                Err(e) => n.st.fail(e),
                Ok(Tok::Identifier(id)) => n.st.done((Some(id), false)),
                Ok(Tok::Punctuation(Punctuation::Comma)) => n.st.done((None, true)),
                Ok(tok) => n.st.unget(tok).done((None, false)),
            }
        } else if acc.names.len() > 0 {
            let id = self.expect_ident("identifier for argument name"@);
            match id.res {
                Err(e) => id.st.fail(e),
                Ok(id_) => id.st.done((Some(id_), false)),
            }
        } else {
            self.done((None, false))
        }
    }
}

impl<'t> Parser<'t> {
    /// The head of a type.
    pub(crate) fn parse_type_head(&mut self) -> (r: PResult<Type<'t>>)
        requires
            old(self).wf(),
        ensures
            final(self).furthers(*old(self)),
            final(self).wf(),
            final(self).names2vals == old(self).names2vals,
            final(self)@ == old(self)@.type_head().st,
            match r {
                Ok(t) => old(self)@.type_head().res == Ok::<Ty, PErr>(t@) && t@.wf()
                    && final(self).unit.types.holds(t@),
                Err(e) => old(self)@.type_head().res == Err::<Ty, PErr>(e@),
            },
            final(self).unit.globals == old(self).unit.globals,
            final(self)@.weight() <= old(self)@.weight(),
            r is Ok ==> final(self)@.weight() < old(self)@.weight(),
        decreases old(self)@.weight(), 2nat,
    {
        reveal(PState::type_head);
        reveal(PState::array_type);
        reveal(PState::type_list);
        let tok = self.next()?;
        match tok {
            Token::Identifier(spel) => {
                proof {
                    lemma_find_alias(self.unit.types.alias_list(), spel@);
                }
                match self.unit.types.resolve_alias(spel.as_str()) {
                    Some(ty) => Ok(ty),
                    None => {
                        self.sema_error(SemaKind::NoSuchType, spel);
                        Ok(self.unit.types.void())
                    },
                }
            },
            Token::Keyword(kw) => {
                let p = match kw {
                    Keyword::I1 => Primitive::I1,
                    Keyword::I2 => Primitive::I2,
                    Keyword::I4 => Primitive::I4,
                    Keyword::I8 => Primitive::I8,
                    Keyword::F4 => Primitive::F4,
                    Keyword::F8 => Primitive::F8,
                    Keyword::FLarge => Primitive::FLarge,
                    Keyword::Void => {
                        return Ok(self.unit.types.void());
                    },
                    _ => {
                        return Err(ParseError::Generic(String::from_str("type expected")));
                    },
                };
                Ok(self.unit.types.primitive(p))
            },
            Token::Punctuation(Punctuation::LBrace) => {
                let (types, variadic, _names) = self.parse_type_list(
                    Token::Punctuation(Punctuation::RBrace),
                    false,
                )?;
                if variadic {
                    return Err(ParseError::Generic(String::from_str("structs can't be variadic")));
                }
                Ok(self.unit.types.struct_of(types))
            },
            Token::Punctuation(Punctuation::LSquare) => self.parse_array_type(),
            tok => Err(ParseError::Generic(concat("type expected, got ", tok.desc()))),
        }
    }

    /// An array type behind its opening bracket.
    pub(crate) fn parse_array_type(&mut self) -> (r: PResult<Type<'t>>)
        requires
            old(self).wf(),
        ensures
            final(self).furthers(*old(self)),
            final(self).wf(),
            final(self).names2vals == old(self).names2vals,
            final(self)@ == old(self)@.array_type().st,
            match r {
                Ok(t) => old(self)@.array_type().res == Ok::<Ty, PErr>(t@) && t@.wf()
                    && final(self).unit.types.holds(t@),
                Err(e) => old(self)@.array_type().res == Err::<Ty, PErr>(e@),
            },
            final(self).unit.globals == old(self).unit.globals,
            final(self)@.weight() <= old(self)@.weight(),
        decreases old(self)@.weight(), 6nat,
    {
        reveal(PState::array_type);
        reveal(PState::ty);
        let elemty = self.parse_type()?;
        let tok = self.next()?;
        let mul = match tok {
            Token::Bareword(w) => w,
            tok => {
                return Err(ParseError::Expected("\"x\" for array multiplier", tok));
            },
        };
        if !str_eq(mul.as_str(), "x") {
            return Err(
                ParseError::Generic(concat("'x' expected for array multiplier, got ", mul.as_str())),
            );
        }
        let nelems = self.expect_integer()?;
        if nelems < 0 {
            return Err(ParseError::Overflow);
        }
        self.eat(Token::Punctuation(Punctuation::RSquare))?;
        Ok(self.unit.types.array_of(elemty, nelems as usize))
    }

    /// One step behind the head of a type: a `*` or a list of arguments is
    /// taken and goes into the type, or nothing is taken and the type is done.
    pub(crate) fn parse_type_suffix(&mut self, t: Type<'t>, arg_names: Vec<String>) -> (r: PResult<
        (Type<'t>, Vec<String>, bool),
    >)
        requires
            old(self).wf(),
            t@.wf(),
            old(self).unit.types.holds(t@),
        ensures
            final(self).furthers(*old(self)),
            final(self).wf(),
            final(self).names2vals == old(self).names2vals,
            match r {
                Ok((ty, names, true)) => old(self)@.type_suffixes(t@, texts(arg_names@))
                    == (Out { res: Ok((ty@, texts(names@))), st: final(self)@ }) && ty@.wf()
                        && final(self).unit.types.holds(ty@),
                Ok((ty, names, false)) => old(self)@.type_suffixes(t@, texts(arg_names@))
                    == final(self)@.type_suffixes(ty@, texts(names@)) && ty@.wf()
                        && final(self).unit.types.holds(ty@)
                    && final(self)@.weight() < old(self)@.weight(),
                Err(e) => old(self)@.type_suffixes(t@, texts(arg_names@)) == (Out::<
                    (Ty, Seq<Seq<char>>),
                > { res: Err(e@), st: final(self)@ }),
            },
            final(self).unit.globals == old(self).unit.globals,
            final(self)@.weight() <= old(self)@.weight(),
        decreases old(self)@.weight(), 1nat,
    {
        reveal(PState::type_suffixes);
        reveal(PState::type_list);
        if self.accept(Token::Punctuation(Punctuation::Star))? {
            let p = self.unit.types.ptr_to(t);
            return Ok((p, arg_names, false));
        }
        if self.accept(Token::Punctuation(Punctuation::LParen))? {
            let (types, variadic, names) = self.parse_type_list(
                Token::Punctuation(Punctuation::RParen),
                true,
            )?;
            let mut arg_names = arg_names;
            if names.len() > 0 {
                if arg_names.len() > 0 {
                    self.sema_error(SemaKind::MultipleArgNames, String::new());
                }
                arg_names = names;
            }
            let f = self.unit.types.func_of(t, types, variadic);
            return Ok((f, arg_names, false));
        }
        Ok((t, arg_names, true))
    }

    /// What follows the head `t` of a type.
    pub(crate) fn parse_type_suffixes(&mut self, t: Type<'t>, arg_names: Vec<String>) -> (r: PResult<
        (Type<'t>, Vec<String>),
    >)
        requires
            old(self).wf(),
            t@.wf(),
            old(self).unit.types.holds(t@),
        ensures
            final(self).furthers(*old(self)),
            final(self).wf(),
            final(self).names2vals == old(self).names2vals,
            final(self)@ == old(self)@.type_suffixes(t@, texts(arg_names@)).st,
            match r {
                Ok((ty, names)) => old(self)@.type_suffixes(t@, texts(arg_names@)).res == Ok::<
                    (Ty, Seq<Seq<char>>),
                    PErr,
                >((ty@, texts(names@))) && ty@.wf() && final(self).unit.types.holds(ty@),
                Err(e) => old(self)@.type_suffixes(t@, texts(arg_names@)).res == Err::<
                    (Ty, Seq<Seq<char>>),
                    PErr,
                >(e@),
            },
            final(self).unit.globals == old(self).unit.globals,
            final(self)@.weight() <= old(self)@.weight(),
        decreases old(self)@.weight(), 2nat,
    {
        let ghost goal = old(self)@.type_suffixes(t@, texts(arg_names@));
        let mut cur = t;
        let mut cur_names = arg_names;
        loop
            invariant
                self.wf(),
                self.furthers(*old(self)),
                cur@.wf(),
                self.unit.types.holds(cur@),
                self.unit.globals == old(self).unit.globals,
                self.names2vals == old(self).names2vals,
                self@.weight() <= old(self)@.weight(),
                goal == old(self)@.type_suffixes(t@, texts(arg_names@)),
                goal == self@.type_suffixes(cur@, texts(cur_names@)),
            decreases self@.weight(),
        {
            let (ty, names, done) = self.parse_type_suffix(cur, cur_names)?;
            if done {
                return Ok((ty, names));
            }
            cur = ty;
            cur_names = names;
        }
    }

    /// A type without the checks on arrays of functions and functions that
    /// return arrays, and the names that the type gives to arguments.
    pub(crate) fn parse_type_maybe_func_nochk(&mut self) -> (r: PResult<(Type<'t>, Vec<String>)>)
        requires
            old(self).wf(),
        ensures
            final(self).furthers(*old(self)),
            final(self).wf(),
            final(self).names2vals == old(self).names2vals,
            final(self)@ == old(self)@.type_nochk().st,
            match r {
                Ok((ty, names)) => old(self)@.type_nochk().res == Ok::<(Ty, Seq<Seq<char>>), PErr>(
                    (ty@, texts(names@)),
                ) && ty@.wf() && final(self).unit.types.holds(ty@),
                Err(e) => old(self)@.type_nochk().res == Err::<(Ty, Seq<Seq<char>>), PErr>(e@),
            },
            final(self).unit.globals == old(self).unit.globals,
            final(self)@.weight() <= old(self)@.weight(),
            r is Ok ==> final(self)@.weight() < old(self)@.weight(),
        decreases old(self)@.weight(), 3nat,
    {
        reveal(PState::type_nochk);
        reveal(PState::type_head);
        reveal(PState::type_suffixes);
        let t = self.parse_type_head()?;
        let names: Vec<String> = Vec::new();
        assert(texts(names@) =~= Seq::empty());
        self.parse_type_suffixes(t, names)
    }

    /// A type, which may be a function type with named arguments.
    pub fn parse_type_maybe_func(&mut self) -> (r: PResult<(Type<'t>, Vec<String>)>)
        requires
            old(self).wf(),
        ensures
            final(self).furthers(*old(self)),
            final(self).wf(),
            final(self).names2vals == old(self).names2vals,
            final(self)@ == old(self)@.type_maybe_func().st,
            match r {
                Ok((ty, names)) => old(self)@.type_maybe_func().res == Ok::<
                    (Ty, Seq<Seq<char>>),
                    PErr,
                >((ty@, texts(names@))) && ty@.wf() && final(self).unit.types.holds(ty@),
                Err(e) => old(self)@.type_maybe_func().res == Err::<(Ty, Seq<Seq<char>>), PErr>(e@),
            },
            final(self).unit.globals == old(self).unit.globals,
            final(self)@.weight() <= old(self)@.weight(),
            r is Ok ==> final(self)@.weight() < old(self)@.weight(),
        decreases old(self)@.weight(), 4nat,
    {
        reveal(PState::type_maybe_func);
        reveal(PState::type_nochk);
        let (ty, names) = self.parse_type_maybe_func_nochk()?;
        let array_of_fn = ty.array_elem().is_fn();
        let fn_of_array = ty.called().array_elem().is_some();
        if array_of_fn {
            self.sema_error(SemaKind::ArrayOfFunctions, String::new());
        }
        if fn_of_array {
            self.sema_error(SemaKind::FunctionReturningArray, String::new());
        }
        if array_of_fn || fn_of_array {
            let none: Vec<String> = Vec::new();
            assert(texts(none@) =~= Seq::empty());
            Ok((self.unit.types.default(), none))
        } else {
            Ok((ty, names))
        }
    }

    /// A type.
    pub fn parse_type(&mut self) -> (r: PResult<Type<'t>>)
        requires
            old(self).wf(),
        ensures
            final(self).furthers(*old(self)),
            final(self).wf(),
            final(self).names2vals == old(self).names2vals,
            final(self)@ == old(self)@.ty().st,
            match r {
                Ok(t) => old(self)@.ty().res == Ok::<Ty, PErr>(t@) && t@.wf()
                    && final(self).unit.types.holds(t@),
                Err(e) => old(self)@.ty().res == Err::<Ty, PErr>(e@),
            },
            final(self).unit.globals == old(self).unit.globals,
            final(self)@.weight() <= old(self)@.weight(),
            r is Ok ==> final(self)@.weight() < old(self)@.weight(),
        decreases old(self)@.weight(), 5nat,
    {
        reveal(PState::ty);
        reveal(PState::type_maybe_func);
        let (ty, _args) = self.parse_type_maybe_func()?;
        Ok(ty)
    }

    /// The name behind a type in a list of arguments.
    pub(crate) fn parse_arg_name(&mut self, toplvl_args: bool, first: bool, named: bool) -> (r: PResult<
        (Option<String>, bool),
    >)
        requires
            old(self).wf(),
        ensures
            final(self).furthers(*old(self)),
            final(self).wf(),
            final(self).names2vals == old(self).names2vals,
            final(self).unit == old(self).unit,
            final(self)@.weight() <= old(self)@.weight(),
            forall|acc: TypeList|
                (acc.types.len() == 0) == first && (acc.names.len() > 0) == named ==> {
                    let o = #[trigger] old(self)@.arg_name(toplvl_args, acc);
                    &&& final(self)@ == o.st
                    &&& match r {
                        Ok((Some(n), c)) => o.res == Ok::<(Option<Seq<char>>, bool), PErr>(
                            (Some(n@), c),
                        ),
                        Ok((None, c)) => o.res == Ok::<(Option<Seq<char>>, bool), PErr>((None, c)),
                        Err(e) => o.res == Err::<(Option<Seq<char>>, bool), PErr>(e@),
                    }
                },
    {
        reveal(PState::arg_name);
        if !toplvl_args {
            Ok((None, false))
        } else if first {
            let tok = self.next()?;
            match tok {
                Token::Identifier(id) => Ok((Some(id), false)),
                Token::Punctuation(Punctuation::Comma) => Ok((None, true)),
                tok => {
                    self.tok.unget(tok);
                    Ok((None, false))
                },
            }
        } else if named {
            let id = self.expect_ident("identifier for argument name")?;
            Ok((Some(id), false))
        } else {
            Ok((None, false))
        }
    }

    /// One step in a list of types: the closer ends the list, or a type is
    /// taken with what belongs to it. Returns whether the list is done, and
    /// then whether it ends in an ellipsis.
    pub(crate) fn parse_type_list_step(
        &mut self,
        closer: &Token,
        toplvl_args: bool,
        types: &mut Vec<Type<'t>>,
        names: &mut Vec<String>,
    ) -> (r: PResult<Option<bool>>)
        requires
            old(self).wf(),
            forall|i: int| 0 <= i < old(types)@.len() ==> (#[trigger] old(types)@[i])@.wf(),
        ensures
            final(self).furthers(*old(self)),
            final(self).wf(),
            final(self).names2vals == old(self).names2vals,
            forall|i: int| 0 <= i < final(types)@.len() ==> (#[trigger] final(types)@[i])@.wf(),
            match r {
                Ok(Some(variadic)) => old(self)@.type_list_rest(
                    closer@,
                    toplvl_args,
                    TypeList {
                        types: models(old(types)@),
                        variadic: false,
                        names: texts(old(names)@),
                    },
                ) == (Out {
                    res: Ok(
                        TypeList {
                            types: models(final(types)@),
                            variadic,
                            names: texts(final(names)@),
                        },
                    ),
                    st: final(self)@,
                }),
                Ok(None) => old(self)@.type_list_rest(
                    closer@,
                    toplvl_args,
                    TypeList {
                        types: models(old(types)@),
                        variadic: false,
                        names: texts(old(names)@),
                    },
                ) == final(self)@.type_list_rest(
                    closer@,
                    toplvl_args,
                    TypeList {
                        types: models(final(types)@),
                        variadic: false,
                        names: texts(final(names)@),
                    },
                ) && final(self)@.weight() < old(self)@.weight(),
                Err(e) => old(self)@.type_list_rest(
                    closer@,
                    toplvl_args,
                    TypeList {
                        types: models(old(types)@),
                        variadic: false,
                        names: texts(old(names)@),
                    },
                ) == (Out::<TypeList> { res: Err(e@), st: final(self)@ }),
            },
            final(self).unit.globals == old(self).unit.globals,
            final(self)@.weight() <= old(self)@.weight(),
        decreases old(self)@.weight(), 7nat,
    {
        reveal(PState::type_list_rest);
        reveal(PState::ty);
        reveal(PState::arg_name);
        let ghost acc = TypeList {
            types: models(types@),
            variadic: false,
            names: texts(names@),
        };
        if self.accept(closer.duplicate())? {
            return Ok(Some(false));
        }
        let mut memb = self.parse_type()?;
        if memb.is_fn() {
            self.sema_error(SemaKind::FunctionInAggregate, String::new());
            memb = self.unit.types.void();
        }
        let (name, comma_taken) = self.parse_arg_name(
            toplvl_args,
            types.len() == 0,
            names.len() > 0,
        )?;
        types.push(memb);
        match name {
            Some(n) => {
                names.push(n);
                assert(texts(names@) =~= acc.names.push(n@));
            },
            None => {
                assert(texts(names@) =~= acc.names);
            },
        }
        assert(models(types@) =~= acc.types.push(memb@));
        let comma = if comma_taken {
            true
        } else {
            self.accept(Token::Punctuation(Punctuation::Comma))?
        };
        if !comma {
            self.eat(closer.duplicate())?;
            return Ok(Some(false));
        }
        if self.accept(Token::Punctuation(Punctuation::Ellipses))? {
            self.eat(closer.duplicate())?;
            return Ok(Some(true));
        }
        Ok(None)
    }

    /// A list of types up to `closer`: the types, whether the list ends in
    /// an ellipsis, and the names of the types, where `toplvl_args` is set
    /// and the types are named.
    pub fn parse_type_list(&mut self, closer: Token, toplvl_args: bool) -> (r: PResult<
        (Vec<Type<'t>>, bool, Vec<String>),
    >)
        requires
            old(self).wf(),
        ensures
            final(self).furthers(*old(self)),
            final(self).wf(),
            final(self).names2vals == old(self).names2vals,
            final(self)@ == old(self)@.type_list(closer@, toplvl_args).st,
            match r {
                Ok((types, variadic, names)) => old(self)@.type_list(closer@, toplvl_args).res
                    == Ok::<TypeList, PErr>(
                    TypeList { types: models(types@), variadic, names: texts(names@) },
                ) && (forall|i: int| 0 <= i < types@.len() ==> (#[trigger] types@[i])@.wf()),
                Err(e) => old(self)@.type_list(closer@, toplvl_args).res == Err::<TypeList, PErr>(
                    e@,
                ),
            },
            final(self).unit.globals == old(self).unit.globals,
            final(self)@.weight() <= old(self)@.weight(),
        decreases old(self)@.weight(), 9nat,
    {
        reveal(PState::type_list);
        reveal(PState::type_list_rest);
        let ghost goal = old(self)@.type_list(closer@, toplvl_args);
        let mut types: Vec<Type<'t>> = Vec::new();
        let mut names: Vec<String> = Vec::new();
        assert(models(types@) =~= Seq::empty());
        assert(texts(names@) =~= Seq::empty());
        if self.accept(Token::Punctuation(Punctuation::Ellipses))? {
            self.eat(closer)?;
            return Ok((types, true, names));
        }
        loop
            invariant
                self.wf(),
                self.furthers(*old(self)),
                self.unit.globals == old(self).unit.globals,
                self.names2vals == old(self).names2vals,
                self@.weight() <= old(self)@.weight(),
                forall|i: int| 0 <= i < types@.len() ==> (#[trigger] types@[i])@.wf(),
                goal == old(self)@.type_list(closer@, toplvl_args),
                goal == self@.type_list_rest(
                    closer@,
                    toplvl_args,
                    TypeList { types: models(types@), variadic: false, names: texts(names@) },
                ),
            decreases self@.weight(),
        {
            match self.parse_type_list_step(&closer, toplvl_args, &mut types, &mut names)? {
                Some(variadic) => {
                    return Ok((types, variadic, names));
                },
                None => {},
            }
        }
    }
}

} // verus!
