//! Reading functions, globals and whole units.

use vstd::prelude::*;

use crate::func::{Func, FuncAttr, FuncModel, texts};
use crate::global::{Global, GlobalModel};
use crate::isn::BlockId;
use crate::parse::{Out, PErr, PResult, PState, ParseError, Parser, SemaError, SemaKind, sema_models};
use crate::parse::body::{Body, BodyOut};
use crate::srcloc::SrcLoc;
use crate::text::{concat3, str_eq};
use crate::token::{Keyword, Punctuation, Tok, Token};
use crate::tokenise::{lemma_step_unget, loc_of};
use crate::ty::{Ty, Type, TypeS};
use crate::ty_uniq::find_alias;
use crate::unit::{Unit, last_named};

verus! {

/// The aliases after one was added: where the name is taken, nothing is added.
pub open spec fn with_alias(list: Seq<Ty>, name: Seq<char>, actual: Ty) -> Seq<Ty> {
    if find_alias(list, name) is Some {
        list
    } else {
        list.push(Ty::Alias { name, actual: Box::new(actual) })
    }
}

impl Body {
    /// The statements of a body up to its closing brace.
    #[verifier::opaque]
    pub open spec fn stmts(self) -> BodyOut<()>
        decreases self.st.weight(),
    {
        let end = self.st.at_eof();
        match end.res {
            Err(e) => self.with_st(end.st).fail(e),
            Ok(true) => self.with_st(end.st).fail(
                PErr::Generic("No closing bracket for function body"@),
            ),
            Ok(false) => {
                let close = end.st.accept(Tok::Punctuation(Punctuation::RBrace));
                match close.res {
                    Err(e) => self.with_st(close.st).fail(e),
                    Ok(true) => self.with_st(close.st).done(()),
                    Ok(false) => {
                        let s = self.with_st(close.st).stmt();
                        match s.res {
                            Err(e) => s.b.fail(e),
                            Ok(_) => if s.b.st.weight() < self.st.weight() {
                                s.b.stmts()
                            } else {
                                s.b.fail(PErr::UnexpectedEof)
                            },
                        }
                    },
                }
            },
        }
    }
}

impl PState {
    /// The attributes of a function: `internal` and `weak`, in any order
    /// and number.
    #[verifier::opaque]
    pub open spec fn func_attrs(self, attr: FuncAttr) -> Out<FuncAttr>
        decreases self.weight(),
    {
        let i = self.accept(Tok::Keyword(Keyword::Internal));
        match i.res {
            Err(e) => i.st.fail(e),
            Ok(true) => if i.st.weight() < self.weight() {
                i.st.func_attrs(FuncAttr { internal: true, ..attr })
            } else {
                i.st.fail(PErr::UnexpectedEof)
            },
            Ok(false) => {
                let w = i.st.accept_bareword();
                match w.res {
                    Err(e) => w.st.fail(e),
                    Ok(None) => w.st.done(attr),
                    Ok(Some(word)) => if word != "weak"@ {
                        w.st.fail(PErr::Generic("unknown function modifier '"@ + word + "'"@))
                    } else if w.st.weight() < self.weight() {
                        w.st.func_attrs(FuncAttr { weak: true, ..attr })
                    } else {
                        w.st.fail(PErr::UnexpectedEof)
                    },
                }
            },
        }
    }

    /// A function of the name `name` and the type `ty`, whose arguments the
    /// type has named `toplvl_args`: its attributes, and its body in
    /// braces, if it has one. Names that do not match the arguments in
    /// number are a fault, and dropped. No value has a name when the body
    /// begins, and none when it has ended; at its end the values are looked
    /// over for those that live in more than one block.
    #[verifier::opaque]
    pub open spec fn function(self, name: Seq<char>, ty: Ty, toplvl_args: Seq<Seq<char>>) -> Out<
        FuncModel,
    > {
        let fit = toplvl_args.len() == 0 || toplvl_args.len() == ty->Func_args.len();
        let st = (PState { names: Seq::empty(), ..self }).sema_if(
            !fit,
            SemaKind::ArgNameCount,
            Seq::empty(),
        );
        let f = FuncModel::fresh(
            name,
            ty,
            if fit {
                toplvl_args
            } else {
                Seq::empty()
            },
        );
        let a = st.func_attrs(FuncAttr { internal: false, weak: false });
        match a.res {
            Err(e) => a.st.fail(e),
            Ok(attr) => {
                let f = FuncModel { attr: f.attr.or(attr), ..f };
                let open = a.st.accept(Tok::Punctuation(Punctuation::LBrace));
                match open.res {
                    Err(e) => open.st.fail(e),
                    Ok(false) => (PState { names: Seq::empty(), ..open.st }).done(f.finalized()),
                    Ok(true) => {
                        let body = (Body {
                            st: open.st,
                            f: f.with_entry(),
                            cur: f.with_entry().entry,
                        }).stmts();
                        match body.res {
                            Err(e) => body.b.st.fail(e),
                            Ok(_) => (PState { names: Seq::empty(), ..body.b.st }).done(
                                body.b.f.finalized(),
                            ),
                        }
                    },
                }
            },
        }
    }

    /// One global: a type alias behind `type`, a function, or a variable.
    /// It goes behind the globals held; to take the name of one of them is
    /// a fault.
    #[verifier::opaque]
    pub open spec fn global(self) -> Out<()> {
        let t = self.accept(Tok::Keyword(Keyword::Type));
        match t.res {
            Err(e) => t.st.fail(e),
            Ok(is_type) => {
                let n = t.st.expect_ident("identifier for global"@);
                match n.res {
                    Err(e) => n.st.fail(e),
                    Ok(name) => {
                        let e = n.st.eat(Tok::Punctuation(Punctuation::Equal));
                        match e.res {
                            Err(err) => e.st.fail(err),
                            Ok(_) => {
                                let ty = e.st.type_maybe_func();
                                match ty.res {
                                    Err(err) => ty.st.fail(err),
                                    Ok((ty_, args)) => ty.st.global_of(is_type, name, ty_, args),
                                }
                            },
                        }
                    },
                }
            },
        }
    }

    /// The state with one more global.
    pub open spec fn with_global(self, g: GlobalModel) -> PState {
        (PState { globals: self.globals.push(g), ..self }).sema_if(
            last_named(self.globals, g.name()) is Some,
            SemaKind::GlobalRedefined,
            g.name(),
        )
    }

    /// What follows the name and type of a global.
    #[verifier::opaque]
    pub open spec fn global_of(self, is_type: bool, name: Seq<char>, ty: Ty, args: Seq<Seq<char>>) -> Out<
        (),
    > {
        if is_type {
            (PState { aliases: with_alias(self.aliases, name, ty), ..self }).with_global(
                GlobalModel::Type { name, ty },
            ).done(())
        } else if ty is Func {
            let f = self.function(name, ty, args);
            match f.res {
                Err(e) => f.st.fail(e),
                Ok(func) => f.st.with_global(GlobalModel::Func(func)).done(()),
            }
        } else {
            let v = self.variable(name, ty);
            match v.res {
                Err(e) => v.st.fail(e),
                Ok(var) => v.st.with_global(GlobalModel::Var(var)).done(()),
            }
        }
    }

    /// A unit: globals up to the end of the text.
    #[verifier::opaque]
    pub open spec fn unit(self) -> Out<()>
        decreases self.weight(),
    {
        let end = self.at_eof();
        match end.res {
            Err(e) => end.st.fail(e),
            Ok(true) => end.st.done(()),
            Ok(false) => {
                let g = end.st.global();
                match g.res {
                    Err(e) => g.st.fail(e),
                    Ok(_) => if g.st.weight() < self.weight() {
                        g.st.unit()
                    } else {
                        g.st.fail(PErr::UnexpectedEof)
                    },
                }
            },
        }
    }
}

impl<'t> Parser<'t> {
    /// One step in the body of a function: its closing brace is met, or a
    /// statement is read. Says whether the brace was met.
    pub(crate) fn parse_body_step(&mut self, func: &mut Func<'t>, block: &mut Option<BlockId>) -> (r: PResult<bool>)
        requires
            old(self).wf(),
            old(self).body(old(func), *old(block)).wf(),
        ensures
            final(func)@.ty == old(func)@.ty,
            final(self).furthers(*old(self)),
            final(self).wf(),
            final(self).body(final(func), *final(block)).wf(),
            ({
                let o = old(self).body(old(func), *old(block)).stmts();
                match r {
                    Ok(true) => o == (BodyOut {
                        res: Ok(()),
                        b: final(self).body(final(func), *final(block)),
                    }),
                    Ok(false) => o == final(self).body(final(func), *final(block)).stmts()
                        && final(self)@.weight() < old(self)@.weight(),
                    Err(e) => o == (BodyOut::<()> {
                        res: Err(e@),
                        b: final(self).body(final(func), *final(block)),
                    }),
                }
            }),
            final(self).unit.globals == old(self).unit.globals,
            final(self)@.weight() <= old(self)@.weight(),
    {
        reveal(Body::stmts);
        if self.eof()? {
            return Err(
                ParseError::Generic(String::from_str("No closing bracket for function body")),
            );
        }
        proof {
            lemma_step_unget(self@.tok, self@.tok.unget->0);
        }
        if self.accept(Token::Punctuation(Punctuation::RBrace))? {
            return Ok(true);
        }
        proof {
            lemma_step_unget(self@.tok, self@.tok.unget->0);
        }
        self.parse_block(func, block)?;
        Ok(false)
    }

    /// The attributes of a function.
    pub(crate) fn parse_func_attrs(&mut self) -> (r: PResult<FuncAttr>)
        requires
            old(self).wf(),
        ensures
            final(self).furthers(*old(self)),
            final(self).wf(),
            final(self).names2vals == old(self).names2vals,
            final(self).unit == old(self).unit,
            final(self)@ == old(self)@.func_attrs(FuncAttr { internal: false, weak: false }).st,
            match r {
                Ok(a) => old(self)@.func_attrs(FuncAttr { internal: false, weak: false }).res
                    == Ok::<FuncAttr, PErr>(a),
                Err(e) => old(self)@.func_attrs(FuncAttr { internal: false, weak: false }).res
                    == Err::<FuncAttr, PErr>(e@),
            },
            final(self)@.weight() <= old(self)@.weight(),
    {
        reveal(PState::func_attrs);
        let ghost goal = old(self)@.func_attrs(FuncAttr { internal: false, weak: false });
        let mut attr = FuncAttr::none();
        loop
            invariant
                self.wf(),
                self.furthers(*old(self)),
                self.names2vals == old(self).names2vals,
                self.unit == old(self).unit,
                self@.weight() <= old(self)@.weight(),
                goal == old(self)@.func_attrs(FuncAttr { internal: false, weak: false }),
                goal == self@.func_attrs(attr),
            decreases self@.weight(),
        {
            reveal(PState::func_attrs);
            if self.accept(Token::Keyword(Keyword::Internal))? {
                attr.internal = true;
            } else {
                match self.accept_bareword()? {
                    Some(bareword) => {
                        if str_eq(bareword.as_str(), "weak") {
                            attr.weak = true;
                        } else {
                            return Err(
                                ParseError::Generic(
                                    concat3(
                                        "unknown function modifier '",
                                        bareword.as_str(),
                                        "'",
                                    ),
                                ),
                            );
                        }
                    },
                    None => {
                        return Ok(attr);
                    },
                }
            }
        }
    }

    /// Forgets the names that the last function gave to its values.
    pub(crate) fn forget_names(&mut self)
        ensures
            final(self).furthers(*old(self)),
            final(self)@ == (PState { names: Seq::empty(), ..old(self)@ }),
            final(self).tok == old(self).tok,
            final(self).unit == old(self).unit,
    {
        self.names2vals = Vec::new();
        assert(self@.names =~= Seq::empty());
        assert(self@.errors =~= old(self)@.errors);
    }

    /// A function of the name `name` and the type `ty`, whose arguments the
    /// type has named `toplvl_args`.
    pub fn parse_function(&mut self, name: String, ty: Type<'t>, toplvl_args: Vec<String>) -> (r:
        PResult<Func<'t>>)
        requires
            old(self).wf(),
            ty@ is Func,
            ty@.wf(),
        ensures
            final(self).furthers(*old(self)),
            final(self).wf(),
            final(self)@ == old(self)@.function(name@, ty@, texts(toplvl_args@)).st,
            match r {
                Ok(f) => old(self)@.function(name@, ty@, texts(toplvl_args@)).res == Ok::<
                    FuncModel,
                    PErr,
                >(f@) && f@.wf() && f@.ty == ty@,
                Err(e) => old(self)@.function(name@, ty@, texts(toplvl_args@)).res == Err::<
                    FuncModel,
                    PErr,
                >(e@),
            },
            final(self).unit.globals == old(self).unit.globals,
            final(self)@.weight() <= old(self)@.weight(),
    {
        reveal(PState::function);
        reveal(PState::func_attrs);
        let ghost goal = old(self)@.function(name@, ty@, texts(toplvl_args@));
        self.forget_names();
        let nargs = match ty {
            TypeS::Func { args, .. } => args.len(),
            _ => 0,
        };
        let fit = toplvl_args.len() == 0 || toplvl_args.len() == nargs;
        let mut arg_names = toplvl_args;
        if !fit {
            self.sema_error(SemaKind::ArgNameCount, String::new());
            arg_names = Vec::new();
            assert(texts(arg_names@) =~= Seq::empty());
        }
        let mut f = Func::new(name, ty, arg_names);
        let attr = self.parse_func_attrs()?;
        f.add_attr(attr);
        proof {
            crate::func::lemma_attr_wf(
                FuncModel::fresh(name@, ty@, texts(arg_names@)),
                f@,
            );
        }
        if self.accept(Token::Punctuation(Punctuation::LBrace))? {
            let mut cur: Option<BlockId> = Some(f.get_entry());
            let ghost body = self.body(&f, cur).stmts();
            loop
                invariant_except_break
                    body == self.body(&f, cur).stmts(),
                invariant
                    self.wf(),
                    self.furthers(*old(self)),
                    self.body(&f, cur).wf(),
                    f@.ty == ty@,
                    self.unit.globals == old(self).unit.globals,
                    self@.weight() <= old(self)@.weight(),
                    goal == old(self)@.function(name@, ty@, texts(toplvl_args@)),
                    goal == (match body.res {
                        Err(e) => body.b.st.fail::<FuncModel>(e),
                        Ok(_) => (PState { names: Seq::empty(), ..body.b.st }).done(
                            body.b.f.finalized(),
                        ),
                    }),
                ensures
                    body == (BodyOut { res: Ok(()), b: self.body(&f, cur) }),
                decreases self@.weight(),
            {
                if self.parse_body_step(&mut f, &mut cur)? {
                    break ;
                }
            }
        }
        f.finalize();
        self.forget_names();
        Ok(f)
    }

    /// The state with one more global.
    pub(crate) fn add_global(&mut self, g: Global<'t>)
        requires
            old(self).wf(),
            g.wf(),
            old(self).unit.types.holds(g@.ty()),
        ensures
            final(self).furthers(*old(self)),
            final(self).wf(),
            final(self)@ == old(self)@.with_global(g@),
            final(self).tok == old(self).tok,
    {
        let name = String::from_str(g.name());
        let prev = self.unit.globals.add(g);
        if prev.is_some() {
            self.sema_error(SemaKind::GlobalRedefined, name);
        }
    }

    /// What follows the name and type of a global.
    pub(crate) fn global_of(&mut self, is_type: bool, name: String, ty: Type<'t>, args: Vec<String>) -> (r:
        PResult<()>)
        requires
            old(self).wf(),
            ty@.wf(),
            old(self).unit.types.holds(ty@),
        ensures
            final(self).furthers(*old(self)),
            final(self).wf(),
            final(self)@ == old(self)@.global_of(is_type, name@, ty@, texts(args@)).st,
            match r {
                Ok(_) => old(self)@.global_of(is_type, name@, ty@, texts(args@)).res is Ok,
                Err(e) => old(self)@.global_of(is_type, name@, ty@, texts(args@)).res == Err::<
                    (),
                    PErr,
                >(e@),
            },
            final(self)@.weight() <= old(self)@.weight(),
    {
        reveal(PState::global_of);
        reveal(PState::variable);
        reveal(PState::function);
        let is_fn = match ty {
            TypeS::Func { .. } => true,
            _ => false,
        };
        if is_type {
            let _ = self.unit.types.add_alias(name.as_str(), ty);
            self.add_global(Global::Type { name, ty });
        } else if is_fn {
            let f = self.parse_function(name, ty, args)?;
            self.add_global(Global::Func(f));
        } else {
            let v = self.parse_variable(name, ty)?;
            self.add_global(Global::Var(v));
        }
        Ok(())
    }

    /// One global.
    pub fn global(&mut self) -> (r: PResult<()>)
        requires
            old(self).wf(),
        ensures
            final(self).furthers(*old(self)),
            final(self).wf(),
            final(self)@ == old(self)@.global().st,
            match r {
                Ok(_) => old(self)@.global().res is Ok,
                Err(e) => old(self)@.global().res == Err::<(), PErr>(e@),
            },
            final(self)@.weight() <= old(self)@.weight(),
            r is Ok ==> final(self)@.weight() < old(self)@.weight(),
    {
        reveal(PState::global);
        reveal(PState::type_maybe_func);
        reveal(PState::global_of);
        let is_type = self.accept(Token::Keyword(Keyword::Type))?;
        let name = self.expect_ident("identifier for global")?;
        self.eat(Token::Punctuation(Punctuation::Equal))?;
        let (ty, toplvl_args) = self.parse_type_maybe_func()?;
        self.global_of(is_type, name, ty, toplvl_args)
    }

    /// The globals up to the end of the text.
    pub(crate) fn parse_no_loc(&mut self) -> (r: PResult<()>)
        requires
            old(self).wf(),
        ensures
            final(self).furthers(*old(self)),
            final(self).wf(),
            final(self)@ == old(self)@.unit().st,
            match r {
                Ok(_) => old(self)@.unit().res is Ok,
                Err(e) => old(self)@.unit().res == Err::<(), PErr>(e@),
            },
    {
        reveal(PState::unit);
        reveal(PState::global);
        let ghost goal = old(self)@.unit();
        loop
            invariant
                self.wf(),
                self.furthers(*old(self)),
                goal == old(self)@.unit(),
                goal == self@.unit(),
            decreases self@.weight(),
        {
            reveal(PState::unit);
            reveal(PState::global);
            if self.eof()? {
                return Ok(());
            }
            self.global()?;
        }
    }

    /// Reads the whole text. Gives the unit and the faults in the meaning
    /// of the text that were met; or, where the grammar was broken, the
    /// fault and the place up to which the text was read.
    pub fn parse(self) -> (r: Result<(Unit<'t>, Vec<SemaError>), (ParseError, SrcLoc)>)
        requires
            self.wf(),
        ensures
            match r {
                Ok((unit, errors)) => {
                    &&& self@.unit().res is Ok
                    &&& unit.wf()
                    &&& unit.target == self.unit.target
                    &&& unit.uniq_counter == self.unit.uniq_counter
                    &&& unit.types.keeps(self.unit.types)
                    &&& self.unit.holds_its_types() ==> unit.holds_its_types()
                    &&& unit.globals@ == self@.unit().st.globals
                    &&& unit.types.alias_list() == self@.unit().st.aliases
                    &&& sema_models(errors@) == self@.unit().st.errors
                },
                Err((e, loc)) => {
                    &&& self@.unit().res == Err::<(), PErr>(e@)
                    &&& loc == loc_of(self@.unit().st.tok.input, self@.unit().st.tok.pos)
                },
            },
    {
        let mut parser = self;
        match parser.parse_no_loc() {
            Ok(()) => Ok((parser.unit, parser.errors)),
            Err(e) => Err((e, parser.tok.loc())),
        }
    }
}

} // verus!
