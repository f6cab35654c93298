//! The reader of the textual form.
//!
//! What the reader makes of a text is laid down by functions on [`PState`],
//! the model of a reader: each takes the state before and gives the result
//! and the state after. The methods of [`Parser`] compute them.
//!
//! A fault in the grammar ends the reading with a [`ParseError`]. A fault in
//! the meaning is recorded as a [`SemaError`]; the reading goes on with a
//! stand-in for what was refused.

use vstd::prelude::*;

use crate::global::GlobalModel;
use crate::size_align::SizeAlign;
use crate::text::concat3;
use crate::token::{Tok, Token};
use crate::tokenise::{Error, LexFault, TokState, Tokeniser, lemma_step};
use crate::ty::{Ty, models};
use crate::unit::Unit;
use crate::val::ValId;

pub mod body;
pub mod init;
pub mod stmt;
pub mod top;
pub mod types;

verus! {

/// A result of reading, or the fault in the grammar that ended it.
pub type PResult<T> = Result<T, ParseError>;

/// A fault in the grammar of a text.
#[derive(Debug)]
pub enum ParseError {
    /// What was expected, and the token that stood there.
    Expected(&'static str, Token),
    Generic(String),
    LexError(Error),
    Overflow,
    UnexpectedEof,
}

/// The model of a [`ParseError`].
pub enum PErr {
    Expected(Seq<char>, Tok),
    Generic(Seq<char>),
    Lex(LexFault),
    Overflow,
    UnexpectedEof,
}

impl View for ParseError {
    type V = PErr;

    open spec fn view(&self) -> PErr {
        match self {
            ParseError::Expected(desc, tok) => PErr::Expected(desc@, tok@),
            ParseError::Generic(s) => PErr::Generic(s@),
            ParseError::LexError(e) => PErr::Lex(e@),
            ParseError::Overflow => PErr::Overflow,
            ParseError::UnexpectedEof => PErr::UnexpectedEof,
        }
    }
}

/// The faults in the meaning of a text.
#[derive(Debug, Clone, Copy, PartialEq, Eq, Structural)]
pub enum SemaKind {
    GlobalRedefined,
    ArrayOfFunctions,
    FunctionReturningArray,
    NoSuchType,
    MultipleArgNames,
    ArgNameCount,
    FunctionInAggregate,
    AliasInitTooLarge,
    StringInitNotI1Array,
    InitCountMismatch,
    InitTypeMismatch,
    BlockExists,
    ReturnTypeMismatch,
    PreExistingIdentifier,
    LoadNotPointer,
    LoadOfArray,
    AllocaOfFunction,
    ElemNotPointer,
    ElemOutOfBounds,
    ElemNotAggregate,
    ElemIndexSize,
    PtrArithNotPointer,
    PtraddNotInteger,
    PtraddIndexSize,
    PtrsubMismatch,
    PtrArithVoid,
    ExtNotInteger,
    ExtArgNotInteger,
    ExtSizes,
    CastType,
    CallNotFunction,
    CallArgMismatch,
    CallTooManyArgs,
    CallTooFewArgs,
    CmpMismatch,
    OpTypes,
    BrNotI1,
    StoreMismatch,
    MemcpyMismatch,
    MemcpyNotPointer,
}

/// A fault in the meaning of a text: its kind, and the name or the numbers
/// that it is about, where it is about any.
#[derive(Debug, PartialEq, Eq)]
pub struct SemaError {
    pub kind: SemaKind,
    pub detail: String,
}

/// The model of a [`SemaError`].
pub struct Sema {
    pub kind: SemaKind,
    pub detail: Seq<char>,
}

impl View for SemaError {
    type V = Sema;

    open spec fn view(&self) -> Sema {
        Sema { kind: self.kind, detail: self.detail@ }
    }
}

impl SemaKind {
    /// The words of the message before the detail.
    pub open spec fn before(self) -> Seq<char> {
        match self {
            SemaKind::GlobalRedefined => "global '"@,
            SemaKind::ArrayOfFunctions => "type is an array of functions"@,
            SemaKind::FunctionReturningArray => "type is a function returning an array"@,
            SemaKind::NoSuchType => "no such type '"@,
            SemaKind::MultipleArgNames => "multiple top-level argument names"@,
            SemaKind::ArgNameCount => "argument names do not match the arguments"@,
            SemaKind::FunctionInAggregate => "function in aggregate"@,
            SemaKind::AliasInitTooLarge => "aliasinit type size > actual type size"@,
            SemaKind::StringInitNotI1Array => "string init not an i1 array"@,
            SemaKind::InitCountMismatch => "init count mismatch: "@,
            SemaKind::InitTypeMismatch => "initialisation type mismatch: init with '"@,
            SemaKind::BlockExists => "block '"@,
            SemaKind::ReturnTypeMismatch => "mismatching return type"@,
            SemaKind::PreExistingIdentifier => "pre-existing identifier '"@,
            SemaKind::LoadNotPointer => "load operand not a pointer type"@,
            SemaKind::LoadOfArray => "load operand is (pointer-to) array type"@,
            SemaKind::AllocaOfFunction => "alloca of function type"@,
            SemaKind::ElemNotPointer => "elem requires pointer type"@,
            SemaKind::ElemOutOfBounds => "elem index out of struct bounds"@,
            SemaKind::ElemNotAggregate => "elem requires (pointer to) array/struct type"@,
            SemaKind::ElemIndexSize => "elem (array-based) requires pointer-sized integer type (rhs)"@,
            SemaKind::PtrArithNotPointer => "ptradd/sub requires pointer type (lhs)"@,
            SemaKind::PtraddNotInteger => "ptradd requires integer type (rhs)"@,
            SemaKind::PtraddIndexSize => "ptradd requires pointer-sized integer type (rhs)"@,
            SemaKind::PtrsubMismatch => "ptrsub type mismatch"@,
            SemaKind::PtrArithVoid => "can't increment/decrement void*"@,
            SemaKind::ExtNotInteger => "ext/trunc requires integer type"@,
            SemaKind::ExtArgNotInteger => "ext/trunc argument requires integer type"@,
            SemaKind::ExtSizes => "extend/truncate has incorrect operand sizes"@,
            SemaKind::CastType => "type of the wrong kind for cast"@,
            SemaKind::CallNotFunction => "call requires function (pointer) operand"@,
            SemaKind::CallArgMismatch => "argument mismatch: "@,
            SemaKind::CallTooManyArgs => "too many arguments to function"@,
            SemaKind::CallTooFewArgs => "too few arguments to function"@,
            SemaKind::CmpMismatch => "mismatching types in cmp"@,
            SemaKind::OpTypes => "invalid types for op"@,
            SemaKind::BrNotI1 => "br requires 'i1' condition"@,
            SemaKind::StoreMismatch => "store type mismatch"@,
            SemaKind::MemcpyMismatch => "mismatching memcpy types"@,
            SemaKind::MemcpyNotPointer => "memcpy type is not a pointer"@,
        }
    }

    /// The words of the message behind the detail.
    pub open spec fn after(self) -> Seq<char> {
        match self {
            SemaKind::GlobalRedefined => "' already defined"@,
            SemaKind::BlockExists => "' already exists"@,
            SemaKind::NoSuchType | SemaKind::InitTypeMismatch | SemaKind::PreExistingIdentifier => "'"@,
            _ => ""@,
        }
    }

    pub(crate) fn words(self) -> (r: (&'static str, &'static str))
        ensures
            r.0@ == self.before(),
            r.1@ == self.after(),
    {
        let before = match self {
            SemaKind::GlobalRedefined => "global '",
            SemaKind::ArrayOfFunctions => "type is an array of functions",
            SemaKind::FunctionReturningArray => "type is a function returning an array",
            SemaKind::NoSuchType => "no such type '",
            SemaKind::MultipleArgNames => "multiple top-level argument names",
            SemaKind::ArgNameCount => "argument names do not match the arguments",
            SemaKind::FunctionInAggregate => "function in aggregate",
            SemaKind::AliasInitTooLarge => "aliasinit type size > actual type size",
            SemaKind::StringInitNotI1Array => "string init not an i1 array",
            SemaKind::InitCountMismatch => "init count mismatch: ",
            SemaKind::InitTypeMismatch => "initialisation type mismatch: init with '",
            SemaKind::BlockExists => "block '",
            SemaKind::ReturnTypeMismatch => "mismatching return type",
            SemaKind::PreExistingIdentifier => "pre-existing identifier '",
            SemaKind::LoadNotPointer => "load operand not a pointer type",
            SemaKind::LoadOfArray => "load operand is (pointer-to) array type",
            SemaKind::AllocaOfFunction => "alloca of function type",
            SemaKind::ElemNotPointer => "elem requires pointer type",
            SemaKind::ElemOutOfBounds => "elem index out of struct bounds",
            SemaKind::ElemNotAggregate => "elem requires (pointer to) array/struct type",
            SemaKind::ElemIndexSize => "elem (array-based) requires pointer-sized integer type (rhs)",
            SemaKind::PtrArithNotPointer => "ptradd/sub requires pointer type (lhs)",
            SemaKind::PtraddNotInteger => "ptradd requires integer type (rhs)",
            SemaKind::PtraddIndexSize => "ptradd requires pointer-sized integer type (rhs)",
            SemaKind::PtrsubMismatch => "ptrsub type mismatch",
            SemaKind::PtrArithVoid => "can't increment/decrement void*",
            SemaKind::ExtNotInteger => "ext/trunc requires integer type",
            SemaKind::ExtArgNotInteger => "ext/trunc argument requires integer type",
            SemaKind::ExtSizes => "extend/truncate has incorrect operand sizes",
            SemaKind::CastType => "type of the wrong kind for cast",
            SemaKind::CallNotFunction => "call requires function (pointer) operand",
            SemaKind::CallArgMismatch => "argument mismatch: ",
            SemaKind::CallTooManyArgs => "too many arguments to function",
            SemaKind::CallTooFewArgs => "too few arguments to function",
            SemaKind::CmpMismatch => "mismatching types in cmp",
            SemaKind::OpTypes => "invalid types for op",
            SemaKind::BrNotI1 => "br requires 'i1' condition",
            SemaKind::StoreMismatch => "store type mismatch",
            SemaKind::MemcpyMismatch => "mismatching memcpy types",
            SemaKind::MemcpyNotPointer => "memcpy type is not a pointer",
        };
        let after = match self {
            SemaKind::GlobalRedefined => "' already defined",
            SemaKind::BlockExists => "' already exists",
            SemaKind::NoSuchType | SemaKind::InitTypeMismatch | SemaKind::PreExistingIdentifier => "'",
            _ => "",
        };
        (before, after)
    }
}

impl Sema {
    /// The message of the fault, as a reader of the text is told it.
    pub open spec fn message(self) -> Seq<char> {
        self.kind.before() + self.detail + self.kind.after()
    }
}

impl SemaError {
    /// The message of the fault, as a reader of the text is told it.
    pub fn message(&self) -> (r: String)
        ensures
            r@ == self@.message(),
    {
        let (before, after) = self.kind.words();
        concat3(before, self.detail.as_str(), after)
    }
}

/// The model of a reader: where it stands in the text, what the unit holds,
/// the faults recorded so far, and the values that the function in hand has
/// given names to.
pub struct PState {
    pub tok: TokState,
    pub aliases: Seq<Ty>,
    pub ptr: SizeAlign,
    pub globals: Seq<GlobalModel>,
    pub errors: Seq<Sema>,
    pub names: Seq<(Seq<char>, ValId)>,
}

/// A result and the state it leaves.
pub struct Out<T> {
    pub res: Result<T, PErr>,
    pub st: PState,
}

impl PState {
    /// The tokeniser stands inside its text.
    pub open spec fn wf(self) -> bool {
        self.tok.wf()
    }

    /// How much of the text is left.
    pub open spec fn weight(self) -> nat {
        self.tok.weight()
    }

    /// The state with one more fault recorded.
    pub open spec fn sema(self, kind: SemaKind, detail: Seq<char>) -> PState {
        PState { errors: self.errors.push(Sema { kind, detail }), ..self }
    }

    /// The state with the fault recorded, if `cond` holds.
    pub open spec fn sema_if(self, cond: bool, kind: SemaKind, detail: Seq<char>) -> PState {
        if cond {
            self.sema(kind, detail)
        } else {
            self
        }
    }

    /// The fault `e`, in this state.
    pub open spec fn fail<T>(self, e: PErr) -> Out<T> {
        Out { res: Err(e), st: self }
    }

    /// The result `v`, in this state.
    pub open spec fn done<T>(self, v: T) -> Out<T> {
        Out { res: Ok(v), st: self }
    }

    /// Takes the next token.
    pub open spec fn next(self) -> Out<Tok> {
        let (r, t) = self.tok.step();
        let st = PState { tok: t, ..self };
        match r {
            Ok(tok) => st.done(tok),
            Err(e) => st.fail(PErr::Lex(e)),
        }
    }

    /// Hands a token back.
    pub open spec fn unget(self, tok: Tok) -> PState {
        PState { tok: TokState { unget: Some(tok), ..self.tok }, ..self }
    }

    /// Takes the next token, which must be `expected`.
    pub open spec fn eat(self, expected: Tok) -> Out<()> {
        let n = self.next();
        match n.res {
            Err(e) => n.st.fail(e),
            Ok(tok) => if tok == expected {
                n.st.done(())
            } else {
                n.st.fail(PErr::Expected(expected.desc(), tok))
            },
        }
    }

    /// Takes the next token if it is `expected`, and says whether it was.
    pub open spec fn accept(self, expected: Tok) -> Out<bool> {
        let n = self.next();
        match n.res {
            Err(e) => n.st.fail(e),
            Ok(tok) => if tok == expected {
                n.st.done(true)
            } else {
                n.st.unget(tok).done(false)
            },
        }
    }

    /// Whether the text is at its end. Asking takes the text to its end
    /// where nothing but space and comments is left.
    pub open spec fn at_eof(self) -> Out<bool> {
        if self.tok.eof {
            self.done(true)
        } else {
            self.accept(Tok::Eof)
        }
    }

    /// Takes the next token if it is a bare word.
    pub open spec fn accept_bareword(self) -> Out<Option<Seq<char>>> {
        let n = self.next();
        match n.res {
            Err(e) => n.st.fail(e),
            Ok(Tok::Bareword(w)) => n.st.done(Some(w)),
            Ok(tok) => n.st.unget(tok).done(None),
        }
    }

    /// Takes the next token if it is a number.
    pub open spec fn accept_integer(self) -> Out<Option<i32>> {
        let n = self.next();
        match n.res {
            Err(e) => n.st.fail(e),
            Ok(Tok::Integer(i)) => n.st.done(Some(i)),
            Ok(tok) => n.st.unget(tok).done(None),
        }
    }

    /// Takes the next token if it is a string.
    pub open spec fn accept_string(self) -> Out<Option<Seq<u8>>> {
        let n = self.next();
        match n.res {
            Err(e) => n.st.fail(e),
            Ok(Tok::String(b)) => n.st.done(Some(b)),
            Ok(tok) => n.st.unget(tok).done(None),
        }
    }

    /// Takes the next token if it is a `$` identifier.
    pub open spec fn accept_ident(self) -> Out<Option<Seq<char>>> {
        let n = self.next();
        match n.res {
            Err(e) => n.st.fail(e),
            Ok(Tok::Identifier(w)) => n.st.done(Some(w)),
            Ok(tok) => n.st.unget(tok).done(None),
        }
    }

    /// Takes the next token, which must be a number.
    pub open spec fn expect_integer(self) -> Out<i32> {
        let a = self.accept_integer();
        match a.res {
            Err(e) => a.st.fail(e),
            Ok(Some(i)) => a.st.done(i),
            Ok(None) => a.st.fail(PErr::Generic("integer expected"@)),
        }
    }

    /// Takes the next token, which must be a `$` identifier; `desc` says
    /// what the identifier is for.
    pub open spec fn expect_ident(self, desc: Seq<char>) -> Out<Seq<char>> {
        let n = self.next();
        match n.res {
            Err(e) => n.st.fail(e),
            Ok(Tok::Identifier(w)) => n.st.done(w),
            Ok(tok) => n.st.fail(PErr::Expected(desc, tok)),
        }
    }
}

/// A reader of the textual form: a tokeniser, and the unit that is read into.
pub struct Parser<'t> {
    pub tok: Tokeniser<'t>,
    pub unit: Unit<'t>,
    /// The faults in the meaning of the text that were met so far.
    pub errors: Vec<SemaError>,
    /// The values that the function in hand has given names to.
    pub names2vals: Vec<(String, ValId)>,
}

/// The models of the faults recorded.
pub open spec fn sema_models(errors: Seq<SemaError>) -> Seq<Sema> {
    Seq::new(errors.len(), |i: int| errors[i]@)
}

/// The names and values of a list of named values.
pub open spec fn name_models(names: Seq<(String, ValId)>) -> Seq<(Seq<char>, ValId)> {
    Seq::new(names.len(), |i: int| (names[i].0@, names[i].1))
}

impl<'t> View for Parser<'t> {
    type V = PState;

    open spec fn view(&self) -> PState {
        PState {
            tok: self.tok@,
            aliases: self.unit.types.alias_list(),
            ptr: self.unit.types.ptr(),
            globals: self.unit.globals@,
            errors: sema_models(self.errors@),
            names: name_models(self.names2vals@),
        }
    }
}

impl<'t> Parser<'t> {
    /// The reader holds together: the tokeniser stands inside its text, and
    /// the unit is in order.
    pub open spec fn wf(&self) -> bool {
        self.tok@.wf() && self.unit.wf()
    }

    /// Whether this reader's unit is that of `before` further on: it is for
    /// the same target, its counter of private labels stands where it
    /// stood, its pool of types makes the same pointers and holds whatever
    /// it held, and where the type of each global was held, it still is.
    pub open spec fn furthers(&self, before: Self) -> bool {
        &&& self.unit.target == before.unit.target
        &&& self.unit.uniq_counter == before.unit.uniq_counter
        &&& self.unit.types.keeps(before.unit.types)
        &&& before.unit.holds_its_types() ==> self.unit.holds_its_types()
    }

    /// A reader of the tokens of `tok` into the unit `unit`.
    pub fn new(tok: Tokeniser<'t>, unit: Unit<'t>) -> (p: Self)
        requires
            tok@.wf(),
            unit.wf(),
        ensures
            p.wf(),
            p.tok == tok,
            p.unit == unit,
            p@.errors.len() == 0,
            p@.names.len() == 0,
    {
        Parser { tok, unit, errors: Vec::new(), names2vals: Vec::new() }
    }

    /// Records a fault in the meaning of the text.
    pub(crate) fn sema_error(&mut self, kind: SemaKind, detail: String)
        ensures
            final(self).furthers(*old(self)),
            final(self)@ == old(self)@.sema(kind, detail@),
            final(self).tok == old(self).tok,
            final(self).unit == old(self).unit,
            final(self).names2vals == old(self).names2vals,
    {
        self.errors.push(SemaError { kind, detail });
        assert(self@.errors =~= old(self)@.errors.push(Sema { kind, detail: detail@ }));
    }

    pub(crate) fn next(&mut self) -> (r: PResult<Token>)
        requires
            old(self).wf(),
        ensures
            final(self).furthers(*old(self)),
            final(self).wf(),
            final(self).names2vals == old(self).names2vals,
            final(self)@ == old(self)@.next().st,
            match r {
                Ok(t) => old(self)@.next().res == Ok::<Tok, PErr>(t@),
                Err(e) => old(self)@.next().res == Err::<Tok, PErr>(e@),
            },
            final(self)@.tok.unget is None,
            final(self).unit == old(self).unit,
            final(self)@.weight() <= old(self)@.weight(),
            (r is Ok && !(r->Ok_0@ is Eof)) ==> final(self)@.weight() < old(self)@.weight(),
    {
        proof {
            lemma_step(self@.tok);
        }
        match self.tok.next() {
            Ok(t) => Ok(t),
            Err(e) => Err(ParseError::LexError(e)),
        }
    }

    /// Takes the next token, which must be `expected`.
    pub fn eat(&mut self, expected: Token) -> (r: PResult<()>)
        requires
            old(self).wf(),
        ensures
            final(self).furthers(*old(self)),
            final(self).wf(),
            final(self).names2vals == old(self).names2vals,
            final(self)@ == old(self)@.eat(expected@).st,
            match r {
                Ok(_) => old(self)@.eat(expected@).res is Ok,
                Err(e) => old(self)@.eat(expected@).res == Err::<(), PErr>(e@),
            },
            final(self).unit == old(self).unit,
            final(self)@.weight() <= old(self)@.weight(),
            (r is Ok && !(expected@ is Eof)) ==> final(self)@.weight() < old(self)@.weight(),
    {
        let tok = self.next()?;
        if tok.same(&expected) {
            Ok(())
        } else {
            Err(ParseError::Expected(expected.desc(), tok))
        }
    }

    /// Takes the next token if it is `expected`, and says whether it was.
    pub fn accept(&mut self, expected: Token) -> (r: PResult<bool>)
        requires
            old(self).wf(),
        ensures
            final(self).furthers(*old(self)),
            final(self).wf(),
            final(self).names2vals == old(self).names2vals,
            final(self)@ == old(self)@.accept(expected@).st,
            match r {
                Ok(b) => old(self)@.accept(expected@).res == Ok::<bool, PErr>(b),
                Err(e) => old(self)@.accept(expected@).res == Err::<bool, PErr>(e@),
            },
            final(self).unit == old(self).unit,
            final(self)@.weight() <= old(self)@.weight(),
            (r == Ok::<bool, ParseError>(true) && !(expected@ is Eof)) ==> final(self)@.weight()
                < old(self)@.weight(),
            r == Ok::<bool, ParseError>(true) ==> final(self)@.tok.unget is None,
    {
        let tok = self.next()?;
        if tok.same(&expected) {
            Ok(true)
        } else {
            self.tok.unget(tok);
            Ok(false)
        }
    }

    /// Whether the text is at its end.
    pub fn eof(&mut self) -> (r: PResult<bool>)
        requires
            old(self).wf(),
        ensures
            final(self).furthers(*old(self)),
            final(self).wf(),
            final(self).names2vals == old(self).names2vals,
            final(self)@ == old(self)@.at_eof().st,
            match r {
                Ok(b) => old(self)@.at_eof().res == Ok::<bool, PErr>(b),
                Err(e) => old(self)@.at_eof().res == Err::<bool, PErr>(e@),
            },
            final(self).unit == old(self).unit,
            final(self)@.weight() <= old(self)@.weight(),
    {
        if self.tok.eof() {
            Ok(true)
        } else {
            self.accept(Token::Eof)
        }
    }

    pub(crate) fn accept_bareword(&mut self) -> (r: PResult<Option<String>>)
        requires
            old(self).wf(),
        ensures
            final(self).furthers(*old(self)),
            final(self).wf(),
            final(self).names2vals == old(self).names2vals,
            final(self)@ == old(self)@.accept_bareword().st,
            match r {
                Ok(Some(w)) => old(self)@.accept_bareword().res == Ok::<Option<Seq<char>>, PErr>(
                    Some(w@),
                ),
                Ok(None) => old(self)@.accept_bareword().res == Ok::<Option<Seq<char>>, PErr>(None),
                Err(e) => old(self)@.accept_bareword().res == Err::<Option<Seq<char>>, PErr>(e@),
            },
            final(self).unit == old(self).unit,
            final(self)@.weight() <= old(self)@.weight(),
            (r is Ok && r->Ok_0 is Some) ==> final(self)@.weight() < old(self)@.weight(),
            (r is Ok && r->Ok_0 is Some) ==> final(self)@.tok.unget is None,
    {
        let tok = self.next()?;
        match tok {
            Token::Bareword(w) => Ok(Some(w)),
            tok => {
                self.tok.unget(tok);
                Ok(None)
            },
        }
    }

    pub(crate) fn accept_integer(&mut self) -> (r: PResult<Option<i32>>)
        requires
            old(self).wf(),
        ensures
            final(self).furthers(*old(self)),
            final(self).wf(),
            final(self).names2vals == old(self).names2vals,
            final(self)@ == old(self)@.accept_integer().st,
            match r {
                Ok(v) => old(self)@.accept_integer().res == Ok::<Option<i32>, PErr>(v),
                Err(e) => old(self)@.accept_integer().res == Err::<Option<i32>, PErr>(e@),
            },
            final(self).unit == old(self).unit,
            final(self)@.weight() <= old(self)@.weight(),
            (r is Ok && r->Ok_0 is Some) ==> final(self)@.weight() < old(self)@.weight(),
            (r is Ok && r->Ok_0 is Some) ==> final(self)@.tok.unget is None,
    {
        let tok = self.next()?;
        match tok {
            Token::Integer(n) => Ok(Some(n)),
            tok => {
                self.tok.unget(tok);
                Ok(None)
            },
        }
    }

    pub(crate) fn accept_string(&mut self) -> (r: PResult<Option<Vec<u8>>>)
        requires
            old(self).wf(),
        ensures
            final(self).furthers(*old(self)),
            final(self).wf(),
            final(self).names2vals == old(self).names2vals,
            final(self)@ == old(self)@.accept_string().st,
            match r {
                Ok(Some(w)) => old(self)@.accept_string().res == Ok::<Option<Seq<u8>>, PErr>(
                    Some(w@),
                ),
                Ok(None) => old(self)@.accept_string().res == Ok::<Option<Seq<u8>>, PErr>(None),
                Err(e) => old(self)@.accept_string().res == Err::<Option<Seq<u8>>, PErr>(e@),
            },
            final(self).unit == old(self).unit,
            final(self)@.weight() <= old(self)@.weight(),
            (r is Ok && r->Ok_0 is Some) ==> final(self)@.weight() < old(self)@.weight(),
            (r is Ok && r->Ok_0 is Some) ==> final(self)@.tok.unget is None,
    {
        let tok = self.next()?;
        match tok {
            Token::String(w) => Ok(Some(w)),
            tok => {
                self.tok.unget(tok);
                Ok(None)
            },
        }
    }

    pub(crate) fn accept_ident(&mut self) -> (r: PResult<Option<String>>)
        requires
            old(self).wf(),
        ensures
            final(self).furthers(*old(self)),
            final(self).wf(),
            final(self).names2vals == old(self).names2vals,
            final(self)@ == old(self)@.accept_ident().st,
            match r {
                Ok(Some(w)) => old(self)@.accept_ident().res == Ok::<Option<Seq<char>>, PErr>(
                    Some(w@),
                ),
                Ok(None) => old(self)@.accept_ident().res == Ok::<Option<Seq<char>>, PErr>(None),
                Err(e) => old(self)@.accept_ident().res == Err::<Option<Seq<char>>, PErr>(e@),
            },
            final(self).unit == old(self).unit,
            final(self)@.weight() <= old(self)@.weight(),
            (r is Ok && r->Ok_0 is Some) ==> final(self)@.weight() < old(self)@.weight(),
            (r is Ok && r->Ok_0 is Some) ==> final(self)@.tok.unget is None,
    {
        let tok = self.next()?;
        match tok {
            Token::Identifier(w) => Ok(Some(w)),
            tok => {
                self.tok.unget(tok);
                Ok(None)
            },
        }
    }

    pub(crate) fn expect_integer(&mut self) -> (r: PResult<i32>)
        requires
            old(self).wf(),
        ensures
            final(self).furthers(*old(self)),
            final(self).wf(),
            final(self).names2vals == old(self).names2vals,
            final(self)@ == old(self)@.expect_integer().st,
            match r {
                Ok(v) => old(self)@.expect_integer().res == Ok::<i32, PErr>(v),
                Err(e) => old(self)@.expect_integer().res == Err::<i32, PErr>(e@),
            },
            final(self).unit == old(self).unit,
            final(self)@.weight() <= old(self)@.weight(),
            r is Ok ==> final(self)@.weight() < old(self)@.weight(),
    {
        match self.accept_integer()? {
            Some(i) => Ok(i),
            None => Err(ParseError::Generic(String::from_str("integer expected"))),
        }
    }

    pub(crate) fn expect_ident(&mut self, desc: &'static str) -> (r: PResult<String>)
        requires
            old(self).wf(),
        ensures
            final(self).furthers(*old(self)),
            final(self).wf(),
            final(self).names2vals == old(self).names2vals,
            final(self)@ == old(self)@.expect_ident(desc@).st,
            match r {
                Ok(v) => old(self)@.expect_ident(desc@).res == Ok::<Seq<char>, PErr>(v@),
                Err(e) => old(self)@.expect_ident(desc@).res == Err::<Seq<char>, PErr>(e@),
            },
            final(self).unit == old(self).unit,
            final(self)@.weight() <= old(self)@.weight(),
            r is Ok ==> final(self)@.weight() < old(self)@.weight(),
    {
        let tok = self.next()?;
        match tok {
            Token::Identifier(w) => Ok(w),
            tok => Err(ParseError::Expected(desc, tok)),
        }
    }
}

} // verus!
