//! The words of the textual form: punctuation, keywords, operators, and
//! the tokens built from them.

use vstd::prelude::*;
use vstd::string::*;

verus! {

/// A closed set of words, each with one spelling, tried in the order of `table`.
pub trait Spelled: Sized + Copy {
    /// How the word is written.
    spec fn spelling(self) -> Seq<char>;

    /// Every word of the set, in the order in which a reader tries them.
    spec fn table() -> Seq<Self>;

    fn str(self) -> (r: &'static str)
        ensures
            r@ == self.spelling(),
            r.is_ascii(),
            r@.len() > 0,
    ;

    fn nth(i: usize) -> (r: Self)
        requires
            i < Self::table().len(),
        ensures
            r == Self::table()[i as int],
    ;

    fn count() -> (n: usize)
        ensures
            n == Self::table().len(),
    ;

    /// No word is spelt with nothing.
    proof fn lemma_spelling_not_empty(self)
        ensures
            self.spelling().len() > 0,
    ;
}

/// Whether the bytes of `input` from `pos` on begin with `word`.
pub open spec fn prefix_at(input: Seq<u8>, pos: int, word: Seq<char>) -> bool {
    &&& 0 <= pos
    &&& pos + word.len() <= input.len()
    &&& forall|i: int| #![trigger word[i]] 0 <= i < word.len() ==> input[pos + i] == word[i] as u8
}

/// The first word of `table` that `input` begins with at `pos`.
pub open spec fn first_prefix<W: Spelled>(table: Seq<W>, input: Seq<u8>, pos: int) -> Option<W>
    decreases table.len(),
{
    if table.len() == 0 {
        None
    } else if prefix_at(input, pos, table[0].spelling()) {
        Some(table[0])
    } else {
        first_prefix(table.drop_first(), input, pos)
    }
}

/// The word of the set `W` that stands at `pos`, if one does: with several
/// candidates the earliest in the table wins.
pub open spec fn word_at<W: Spelled>(input: Seq<u8>, pos: int) -> Option<W> {
    first_prefix(W::table(), input, pos)
}

fn spelling_len<W: Spelled>(w: W) -> (n: usize)
    ensures
        n == w.spelling().len(),
{
    let s = w.str();
    proof {
        is_ascii_spec_bytes(s);
    }
    s.as_bytes().len()
}

/// Compares the bytes at `pos` with `word`.
pub fn has_prefix(input: &[u8], pos: usize, word: &str) -> (r: bool)
    requires
        word.is_ascii(),
    ensures
        r == prefix_at(input@, pos as int, word@),
{
    proof {
        is_ascii_spec_bytes(word);
    }
    let bytes = word.as_bytes();
    let n: usize = bytes.len();
    if pos > input.len() || n > input.len() - pos {
        return false;
    }
    let mut i: usize = 0;
    while i < n
        invariant
            n == word@.len(),
            bytes@.len() == n,
            forall|k: int| #![trigger word@[k]] 0 <= k < n ==> bytes@[k] == word@[k] as u8,
            pos + n <= input@.len() <= usize::MAX,
            i <= n,
            forall|k: int| #![trigger word@[k]] 0 <= k < i ==> input@[pos + k] == word@[k] as u8,
        decreases n - i,
    {
        if input[pos + i] != bytes[i] {
            assert(input@[pos + i] != word@[i as int] as u8);
            return false;
        }
        i += 1;
    }
    true
}

/// Looks the word at `pos` up in the table of `W`.
pub fn match_prefix<W: Spelled>(input: &[u8], pos: usize) -> (r: Option<W>)
    ensures
        r == word_at::<W>(input@, pos as int),
{
    let n: usize = W::count();
    let mut i: usize = 0;
    proof {
        assert(W::table().subrange(0, n as int) =~= W::table());
    }
    while i < n
        invariant
            n == W::table().len(),
            i <= n,
            word_at::<W>(input@, pos as int) == first_prefix(
                W::table().subrange(i as int, n as int),
                input@,
                pos as int,
            ),
        decreases n - i,
    {
        let w = W::nth(i);
        proof {
            let rest = W::table().subrange(i as int, n as int);
            assert(rest[0] == w);
            assert(rest.drop_first() =~= W::table().subrange(i + 1, n as int));
        }
        if has_prefix(input, pos, w.str()) {
            return Some(w);
        }
        i += 1;
    }
    None
}

/// Punctuation. The ellipsis stands before the dot, so that it is tried
/// first. Square brackets hold an array type; angle brackets are tokens
/// that no rule of the grammar takes.
#[derive(PartialEq, Eq, Structural, Debug, Clone, Copy)]
pub enum Punctuation {
    LParen,
    RParen,
    LBrace,
    RBrace,
    LSquare,
    RSquare,
    LAngle,
    RAngle,
    Arrow,
    Ellipses,
    Dot,
    Comma,
    Equal,
    Colon,
    Semi,
    Star,
}

impl Spelled for Punctuation {
    open spec fn spelling(self) -> Seq<char> {
        match self {
            Punctuation::LParen => "("@,
            Punctuation::RParen => ")"@,
            Punctuation::LBrace => "{"@,
            Punctuation::RBrace => "}"@,
            Punctuation::LSquare => "["@,
            Punctuation::RSquare => "]"@,
            Punctuation::LAngle => "<"@,
            Punctuation::RAngle => ">"@,
            Punctuation::Arrow => "->"@,
            Punctuation::Ellipses => "..."@,
            Punctuation::Dot => "."@,
            Punctuation::Comma => ","@,
            Punctuation::Equal => "="@,
            Punctuation::Colon => ":"@,
            Punctuation::Semi => ";"@,
            Punctuation::Star => "*"@,
        }
    }

    open spec fn table() -> Seq<Self> {
        seq![
            Punctuation::LParen,
            Punctuation::RParen,
            Punctuation::LBrace,
            Punctuation::RBrace,
            Punctuation::LSquare,
            Punctuation::RSquare,
            Punctuation::LAngle,
            Punctuation::RAngle,
            Punctuation::Arrow,
            Punctuation::Ellipses,
            Punctuation::Dot,
            Punctuation::Comma,
            Punctuation::Equal,
            Punctuation::Colon,
            Punctuation::Semi,
            Punctuation::Star,
        ]
    }

    fn str(self) -> (r: &'static str) {
        proof {
            reveal_strlit("(");
            reveal_strlit(")");
            reveal_strlit("{");
            reveal_strlit("}");
            reveal_strlit("[");
            reveal_strlit("]");
            reveal_strlit("<");
            reveal_strlit(">");
            reveal_strlit("->");
            reveal_strlit("...");
            reveal_strlit(".");
            reveal_strlit(",");
            reveal_strlit("=");
            reveal_strlit(":");
            reveal_strlit(";");
            reveal_strlit("*");
        }
        match self {
            Punctuation::LParen => "(",
            Punctuation::RParen => ")",
            Punctuation::LBrace => "{",
            Punctuation::RBrace => "}",
            Punctuation::LSquare => "[",
            Punctuation::RSquare => "]",
            Punctuation::LAngle => "<",
            Punctuation::RAngle => ">",
            Punctuation::Arrow => "->",
            Punctuation::Ellipses => "...",
            Punctuation::Dot => ".",
            Punctuation::Comma => ",",
            Punctuation::Equal => "=",
            Punctuation::Colon => ":",
            Punctuation::Semi => ";",
            Punctuation::Star => "*",
        }
    }

    proof fn lemma_spelling_not_empty(self) {
        reveal_strlit("(");
        reveal_strlit(")");
        reveal_strlit("{");
        reveal_strlit("}");
        reveal_strlit("[");
        reveal_strlit("]");
        reveal_strlit("<");
        reveal_strlit(">");
        reveal_strlit("->");
        reveal_strlit("...");
        reveal_strlit(".");
        reveal_strlit(",");
        reveal_strlit("=");
        reveal_strlit(":");
        reveal_strlit(";");
        reveal_strlit("*");
    }

    fn nth(i: usize) -> (r: Self) {
        match i {
            0 => Punctuation::LParen,
            1 => Punctuation::RParen,
            2 => Punctuation::LBrace,
            3 => Punctuation::RBrace,
            4 => Punctuation::LSquare,
            5 => Punctuation::RSquare,
            6 => Punctuation::LAngle,
            7 => Punctuation::RAngle,
            8 => Punctuation::Arrow,
            9 => Punctuation::Ellipses,
            10 => Punctuation::Dot,
            11 => Punctuation::Comma,
            12 => Punctuation::Equal,
            13 => Punctuation::Colon,
            14 => Punctuation::Semi,
            _ => Punctuation::Star,
        }
    }

    fn count() -> (n: usize) {
        16
    }
}

impl Punctuation {
    /// The length of the spelling, in bytes.
    pub fn len(&self) -> (n: usize)
        ensures
            n == self.spelling().len(),
    {
        spelling_len(*self)
    }
}

/// The reserved words of instructions, types and linkage.
#[derive(PartialEq, Eq, Structural, Debug, Clone, Copy)]
pub enum Keyword {
    Load,
    Store,
    Alloca,
    Elem,
    Ptradd,
    Ptrsub,
    Ptr2int,
    Int2ptr,
    Ptrcast,
    Memcpy,
    Ret,
    Zext,
    Sext,
    Trunc,
    Br,
    Jmp,
    Label,
    Call,
    I1,
    I2,
    I4,
    I8,
    F4,
    F8,
    FLarge,
    Void,
    Undef,
    Global,
    Internal,
    Aliasinit,
    Type,
    Asm,
}

impl Spelled for Keyword {
    open spec fn spelling(self) -> Seq<char> {
        match self {
            Keyword::Load => "load"@,
            Keyword::Store => "store"@,
            Keyword::Alloca => "alloca"@,
            Keyword::Elem => "elem"@,
            Keyword::Ptradd => "ptradd"@,
            Keyword::Ptrsub => "ptrsub"@,
            Keyword::Ptr2int => "ptr2int"@,
            Keyword::Int2ptr => "int2ptr"@,
            Keyword::Ptrcast => "ptrcast"@,
            Keyword::Memcpy => "memcpy"@,
            Keyword::Ret => "ret"@,
            Keyword::Zext => "zext"@,
            Keyword::Sext => "sext"@,
            Keyword::Trunc => "trunc"@,
            Keyword::Br => "br"@,
            Keyword::Jmp => "jmp"@,
            Keyword::Label => "label"@,
            Keyword::Call => "call"@,
            Keyword::I1 => "i1"@,
            Keyword::I2 => "i2"@,
            Keyword::I4 => "i4"@,
            Keyword::I8 => "i8"@,
            Keyword::F4 => "f4"@,
            Keyword::F8 => "f8"@,
            Keyword::FLarge => "flarge"@,
            Keyword::Void => "void"@,
            Keyword::Undef => "undef"@,
            Keyword::Global => "global"@,
            Keyword::Internal => "internal"@,
            Keyword::Aliasinit => "aliasinit"@,
            Keyword::Type => "type"@,
            Keyword::Asm => "asm"@,
        }
    }

    open spec fn table() -> Seq<Self> {
        seq![
            Keyword::Load,
            Keyword::Store,
            Keyword::Alloca,
            Keyword::Elem,
            Keyword::Ptradd,
            Keyword::Ptrsub,
            Keyword::Ptr2int,
            Keyword::Int2ptr,
            Keyword::Ptrcast,
            Keyword::Memcpy,
            Keyword::Ret,
            Keyword::Zext,
            Keyword::Sext,
            Keyword::Trunc,
            Keyword::Br,
            Keyword::Jmp,
            Keyword::Label,
            Keyword::Call,
            Keyword::I1,
            Keyword::I2,
            Keyword::I4,
            Keyword::I8,
            Keyword::F4,
            Keyword::F8,
            Keyword::FLarge,
            Keyword::Void,
            Keyword::Undef,
            Keyword::Global,
            Keyword::Internal,
            Keyword::Aliasinit,
            Keyword::Type,
            Keyword::Asm,
        ]
    }

    fn str(self) -> (r: &'static str) {
        proof {
            reveal_strlit("load");
            reveal_strlit("store");
            reveal_strlit("alloca");
            reveal_strlit("elem");
            reveal_strlit("ptradd");
            reveal_strlit("ptrsub");
            reveal_strlit("ptr2int");
            reveal_strlit("int2ptr");
            reveal_strlit("ptrcast");
            reveal_strlit("memcpy");
            reveal_strlit("ret");
            reveal_strlit("zext");
            reveal_strlit("sext");
            reveal_strlit("trunc");
            reveal_strlit("br");
            reveal_strlit("jmp");
            reveal_strlit("label");
            reveal_strlit("call");
            reveal_strlit("i1");
            reveal_strlit("i2");
            reveal_strlit("i4");
            reveal_strlit("i8");
            reveal_strlit("f4");
            reveal_strlit("f8");
            reveal_strlit("flarge");
            reveal_strlit("void");
            reveal_strlit("undef");
            reveal_strlit("global");
            reveal_strlit("internal");
            reveal_strlit("aliasinit");
            reveal_strlit("type");
            reveal_strlit("asm");
        }
        match self {
            Keyword::Load => "load",
            Keyword::Store => "store",
            Keyword::Alloca => "alloca",
            Keyword::Elem => "elem",
            Keyword::Ptradd => "ptradd",
            Keyword::Ptrsub => "ptrsub",
            Keyword::Ptr2int => "ptr2int",
            Keyword::Int2ptr => "int2ptr",
            Keyword::Ptrcast => "ptrcast",
            Keyword::Memcpy => "memcpy",
            Keyword::Ret => "ret",
            Keyword::Zext => "zext",
            Keyword::Sext => "sext",
            Keyword::Trunc => "trunc",
            Keyword::Br => "br",
            Keyword::Jmp => "jmp",
            Keyword::Label => "label",
            Keyword::Call => "call",
            Keyword::I1 => "i1",
            Keyword::I2 => "i2",
            Keyword::I4 => "i4",
            Keyword::I8 => "i8",
            Keyword::F4 => "f4",
            Keyword::F8 => "f8",
            Keyword::FLarge => "flarge",
            Keyword::Void => "void",
            Keyword::Undef => "undef",
            Keyword::Global => "global",
            Keyword::Internal => "internal",
            Keyword::Aliasinit => "aliasinit",
            Keyword::Type => "type",
            Keyword::Asm => "asm",
        }
    }

    proof fn lemma_spelling_not_empty(self) {
        reveal_strlit("load");
        reveal_strlit("store");
        reveal_strlit("alloca");
        reveal_strlit("elem");
        reveal_strlit("ptradd");
        reveal_strlit("ptrsub");
        reveal_strlit("ptr2int");
        reveal_strlit("int2ptr");
        reveal_strlit("ptrcast");
        reveal_strlit("memcpy");
        reveal_strlit("ret");
        reveal_strlit("zext");
        reveal_strlit("sext");
        reveal_strlit("trunc");
        reveal_strlit("br");
        reveal_strlit("jmp");
        reveal_strlit("label");
        reveal_strlit("call");
        reveal_strlit("i1");
        reveal_strlit("i2");
        reveal_strlit("i4");
        reveal_strlit("i8");
        reveal_strlit("f4");
        reveal_strlit("f8");
        reveal_strlit("flarge");
        reveal_strlit("void");
        reveal_strlit("undef");
        reveal_strlit("global");
        reveal_strlit("internal");
        reveal_strlit("aliasinit");
        reveal_strlit("type");
        reveal_strlit("asm");
    }

    fn nth(i: usize) -> (r: Self) {
        match i {
            0 => Keyword::Load,
            1 => Keyword::Store,
            2 => Keyword::Alloca,
            3 => Keyword::Elem,
            4 => Keyword::Ptradd,
            5 => Keyword::Ptrsub,
            6 => Keyword::Ptr2int,
            7 => Keyword::Int2ptr,
            8 => Keyword::Ptrcast,
            9 => Keyword::Memcpy,
            10 => Keyword::Ret,
            11 => Keyword::Zext,
            12 => Keyword::Sext,
            13 => Keyword::Trunc,
            14 => Keyword::Br,
            15 => Keyword::Jmp,
            16 => Keyword::Label,
            17 => Keyword::Call,
            18 => Keyword::I1,
            19 => Keyword::I2,
            20 => Keyword::I4,
            21 => Keyword::I8,
            22 => Keyword::F4,
            23 => Keyword::F8,
            24 => Keyword::FLarge,
            25 => Keyword::Void,
            26 => Keyword::Undef,
            27 => Keyword::Global,
            28 => Keyword::Internal,
            29 => Keyword::Aliasinit,
            30 => Keyword::Type,
            _ => Keyword::Asm,
        }
    }

    fn count() -> (n: usize) {
        32
    }
}

impl Keyword {
    /// The length of the spelling, in bytes.
    pub fn len(&self) -> (n: usize)
        ensures
            n == self.spelling().len(),
    {
        spelling_len(*self)
    }
}

/// The arithmetic mnemonics.
#[derive(PartialEq, Eq, Structural, Debug, Clone, Copy)]
pub enum Op {
    Add,
    Sub,
    Mul,
    Sdiv,
    Smod,
    Udiv,
    Umod,
    Xor,
    Or,
    And,
    Shiftl,
    ShiftRLogic,
    ShiftRArith,
}

impl Spelled for Op {
    open spec fn spelling(self) -> Seq<char> {
        match self {
            Op::Add => "add"@,
            Op::Sub => "sub"@,
            Op::Mul => "mul"@,
            Op::Sdiv => "sdiv"@,
            Op::Smod => "smod"@,
            Op::Udiv => "udiv"@,
            Op::Umod => "umod"@,
            Op::Xor => "xor"@,
            Op::Or => "or"@,
            Op::And => "and"@,
            Op::Shiftl => "shiftl"@,
            Op::ShiftRLogic => "shiftr_u"@,
            Op::ShiftRArith => "shiftr_s"@,
        }
    }

    open spec fn table() -> Seq<Self> {
        seq![
            Op::Add,
            Op::Sub,
            Op::Mul,
            Op::Sdiv,
            Op::Smod,
            Op::Udiv,
            Op::Umod,
            Op::Xor,
            Op::Or,
            Op::And,
            Op::Shiftl,
            Op::ShiftRLogic,
            Op::ShiftRArith,
        ]
    }

    fn str(self) -> (r: &'static str) {
        proof {
            reveal_strlit("add");
            reveal_strlit("sub");
            reveal_strlit("mul");
            reveal_strlit("sdiv");
            reveal_strlit("smod");
            reveal_strlit("udiv");
            reveal_strlit("umod");
            reveal_strlit("xor");
            reveal_strlit("or");
            reveal_strlit("and");
            reveal_strlit("shiftl");
            reveal_strlit("shiftr_u");
            reveal_strlit("shiftr_s");
        }
        match self {
            Op::Add => "add",
            Op::Sub => "sub",
            Op::Mul => "mul",
            Op::Sdiv => "sdiv",
            Op::Smod => "smod",
            Op::Udiv => "udiv",
            Op::Umod => "umod",
            Op::Xor => "xor",
            Op::Or => "or",
            Op::And => "and",
            Op::Shiftl => "shiftl",
            Op::ShiftRLogic => "shiftr_u",
            Op::ShiftRArith => "shiftr_s",
        }
    }

    proof fn lemma_spelling_not_empty(self) {
        reveal_strlit("add");
        reveal_strlit("sub");
        reveal_strlit("mul");
        reveal_strlit("sdiv");
        reveal_strlit("smod");
        reveal_strlit("udiv");
        reveal_strlit("umod");
        reveal_strlit("xor");
        reveal_strlit("or");
        reveal_strlit("and");
        reveal_strlit("shiftl");
        reveal_strlit("shiftr_u");
        reveal_strlit("shiftr_s");
    }

    fn nth(i: usize) -> (r: Self) {
        match i {
            0 => Op::Add,
            1 => Op::Sub,
            2 => Op::Mul,
            3 => Op::Sdiv,
            4 => Op::Smod,
            5 => Op::Udiv,
            6 => Op::Umod,
            7 => Op::Xor,
            8 => Op::Or,
            9 => Op::And,
            10 => Op::Shiftl,
            11 => Op::ShiftRLogic,
            _ => Op::ShiftRArith,
        }
    }

    fn count() -> (n: usize) {
        13
    }
}

impl Op {
    /// The length of the spelling, in bytes.
    pub fn len(&self) -> (n: usize)
        ensures
            n == self.spelling().len(),
    {
        spelling_len(*self)
    }
}

/// The comparison mnemonics.
#[derive(PartialEq, Eq, Structural, Debug, Clone, Copy)]
pub enum Cmp {
    Eq,
    Ne,
    Gt,
    Ge,
    Lt,
    Le,
}

impl Spelled for Cmp {
    open spec fn spelling(self) -> Seq<char> {
        match self {
            Cmp::Eq => "eq"@,
            Cmp::Ne => "ne"@,
            Cmp::Gt => "gt"@,
            Cmp::Ge => "ge"@,
            Cmp::Lt => "lt"@,
            Cmp::Le => "le"@,
        }
    }

    open spec fn table() -> Seq<Self> {
        seq![
            Cmp::Eq,
            Cmp::Ne,
            Cmp::Gt,
            Cmp::Ge,
            Cmp::Lt,
            Cmp::Le,
        ]
    }

    fn str(self) -> (r: &'static str) {
        proof {
            reveal_strlit("eq");
            reveal_strlit("ne");
            reveal_strlit("gt");
            reveal_strlit("ge");
            reveal_strlit("lt");
            reveal_strlit("le");
        }
        match self {
            Cmp::Eq => "eq",
            Cmp::Ne => "ne",
            Cmp::Gt => "gt",
            Cmp::Ge => "ge",
            Cmp::Lt => "lt",
            Cmp::Le => "le",
        }
    }

    proof fn lemma_spelling_not_empty(self) {
        reveal_strlit("eq");
        reveal_strlit("ne");
        reveal_strlit("gt");
        reveal_strlit("ge");
        reveal_strlit("lt");
        reveal_strlit("le");
    }

    fn nth(i: usize) -> (r: Self) {
        match i {
            0 => Cmp::Eq,
            1 => Cmp::Ne,
            2 => Cmp::Gt,
            3 => Cmp::Ge,
            4 => Cmp::Lt,
            _ => Cmp::Le,
        }
    }

    fn count() -> (n: usize) {
        6
    }
}

impl Cmp {
    /// The length of the spelling, in bytes.
    pub fn len(&self) -> (n: usize)
        ensures
            n == self.spelling().len(),
    {
        spelling_len(*self)
    }
}

/// A token of the textual form.
#[derive(PartialEq, Eq, Debug, Clone)]
pub enum Token {
    /// The end of the input. It is a token and no error, so that `i4` can be
    /// read without another token to look at behind it.
    Eof,
    Integer(i32),
    Identifier(String),
    Bareword(String),
    String(Vec<u8>),
    Punctuation(Punctuation),
    Keyword(Keyword),
    Op(Op),
    Cmp(Cmp),
}

/// What a token is, with its text as a sequence.
pub enum Tok {
    Eof,
    Integer(i32),
    Identifier(Seq<char>),
    Bareword(Seq<char>),
    String(Seq<u8>),
    Punctuation(Punctuation),
    Keyword(Keyword),
    Op(Op),
    Cmp(Cmp),
}

impl View for Token {
    type V = Tok;

    open spec fn view(&self) -> Tok {
        match self {
            Token::Eof => Tok::Eof,
            Token::Integer(n) => Tok::Integer(*n),
            Token::Identifier(s) => Tok::Identifier(s@),
            Token::Bareword(s) => Tok::Bareword(s@),
            Token::String(s) => Tok::String(s@),
            Token::Punctuation(p) => Tok::Punctuation(*p),
            Token::Keyword(k) => Tok::Keyword(*k),
            Token::Op(o) => Tok::Op(*o),
            Token::Cmp(c) => Tok::Cmp(*c),
        }
    }
}

impl Tok {
    /// The name of the token's kind; for a fixed word, the word itself.
    pub open spec fn desc(self) -> Seq<char> {
        match self {
            Tok::Eof => "eof"@,
            Tok::Integer(_) => "integer"@,
            Tok::Identifier(_) => "identifier"@,
            Tok::Bareword(_) => "bareword"@,
            Tok::String(_) => "string"@,
            Tok::Punctuation(p) => p.spelling(),
            Tok::Keyword(k) => k.spelling(),
            Tok::Op(o) => o.spelling(),
            Tok::Cmp(c) => c.spelling(),
        }
    }
}

/// Compares two byte strings.
pub fn bytes_eq(a: &Vec<u8>, b: &Vec<u8>) -> (r: bool)
    ensures
        r == (a@ == b@),
{
    if a.len() != b.len() {
        return false;
    }
    let mut i: usize = 0;
    while i < a.len()
        invariant
            a@.len() == b@.len(),
            i <= a@.len(),
            forall|k: int| 0 <= k < i ==> a@[k] == b@[k],
        decreases a@.len() - i,
    {
        if a[i] != b[i] {
            return false;
        }
        i += 1;
    }
    assert(a@ =~= b@);
    true
}

impl Token {
    /// The name of the token's kind; for a fixed word, the word itself.
    pub fn desc(&self) -> (r: &'static str)
        ensures
            r@ == self@.desc(),
    {
        match self {
            Token::Eof => "eof",
            Token::Integer(_) => "integer",
            Token::Identifier(_) => "identifier",
            Token::Bareword(_) => "bareword",
            Token::String(_) => "string",
            Token::Punctuation(p) => p.str(),
            Token::Keyword(k) => k.str(),
            Token::Op(op) => op.str(),
            Token::Cmp(cmp) => cmp.str(),
        }
    }

    /// Whether two tokens are of one kind and carry the same text or number.
    pub fn same(&self, other: &Token) -> (r: bool)
        ensures
            r == (self@ == other@),
    {
        match (self, other) {
            (Token::Eof, Token::Eof) => true,
            (Token::Integer(a), Token::Integer(b)) => *a == *b,
            (Token::Identifier(a), Token::Identifier(b)) => *a == *b,
            (Token::Bareword(a), Token::Bareword(b)) => *a == *b,
            (Token::String(a), Token::String(b)) => bytes_eq(a, b),
            (Token::Punctuation(a), Token::Punctuation(b)) => *a == *b,
            (Token::Keyword(a), Token::Keyword(b)) => *a == *b,
            (Token::Op(a), Token::Op(b)) => *a == *b,
            (Token::Cmp(a), Token::Cmp(b)) => *a == *b,
            _ => false,
        }
    }

    /// A copy of the token.
    pub fn duplicate(&self) -> (r: Token)
        ensures
            r@ == self@,
    {
        match self {
            Token::Eof => Token::Eof,
            Token::Integer(n) => Token::Integer(*n),
            Token::Identifier(s) => Token::Identifier(s.clone()),
            Token::Bareword(s) => Token::Bareword(s.clone()),
            Token::String(s) => Token::String(s.clone()),
            Token::Punctuation(p) => Token::Punctuation(*p),
            Token::Keyword(k) => Token::Keyword(*k),
            Token::Op(o) => Token::Op(*o),
            Token::Cmp(c) => Token::Cmp(*c),
        }
    }
}

} // verus!
