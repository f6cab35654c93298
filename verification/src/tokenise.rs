//! Cutting the textual form into tokens.
//!
//! The tokeniser holds the whole text and a position in it. What the next
//! token is, and where the position stands afterwards, is the function
//! [`scan`] of the text and the position; [`Tokeniser::next`] computes it.

use vstd::prelude::*;

use crate::srcloc::SrcLoc;
use crate::text::{chars_of, copy_bytes, string_of_bytes};
use crate::token::{match_prefix, word_at, Cmp, Keyword, Op, Punctuation, Spelled, Tok, Token};

verus! {

/// A token, or why none could be cut.
pub type LexResult = Result<Token, Error>;

/// Why no token could be cut. Each carries the rest of the line.
#[derive(Debug, PartialEq, Eq, Clone)]
pub enum Error {
    UnknownToken(Vec<u8>),
    UnterminatedStr(Vec<u8>),
}

/// An [`Error`] with its text as a sequence.
pub enum LexFault {
    UnknownToken(Seq<u8>),
    UnterminatedStr(Seq<u8>),
}

impl View for Error {
    type V = LexFault;

    open spec fn view(&self) -> LexFault {
        match self {
            Error::UnknownToken(s) => LexFault::UnknownToken(s@),
            Error::UnterminatedStr(s) => LexFault::UnterminatedStr(s@),
        }
    }
}

/// The view of a [`LexResult`].
pub open spec fn lexed(r: LexResult) -> Result<Tok, LexFault> {
    match r {
        Ok(t) => Ok(t@),
        Err(e) => Err(e@),
    }
}

/// The kinds of byte that the tokeniser tells apart.
#[derive(Debug, PartialEq, Eq, Structural, Clone, Copy)]
pub enum ByteClass {
    /// Blank, tab, line feed, form feed, carriage return.
    Space,
    /// A letter or an underscore.
    IdentStart,
    /// A letter, an underscore or a digit.
    IdentPart,
    /// `0` to `9`.
    Digit,
    /// `0` to `7`.
    OctalDigit,
    /// Anything but a line feed.
    InLine,
    /// Anything but a line feed or a double quote.
    InString,
}

pub const LINE_FEED: u8 = 10;

pub const QUOTE: u8 = 34;

pub const HASH: u8 = 35;

pub const DOLLAR: u8 = 36;

pub const MINUS: u8 = 45;

pub const ZERO: u8 = 48;

pub const BACKSLASH: u8 = 92;

impl ByteClass {
    /// Whether the byte `b` is of the class.
    pub open spec fn holds(self, b: u8) -> bool {
        match self {
            ByteClass::Space => b == 32 || b == 9 || b == 10 || b == 12 || b == 13,
            ByteClass::IdentStart => (65 <= b <= 90) || (97 <= b <= 122) || b == 95,
            ByteClass::IdentPart => (65 <= b <= 90) || (97 <= b <= 122) || b == 95 || (48 <= b
                <= 57),
            ByteClass::Digit => 48 <= b <= 57,
            ByteClass::OctalDigit => 48 <= b <= 55,
            ByteClass::InLine => b != 10,
            ByteClass::InString => b != 10 && b != 34,
        }
    }

    /// Whether the byte `b` is of the class.
    pub fn has(self, b: u8) -> (r: bool)
        ensures
            r == self.holds(b),
    {
        match self {
            ByteClass::Space => b == 32 || b == 9 || b == 10 || b == 12 || b == 13,
            ByteClass::IdentStart => (65 <= b && b <= 90) || (97 <= b && b <= 122) || b == 95,
            ByteClass::IdentPart => (65 <= b && b <= 90) || (97 <= b && b <= 122) || b == 95 || (48
                <= b && b <= 57),
            ByteClass::Digit => 48 <= b && b <= 57,
            ByteClass::OctalDigit => 48 <= b && b <= 55,
            ByteClass::InLine => b != 10,
            ByteClass::InString => b != 10 && b != 34,
        }
    }
}

/// Where the run of bytes of `class` that starts at `pos` ends: the first
/// position from `pos` on whose byte is not of the class, or the end of the text.
pub open spec fn span_end(input: Seq<u8>, pos: int, class: ByteClass) -> int
    decreases input.len() - pos,
{
    if 0 <= pos < input.len() && class.holds(input[pos]) {
        span_end(input, pos + 1, class)
    } else {
        pos
    }
}

/// A run ends behind its start and inside the text; every byte of it is of the
/// class, and the byte behind it is not.
pub proof fn lemma_span_end_bounds(input: Seq<u8>, pos: int, class: ByteClass)
    ensures
        pos <= span_end(input, pos, class),
        pos <= input.len() ==> span_end(input, pos, class) <= input.len(),
        0 <= span_end(input, pos, class) < input.len() ==> !class.holds(
            input[span_end(input, pos, class)],
        ),
        forall|i: int| pos <= i < span_end(input, pos, class) ==> class.holds(#[trigger] input[i]),
    decreases input.len() - pos,
{
    if 0 <= pos < input.len() && class.holds(input[pos]) {
        lemma_span_end_bounds(input, pos + 1, class);
    }
}

/// Where the line that holds `pos` stops: behind its line feed, or at the end of the text.
pub open spec fn after_line(input: Seq<u8>, pos: int) -> int {
    let e = span_end(input, pos, ByteClass::InLine);
    if e < input.len() {
        e + 1
    } else {
        e
    }
}

/// The bytes from `pos` to the end of its line, the line feed included.
pub open spec fn line_rest(input: Seq<u8>, pos: int) -> Seq<u8> {
    input.subrange(pos, after_line(input, pos))
}

/// The number that the decimal digits `input[from..to]` spell.
pub open spec fn digits_value(input: Seq<u8>, from: int, to: int) -> nat
    decreases to - from,
{
    if to <= from {
        0
    } else {
        digits_value(input, from, to - 1) * 10 + (input[to - 1] - ZERO) as nat
    }
}

/// The number that the octal digits `input[from..to]` spell.
pub open spec fn octal_value(input: Seq<u8>, from: int, to: int) -> nat
    decreases to - from,
{
    if to <= from {
        0
    } else {
        octal_value(input, from, to - 1) * 8 + (input[to - 1] - ZERO) as nat
    }
}

/// Where the escape that starts behind the backslash at `pos - 1` ends: it
/// has up to three octal digits, all before `to`.
pub open spec fn escape_end(input: Seq<u8>, pos: int, to: int) -> int {
    let e = span_end(input, pos, ByteClass::OctalDigit);
    let e = if e > to {
        to
    } else {
        e
    };
    if e > pos + 3 {
        pos + 3
    } else {
        e
    }
}

/// The bytes that the body `input[pos..to]` of a string literal stands for,
/// behind those already read into `acc`. A backslash and one to three octal
/// digits make one byte, their value modulo 256; a backslash before anything
/// else makes the literal void.
pub open spec fn unescape(input: Seq<u8>, pos: int, to: int, acc: Seq<u8>) -> Option<Seq<u8>>
    decreases to - pos,
{
    if pos >= to {
        Some(acc)
    } else if input[pos] == BACKSLASH {
        let e = escape_end(input, pos + 1, to);
        if e <= pos + 1 {
            None
        } else {
            unescape(input, e, to, acc.push((octal_value(input, pos + 1, e) % 256) as u8))
        }
    } else {
        unescape(input, pos + 1, to, acc.push(input[pos]))
    }
}

/// What a scan found: a token or a fault, where the text goes on, and whether
/// its end was reached.
pub struct Scanned {
    pub res: Result<Tok, LexFault>,
    pub pos: int,
    pub eof: bool,
}

/// The number at `p`: an optional minus sign and decimal digits up to `e`.
/// One that does not fit 32 bits with sign is no token.
pub open spec fn scan_integer(input: Seq<u8>, p: int) -> Scanned {
    let neg = input[p] == MINUS;
    let from = if neg {
        p + 1
    } else {
        p
    };
    let e = span_end(input, from, ByteClass::Digit);
    let v = digits_value(input, from, e);
    let n = if neg {
        -(v as int)
    } else {
        v as int
    };
    if i32::MIN <= n <= i32::MAX {
        Scanned { res: Ok(Tok::Integer(n as i32)), pos: e, eof: false }
    } else {
        Scanned { res: Err(LexFault::UnknownToken(line_rest(input, p))), pos: p, eof: false }
    }
}

/// The string literal whose opening quote stands at `p`. It closes on its own line.
pub open spec fn scan_string(input: Seq<u8>, p: int) -> Scanned {
    let close = span_end(input, p + 1, ByteClass::InString);
    if close < input.len() && input[close] == QUOTE {
        match unescape(input, p + 1, close, Seq::empty()) {
            Some(bytes) => Scanned { res: Ok(Tok::String(bytes)), pos: close + 1, eof: false },
            None => Scanned {
                res: Err(LexFault::UnknownToken(line_rest(input, p))),
                pos: p,
                eof: false,
            },
        }
    } else {
        Scanned { res: Err(LexFault::UnterminatedStr(line_rest(input, p))), pos: p, eof: false }
    }
}

/// Whether a number starts at `p`: a digit, or a minus sign before a digit.
pub open spec fn integer_at(input: Seq<u8>, p: int) -> bool {
    ByteClass::Digit.holds(input[p]) || (input[p] == MINUS && p + 1 < input.len()
        && ByteClass::Digit.holds(input[p + 1]))
}

/// The token that starts at `p`, where a byte stands that is neither space
/// nor the start of a comment. The kinds are tried in this order: punctuation,
/// number, keyword, operator, comparison, `$` identifier, bare word, string.
pub open spec fn scan_token(input: Seq<u8>, p: int) -> Scanned {
    if let Some(w) = word_at::<Punctuation>(input, p) {
        Scanned { res: Ok(Tok::Punctuation(w)), pos: p + w.spelling().len(), eof: false }
    } else if integer_at(input, p) {
        scan_integer(input, p)
    } else if let Some(w) = word_at::<Keyword>(input, p) {
        Scanned { res: Ok(Tok::Keyword(w)), pos: p + w.spelling().len(), eof: false }
    } else if let Some(w) = word_at::<Op>(input, p) {
        Scanned { res: Ok(Tok::Op(w)), pos: p + w.spelling().len(), eof: false }
    } else if let Some(w) = word_at::<Cmp>(input, p) {
        Scanned { res: Ok(Tok::Cmp(w)), pos: p + w.spelling().len(), eof: false }
    } else if input[p] == DOLLAR && p + 1 < input.len() && ByteClass::IdentStart.holds(
        input[p + 1],
    ) {
        let e = span_end(input, p + 1, ByteClass::IdentPart);
        Scanned { res: Ok(Tok::Identifier(chars_of(input.subrange(p + 1, e)))), pos: e, eof: false }
    } else if ByteClass::IdentStart.holds(input[p]) {
        let e = span_end(input, p, ByteClass::IdentPart);
        Scanned { res: Ok(Tok::Bareword(chars_of(input.subrange(p, e)))), pos: e, eof: false }
    } else if input[p] == QUOTE {
        scan_string(input, p)
    } else {
        Scanned { res: Err(LexFault::UnknownToken(line_rest(input, p))), pos: p, eof: false }
    }
}

/// The next token of `input` from `pos` on. Space is skipped, and so is a
/// comment, which runs from `#` to the end of its line. At the end of the
/// text the token is `Eof`.
pub open spec fn scan(input: Seq<u8>, pos: int) -> Scanned
    decreases input.len() - pos,
{
    let p = span_end(input, pos, ByteClass::Space);
    if !(0 <= p < input.len()) {
        Scanned { res: Ok(Tok::Eof), pos: input.len() as int, eof: true }
    } else if input[p] == HASH {
        proof {
            lemma_span_end_bounds(input, pos, ByteClass::Space);
            lemma_after_line_bounds(input, p);
        }
        scan(input, after_line(input, p))
    } else {
        scan_token(input, p)
    }
}

/// The number of line feeds before `pos`.
pub open spec fn line_feeds(input: Seq<u8>, pos: int) -> nat
    decreases pos,
{
    if pos <= 0 {
        0
    } else {
        line_feeds(input, pos - 1) + if input[pos - 1] == LINE_FEED {
            1nat
        } else {
            0nat
        }
    }
}

/// Where the line that holds `pos` begins.
pub open spec fn line_start(input: Seq<u8>, pos: int) -> int
    decreases pos,
{
    if pos <= 0 {
        0
    } else if input[pos - 1] == LINE_FEED {
        pos
    } else {
        line_start(input, pos - 1)
    }
}

/// `n` as a `u32`, or the greatest `u32` where it does not fit.
pub open spec fn clip(n: int) -> u32 {
    if n > u32::MAX {
        u32::MAX
    } else {
        n as u32
    }
}

/// The line and column of `pos`, both from one, each held at the greatest `u32`.
pub open spec fn loc_of(input: Seq<u8>, pos: int) -> SrcLoc {
    SrcLoc {
        line: clip(line_feeds(input, pos) as int + 1),
        col: clip(pos - line_start(input, pos) + 1),
    }
}

/// What a tokeniser is: the text, the position, whether the end of the text
/// was met, and a token that was handed back.
pub struct TokState {
    pub input: Seq<u8>,
    pub pos: int,
    pub eof: bool,
    pub unget: Option<Tok>,
}

impl TokState {
    /// The position stands inside the text, and at its end once the end was
    /// met.
    pub open spec fn wf(self) -> bool {
        &&& 0 <= self.pos <= self.input.len()
        &&& self.eof ==> self.pos == self.input.len()
    }

    /// The token that `next` hands out, and the state it leaves. A token that
    /// was handed back comes first; behind the end of the text every token is `Eof`.
    #[verifier::opaque]
    pub open spec fn step(self) -> (Result<Tok, LexFault>, TokState) {
        match self.unget {
            Some(t) => (Ok(t), TokState { unget: None, ..self }),
            None => if self.eof {
                (Ok(Tok::Eof), self)
            } else {
                let s = scan(self.input, self.pos);
                (s.res, TokState { pos: s.pos, eof: s.eof, ..self })
            },
        }
    }

    /// How much is left to read: the bytes behind the position, and one more
    /// for a token that was handed back, unless it is `Eof`.
    pub open spec fn weight(self) -> nat {
        (self.input.len() - self.pos + if self.unget is Some && self.unget != Some(Tok::Eof) {
            1int
        } else {
            0int
        }) as nat
    }

    /// The tokens up to the end of the text, or up to and with the first fault.
    pub open spec fn tokens(self) -> Seq<Result<Tok, LexFault>>
        decreases self.weight(),
        when self.wf()
    {
        let (r, next) = self.step();
        match r {
            Ok(Tok::Eof) => Seq::empty(),
            Err(e) => seq![Err(e)],
            Ok(t) => {
                proof {
                    lemma_step(self);
                }
                seq![Ok(t)] + next.tokens()
            },
        }
    }
}

/// The next line begins behind the position, and inside the text.
pub proof fn lemma_after_line_bounds(input: Seq<u8>, pos: int)
    requires
        0 <= pos < input.len(),
    ensures
        pos < after_line(input, pos) <= input.len(),
{
    lemma_span_end_bounds(input, pos, ByteClass::InLine);
}

/// A word that is found at a position stands there.
pub proof fn lemma_first_prefix_member<W: Spelled>(table: Seq<W>, input: Seq<u8>, pos: int)
    ensures
        first_prefix_holds(table, input, pos),
    decreases table.len(),
{
    if table.len() > 0 && !crate::token::prefix_at(input, pos, table[0].spelling()) {
        lemma_first_prefix_member(table.drop_first(), input, pos);
    }
}

/// A word that `first_prefix` finds stands at `pos`.
pub open spec fn first_prefix_holds<W: Spelled>(table: Seq<W>, input: Seq<u8>, pos: int) -> bool {
    match crate::token::first_prefix(table, input, pos) {
        Some(w) => crate::token::prefix_at(input, pos, w.spelling()),
        None => true,
    }
}

/// A scan stays inside the text, and a token other than `Eof` takes at least one byte.
pub proof fn lemma_scan_advances(input: Seq<u8>, pos: int)
    requires
        0 <= pos <= input.len(),
    ensures
        pos <= scan(input, pos).pos <= input.len(),
        scan(input, pos).eof ==> scan(input, pos).pos == input.len(),
        scan(input, pos).eof <==> scan(input, pos).res == Ok::<Tok, LexFault>(Tok::Eof),
        (scan(input, pos).res is Ok && !scan(input, pos).eof) ==> pos < scan(input, pos).pos,
    decreases input.len() - pos,
{
    let p = span_end(input, pos, ByteClass::Space);
    lemma_span_end_bounds(input, pos, ByteClass::Space);
    if p >= input.len() {
    } else if input[p] == HASH {
        lemma_after_line_bounds(input, p);
        lemma_scan_advances(input, after_line(input, p));
    } else {
        lemma_first_prefix_member(Punctuation::table(), input, p);
        lemma_first_prefix_member(Keyword::table(), input, p);
        lemma_first_prefix_member(Op::table(), input, p);
        lemma_first_prefix_member(Cmp::table(), input, p);
        lemma_span_end_bounds(input, p, ByteClass::Digit);
        lemma_span_end_bounds(input, p + 1, ByteClass::Digit);
        lemma_span_end_bounds(input, p, ByteClass::IdentPart);
        lemma_span_end_bounds(input, p + 1, ByteClass::IdentPart);
        lemma_span_end_bounds(input, p + 1, ByteClass::InString);
        lemma_words_not_empty();
    }
}

/// No word is spelt with nothing.
pub proof fn lemma_words_not_empty()
    ensures
        forall|w: Punctuation| (#[trigger] w.spelling()).len() > 0,
        forall|w: Keyword| (#[trigger] w.spelling()).len() > 0,
        forall|w: Op| (#[trigger] w.spelling()).len() > 0,
        forall|w: Cmp| (#[trigger] w.spelling()).len() > 0,
{
    assert forall|w: Punctuation| (#[trigger] w.spelling()).len() > 0 by {
        w.lemma_spelling_not_empty();
    }
    assert forall|w: Keyword| (#[trigger] w.spelling()).len() > 0 by {
        w.lemma_spelling_not_empty();
    }
    assert forall|w: Op| (#[trigger] w.spelling()).len() > 0 by {
        w.lemma_spelling_not_empty();
    }
    assert forall|w: Cmp| (#[trigger] w.spelling()).len() > 0 by {
        w.lemma_spelling_not_empty();
    }
}

/// The step of a well-formed state is well-formed, and no heavier; a token
/// other than `Eof` makes it lighter.
pub proof fn lemma_step(s: TokState)
    requires
        s.wf(),
    ensures
        s.step().1.wf(),
        s.step().1.input == s.input,
        s.step().1.unget is None,
        s.step().1.weight() <= s.weight(),
        (s.step().0 is Ok && s.step().0 != Ok::<Tok, LexFault>(Tok::Eof)) ==> s.step().1.weight()
            < s.weight(),
        (s.unget is None && s.step().0 == Ok::<Tok, LexFault>(Tok::Eof)) ==> s.step().1.eof,
{
    reveal(TokState::step);
    if s.unget is None && !s.eof {
        lemma_scan_advances(s.input, s.pos);
    }
}

/// A token that was handed back is the next token.
pub proof fn lemma_step_unget(s: TokState, t: Tok)
    requires
        s.unget == Some(t),
    ensures
        s.step() == (Ok::<Tok, LexFault>(t), TokState { unget: None, ..s }),
{
    reveal(TokState::step);
}

/// Cuts a text into tokens, one at each call of `next`.
pub struct Tokeniser<'a> {
    fname: &'a str,
    input: Vec<u8>,
    pos: usize,
    eof: bool,
    unget: Option<Token>,
}

impl<'a> View for Tokeniser<'a> {
    type V = TokState;

    closed spec fn view(&self) -> TokState {
        TokState {
            input: self.input@,
            pos: self.pos as int,
            eof: self.eof,
            unget: match self.unget {
                Some(t) => Some(t@),
                None => None,
            },
        }
    }
}

impl<'a> Tokeniser<'a> {
    /// The name that the text was read from.
    pub closed spec fn fname(&self) -> &'a str {
        self.fname
    }

    /// A tokeniser at the start of `reader`, the text of the file named `fname`.
    pub fn new(reader: &[u8], fname: &'a str) -> (t: Self)
        ensures
            t@ == (TokState { input: reader@, pos: 0, eof: false, unget: None }),
            t@.wf(),
            t.fname() == fname,
    {
        Self {
            fname,
            input: vstd::slice::slice_to_vec(reader),
            pos: 0,
            eof: false,
            unget: None,
        }
    }

    /// The name that the text was read from.
    pub fn file_name(&self) -> (r: &'a str)
        ensures
            r == self.fname(),
    {
        self.fname
    }

    /// The place in the text up to which it was read.
    pub fn loc(&self) -> (l: SrcLoc)
        requires
            self@.wf(),
        ensures
            l == loc_of(self@.input, self@.pos),
    {
        let mut lines: u32 = 1;
        let mut start: usize = 0;
        let mut i: usize = 0;
        while i < self.pos
            invariant
                i <= self.pos <= self.input@.len(),
                lines == clip(line_feeds(self.input@, i as int) as int + 1),
                start == line_start(self.input@, i as int),
                start <= i,
            decreases self.pos - i,
        {
            if self.input[i] == LINE_FEED {
                if lines < u32::MAX {
                    lines += 1;
                }
                start = i + 1;
            }
            i += 1;
        }
        let width: usize = self.pos - start;
        let col: u32 = if width >= u32::MAX as usize {
            u32::MAX
        } else {
            (width + 1) as u32
        };
        SrcLoc { line: lines, col }
    }

    /// Whether the end of the text was met. It is met by the scan that finds
    /// nothing more, not by the one that takes the last token.
    pub fn eof(&self) -> (r: bool)
        ensures
            r == self@.eof,
    {
        self.eof
    }

    /// Hands `tok` back: the next call of `next` returns it. One token can be
    /// held at a time.
    pub fn unget(&mut self, tok: Token)
        requires
            old(self)@.unget is None,
        ensures
            final(self)@ == (TokState { unget: Some(tok@), ..old(self)@ }),
            final(self).fname() == old(self).fname(),
    {
        self.unget = Some(tok);
    }

    /// Moves to the start of the next line.
    fn next_line(&mut self)
        requires
            old(self)@.wf(),
            old(self)@.pos < old(self)@.input.len(),
        ensures
            final(self)@ == (TokState {
                pos: after_line(old(self)@.input, old(self)@.pos),
                ..old(self)@
            }),
            final(self).fname() == old(self).fname(),
            old(self)@.pos < final(self)@.pos <= final(self)@.input.len(),
    {
        proof {
            lemma_after_line_bounds(self@.input, self@.pos);
            lemma_span_end_bounds(self@.input, self@.pos, ByteClass::InLine);
        }
        self.next_while(ByteClass::InLine);
        if self.pos < self.input.len() {
            self.pos += 1;
        }
    }

    /// Moves over blanks, tabs and line ends.
    fn skip_space(&mut self)
        requires
            old(self)@.wf(),
        ensures
            final(self)@ == (TokState {
                pos: span_end(old(self)@.input, old(self)@.pos, ByteClass::Space),
                ..old(self)@
            }),
            final(self).fname() == old(self).fname(),
            old(self)@.pos <= final(self)@.pos <= final(self)@.input.len(),
    {
        self.next_while(ByteClass::Space)
    }

    /// Moves over the bytes of `class`.
    fn next_while(&mut self, class: ByteClass)
        requires
            old(self)@.wf(),
        ensures
            final(self)@ == (TokState {
                pos: span_end(old(self)@.input, old(self)@.pos, class),
                ..old(self)@
            }),
            final(self).fname() == old(self).fname(),
            old(self)@.pos <= final(self)@.pos <= final(self)@.input.len(),
    {
        let e = run_end(self.input.as_slice(), self.pos, class);
        self.pos = e;
    }

    /// The bytes from the position to the end of its line.
    fn line_remaining(&self) -> (r: Vec<u8>)
        requires
            self@.wf(),
        ensures
            r@ == line_rest(self@.input, self@.pos),
    {
        let e = run_end(self.input.as_slice(), self.pos, ByteClass::InLine);
        let e = if e < self.input.len() {
            e + 1
        } else {
            e
        };
        copy_bytes(self.input.as_slice(), self.pos, e)
    }

    /// The name at the position: a letter or underscore and what follows of
    /// letters, underscores and digits. The position moves behind it.
    fn parse_ident(&mut self) -> (r: String)
        requires
            old(self)@.wf(),
            old(self)@.pos < old(self)@.input.len(),
        ensures
            final(self)@ == (TokState {
                pos: span_end(old(self)@.input, old(self)@.pos, ByteClass::IdentPart),
                ..old(self)@
            }),
            final(self).fname() == old(self).fname(),
            final(self)@.pos <= final(self)@.input.len(),
            r@ == chars_of(old(self)@.input.subrange(old(self)@.pos, final(self)@.pos)),
    {
        let from = self.pos;
        let e = run_end(self.input.as_slice(), self.pos, ByteClass::IdentPart);
        self.pos = e;
        string_of_bytes(self.input.as_slice(), from, e)
    }

    /// The string literal whose opening quote stands at the position: its
    /// bytes and the position behind its closing quote.
    fn parse_string(&self) -> (r: Result<(Vec<u8>, usize), Error>)
        requires
            self@.wf(),
            self@.pos < self@.input.len(),
        ensures
            match r {
                Ok((bytes, end)) => scan_string(self@.input, self@.pos) == (Scanned {
                    res: Ok(Tok::String(bytes@)),
                    pos: end as int,
                    eof: false,
                }),
                Err(e) => scan_string(self@.input, self@.pos) == (Scanned {
                    res: Err(e@),
                    pos: self@.pos,
                    eof: false,
                }),
            },
    {
        let input = self.input.as_slice();
        let close = run_end(input, self.pos + 1, ByteClass::InString);
        if close >= input.len() || input[close] != QUOTE {
            return Err(Error::UnterminatedStr(self.line_remaining()));
        }
        let mut bytes: Vec<u8> = Vec::new();
        let mut i: usize = self.pos + 1;
        while i < close
            invariant
                self@.wf(),
                input@ == self@.input,
                self@.pos + 1 <= i <= close < input@.len(),
                close == span_end(input@, self@.pos + 1, ByteClass::InString),
                input@[close as int] == QUOTE,
                unescape(input@, self@.pos + 1, close as int, Seq::empty()) == unescape(
                    input@,
                    i as int,
                    close as int,
                    bytes@,
                ),
            decreases close - i,
        {
            if input[i] == BACKSLASH {
                let e = run_end(input, i + 1, ByteClass::OctalDigit);
                let e = if e > close {
                    close
                } else {
                    e
                };
                let e = if e - i > 4 {
                    i + 4
                } else {
                    e
                };
                if e <= i + 1 {
                    return Err(Error::UnknownToken(self.line_remaining()));
                }
                let mut v: u32 = 0;
                let mut k: usize = i + 1;
                while k < e
                    invariant
                        i + 1 <= k <= e <= i + 4,
                        e <= input@.len(),
                        v == octal_value(input@, i + 1, k as int),
                        v < 8 * 8 * 8,
                        k <= i + 1 ==> v == 0,
                        k <= i + 2 ==> v < 8,
                        k <= i + 3 ==> v < 64,
                        forall|j: int| i + 1 <= j < e ==> ByteClass::OctalDigit.holds(#[trigger] input@[j]),
                    decreases e - k,
                {
                    v = v * 8 + (input[k] - ZERO) as u32;
                    k += 1;
                }
                bytes.push((v % 256) as u8);
                i = e;
            } else {
                bytes.push(input[i]);
                i += 1;
            }
        }
        Ok((bytes, close + 1))
    }

    /// The number at the position, where a digit stands, or a minus sign before one.
    fn parse_integer(&self) -> (r: Result<(i32, usize), Error>)
        requires
            self@.wf(),
            self@.pos < self@.input.len(),
            integer_at(self@.input, self@.pos),
        ensures
            match r {
                Ok((n, end)) => scan_integer(self@.input, self@.pos) == (Scanned {
                    res: Ok(Tok::Integer(n)),
                    pos: end as int,
                    eof: false,
                }),
                Err(e) => scan_integer(self@.input, self@.pos) == (Scanned {
                    res: Err(e@),
                    pos: self@.pos,
                    eof: false,
                }),
            },
    {
        let input = self.input.as_slice();
        let neg = input[self.pos] == MINUS;
        let from: usize = if neg {
            self.pos + 1
        } else {
            self.pos
        };
        let e = run_end(input, from, ByteClass::Digit);
        // The value, as long as it is no more than `LIMIT`; beyond it, `LIMIT + 1`.
        let mut v: u64 = 0;
        let mut k: usize = from;
        while k < e
            invariant
                from <= k <= e <= input@.len(),
                forall|j: int| from <= j < e ==> ByteClass::Digit.holds(#[trigger] input@[j]),
                v <= LIMIT + 1,
                digits_value(input@, from as int, k as int) <= LIMIT ==> v == digits_value(
                    input@,
                    from as int,
                    k as int,
                ),
                digits_value(input@, from as int, k as int) > LIMIT ==> v == LIMIT + 1,
            decreases e - k,
        {
            let d: u64 = (input[k] - ZERO) as u64;
            if v <= LIMIT {
                v = v * 10 + d;
                if v > LIMIT {
                    v = LIMIT + 1;
                }
            }
            k += 1;
        }
        if neg && v <= LIMIT {
            let n: i64 = -(v as i64);
            Ok((n as i32, e))
        } else if !neg && v < LIMIT {
            Ok((v as i32, e))
        } else {
            Err(Error::UnknownToken(self.line_remaining()))
        }
    }

    /// The token at the position, where a byte stands that is neither space
    /// nor the start of a comment.
    fn next_token(&mut self) -> (r: LexResult)
        requires
            old(self)@.wf(),
            old(self)@.unget is None,
            !old(self)@.eof,
            old(self)@.pos < old(self)@.input.len(),
        ensures
            lexed(r) == scan_token(old(self)@.input, old(self)@.pos).res,
            final(self)@ == (TokState {
                pos: scan_token(old(self)@.input, old(self)@.pos).pos,
                ..old(self)@
            }),
            final(self).fname() == old(self).fname(),
    {
        proof {
            lemma_first_prefix_member(Punctuation::table(), self@.input, self@.pos);
            lemma_first_prefix_member(Keyword::table(), self@.input, self@.pos);
            lemma_first_prefix_member(Op::table(), self@.input, self@.pos);
            lemma_first_prefix_member(Cmp::table(), self@.input, self@.pos);
        }
        let ch = self.input[self.pos];
        let len: usize = self.input.len();
        assert(first_prefix_holds(Punctuation::table(), self@.input, self@.pos));
        assert(first_prefix_holds(Keyword::table(), self@.input, self@.pos));
        assert(first_prefix_holds(Op::table(), self@.input, self@.pos));
        assert(first_prefix_holds(Cmp::table(), self@.input, self@.pos));
        if let Some(p) = match_prefix::<Punctuation>(self.input.as_slice(), self.pos) {
            self.pos += p.len();
            return Ok(Token::Punctuation(p));
        }
        if ByteClass::Digit.has(ch) || (ch == MINUS && self.pos + 1 < len && ByteClass::Digit.has(
            self.input[self.pos + 1],
        )) {
            return match self.parse_integer() {
                Ok((n, end)) => {
                    self.pos = end;
                    Ok(Token::Integer(n))
                },
                Err(e) => Err(e),
            };
        }
        if let Some(kw) = match_prefix::<Keyword>(self.input.as_slice(), self.pos) {
            self.pos += kw.len();
            return Ok(Token::Keyword(kw));
        }
        if let Some(op) = match_prefix::<Op>(self.input.as_slice(), self.pos) {
            self.pos += op.len();
            return Ok(Token::Op(op));
        }
        if let Some(cmp) = match_prefix::<Cmp>(self.input.as_slice(), self.pos) {
            self.pos += cmp.len();
            return Ok(Token::Cmp(cmp));
        }
        if ch == DOLLAR && self.pos + 1 < len && ByteClass::IdentStart.has(
            self.input[self.pos + 1],
        ) {
            self.pos += 1;
            let ident = self.parse_ident();
            return Ok(Token::Identifier(ident));
        }
        if ByteClass::IdentStart.has(ch) {
            let bare = self.parse_ident();
            return Ok(Token::Bareword(bare));
        }
        if ch == QUOTE {
            return match self.parse_string() {
                Ok((s, end)) => {
                    self.pos = end;
                    Ok(Token::String(s))
                },
                Err(e) => Err(e),
            };
        }
        Err(Error::UnknownToken(self.line_remaining()))
    }

    /// The next token. After a fault the position stands where the fault
    /// began, so that the next call meets it again.
    pub fn next(&mut self) -> (r: LexResult)
        requires
            old(self)@.wf(),
        ensures
            lexed(r) == old(self)@.step().0,
            final(self)@ == old(self)@.step().1,
            final(self)@.wf(),
            final(self).fname() == old(self).fname(),
    {
        reveal(TokState::step);
        proof {
            lemma_step(self@);
        }
        if let Some(tok) = self.unget.take() {
            return Ok(tok);
        }
        if self.eof {
            return Ok(Token::Eof);
        }
        loop
            invariant
                self@.wf(),
                self@.unget is None,
                !self@.eof,
                old(self)@.unget is None,
                !old(self)@.eof,
                self@.input == old(self)@.input,
                self.fname() == old(self).fname(),
                scan(self@.input, self@.pos) == scan(old(self)@.input, old(self)@.pos),
            decreases self@.input.len() - self@.pos,
        {
            reveal(TokState::step);
            let ghost from = self@.pos;
            proof {
                lemma_span_end_bounds(self@.input, from, ByteClass::Space);
            }
            self.skip_space();
            if self.pos >= self.input.len() {
                self.eof = true;
                return Ok(Token::Eof);
            }
            if self.input[self.pos] == HASH {
                self.next_line();
            } else {
                proof {
                    lemma_step(old(self)@);
                }
                return self.next_token();
            }
        }
    }

    /// Every token up to the end of the text, in order; a fault ends the list
    /// and is its last entry.
    pub fn into_iter(self) -> (r: Vec<LexResult>)
        requires
            self@.wf(),
        ensures
            r@.map_values(|x: LexResult| lexed(x)) == self@.tokens(),
    {
        let mut tok = self;
        let mut out: Vec<LexResult> = Vec::new();
        assert(out@.map_values(|x: LexResult| lexed(x)) + tok@.tokens() =~= self@.tokens());
        loop
            invariant
                tok@.wf(),
                self@.wf(),
                out@.map_values(|x: LexResult| lexed(x)) + tok@.tokens() == self@.tokens(),
            decreases tok@.weight(),
        {
            let ghost before = tok@;
            let ghost done = out@.map_values(|x: LexResult| lexed(x));
            reveal(TokState::step);
            proof {
                lemma_step(before);
            }
            let r = tok.next();
            match r {
                Ok(Token::Eof) => {
                    assert(before.tokens() =~= Seq::empty());
                    assert(done + before.tokens() =~= done);
                    return out;
                },
                Ok(t) => {
                    assert(before.tokens() == seq![Ok::<Tok, LexFault>(t@)] + tok@.tokens());
                    out.push(Ok(t));
                    assert(out@.map_values(|x: LexResult| lexed(x)) =~= done.push(
                        Ok::<Tok, LexFault>(t@),
                    ));
                    assert(out@.map_values(|x: LexResult| lexed(x)) + tok@.tokens() =~= done
                        + before.tokens());
                },
                Err(e) => {
                    assert(before.tokens() == seq![Err::<Tok, LexFault>(e@)]);
                    out.push(Err(e));
                    assert(out@.map_values(|x: LexResult| lexed(x)) =~= done.push(
                        Err::<Tok, LexFault>(e@),
                    ));
                    assert(out@.map_values(|x: LexResult| lexed(x)) =~= done + before.tokens());
                    return out;
                },
            }
        }
    }
}

/// The greatest magnitude of a number token: two to the power of 31.
pub const LIMIT: u64 = 0x8000_0000;

/// Finds the end of the run of bytes of `class` that starts at `pos`.
pub fn run_end(input: &[u8], pos: usize, class: ByteClass) -> (e: usize)
    requires
        pos <= input@.len(),
    ensures
        e == span_end(input@, pos as int, class),
        pos <= e <= input@.len(),
        forall|i: int| pos <= i < e ==> class.holds(#[trigger] input@[i]),
        e < input@.len() ==> !class.holds(input@[e as int]),
{
    proof {
        lemma_span_end_bounds(input@, pos as int, class);
    }
    let mut i: usize = pos;
    while i < input.len() && class.has(input[i])
        invariant
            pos <= i <= input@.len(),
            span_end(input@, pos as int, class) == span_end(input@, i as int, class),
        decreases input@.len() - i,
    {
        i += 1;
    }
    i
}


} // verus!
