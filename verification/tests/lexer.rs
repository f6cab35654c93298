use ir_backend::srcloc::SrcLoc;
use ir_backend::token::{Cmp, Keyword, Op, Punctuation, Spelled, Token};
use ir_backend::tokenise::{Error, Tokeniser};

fn tokens(src: &[u8]) -> Vec<Result<Token, Error>> {
    Tokeniser::new(src, "t").into_iter()
}

fn ok(src: &[u8]) -> Vec<Token> {
    tokens(src).into_iter().map(|t| t.unwrap()).collect()
}

#[test]
fn numbers() {
    assert_eq!(
        ok(b"0 12 -7 2147483647 -2147483648 007"),
        vec![
            Token::Integer(0),
            Token::Integer(12),
            Token::Integer(-7),
            Token::Integer(i32::MAX),
            Token::Integer(i32::MIN),
            Token::Integer(7),
        ]
    );
    assert_eq!(
        tokens(b"1 2147483648 3"),
        vec![
            Ok(Token::Integer(1)),
            Err(Error::UnknownToken(b"2147483648 3".to_vec()))
        ]
    );
    assert_eq!(
        tokens(b"-2147483649\nx"),
        vec![Err(Error::UnknownToken(b"-2147483649\n".to_vec()))]
    );
    assert_eq!(
        tokens(b"99999999999999999999999999"),
        vec![Err(Error::UnknownToken(
            b"99999999999999999999999999".to_vec()
        ))]
    );
    // a minus sign alone is no number, and an arrow is punctuation
    assert_eq!(tokens(b"- 1"), vec![Err(Error::UnknownToken(b"- 1".to_vec()))]);
    assert_eq!(
        ok(b"->-1"),
        vec![Token::Punctuation(Punctuation::Arrow), Token::Integer(-1)]
    );
}

#[test]
fn words() {
    assert_eq!(
        ok(b"$a $_b9 x weak i4 i8* shiftr_u shiftr_s shiftl le eq $load load"),
        vec![
            Token::Identifier("a".into()),
            Token::Identifier("_b9".into()),
            Token::Bareword("x".into()),
            Token::Bareword("weak".into()),
            Token::Keyword(Keyword::I4),
            Token::Keyword(Keyword::I8),
            Token::Punctuation(Punctuation::Star),
            Token::Op(Op::ShiftRLogic),
            Token::Op(Op::ShiftRArith),
            Token::Op(Op::Shiftl),
            Token::Cmp(Cmp::Le),
            Token::Cmp(Cmp::Eq),
            Token::Identifier("load".into()),
            Token::Keyword(Keyword::Load),
        ]
    );
    // a word is taken wherever it begins the text: the longest is not looked for
    assert_eq!(
        ok(b"retval i1x"),
        vec![
            Token::Keyword(Keyword::Ret),
            Token::Bareword("val".into()),
            Token::Keyword(Keyword::I1),
            Token::Bareword("x".into()),
        ]
    );
    // an identifier does not begin with a digit
    assert_eq!(tokens(b"$9"), vec![Err(Error::UnknownToken(b"$9".to_vec()))]);
    assert_eq!(tokens(b"$"), vec![Err(Error::UnknownToken(b"$".to_vec()))]);
    assert_eq!(
        tokens(b"a @ b\nc"),
        vec![
            Ok(Token::Bareword("a".into())),
            Err(Error::UnknownToken(b"@ b\n".to_vec()))
        ]
    );
}

#[test]
fn punctuation() {
    assert_eq!(
        ok(b"(){}[]<>->....,=:;*"),
        vec![
            Token::Punctuation(Punctuation::LParen),
            Token::Punctuation(Punctuation::RParen),
            Token::Punctuation(Punctuation::LBrace),
            Token::Punctuation(Punctuation::RBrace),
            Token::Punctuation(Punctuation::LSquare),
            Token::Punctuation(Punctuation::RSquare),
            Token::Punctuation(Punctuation::LAngle),
            Token::Punctuation(Punctuation::RAngle),
            Token::Punctuation(Punctuation::Arrow),
            Token::Punctuation(Punctuation::Ellipses),
            Token::Punctuation(Punctuation::Dot),
            Token::Punctuation(Punctuation::Comma),
            Token::Punctuation(Punctuation::Equal),
            Token::Punctuation(Punctuation::Colon),
            Token::Punctuation(Punctuation::Semi),
            Token::Punctuation(Punctuation::Star),
        ]
    );
    assert_eq!(Punctuation::LSquare.str(), "[");
    assert_eq!(Punctuation::RAngle.str(), ">");
    assert_eq!(Punctuation::Ellipses.str(), "...");
    assert_eq!(Punctuation::Ellipses.len(), 3);
    assert_eq!(Keyword::Aliasinit.len(), 9);
    assert_eq!(Op::ShiftRArith.str(), "shiftr_s");
    assert_eq!(Cmp::Ge.str(), "ge");
}

#[test]
fn strings() {
    assert_eq!(
        ok(b"\"\" \"a b\" \"\\0\\12\\101\\1010\\777x\""),
        vec![
            Token::String(vec![]),
            Token::String(b"a b".to_vec()),
            Token::String(vec![0, 10, 65, 65, b'0', 255, b'x']),
        ]
    );
    assert_eq!(
        tokens(b"\"abc\n\""),
        vec![Err(Error::UnterminatedStr(b"\"abc\n".to_vec()))]
    );
    assert_eq!(
        tokens(b"\"abc"),
        vec![Err(Error::UnterminatedStr(b"\"abc".to_vec()))]
    );
    // a backslash stands before octal digits only
    assert_eq!(
        tokens(b"\"a\\n\""),
        vec![Err(Error::UnknownToken(b"\"a\\n\"".to_vec()))]
    );
    assert_eq!(
        tokens(b"\"a\\\""),
        vec![Err(Error::UnknownToken(b"\"a\\\"".to_vec()))]
    );
}

#[test]
fn comments_and_space() {
    assert_eq!(ok(b""), vec![]);
    assert_eq!(ok(b" \t\r\n\x0c "), vec![]);
    assert_eq!(ok(b"# nothing\n#more"), vec![]);
    assert_eq!(
        ok(b"i1# i2\n\n  # i4\n i8 #"),
        vec![Token::Keyword(Keyword::I1), Token::Keyword(Keyword::I8)]
    );
}

#[test]
fn end_of_text() {
    let mut t = Tokeniser::new(b"i4 ", "t");
    assert!(!t.eof());
    assert_eq!(t.next().unwrap(), Token::Keyword(Keyword::I4));
    assert!(!t.eof());
    assert_eq!(t.next().unwrap(), Token::Eof);
    assert!(t.eof());
    assert_eq!(t.next().unwrap(), Token::Eof);

    // a token that was handed back comes first
    t.unget(Token::Integer(3));
    assert_eq!(t.next().unwrap(), Token::Integer(3));
    assert_eq!(t.next().unwrap(), Token::Eof);

    // a fault is met again
    let mut t = Tokeniser::new(b"@", "t");
    assert!(t.next().is_err());
    assert!(t.next().is_err());
    assert!(!t.eof());
}

#[test]
fn places() {
    assert_eq!(SrcLoc::start(), SrcLoc { line: 1, col: 1 });
    let mut t = Tokeniser::new(b"i4 i8\n\n  $abc @", "t");
    assert_eq!(t.loc(), SrcLoc { line: 1, col: 1 });
    t.next().unwrap();
    assert_eq!(t.loc(), SrcLoc { line: 1, col: 3 });
    t.next().unwrap();
    assert_eq!(t.loc(), SrcLoc { line: 1, col: 6 });
    t.next().unwrap();
    assert_eq!(t.loc(), SrcLoc { line: 3, col: 7 });
    assert!(t.next().is_err());
    assert_eq!(t.loc(), SrcLoc { line: 3, col: 8 });
}

#[test]
fn descriptions() {
    assert_eq!(Token::Eof.desc(), "eof");
    assert_eq!(Token::Integer(1).desc(), "integer");
    assert_eq!(Token::Identifier("a".into()).desc(), "identifier");
    assert_eq!(Token::Bareword("a".into()).desc(), "bareword");
    assert_eq!(Token::String(vec![]).desc(), "string");
    assert_eq!(Token::Punctuation(Punctuation::Arrow).desc(), "->");
    assert_eq!(Token::Keyword(Keyword::FLarge).desc(), "flarge");
    assert_eq!(Token::Op(Op::Udiv).desc(), "udiv");
    assert_eq!(Token::Cmp(Cmp::Ne).desc(), "ne");
    assert!(Token::Integer(1).same(&Token::Integer(1)));
    assert!(!Token::Integer(1).same(&Token::Integer(2)));
    assert!(!Token::Identifier("a".into()).same(&Token::Bareword("a".into())));
    assert!(Token::String(vec![1]).duplicate().same(&Token::String(vec![1])));
}

#[test]
fn name_of_the_text() {
    assert_eq!(Tokeniser::new(b"i4", "unit.ir").file_name(), "unit.ir");
    assert_eq!(Tokeniser::new(b"", "-").file_name(), "-");
}
