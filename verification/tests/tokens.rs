use ir_backend::token::{Keyword, Op, Punctuation, Token};
use ir_backend::tokenise::Tokeniser;

#[test]
fn tokenisation() {
    let s: &[u8] = b"
        $main = i4() { ret i4 0 }
        $i = i8* external $l add 1
        ...
        .
        ,
        ";

    let tok = Tokeniser::new(s, "");

    let tokens = tok
        .into_iter()
        .into_iter()
        .collect::<Result<Vec<_>, _>>()
        .unwrap();

    assert_eq!(
        tokens,
        vec![
            Token::Identifier("main".into()),
            Token::Punctuation(Punctuation::Equal),
            Token::Keyword(Keyword::I4),
            Token::Punctuation(Punctuation::LParen),
            Token::Punctuation(Punctuation::RParen),
            Token::Punctuation(Punctuation::LBrace),
            Token::Keyword(Keyword::Ret),
            Token::Keyword(Keyword::I4),
            Token::Integer(0),
            Token::Punctuation(Punctuation::RBrace),
            //
            Token::Identifier("i".into()),
            Token::Punctuation(Punctuation::Equal),
            Token::Keyword(Keyword::I8),
            Token::Punctuation(Punctuation::Star),
            Token::Bareword("external".into()),
            Token::Identifier("l".into()),
            Token::Op(Op::Add),
            Token::Integer(1),
            Token::Punctuation(Punctuation::Ellipses),
            Token::Punctuation(Punctuation::Dot),
            Token::Punctuation(Punctuation::Comma),
        ]
    );
}
