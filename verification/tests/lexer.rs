use pipec::span::{line_col, Span};
use pipec::tokenizer::{DigitType, LexError, Token, Tokenizer};

fn lex(src: &[u8]) -> Vec<Token> {
    Tokenizer::new(src.to_vec()).tree().unwrap().stream
}

#[test]
fn keywords_and_idents() {
    let src = b"using std/graphics/color;".to_vec();
    let toks = lex(&src);
    assert!(matches!(toks[0], Token::UsingKeyword));
    assert!(matches!(toks[1], Token::Whitespace));
    match toks[2] {
        Token::Ident(sp) => assert_eq!(sp.parse(&src), b"std"),
        ref t => panic!("unexpected token {:?}", t),
    }
    assert!(matches!(toks[3], Token::Slash));
    match toks[4] {
        Token::Ident(sp) => assert_eq!(sp.parse(&src), b"graphics"),
        ref t => panic!("unexpected token {:?}", t),
    }
    assert!(matches!(toks[6], Token::Ident(_)));
    assert!(matches!(toks[7], Token::Semicolon));
    assert_eq!(toks.len(), 8);
}

#[test]
fn compound_operators() {
    let toks = lex(b"-> => == != <= >= && || :: += -= *= /= %=");
    let expected = [
        Token::ThinArrow,
        Token::FatArrow,
        Token::EqualTo,
        Token::NotEqualTo,
        Token::LessThanAndEqual,
        Token::GreaterThanAndEqual,
        Token::And,
        Token::Or,
        Token::DoubleColon,
        Token::PlusEqual,
        Token::MinusEqual,
        Token::AsteriskEqual,
        Token::SlashEqual,
        Token::ModEqual,
    ];
    let significant: Vec<&Token> = toks
        .iter()
        .filter(|t| !matches!(t, Token::Whitespace))
        .collect();
    assert_eq!(significant.len(), expected.len());
    for (got, want) in significant.iter().zip(expected.iter()) {
        assert_eq!(**got, *want);
    }
}

#[test]
fn digits_and_floats() {
    let src = b"12 3.25 7.".to_vec();
    let toks = lex(&src);
    match toks[0] {
        Token::Digit { val, digittype } => {
            assert_eq!(val.parse(&src), b"12");
            assert_eq!(digittype, DigitType::Int);
        }
        ref t => panic!("unexpected token {:?}", t),
    }
    match toks[2] {
        Token::Digit { val, digittype } => {
            assert_eq!(val.parse(&src), b"3.25");
            assert_eq!(digittype, DigitType::Float);
        }
        ref t => panic!("unexpected token {:?}", t),
    }
    match toks[4] {
        Token::Digit { val, digittype } => {
            assert_eq!(val.parse(&src), b"7.");
            assert_eq!(digittype, DigitType::Float);
        }
        ref t => panic!("unexpected token {:?}", t),
    }
}

#[test]
fn comments_vanish() {
    let src = b"a // one\n/* two \n three */b".to_vec();
    let toks = lex(&src);
    let significant: Vec<&Token> = toks
        .iter()
        .filter(|t| !matches!(t, Token::Whitespace))
        .collect();
    assert_eq!(significant.len(), 2);
    assert!(matches!(significant[0], Token::Ident(_)));
    assert!(matches!(significant[1], Token::Ident(_)));
}

#[test]
fn string_literal_span_excludes_quotes() {
    let src = b"@language(\"spirv\")".to_vec();
    let toks = lex(&src);
    match toks[3] {
        Token::String(sp) => assert_eq!(sp.parse(&src), b"spirv"),
        ref t => panic!("unexpected token {:?}", t),
    }
}

#[test]
fn unterminated_string_is_refused() {
    let r = Tokenizer::new(b"\"abc".to_vec()).tree();
    assert!(matches!(r, Err(LexError::UnterminatedString { at: 0 })));
}

#[test]
fn unexpected_character_is_refused() {
    let r = Tokenizer::new(b"a \x07".to_vec()).tree();
    assert!(matches!(r, Err(LexError::UnexpectedCharacter { at: 2 })));
}

#[test]
fn line_and_column_are_one_indexed() {
    let src = b"ab\ncd\nef".to_vec();
    assert_eq!(line_col(&src, 0), (1, 1));
    assert_eq!(line_col(&src, 4), (2, 2));
    assert_eq!(line_col(&src, 6), (3, 1));
}

#[test]
fn span_parse_reads_back_bytes() {
    let src = b"hello".to_vec();
    let sp = Span::new(1, 4);
    assert_eq!(sp.parse(&src), b"ell");
    assert_eq!(sp.len(), 3);
}
