//! The core lexer.

use kalvita::lexer::{Lexer, Token};

#[test]
fn lexes_basic_kalvita_program() {
    let mut lexer = Lexer::new("let x = 42;\nfn add(a, b) -> int { a + b }");

    let tokens = lexer.tokenize();
    assert_eq!(tokens.len(), 20);
    assert_eq!(tokens[0], Token::Let);
    assert_eq!(tokens[1], Token::Identifier("x".to_string()));
    assert_eq!(tokens[2], Token::Assign);
    assert_eq!(tokens[3], Token::Number(42));
    assert_eq!(tokens[4], Token::Semicolon);
    assert_eq!(tokens[5], Token::Fn);
    assert_eq!(tokens[6], Token::Identifier("add".to_string()));
    assert_eq!(tokens[7], Token::LParen);
    assert_eq!(tokens[8], Token::Identifier("a".to_string()));
    assert_eq!(tokens[9], Token::Comma);
    assert_eq!(tokens[10], Token::Identifier("b".to_string()));
    assert_eq!(tokens[11], Token::RParen);
    assert_eq!(tokens[12], Token::Arrow);
    assert_eq!(tokens[13], Token::Type("int".to_string()));
    assert_eq!(tokens[14], Token::LBrace);
    assert_eq!(tokens[15], Token::Identifier("a".to_string()));
    assert_eq!(tokens[16], Token::Plus);
    assert_eq!(tokens[17], Token::Identifier("b".to_string()));
    assert_eq!(tokens[18], Token::RBrace);
    assert_eq!(tokens[19], Token::Eof);
}

#[test]
fn empty_text_has_one_token() {
    assert_eq!(Lexer::new("").tokenize(), vec![Token::Eof]);
    assert_eq!(Lexer::new(" \n\t ").tokenize(), vec![Token::Eof]);
}

#[test]
fn tokens_are_read_once() {
    let mut lexer = Lexer::new("a");
    assert_eq!(lexer.tokenize(), vec![Token::Identifier("a".to_string()), Token::Eof]);
    assert_eq!(lexer.tokenize(), vec![Token::Eof]);
}

#[test]
fn blank_parts_two_texts() {
    for (a, b) in [("let x", "= 1;"), ("fn -", "> y"), ("", "a"), ("12", "3")] {
        for blank in [" ", "\n", "\r", "\t"] {
            let mut want = Lexer::new(a).tokenize();
            want.pop();
            let second = b.replace('>', "+");
            want.extend(Lexer::new(&second).tokenize());
            assert_eq!(Lexer::new(&format!("{}{}{}", a, blank, second)).tokenize(), want);
        }
    }
}

#[test]
fn comments_are_stripped() {
    let name = |s: &str| Token::Identifier(s.to_string());
    assert_eq!(Lexer::new("x // note\ny").tokenize(), vec![name("x"), name("y"), Token::Eof]);
    assert_eq!(Lexer::new("x .// a\nb //. y").tokenize(), vec![name("x"), name("y"), Token::Eof]);
    assert_eq!(Lexer::new("// all of it").tokenize(), vec![Token::Eof]);
    assert_eq!(Lexer::new("a / b").tokenize(), vec![name("a"), Token::Slash, name("b"), Token::Eof]);
}

#[test]
fn longest_mark_is_taken() {
    assert_eq!(
        Lexer::new("=== !== == != = ! -> -= - .. .").tokenize(),
        vec![
            Token::StrictEqual,
            Token::StrictNotEqual,
            Token::Equal,
            Token::NotEqual,
            Token::Assign,
            Token::Not,
            Token::Arrow,
            Token::MinusAssign,
            Token::Type("-".to_string()),
            Token::DotDot,
            Token::Dot,
            Token::Eof
        ]
    );
    assert_eq!(
        Lexer::new("[\"a\\n\"]").tokenize(),
        vec![Token::LBracket, Token::StringLiteral("a\n".to_string()), Token::RBracket, Token::Eof]
    );
}

#[test]
fn numerals_that_are_no_integer_keep_their_number() {
    let bits = |n: f64| Token::NumberLiteral(n.to_bits());
    assert_eq!(Lexer::new("007 1.50").tokenize(), vec![Token::Number(7), bits(1.5), Token::Eof]);
    assert_eq!(Lexer::new("9223372036854775807").tokenize(), vec![Token::Number(i64::MAX), Token::Eof]);
    assert_eq!(Lexer::new("9223372036854775808").tokenize(), vec![bits(9223372036854775808.0), Token::Eof]);
    assert_eq!(Lexer::new("1.x").tokenize()[..2], [Token::Number(1), Token::Dot]);
}
