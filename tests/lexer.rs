use compiler::error::CompileError;
use compiler::lexer::TokenType::{
    Assign, Asterisk, EBrace, ECurly, Else, EndOfFile, Equal, Exit, ForwardSlash, Greater,
    GreaterEqual, Ident, If, Illegal, IntLiteral, Less, LessEqual, Let, Minus, NewLine, NotEqual,
    Plus, SBrace, SCurly, StartOfFile,
};
use compiler::lexer::{Lexer, Location, TokenType};

#[test]
fn illegal_tokens() {
    let source = String::from(
        r#"
        12dsa2&@$
        "#,
    );
    let expected = [
        StartOfFile,
        NewLine,
        Illegal(String::from("12dsa2")),
        Illegal(String::from("&")),
        Illegal(String::from("@")),
        Illegal(String::from("$")),
        NewLine,
        EndOfFile,
    ];
    let mut lexer = Lexer::new(source);
    let mut i = 0;
    while !lexer.is_eof() {
        let tokentype = &expected[i];
        println!("{:?}, {:?}", lexer.peek().tokentype, tokentype);
        assert_eq!(lexer.peek().tokentype, *tokentype);
        i += 1;
        let _ = lexer.consume();
    }
}

#[test]
fn legal_tokens() {
    let source = String::from(
        r#"
a 
b  a1352 _ _ab

325252 1234

let exit if else 

= + - * /
== != < <= > >=

{ } {}
( ) ()

        "#,
    );

    let expected_result = [
        StartOfFile,
        NewLine,
        Ident(String::from("a")),
        NewLine,
        Ident(String::from("b")),
        Ident(String::from("a1352")),
        Ident(String::from("_")),
        Ident(String::from("_ab")),
        NewLine,
        NewLine,
        IntLiteral(String::from("325252")),
        IntLiteral(String::from("1234")),
        NewLine,
        NewLine,
        Let,
        Exit,
        If,
        Else,
        NewLine,
        NewLine,
        Assign,
        Plus,
        Minus,
        Asterisk,
        ForwardSlash,
        NewLine,
        Equal,
        NotEqual,
        Less,
        LessEqual,
        Greater,
        GreaterEqual,
        NewLine,
        NewLine,
        SCurly,
        ECurly,
        SCurly,
        ECurly,
        NewLine,
        SBrace,
        EBrace,
        SBrace,
        EBrace,
        NewLine,
        NewLine,
        EndOfFile,
    ];
    let mut lexer = Lexer::new(source);
    let mut i = 0;
    while !lexer.is_eof() {
        let tokentype = &expected_result[i];
        println!("{:?}, {:?}", tokentype, lexer.peek().tokentype);
        assert_eq!(lexer.peek().tokentype, *tokentype);
        lexer.consume().unwrap();
        i += 1;
    }
}

#[test]
fn token_locations_track_rows_and_columns() {
    let mut lexer = Lexer::new(String::from("let ab\n  x"));
    lexer.consume().unwrap();
    let t = lexer.peek();
    assert_eq!(t.tokentype, TokenType::Let);
    assert_eq!(t.start, Location { row: 1, col: 1 });
    lexer.consume().unwrap();
    let t = lexer.peek();
    assert_eq!(t.tokentype, TokenType::Ident(String::from("ab")));
    assert_eq!(t.start, Location { row: 1, col: 5 });
    lexer.consume().unwrap();
    assert_eq!(lexer.peek().tokentype, TokenType::NewLine);
    lexer.consume().unwrap();
    let t = lexer.peek();
    assert_eq!(t.tokentype, TokenType::Ident(String::from("x")));
    assert_eq!(t.start.row, 2);
}

#[test]
fn rewind_steps_back_one_token_and_replays_it() {
    let mut lexer = Lexer::new(String::from("a b"));
    lexer.consume().unwrap();
    lexer.consume().unwrap();
    assert_eq!(lexer.peek().tokentype, TokenType::Ident(String::from("b")));
    lexer.rewind();
    assert_eq!(lexer.peek().tokentype, TokenType::Ident(String::from("a")));
    lexer.consume().unwrap();
    assert_eq!(lexer.peek().tokentype, TokenType::Ident(String::from("b")));
    lexer.consume().unwrap();
    assert_eq!(lexer.peek().tokentype, TokenType::EndOfFile);
}

#[test]
fn rewind_on_first_token_stays() {
    let mut lexer = Lexer::new(String::from("a"));
    lexer.rewind();
    assert_eq!(lexer.peek().tokentype, TokenType::StartOfFile);
}

#[test]
fn newlines_pass_as_white_space_when_turned_off() {
    let mut lexer = Lexer::new(String::from("a\n\n b"));
    lexer.set_emit_newline(false);
    lexer.consume().unwrap();
    assert_eq!(lexer.peek().tokentype, TokenType::Ident(String::from("a")));
    lexer.consume().unwrap();
    assert_eq!(lexer.peek().tokentype, TokenType::Ident(String::from("b")));
}

#[test]
fn illegal_token_is_reported_with_its_text() {
    let mut lexer = Lexer::new(String::from("!x"));
    match lexer.consume() {
        Err(CompileError::IllegalToken(t)) => {
            assert_eq!(t.tokentype, TokenType::Illegal(String::from("!")))
        }
        other => panic!("unexpected: {:?}", other),
    }
}

#[test]
fn unicode_white_space_is_skipped() {
    let mut lexer = Lexer::new(String::from("\u{3000}\u{a0}x\té"));
    lexer.consume().unwrap();
    assert_eq!(lexer.peek().tokentype, TokenType::Ident(String::from("x")));
    assert!(lexer.consume().is_err());
    assert_eq!(lexer.peek().tokentype, TokenType::Illegal(String::from("é")));
}
