use wacc::lexer::{Keyword, Lexer, Token};

fn lex_all(source: &str) -> Result<Vec<Token>, String> {
    let mut lexer = Lexer::default();
    lexer.set_src(String::from(source));
    let mut tokens = lexer.tokens();
    let mut out = Vec::new();
    loop {
        match tokens.next() {
            None => return Ok(out),
            Some(Ok(token)) => out.push(token),
            Some(Err(e)) => return Err(e),
        }
    }
}

#[test]
fn whitespace_only_lexes_to_empty_sequence() {
    let tokens = lex_all(" \t\r\n  \x0C ").unwrap();
    assert_eq!(tokens.len(), 0);
}

#[test]
fn empty_source_lexes_to_empty_sequence() {
    let tokens = lex_all("").unwrap();
    assert_eq!(tokens.len(), 0);
}

#[test]
fn trailing_integer_without_terminator() {
    let tokens = lex_all("123").unwrap();
    assert_eq!(tokens, vec![Token::Constant(123)]);
}

#[test]
fn integer_followed_by_letters_is_an_error() {
    let result = lex_all("123abc");
    assert!(result.is_err());
    assert!(result.unwrap_err().contains("Invalid token"));
}

#[test]
fn double_minus_is_a_single_token() {
    let tokens = lex_all("--5").unwrap();
    assert_eq!(tokens, vec![Token::Decrement, Token::Constant(5)]);
}

#[test]
fn spaced_minuses_are_two_tokens() {
    let tokens = lex_all("- - 5").unwrap();
    assert_eq!(tokens, vec![Token::Negate, Token::Negate, Token::Constant(5)]);
}

#[test]
fn three_minuses_split_as_double_then_single() {
    let tokens = lex_all("---").unwrap();
    assert_eq!(tokens, vec![Token::Decrement, Token::Negate]);
}

#[test]
fn keywords_and_identifiers() {
    let tokens = lex_all("int void return main _x a1b2").unwrap();
    assert_eq!(
        tokens,
        vec![
            Token::Keyword(Keyword::CInt),
            Token::Keyword(Keyword::CVoid),
            Token::Keyword(Keyword::CReturn),
            Token::Identifier(String::from("main")),
            Token::Identifier(String::from("_x")),
            Token::Identifier(String::from("a1b2")),
        ]
    );
}

#[test]
fn punctuation_tokens() {
    let tokens = lex_all("(){};~-").unwrap();
    assert_eq!(
        tokens,
        vec![
            Token::OpenParenthesis,
            Token::CloseParenthesis,
            Token::OpenBrace,
            Token::CloseBrace,
            Token::Semicolon,
            Token::Complement,
            Token::Negate,
        ]
    );
}

#[test]
fn full_program_token_sequence() {
    let tokens = lex_all("int main(void) { return 2; }").unwrap();
    assert_eq!(
        tokens,
        vec![
            Token::Keyword(Keyword::CInt),
            Token::Identifier(String::from("main")),
            Token::OpenParenthesis,
            Token::Keyword(Keyword::CVoid),
            Token::CloseParenthesis,
            Token::OpenBrace,
            Token::Keyword(Keyword::CReturn),
            Token::Constant(2),
            Token::Semicolon,
            Token::CloseBrace,
        ]
    );
}

#[test]
fn invalid_character_is_an_error() {
    let result = lex_all("int $x;");
    assert!(result.is_err());
    assert!(result.unwrap_err().contains("Invalid token"));
}

#[test]
fn constant_at_32_bit_limit_lexes() {
    let tokens = lex_all("4294967295").unwrap();
    assert_eq!(tokens, vec![Token::Constant(4294967295)]);
}

#[test]
fn constant_overflowing_32_bits_is_an_error() {
    let result = lex_all("4294967296");
    assert!(result.is_err());
}

#[test]
fn leading_zeros_read_as_decimal() {
    let tokens = lex_all("007").unwrap();
    assert_eq!(tokens, vec![Token::Constant(7)]);
}

#[test]
fn rendered_tokens_relex_to_the_same_sequence() {
    let sources = [
        "int main(void) { return ~(-42); }",
        "  007 abc _9 -- - ~ { } ( ) ;",
        "return--5;",
    ];
    for source in sources {
        let tokens = lex_all(source).unwrap();
        let mut rendered = String::new();
        for (i, token) in tokens.iter().enumerate() {
            if i > 0 {
                rendered.push(' ');
            }
            rendered.push_str(token.to_text().as_str());
        }
        let again = lex_all(rendered.as_str()).unwrap();
        assert_eq!(tokens, again);
    }
}

#[test]
fn token_to_text_forms() {
    assert_eq!(Token::Keyword(Keyword::CInt).to_text(), "int");
    assert_eq!(Token::Keyword(Keyword::CVoid).to_text(), "void");
    assert_eq!(Token::Keyword(Keyword::CReturn).to_text(), "return");
    assert_eq!(Token::Identifier(String::from("main")).to_text(), "main");
    assert_eq!(Token::Constant(250).to_text(), "250");
    assert_eq!(Token::Constant(0).to_text(), "0");
    assert_eq!(Token::Semicolon.to_text(), ";");
    assert_eq!(Token::OpenParenthesis.to_text(), "(");
    assert_eq!(Token::CloseParenthesis.to_text(), ")");
    assert_eq!(Token::OpenBrace.to_text(), "{");
    assert_eq!(Token::CloseBrace.to_text(), "}");
    assert_eq!(Token::Complement.to_text(), "~");
    assert_eq!(Token::Negate.to_text(), "-");
    assert_eq!(Token::Decrement.to_text(), "--");
}
