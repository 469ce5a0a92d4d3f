//! The parser: recursive descent over the token stream for the grammar
//!
//! ```text
//! program        := "int" identifier "(" "void" ")" "{" statement "}" EOF
//! statement      := "return" expression ";"
//! expression     := constant | "~" expression | "-" expression
//!                 | "(" expression ")"
//! ```
//!
//! The whole stream must be consumed; the first failure stops the parse
//! with a message naming what was expected and what was found.

use vstd::prelude::*;
use vstd::string::StringExecFns;

use crate::ast_nodes::c_nodes::{
    CExpression, CExpressionView, CFunctionDefinition, CIdentifier, CProgram, CProgramView,
    CStatement, CUnaryOperator,
};
use crate::lexer::{lex_spec, lex_step, LexStep, Keyword, Token, TokenView, Tokens};

verus! {

/// The grammar, read over a finished token sequence: one expected token at
/// the head.
pub open spec fn expect_tokens(toks: Seq<TokenView>, expected: TokenView) -> Option<Seq<
    TokenView,
>> {
    if toks.len() > 0 && toks[0] == expected {
        Some(toks.drop_first())
    } else {
        None
    }
}

/// The grammar over tokens: an identifier at the head.
pub open spec fn parse_identifier_tokens(toks: Seq<TokenView>) -> Option<(Seq<char>, Seq<
    TokenView,
>)> {
    if toks.len() > 0 {
        match toks[0] {
            TokenView::Identifier(name) => Some((name, toks.drop_first())),
            _ => None,
        }
    } else {
        None
    }
}

/// The grammar over tokens: an expression at the head.
pub open spec fn parse_expression_tokens(toks: Seq<TokenView>) -> Option<(CExpressionView, Seq<
    TokenView,
>)>
    decreases toks.len(),
{
    if toks.len() == 0 {
        None
    } else {
        match toks[0] {
            TokenView::Constant(n) => Some((CExpressionView::Constant(n), toks.drop_first())),
            TokenView::Complement => match parse_expression_tokens(toks.drop_first()) {
                Some((inner, rest)) => Some(
                    (
                        CExpressionView::UnaryOperation(
                            CUnaryOperator::Complement,
                            Box::new(inner),
                        ),
                        rest,
                    ),
                ),
                None => None,
            },
            TokenView::Negate => match parse_expression_tokens(toks.drop_first()) {
                Some((inner, rest)) => Some(
                    (
                        CExpressionView::UnaryOperation(CUnaryOperator::Negate, Box::new(inner)),
                        rest,
                    ),
                ),
                None => None,
            },
            TokenView::OpenParenthesis => match parse_expression_tokens(toks.drop_first()) {
                Some((inner, rest)) => match expect_tokens(rest, TokenView::CloseParenthesis) {
                    Some(rest2) => Some((inner, rest2)),
                    None => None,
                },
                None => None,
            },
            _ => None,
        }
    }
}

/// The grammar over tokens: the statement `return expression ;`.
pub open spec fn parse_statement_tokens(toks: Seq<TokenView>) -> Option<(CExpressionView, Seq<
    TokenView,
>)> {
    match expect_tokens(toks, TokenView::Keyword(Keyword::CReturn)) {
        Some(t1) => match parse_expression_tokens(t1) {
            Some((e, t2)) => match expect_tokens(t2, TokenView::Semicolon) {
                Some(t3) => Some((e, t3)),
                None => None,
            },
            None => None,
        },
        None => None,
    }
}

/// The grammar over tokens: `int identifier ( void ) { statement }`.
pub open spec fn parse_function_definition_tokens(toks: Seq<TokenView>) -> Option<(
    CProgramView,
    Seq<TokenView>,
)> {
    match expect_tokens(toks, TokenView::Keyword(Keyword::CInt)) {
        Some(t1) => match parse_identifier_tokens(t1) {
            Some((name, t2)) => match expect_tokens(t2, TokenView::OpenParenthesis) {
                Some(t3) => match expect_tokens(t3, TokenView::Keyword(Keyword::CVoid)) {
                    Some(t4) => match expect_tokens(t4, TokenView::CloseParenthesis) {
                        Some(t5) => match expect_tokens(t5, TokenView::OpenBrace) {
                            Some(t6) => match parse_statement_tokens(t6) {
                                Some((e, t7)) => match expect_tokens(
                                    t7,
                                    TokenView::CloseBrace,
                                ) {
                                    Some(t8) => Some((CProgramView { name, ret: e }, t8)),
                                    None => None,
                                },
                                None => None,
                            },
                            None => None,
                        },
                        None => None,
                    },
                    None => None,
                },
                None => None,
            },
            None => None,
        },
        None => None,
    }
}

/// The grammar over tokens: one function definition and nothing after it.
pub open spec fn parse_program_tokens(toks: Seq<TokenView>) -> Option<CProgramView> {
    match parse_function_definition_tokens(toks) {
        Some((p, rest)) => if rest.len() == 0 {
            Some(p)
        } else {
            None
        },
        None => None,
    }
}

/// Successful lexing decomposes one step at a time: an empty token
/// sequence means the input is exhausted; otherwise the first token comes
/// off the head and the rest of the input lexes to the rest of the tokens.
proof fn lemma_lex_spec_decompose(s: Seq<char>, toks: Seq<TokenView>)
    requires
        lex_spec(s) == Some(toks),
    ensures
        toks.len() == 0 ==> lex_step(s) is Done,
        toks.len() > 0 ==> (lex_step(s) matches LexStep::Tok(tok, rest) && tok == toks[0]
            && lex_spec(rest) == Some(toks.drop_first()) && rest.len() < s.len()),
{
    crate::lexer::lemma_lex_step_shrinks(s);
    match lex_step(s) {
        LexStep::Done => {},
        LexStep::Fail => {},
        LexStep::Tok(tok, rest) => {
            let rest_toks = lex_spec(rest)->0;
            assert(toks == seq![tok] + rest_toks);
            assert(toks[0] == tok);
            assert(toks.drop_first() =~= rest_toks);
        },
    }
}

/// Reading one expected token from the source agrees with reading it from
/// the token sequence the source lexes to.
proof fn lemma_expect_agrees(s: Seq<char>, toks: Seq<TokenView>, expected: TokenView)
    requires
        lex_spec(s) == Some(toks),
    ensures
        match (expect_src(s, expected), expect_tokens(toks, expected)) {
            (Some(rest), Some(rest2)) => lex_spec(rest) == Some(rest2),
            (None, None) => true,
            _ => false,
        },
{
    lemma_lex_spec_decompose(s, toks);
}

/// Reading an identifier from the source agrees with reading it from the
/// token sequence the source lexes to.
proof fn lemma_parse_identifier_agrees(s: Seq<char>, toks: Seq<TokenView>)
    requires
        lex_spec(s) == Some(toks),
    ensures
        match (parse_identifier_src(s), parse_identifier_tokens(toks)) {
            (Some((name, rest)), Some((name2, rest2))) => name == name2 && lex_spec(rest)
                == Some(rest2),
            (None, None) => true,
            _ => false,
        },
{
    lemma_lex_spec_decompose(s, toks);
}

/// Parsing an expression from the source agrees with parsing it from the
/// token sequence the source lexes to.
proof fn lemma_parse_expression_agrees(s: Seq<char>, toks: Seq<TokenView>)
    requires
        lex_spec(s) == Some(toks),
    ensures
        match (parse_expression_src(s), parse_expression_tokens(toks)) {
            (Some((e, rest)), Some((e2, rest2))) => e == e2 && lex_spec(rest) == Some(rest2),
            (None, None) => true,
            _ => false,
        },
    decreases s.len(),
{
    lemma_lex_spec_decompose(s, toks);
    if toks.len() > 0 {
        match lex_step(s) {
            LexStep::Tok(tok, rest0) => {
                let rest_toks = toks.drop_first();
                match tok {
                    TokenView::Complement => {
                        lemma_parse_expression_agrees(rest0, rest_toks);
                    },
                    TokenView::Negate => {
                        lemma_parse_expression_agrees(rest0, rest_toks);
                    },
                    TokenView::OpenParenthesis => {
                        lemma_parse_expression_agrees(rest0, rest_toks);
                        match (parse_expression_src(rest0), parse_expression_tokens(
                            rest_toks,
                        )) {
                            (Some((e, rest)), Some((e2, rest2))) => {
                                lemma_expect_agrees(rest, rest2, TokenView::CloseParenthesis);
                            },
                            _ => {},
                        }
                    },
                    _ => {},
                }
            },
            _ => {},
        }
    }
}

/// Parsing the statement from the source agrees with parsing it from the
/// token sequence the source lexes to.
proof fn lemma_parse_statement_agrees(s: Seq<char>, toks: Seq<TokenView>)
    requires
        lex_spec(s) == Some(toks),
    ensures
        match (parse_statement_src(s), parse_statement_tokens(toks)) {
            (Some((e, rest)), Some((e2, rest2))) => e == e2 && lex_spec(rest) == Some(rest2),
            (None, None) => true,
            _ => false,
        },
{
    lemma_expect_agrees(s, toks, TokenView::Keyword(Keyword::CReturn));
    match (expect_src(s, TokenView::Keyword(Keyword::CReturn)), expect_tokens(
        toks,
        TokenView::Keyword(Keyword::CReturn),
    )) {
        (Some(s1), Some(t1)) => {
            lemma_parse_expression_agrees(s1, t1);
            match (parse_expression_src(s1), parse_expression_tokens(t1)) {
                (Some((e, s2)), Some((e2, t2))) => {
                    lemma_expect_agrees(s2, t2, TokenView::Semicolon);
                },
                _ => {},
            }
        },
        _ => {},
    }
}

/// Parsing the whole program from the source agrees with lexing it first
/// and reading the grammar over the token sequence.
pub proof fn lemma_parse_agrees_with_token_grammar(s: Seq<char>, toks: Seq<TokenView>)
    requires
        lex_spec(s) == Some(toks),
    ensures
        parse_program_src(s) == parse_program_tokens(toks),
{
    lemma_expect_agrees(s, toks, TokenView::Keyword(Keyword::CInt));
    match (expect_src(s, TokenView::Keyword(Keyword::CInt)), expect_tokens(
        toks,
        TokenView::Keyword(Keyword::CInt),
    )) {
        (Some(s1), Some(t1)) => {
            lemma_parse_identifier_agrees(s1, t1);
            match (parse_identifier_src(s1), parse_identifier_tokens(t1)) {
                (Some((name, s2)), Some((_, t2))) => {
                    lemma_expect_agrees(s2, t2, TokenView::OpenParenthesis);
                    match (expect_src(s2, TokenView::OpenParenthesis), expect_tokens(
                        t2,
                        TokenView::OpenParenthesis,
                    )) {
                        (Some(s3), Some(t3)) => {
                            lemma_expect_agrees(s3, t3, TokenView::Keyword(Keyword::CVoid));
                            match (expect_src(s3, TokenView::Keyword(Keyword::CVoid)),
                            expect_tokens(t3, TokenView::Keyword(Keyword::CVoid))) {
                                (Some(s4), Some(t4)) => {
                                    lemma_expect_agrees(s4, t4, TokenView::CloseParenthesis);
                                    match (expect_src(s4, TokenView::CloseParenthesis),
                                    expect_tokens(t4, TokenView::CloseParenthesis)) {
                                        (Some(s5), Some(t5)) => {
                                            lemma_expect_agrees(s5, t5, TokenView::OpenBrace);
                                            match (expect_src(s5, TokenView::OpenBrace),
                                            expect_tokens(t5, TokenView::OpenBrace)) {
                                                (Some(s6), Some(t6)) => {
                                                    lemma_parse_statement_agrees(s6, t6);
                                                    match (parse_statement_src(s6),
                                                    parse_statement_tokens(t6)) {
                                                        (
                                                            Some((_, s7)),
                                                            Some((_, t7)),
                                                        ) => {
                                                            lemma_expect_agrees(
                                                                s7,
                                                                t7,
                                                                TokenView::CloseBrace,
                                                            );
                                                            match (expect_src(
                                                                s7,
                                                                TokenView::CloseBrace,
                                                            ), expect_tokens(
                                                                t7,
                                                                TokenView::CloseBrace,
                                                            )) {
                                                                (
                                                                    Some(s8),
                                                                    Some(t8),
                                                                ) => {
                                                                    lemma_lex_spec_decompose(
                                                                        s8,
                                                                        t8,
                                                                    );
                                                                    if t8.len() > 0 {
                                                                        assert(!(lex_step(s8)
                                                                            is Done));
                                                                    }
                                                                },
                                                                _ => {},
                                                            }
                                                        },
                                                        _ => {},
                                                    }
                                                },
                                                _ => {},
                                            }
                                        },
                                        _ => {},
                                    }
                                },
                                _ => {},
                            }
                        },
                        _ => {},
                    }
                },
                _ => {},
            }
        },
        _ => {},
    }
}

/// Reads one expected token at the head of the source; the remaining
/// source on success.
pub open spec fn expect_src(s: Seq<char>, expected: TokenView) -> Option<Seq<char>> {
    match lex_step(s) {
        LexStep::Tok(tok, rest) => if tok == expected {
            Some(rest)
        } else {
            None
        },
        _ => None,
    }
}

/// Reads an identifier token at the head of the source; its text and the
/// remaining source on success.
pub open spec fn parse_identifier_src(s: Seq<char>) -> Option<(Seq<char>, Seq<char>)> {
    match lex_step(s) {
        LexStep::Tok(tok, rest) => match tok {
            TokenView::Identifier(name) => Some((name, rest)),
            _ => None,
        },
        _ => None,
    }
}

/// Parses one expression at the head of the source: a constant, a unary
/// operator applied to an expression, or a parenthesized expression.
pub open spec fn parse_expression_src(s: Seq<char>) -> Option<(CExpressionView, Seq<char>)>
    decreases s.len(),
{
    match lex_step(s) {
        LexStep::Tok(tok, rest) => {
            if rest.len() < s.len() {
                match tok {
                    TokenView::Constant(n) => Some((CExpressionView::Constant(n), rest)),
                    TokenView::Complement => match parse_expression_src(rest) {
                        Some((inner, rest2)) => Some(
                            (
                                CExpressionView::UnaryOperation(
                                    CUnaryOperator::Complement,
                                    Box::new(inner),
                                ),
                                rest2,
                            ),
                        ),
                        None => None,
                    },
                    TokenView::Negate => match parse_expression_src(rest) {
                        Some((inner, rest2)) => Some(
                            (
                                CExpressionView::UnaryOperation(
                                    CUnaryOperator::Negate,
                                    Box::new(inner),
                                ),
                                rest2,
                            ),
                        ),
                        None => None,
                    },
                    TokenView::OpenParenthesis => match parse_expression_src(rest) {
                        Some((inner, rest2)) => match expect_src(
                            rest2,
                            TokenView::CloseParenthesis,
                        ) {
                            Some(rest3) => Some((inner, rest3)),
                            None => None,
                        },
                        None => None,
                    },
                    _ => None,
                }
            } else {
                None
            }
        },
        _ => None,
    }
}

/// Parses the single statement `return expression ;`.
pub open spec fn parse_statement_src(s: Seq<char>) -> Option<(CExpressionView, Seq<char>)> {
    match expect_src(s, TokenView::Keyword(Keyword::CReturn)) {
        Some(s1) => match parse_expression_src(s1) {
            Some((e, s2)) => match expect_src(s2, TokenView::Semicolon) {
                Some(s3) => Some((e, s3)),
                None => None,
            },
            None => None,
        },
        None => None,
    }
}

/// Parses the function definition
/// `int identifier ( void ) { statement }`.
pub open spec fn parse_function_definition_src(s: Seq<char>) -> Option<(CProgramView, Seq<
    char,
>)> {
    match expect_src(s, TokenView::Keyword(Keyword::CInt)) {
        Some(s1) => match parse_identifier_src(s1) {
            Some((name, s2)) => match expect_src(s2, TokenView::OpenParenthesis) {
                Some(s3) => match expect_src(s3, TokenView::Keyword(Keyword::CVoid)) {
                    Some(s4) => match expect_src(s4, TokenView::CloseParenthesis) {
                        Some(s5) => match expect_src(s5, TokenView::OpenBrace) {
                            Some(s6) => match parse_statement_src(s6) {
                                Some((e, s7)) => match expect_src(s7, TokenView::CloseBrace) {
                                    Some(s8) => Some((CProgramView { name, ret: e }, s8)),
                                    None => None,
                                },
                                None => None,
                            },
                            None => None,
                        },
                        None => None,
                    },
                    None => None,
                },
                None => None,
            },
            None => None,
        },
        None => None,
    }
}

/// Parses a whole program: one function definition with nothing after it.
pub open spec fn parse_program_src(s: Seq<char>) -> Option<CProgramView> {
    match parse_function_definition_src(s) {
        Some((p, rest)) => if lex_step(rest) is Done {
            Some(p)
        } else {
            None
        },
        None => None,
    }
}

/// A failed lexing stays failed after any one successful step.
proof fn lemma_lex_failure_step(s: Seq<char>)
    requires
        lex_spec(s) is None,
    ensures
        lex_step(s) matches LexStep::Tok(_, rest) ==> lex_spec(rest) is None,
{
    crate::lexer::lemma_lex_step_shrinks(s);
}

/// Where lexing fails, reading an expected token either fails or leaves
/// the failure in the remainder.
proof fn lemma_lex_failure_expect(s: Seq<char>, expected: TokenView)
    requires
        lex_spec(s) is None,
    ensures
        expect_src(s, expected) matches Some(rest) ==> lex_spec(rest) is None,
{
    lemma_lex_failure_step(s);
}

/// Where lexing fails, reading an identifier either fails or leaves the
/// failure in the remainder.
proof fn lemma_lex_failure_identifier(s: Seq<char>)
    requires
        lex_spec(s) is None,
    ensures
        parse_identifier_src(s) matches Some((_, rest)) ==> lex_spec(rest) is None,
{
    lemma_lex_failure_step(s);
}

/// Where lexing fails, parsing an expression either fails or leaves the
/// failure in the remainder.
proof fn lemma_lex_failure_expression(s: Seq<char>)
    requires
        lex_spec(s) is None,
    ensures
        parse_expression_src(s) matches Some((_, rest)) ==> lex_spec(rest) is None,
    decreases s.len(),
{
    lemma_lex_failure_step(s);
    match lex_step(s) {
        LexStep::Tok(tok, rest0) => {
            if rest0.len() < s.len() {
                match tok {
                    TokenView::Complement => {
                        lemma_lex_failure_expression(rest0);
                    },
                    TokenView::Negate => {
                        lemma_lex_failure_expression(rest0);
                    },
                    TokenView::OpenParenthesis => {
                        lemma_lex_failure_expression(rest0);
                        match parse_expression_src(rest0) {
                            Option::Some((_, rest)) => {
                                lemma_lex_failure_expect(rest, TokenView::CloseParenthesis);
                            },
                            Option::None => {},
                        }
                    },
                    _ => {},
                }
            }
        },
        _ => {},
    }
}

/// Where lexing fails, parsing the statement either fails or leaves the
/// failure in the remainder.
proof fn lemma_lex_failure_statement(s: Seq<char>)
    requires
        lex_spec(s) is None,
    ensures
        parse_statement_src(s) matches Some((_, rest)) ==> lex_spec(rest) is None,
{
    lemma_lex_failure_expect(s, TokenView::Keyword(Keyword::CReturn));
    match expect_src(s, TokenView::Keyword(Keyword::CReturn)) {
        Option::Some(s1) => {
            lemma_lex_failure_expression(s1);
            match parse_expression_src(s1) {
                Option::Some((_, s2)) => {
                    lemma_lex_failure_expect(s2, TokenView::Semicolon);
                },
                Option::None => {},
            }
        },
        Option::None => {},
    }
}

/// A source that does not lex does not parse either.
pub proof fn lemma_lex_failure_fails_parse(s: Seq<char>)
    requires
        lex_spec(s) is None,
    ensures
        parse_program_src(s) is None,
{
    lemma_lex_failure_expect(s, TokenView::Keyword(Keyword::CInt));
    match expect_src(s, TokenView::Keyword(Keyword::CInt)) {
        Option::Some(s1) => {
            lemma_lex_failure_identifier(s1);
            match parse_identifier_src(s1) {
                Option::Some((_, s2)) => {
                    lemma_lex_failure_expect(s2, TokenView::OpenParenthesis);
                    match expect_src(s2, TokenView::OpenParenthesis) {
                        Option::Some(s3) => {
                            lemma_lex_failure_expect(s3, TokenView::Keyword(Keyword::CVoid));
                            match expect_src(s3, TokenView::Keyword(Keyword::CVoid)) {
                                Option::Some(s4) => {
                                    lemma_lex_failure_expect(s4, TokenView::CloseParenthesis);
                                    match expect_src(s4, TokenView::CloseParenthesis) {
                                        Option::Some(s5) => {
                                            lemma_lex_failure_expect(s5, TokenView::OpenBrace);
                                            match expect_src(s5, TokenView::OpenBrace) {
                                                Option::Some(s6) => {
                                                    lemma_lex_failure_statement(s6);
                                                    match parse_statement_src(s6) {
                                                        Option::Some((_, s7)) => {
                                                            lemma_lex_failure_expect(
                                                                s7,
                                                                TokenView::CloseBrace,
                                                            );
                                                            match expect_src(
                                                                s7,
                                                                TokenView::CloseBrace,
                                                            ) {
                                                                Option::Some(s8) => {
                                                                    if lex_step(s8)
                                                                        is Done {
                                                                        assert(lex_spec(s8)
                                                                            is Some);
                                                                    }
                                                                },
                                                                Option::None => {},
                                                            }
                                                        },
                                                        Option::None => {},
                                                    }
                                                },
                                                Option::None => {},
                                            }
                                        },
                                        Option::None => {},
                                    }
                                },
                                Option::None => {},
                            }
                        },
                        Option::None => {},
                    }
                },
                Option::None => {},
            }
        },
        Option::None => {},
    }
}

/// Compares two tokens for equality of their models.
fn token_equal(a: &Token, b: &Token) -> (r: bool)
    ensures
        r == (a@ == b@),
{
    match (a, b) {
        (Token::Keyword(x), Token::Keyword(y)) => *x == *y,
        (Token::Identifier(x), Token::Identifier(y)) => *x == *y,
        (Token::Constant(x), Token::Constant(y)) => *x == *y,
        (Token::Semicolon, Token::Semicolon) => true,
        (Token::OpenParenthesis, Token::OpenParenthesis) => true,
        (Token::CloseParenthesis, Token::CloseParenthesis) => true,
        (Token::OpenBrace, Token::OpenBrace) => true,
        (Token::CloseBrace, Token::CloseBrace) => true,
        (Token::Complement, Token::Complement) => true,
        (Token::Negate, Token::Negate) => true,
        (Token::Decrement, Token::Decrement) => true,
        _ => false,
    }
}

/// Builds the message `Expect <what>, found <found>`.
fn expectation_message(what: &str, found: &str) -> (r: String) {
    let mut message = String::from_str("Expect ");
    message.append(what);
    message.append(", found `");
    message.append(found);
    message.append("`");
    message
}

/// Recursive-descent parser over a token stream.
pub struct Parser<'a> {
    tokens: Tokens<'a>,
}

impl<'a> View for Parser<'a> {
    type V = Seq<char>;

    closed spec fn view(&self) -> Seq<char> {
        self.tokens@
    }
}

impl<'a> Parser<'a> {
    /// Wraps a token stream for parsing.
    pub fn from(tokens: Tokens<'a>) -> (r: Parser<'a>)
        ensures
            r@ == tokens@,
    {
        Parser { tokens }
    }

    /// Parses the whole input as a program. Returns the syntax tree exactly
    /// when the source parses by the grammar with nothing left over;
    /// otherwise an error message.
    pub fn parse(&mut self) -> (r: Result<CProgram, String>)
        ensures
            match r {
                Ok(p) => parse_program_src(old(self)@) == Some(p@),
                Err(_) => parse_program_src(old(self)@) is None,
            },
    {
        self.parse_program()
    }

    fn expect_next(&mut self, expected: Token) -> (r: Result<(), String>)
        ensures
            match r {
                Ok(_) => expect_src(old(self)@, expected@) == Some(final(self)@)
                    && final(self)@.len() < old(self)@.len(),
                Err(_) => expect_src(old(self)@, expected@) is None,
            },
    {
        match self.tokens.next() {
            None => {
                let text = expected.to_text();
                let mut message = String::from_str("Expect `");
                message.append(text.as_str());
                message.append("` but no tokens left");
                Err(message)
            },
            Some(Err(e)) => Err(e),
            Some(Ok(next_token)) => {
                if token_equal(&next_token, &expected) {
                    Ok(())
                } else {
                    let expected_text = expected.to_text();
                    let mut what = String::from_str("`");
                    what.append(expected_text.as_str());
                    what.append("`");
                    let found = next_token.to_text();
                    Err(expectation_message(what.as_str(), found.as_str()))
                }
            },
        }
    }

    fn parse_identifier(&mut self) -> (r: Result<CIdentifier, String>)
        ensures
            match r {
                Ok(id) => parse_identifier_src(old(self)@) == Some((id@, final(self)@))
                    && final(self)@.len() < old(self)@.len(),
                Err(_) => parse_identifier_src(old(self)@) is None,
            },
    {
        match self.tokens.next() {
            None => Err(String::from_str("Expect an identifier but no tokens left")),
            Some(Err(e)) => Err(e),
            Some(Ok(next_token)) => match next_token {
                Token::Identifier(identifier) => Ok(CIdentifier::Identifier(identifier)),
                other => {
                    let found = other.to_text();
                    Err(expectation_message("an identifier", found.as_str()))
                },
            },
        }
    }

    fn parse_expression(&mut self) -> (r: Result<CExpression, String>)
        ensures
            match r {
                Ok(e) => parse_expression_src(old(self)@) == Some((e@, final(self)@))
                    && final(self)@.len() < old(self)@.len(),
                Err(_) => parse_expression_src(old(self)@) is None,
            },
        decreases self@.len(),
    {
        match self.tokens.next() {
            None => Err(String::from_str("Expect an expression but no tokens left")),
            Some(Err(e)) => Err(e),
            Some(Ok(next_token)) => match next_token {
                Token::Constant(integer) => Ok(CExpression::Constant(integer)),
                Token::Complement => match self.parse_expression() {
                    Ok(inner) => Ok(
                        CExpression::UnaryOperation(CUnaryOperator::Complement, Box::new(inner)),
                    ),
                    Err(e) => Err(e),
                },
                Token::Negate => match self.parse_expression() {
                    Ok(inner) => Ok(
                        CExpression::UnaryOperation(CUnaryOperator::Negate, Box::new(inner)),
                    ),
                    Err(e) => Err(e),
                },
                Token::OpenParenthesis => match self.parse_expression() {
                    Ok(inner) => match self.expect_next(Token::CloseParenthesis) {
                        Ok(_) => Ok(inner),
                        Err(e) => Err(e),
                    },
                    Err(e) => Err(e),
                },
                other => {
                    let found = other.to_text();
                    let mut message = String::from_str("Malformed expression: `");
                    message.append(found.as_str());
                    message.append("`");
                    Err(message)
                },
            },
        }
    }

    fn parse_statement(&mut self) -> (r: Result<CStatement, String>)
        ensures
            match r {
                Ok(statement) => parse_statement_src(old(self)@) == Some(
                    (statement@, final(self)@),
                ) && final(self)@.len() < old(self)@.len(),
                Err(_) => parse_statement_src(old(self)@) is None,
            },
    {
        match self.expect_next(Token::Keyword(Keyword::CReturn)) {
            Err(e) => Err(e),
            Ok(_) => match self.parse_expression() {
                Err(e) => Err(e),
                Ok(expression) => match self.expect_next(Token::Semicolon) {
                    Err(e) => Err(e),
                    Ok(_) => Ok(CStatement::Return(expression)),
                },
            },
        }
    }

    fn parse_function_definition(&mut self) -> (r: Result<CFunctionDefinition, String>)
        ensures
            match r {
                Ok(f) => parse_function_definition_src(old(self)@) == Some((f@, final(self)@)),
                Err(_) => parse_function_definition_src(old(self)@) is None,
            },
    {
        match self.expect_next(Token::Keyword(Keyword::CInt)) {
            Err(e) => return Err(e),
            Ok(_) => {},
        }
        let name = match self.parse_identifier() {
            Err(e) => return Err(e),
            Ok(name) => name,
        };
        match self.expect_next(Token::OpenParenthesis) {
            Err(e) => return Err(e),
            Ok(_) => {},
        }
        match self.expect_next(Token::Keyword(Keyword::CVoid)) {
            Err(e) => return Err(e),
            Ok(_) => {},
        }
        match self.expect_next(Token::CloseParenthesis) {
            Err(e) => return Err(e),
            Ok(_) => {},
        }
        match self.expect_next(Token::OpenBrace) {
            Err(e) => return Err(e),
            Ok(_) => {},
        }
        let statement = match self.parse_statement() {
            Err(e) => return Err(e),
            Ok(statement) => statement,
        };
        match self.expect_next(Token::CloseBrace) {
            Err(e) => return Err(e),
            Ok(_) => {},
        }
        Ok(CFunctionDefinition::Function(name, statement))
    }

    fn parse_program(&mut self) -> (r: Result<CProgram, String>)
        ensures
            match r {
                Ok(p) => parse_program_src(old(self)@) == Some(p@),
                Err(_) => parse_program_src(old(self)@) is None,
            },
    {
        let function_definition = match self.parse_function_definition() {
            Err(e) => return Err(e),
            Ok(f) => f,
        };
        match self.tokens.next() {
            None => Ok(CProgram::Program(function_definition)),
            Some(_) => Err(String::from_str("Expect no tokens after function")),
        }
    }
}

} // verus!
