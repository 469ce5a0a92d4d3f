use wacc::ast_nodes::c_nodes::{
    CExpression, CFunctionDefinition, CIdentifier, CProgram, CStatement, CUnaryOperator,
};
use wacc::lexer::Lexer;
use wacc::parser::Parser;

fn parse_source(source: &str) -> Result<CProgram, String> {
    let mut lexer = Lexer::default();
    lexer.set_src(String::from(source));
    Parser::from(lexer.tokens()).parse()
}

fn program_returning(expression: CExpression) -> CProgram {
    CProgram::Program(CFunctionDefinition::Function(
        CIdentifier::Identifier(String::from("main")),
        CStatement::Return(expression),
    ))
}

#[test]
fn parses_minimal_program() {
    let program = parse_source("int main(void) { return 2; }").unwrap();
    assert_eq!(program, program_returning(CExpression::Constant(2)));
}

#[test]
fn parses_complement() {
    let program = parse_source("int main(void) { return ~3; }").unwrap();
    assert_eq!(
        program,
        program_returning(CExpression::UnaryOperation(
            CUnaryOperator::Complement,
            Box::new(CExpression::Constant(3)),
        ))
    );
}

#[test]
fn spaced_minuses_parse_as_double_negate() {
    let program = parse_source("int main(void) { return - - 5; }").unwrap();
    assert_eq!(
        program,
        program_returning(CExpression::UnaryOperation(
            CUnaryOperator::Negate,
            Box::new(CExpression::UnaryOperation(
                CUnaryOperator::Negate,
                Box::new(CExpression::Constant(5)),
            )),
        ))
    );
}

#[test]
fn double_minus_token_fails_to_parse() {
    let result = parse_source("int main(void) { return --5; }");
    assert!(result.is_err());
    assert!(result.unwrap_err().contains("Malformed expression"));
}

#[test]
fn parses_parenthesized_and_nested_unary() {
    let program = parse_source("int main(void) { return -(~5); }").unwrap();
    assert_eq!(
        program,
        program_returning(CExpression::UnaryOperation(
            CUnaryOperator::Negate,
            Box::new(CExpression::UnaryOperation(
                CUnaryOperator::Complement,
                Box::new(CExpression::Constant(5)),
            )),
        ))
    );
}

#[test]
fn extra_tokens_after_function_fail() {
    let result = parse_source("int main(void) { return 1; } extra");
    assert!(result.is_err());
    assert!(result.unwrap_err().contains("Expect no tokens after function"));
}

#[test]
fn missing_semicolon_fails() {
    let result = parse_source("int main(void) { return 1 }");
    assert!(result.is_err());
}

#[test]
fn empty_source_fails_with_no_tokens_left() {
    let result = parse_source("");
    assert!(result.is_err());
    assert!(result.unwrap_err().contains("no tokens left"));
}

#[test]
fn lexer_error_surfaces_through_parse() {
    let result = parse_source("int main(void) { return 1foo; }");
    assert!(result.is_err());
    assert!(result.unwrap_err().contains("Invalid token"));
}

#[test]
fn unclosed_parenthesis_fails() {
    let result = parse_source("int main(void) { return (1; }");
    assert!(result.is_err());
}

#[test]
fn wrong_keyword_order_fails() {
    let result = parse_source("void main(int) { return 1; }");
    assert!(result.is_err());
}
