use wacc::ast_nodes::c_nodes::{
    CExpression, CFunctionDefinition, CIdentifier, CProgram, CStatement, CUnaryOperator,
};
use wacc::ast_nodes::tacky_nodes::{
    TackyFunctionDefinition, TackyIdentifier, TackyInstruction, TackyOperand, TackyProgram,
    TackyUnaryOperator,
};
use wacc::tackygen::gen_tacky_program;

fn program_returning(expression: CExpression) -> CProgram {
    CProgram::Program(CFunctionDefinition::Function(
        CIdentifier::Identifier(String::from("main")),
        CStatement::Return(expression),
    ))
}

fn body_of(program: TackyProgram) -> (String, Vec<TackyInstruction>) {
    let TackyProgram::Program(TackyFunctionDefinition::Function(
        TackyIdentifier::Identifier(name),
        instructions,
    )) = program;
    (name, instructions)
}

fn var(name: &str) -> TackyOperand {
    TackyOperand::Variable(TackyIdentifier::Identifier(String::from(name)))
}

#[test]
fn constant_return_lowers_to_single_return() {
    let tacky = gen_tacky_program(program_returning(CExpression::Constant(2)));
    let (name, instructions) = body_of(tacky);
    assert_eq!(name, "main");
    assert_eq!(instructions, vec![TackyInstruction::Return(TackyOperand::Constant(2))]);
}

#[test]
fn complement_lowers_to_one_temporary() {
    let tacky = gen_tacky_program(program_returning(CExpression::UnaryOperation(
        CUnaryOperator::Complement,
        Box::new(CExpression::Constant(3)),
    )));
    let (_, instructions) = body_of(tacky);
    assert_eq!(
        instructions,
        vec![
            TackyInstruction::Unary(
                TackyUnaryOperator::Complement,
                TackyOperand::Constant(3),
                var("tmp0"),
            ),
            TackyInstruction::Return(var("tmp0")),
        ]
    );
}

#[test]
fn nested_unary_lowers_to_two_temporaries() {
    let tacky = gen_tacky_program(program_returning(CExpression::UnaryOperation(
        CUnaryOperator::Negate,
        Box::new(CExpression::UnaryOperation(
            CUnaryOperator::Complement,
            Box::new(CExpression::Constant(5)),
        )),
    )));
    let (_, instructions) = body_of(tacky);
    assert_eq!(
        instructions,
        vec![
            TackyInstruction::Unary(
                TackyUnaryOperator::Complement,
                TackyOperand::Constant(5),
                var("tmp0"),
            ),
            TackyInstruction::Unary(TackyUnaryOperator::Negate, var("tmp0"), var("tmp1")),
            TackyInstruction::Return(var("tmp1")),
        ]
    );
}

#[test]
fn lowered_body_is_nonempty_and_ends_in_return() {
    let sources = [
        CExpression::Constant(0),
        CExpression::UnaryOperation(
            CUnaryOperator::Negate,
            Box::new(CExpression::Constant(7)),
        ),
    ];
    for expression in sources {
        let tacky = gen_tacky_program(program_returning(expression));
        let (_, instructions) = body_of(tacky);
        assert!(!instructions.is_empty());
        assert!(matches!(instructions.last().unwrap(), TackyInstruction::Return(_)));
    }
}
