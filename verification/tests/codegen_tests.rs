use wacc::ast_nodes::asm_nodes::{
    AsmFunctionDefinition, AsmIdentifier, AsmInstruction, AsmOperand, AsmProgram, AsmReg,
    AsmUnaryOperator,
};
use wacc::ast_nodes::tacky_nodes::{
    TackyFunctionDefinition, TackyIdentifier, TackyInstruction, TackyOperand, TackyProgram,
    TackyUnaryOperator,
};
use wacc::codegen::{
    assign_pseudo_registers_to_stack, fix_invalid_mov_instructions, gen_asm_program,
};

fn tacky_program(instructions: Vec<TackyInstruction>) -> TackyProgram {
    TackyProgram::Program(TackyFunctionDefinition::Function(
        TackyIdentifier::Identifier(String::from("main")),
        instructions,
    ))
}

fn tacky_var(name: &str) -> TackyOperand {
    TackyOperand::Variable(TackyIdentifier::Identifier(String::from(name)))
}

fn asm_body(program: &AsmProgram) -> &Vec<AsmInstruction> {
    let AsmProgram::Program(AsmFunctionDefinition::Function(_, instructions)) = program;
    instructions
}

fn operand_is_pseudo(operand: &AsmOperand) -> bool {
    matches!(operand, AsmOperand::Pseudo(_))
}

#[test]
fn constant_return_generates_mov_and_ret() {
    let generated = gen_asm_program(tacky_program(vec![TackyInstruction::Return(
        TackyOperand::Constant(2),
    )]));
    assert_eq!(
        *asm_body(&generated),
        vec![
            AsmInstruction::AllocateStack(0),
            AsmInstruction::Mov(AsmOperand::Imm(2), AsmOperand::Register(AsmReg::AX)),
            AsmInstruction::Ret,
        ]
    );
}

#[test]
fn complement_generates_scenario_body() {
    let generated = gen_asm_program(tacky_program(vec![
        TackyInstruction::Unary(
            TackyUnaryOperator::Complement,
            TackyOperand::Constant(3),
            tacky_var("tmp0"),
        ),
        TackyInstruction::Return(tacky_var("tmp0")),
    ]));
    assert_eq!(
        *asm_body(&generated),
        vec![
            AsmInstruction::AllocateStack(1),
            AsmInstruction::Mov(AsmOperand::Imm(3), AsmOperand::Stack(0)),
            AsmInstruction::Unary(AsmUnaryOperator::Not, AsmOperand::Stack(0)),
            AsmInstruction::Mov(AsmOperand::Stack(0), AsmOperand::Register(AsmReg::AX)),
            AsmInstruction::Ret,
        ]
    );
}

#[test]
fn nested_unary_allocates_two_slots_and_legalizes_stack_mov() {
    let generated = gen_asm_program(tacky_program(vec![
        TackyInstruction::Unary(
            TackyUnaryOperator::Complement,
            TackyOperand::Constant(5),
            tacky_var("tmp0"),
        ),
        TackyInstruction::Unary(TackyUnaryOperator::Negate, tacky_var("tmp0"), tacky_var("tmp1")),
        TackyInstruction::Return(tacky_var("tmp1")),
    ]));
    assert_eq!(
        *asm_body(&generated),
        vec![
            AsmInstruction::AllocateStack(2),
            AsmInstruction::Mov(AsmOperand::Imm(5), AsmOperand::Stack(0)),
            AsmInstruction::Unary(AsmUnaryOperator::Not, AsmOperand::Stack(0)),
            AsmInstruction::Mov(AsmOperand::Stack(0), AsmOperand::Register(AsmReg::R10)),
            AsmInstruction::Mov(AsmOperand::Register(AsmReg::R10), AsmOperand::Stack(1)),
            AsmInstruction::Unary(AsmUnaryOperator::Neg, AsmOperand::Stack(1)),
            AsmInstruction::Mov(AsmOperand::Stack(1), AsmOperand::Register(AsmReg::AX)),
            AsmInstruction::Ret,
        ]
    );
}

#[test]
fn generated_assembly_has_no_pseudo_and_no_memory_to_memory_mov() {
    let generated = gen_asm_program(tacky_program(vec![
        TackyInstruction::Unary(
            TackyUnaryOperator::Negate,
            TackyOperand::Constant(1),
            tacky_var("a"),
        ),
        TackyInstruction::Unary(TackyUnaryOperator::Complement, tacky_var("a"), tacky_var("b")),
        TackyInstruction::Unary(TackyUnaryOperator::Negate, tacky_var("b"), tacky_var("c")),
        TackyInstruction::Return(tacky_var("c")),
    ]));
    for instruction in asm_body(&generated) {
        match instruction {
            AsmInstruction::Mov(src, dst) => {
                assert!(!operand_is_pseudo(src));
                assert!(!operand_is_pseudo(dst));
                assert!(!matches!(
                    (src, dst),
                    (AsmOperand::Stack(_), AsmOperand::Stack(_))
                ));
            }
            AsmInstruction::Unary(_, dst) => assert!(!operand_is_pseudo(dst)),
            _ => {}
        }
    }
}

#[test]
fn head_instruction_counts_distinct_variables() {
    let generated = gen_asm_program(tacky_program(vec![
        TackyInstruction::Unary(
            TackyUnaryOperator::Negate,
            TackyOperand::Constant(1),
            tacky_var("a"),
        ),
        TackyInstruction::Unary(TackyUnaryOperator::Negate, tacky_var("a"), tacky_var("b")),
        TackyInstruction::Unary(TackyUnaryOperator::Negate, tacky_var("b"), tacky_var("a")),
        TackyInstruction::Return(tacky_var("a")),
    ]));
    assert_eq!(asm_body(&generated)[0], AsmInstruction::AllocateStack(2));
}

#[test]
fn legalization_is_idempotent_on_generated_programs() {
    let generated = gen_asm_program(tacky_program(vec![
        TackyInstruction::Unary(
            TackyUnaryOperator::Complement,
            TackyOperand::Constant(5),
            tacky_var("tmp0"),
        ),
        TackyInstruction::Unary(TackyUnaryOperator::Negate, tacky_var("tmp0"), tacky_var("tmp1")),
        TackyInstruction::Return(tacky_var("tmp1")),
    ]));
    let expected = asm_body(&generated).clone();
    let again = fix_invalid_mov_instructions(generated);
    assert_eq!(*asm_body(&again), expected);
}

#[test]
fn legalization_splits_memory_to_memory_mov() {
    let program = AsmProgram::Program(AsmFunctionDefinition::Function(
        AsmIdentifier::Identifier(String::from("main")),
        vec![AsmInstruction::Mov(AsmOperand::Stack(0), AsmOperand::Stack(1))],
    ));
    let fixed = fix_invalid_mov_instructions(program);
    assert_eq!(
        *asm_body(&fixed),
        vec![
            AsmInstruction::Mov(AsmOperand::Stack(0), AsmOperand::Register(AsmReg::R10)),
            AsmInstruction::Mov(AsmOperand::Register(AsmReg::R10), AsmOperand::Stack(1)),
        ]
    );
}

#[test]
fn rewriting_an_already_rewritten_body_changes_no_instruction() {
    let generated = gen_asm_program(tacky_program(vec![
        TackyInstruction::Unary(
            TackyUnaryOperator::Complement,
            TackyOperand::Constant(9),
            tacky_var("tmp0"),
        ),
        TackyInstruction::Return(tacky_var("tmp0")),
    ]));
    let rewritten = asm_body(&generated).clone();
    let again = assign_pseudo_registers_to_stack(generated);
    let body = asm_body(&again);
    assert_eq!(body[0], AsmInstruction::AllocateStack(0));
    assert_eq!(body[1..].to_vec(), rewritten);
}
