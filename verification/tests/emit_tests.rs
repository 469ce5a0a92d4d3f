use wacc::ast_nodes::asm_nodes::{
    AsmFunctionDefinition, AsmIdentifier, AsmInstruction, AsmOperand, AsmProgram, AsmReg,
    AsmUnaryOperator,
};
use wacc::compiler_driver::compile_source;
use wacc::emit::emit_asm_program;

fn asm_program(instructions: Vec<AsmInstruction>) -> AsmProgram {
    AsmProgram::Program(AsmFunctionDefinition::Function(
        AsmIdentifier::Identifier(String::from("main")),
        instructions,
    ))
}

#[test]
fn emits_minimal_return_program() {
    let text = emit_asm_program(asm_program(vec![
        AsmInstruction::Mov(AsmOperand::Imm(2), AsmOperand::Register(AsmReg::AX)),
        AsmInstruction::Ret,
    ]));
    let expected = "\t.globl main\n\
                    main:\n\
                    \tpushq\t%rbp\n\
                    \tmovq\t%rsp, %rbp\n\
                    \tmovl\t$2, %eax\n\
                    \tmovq\t%rbp, %rsp\n\
                    \tpopq\t%rbp\n\
                    \tret\n\
                    \n\
                    \t.section .note.GNU-stack,\"\",@progbits";
    assert_eq!(text, expected);
}

#[test]
fn emits_complement_scenario_body() {
    let text = emit_asm_program(asm_program(vec![
        AsmInstruction::AllocateStack(1),
        AsmInstruction::Mov(AsmOperand::Imm(3), AsmOperand::Stack(0)),
        AsmInstruction::Unary(AsmUnaryOperator::Not, AsmOperand::Stack(0)),
        AsmInstruction::Mov(AsmOperand::Stack(0), AsmOperand::Register(AsmReg::AX)),
        AsmInstruction::Ret,
    ]));
    let expected_body = "\tsubq\t$4, %rsp\n\
                         \tmovl\t$3, -4(%rbp)\n\
                         \tnotl\t-4(%rbp)\n\
                         \tmovl\t-4(%rbp), %eax\n\
                         \tmovq\t%rbp, %rsp\n\
                         \tpopq\t%rbp\n\
                         \tret\n";
    assert!(text.contains(expected_body));
}

#[test]
fn emits_negate_and_r10() {
    let text = emit_asm_program(asm_program(vec![
        AsmInstruction::AllocateStack(2),
        AsmInstruction::Mov(AsmOperand::Stack(0), AsmOperand::Register(AsmReg::R10)),
        AsmInstruction::Mov(AsmOperand::Register(AsmReg::R10), AsmOperand::Stack(1)),
        AsmInstruction::Unary(AsmUnaryOperator::Neg, AsmOperand::Stack(1)),
        AsmInstruction::Ret,
    ]));
    assert!(text.contains("\tsubq\t$8, %rsp\n"));
    assert!(text.contains("\tmovl\t-4(%rbp), %r10d\n"));
    assert!(text.contains("\tmovl\t%r10d, -8(%rbp)\n"));
    assert!(text.contains("\tnegl\t-8(%rbp)\n"));
}

#[test]
fn compile_minimal_return_end_to_end() {
    let text = compile_source("int main(void) { return 2; }").unwrap();
    let expected = "\t.globl main\n\
                    main:\n\
                    \tpushq\t%rbp\n\
                    \tmovq\t%rsp, %rbp\n\
                    \tmovl\t$2, %eax\n\
                    \tmovq\t%rbp, %rsp\n\
                    \tpopq\t%rbp\n\
                    \tret\n\
                    \n\
                    \t.section .note.GNU-stack,\"\",@progbits";
    assert_eq!(text, expected);
}

#[test]
fn compile_complement_end_to_end() {
    let text = compile_source("int main(void) { return ~3; }").unwrap();
    let expected = "\t.globl main\n\
                    main:\n\
                    \tpushq\t%rbp\n\
                    \tmovq\t%rsp, %rbp\n\
                    \tsubq\t$4, %rsp\n\
                    \tmovl\t$3, -4(%rbp)\n\
                    \tnotl\t-4(%rbp)\n\
                    \tmovl\t-4(%rbp), %eax\n\
                    \tmovq\t%rbp, %rsp\n\
                    \tpopq\t%rbp\n\
                    \tret\n\
                    \n\
                    \t.section .note.GNU-stack,\"\",@progbits";
    assert_eq!(text, expected);
}

#[test]
fn compile_nested_unary_uses_two_slots() {
    let text = compile_source("int main(void) { return -(~5); }").unwrap();
    assert!(text.contains("\tsubq\t$8, %rsp\n"));
    assert!(text.contains("-4(%rbp)"));
    assert!(text.contains("-8(%rbp)"));
}

#[test]
fn compile_invalid_token_fails() {
    let result = compile_source("int main(void) { return 1foo; }");
    assert!(result.is_err());
    assert!(result.unwrap_err().contains("Invalid token"));
}

#[test]
fn compile_extra_tokens_fails() {
    let result = compile_source("int main(void) { return 1; } extra");
    assert!(result.is_err());
}
