//! Emission of GNU/AT&T-syntax assembly text for Linux x86-64: each
//! abstract instruction is rendered on its own tab-indented line, inside a
//! fixed prologue/epilogue frame, with the GNU-stack note at the end.

use vstd::prelude::*;
use vstd::string::StringExecFns;

use crate::ast_nodes::asm_nodes::{
    AsmFunctionDefinition, AsmIdentifier, AsmInstruction, AsmInstructionView, AsmOperand,
    AsmOperandView, AsmProgram, AsmProgramView, AsmReg, AsmUnaryOperator,
};
use crate::codegen::{body_has_no_pseudo, instruction_has_pseudo};
use crate::numerals::{dec_str, u64_to_string};

verus! {

/// The text of an operand: `$n` for an immediate, the 32-bit register
/// names, and `-k(%rbp)` for the stack slot at offset `k = (i + 1) * 4`.
/// A pseudo operand has no text; the emitter refuses it.
pub open spec fn render_operand(op: AsmOperandView) -> Seq<char> {
    match op {
        AsmOperandView::Imm(n) => "$"@ + dec_str(n as int),
        AsmOperandView::Register(AsmReg::AX) => "%eax"@,
        AsmOperandView::Register(AsmReg::R10) => "%r10d"@,
        AsmOperandView::Stack(i) => "-"@ + dec_str((i as int + 1) * 4) + "(%rbp)"@,
        AsmOperandView::Pseudo(_) => Seq::<char>::empty(),
    }
}

/// The text of one instruction, tab-indented, ending in a newline. `Ret`
/// renders as the epilogue followed by `ret`; `AllocateStack n` reserves
/// `n * 4` bytes, and reserving nothing needs no instruction at all.
pub open spec fn render_instruction(i: AsmInstructionView) -> Seq<char> {
    match i {
        AsmInstructionView::Mov(src, dst) => "\tmovl\t"@ + render_operand(src) + ", "@
            + render_operand(dst) + "\n"@,
        AsmInstructionView::Unary(AsmUnaryOperator::Neg, dst) => "\tnegl\t"@
            + render_operand(dst) + "\n"@,
        AsmInstructionView::Unary(AsmUnaryOperator::Not, dst) => "\tnotl\t"@
            + render_operand(dst) + "\n"@,
        AsmInstructionView::AllocateStack(n) => if n == 0 {
            Seq::<char>::empty()
        } else {
            "\tsubq\t$"@ + dec_str(n as int * 4) + ", %rsp\n"@
        },
        AsmInstructionView::Ret => "\tmovq\t%rbp, %rsp\n\tpopq\t%rbp\n\tret\n"@,
    }
}

/// The text of an instruction list, in order.
pub open spec fn render_body(body: Seq<AsmInstructionView>) -> Seq<char>
    decreases body.len(),
{
    if body.len() == 0 {
        Seq::<char>::empty()
    } else {
        render_body(body.drop_last()) + render_instruction(body.last())
    }
}

/// The text of a function: the `.globl` directive, the label, the prologue,
/// then the body.
pub open spec fn render_function(p: AsmProgramView) -> Seq<char> {
    "\t.globl "@ + p.name + "\n"@ + p.name + ":\n\tpushq\t%rbp\n\tmovq\t%rsp, %rbp\n"@
        + render_body(p.body)
}

/// The text of a whole program: the function followed by the GNU-stack
/// note that keeps the stack non-executable.
pub open spec fn render_program(p: AsmProgramView) -> Seq<char> {
    render_function(p) + "\n\t.section .note.GNU-stack,\"\",@progbits"@
}

fn emit_asm_operand(operand: &AsmOperand) -> (r: String)
    requires
        !(operand@ is Pseudo),
    ensures
        r@ == render_operand(operand@),
{
    match operand {
        AsmOperand::Register(AsmReg::AX) => String::from_str("%eax"),
        AsmOperand::Register(AsmReg::R10) => String::from_str("%r10d"),
        AsmOperand::Stack(integer) => {
            let mut text = String::from_str("-");
            let offset = u64_to_string(((*integer as u64) + 1) * 4);
            text.append(offset.as_str());
            text.append("(%rbp)");
            proof {
                assert(text@ =~= render_operand(operand@));
            }
            text
        },
        AsmOperand::Imm(integer) => {
            let mut text = String::from_str("$");
            let value = u64_to_string(*integer as u64);
            text.append(value.as_str());
            proof {
                assert(text@ =~= render_operand(operand@));
            }
            text
        },
        AsmOperand::Pseudo(_) => {
            proof {
                assert(false);
            }
            String::new()
        },
    }
}

fn emit_asm_instructions(instructions: &Vec<AsmInstruction>) -> (r: String)
    requires
        body_has_no_pseudo(instructions@.map_values(|i: AsmInstruction| i@)),
    ensures
        r@ == render_body(instructions@.map_values(|i: AsmInstruction| i@)),
{
    let ghost body = instructions@.map_values(|i: AsmInstruction| i@);
    let mut text = String::new();
    let mut k: usize = 0;
    proof {
        assert(text@ =~= render_body(body.take(0)));
    }
    while k < instructions.len()
        invariant
            body == instructions@.map_values(|i: AsmInstruction| i@),
            body_has_no_pseudo(body),
            0 <= k <= instructions.len(),
            text@ == render_body(body.take(k as int)),
        decreases instructions.len() - k,
    {
        let ghost before = text@;
        proof {
            assert(!instruction_has_pseudo(body[k as int]));
        }
        match &instructions[k] {
            AsmInstruction::Mov(src, dst) => {
                text.append("\tmovl\t");
                let src_text = emit_asm_operand(src);
                text.append(src_text.as_str());
                text.append(", ");
                let dst_text = emit_asm_operand(dst);
                text.append(dst_text.as_str());
                text.append("\n");
            },
            AsmInstruction::Ret => {
                text.append("\tmovq\t%rbp, %rsp\n\tpopq\t%rbp\n\tret\n");
            },
            AsmInstruction::Unary(operator, operand) => {
                match operator {
                    AsmUnaryOperator::Neg => text.append("\tnegl\t"),
                    AsmUnaryOperator::Not => text.append("\tnotl\t"),
                }
                let operand_text = emit_asm_operand(operand);
                text.append(operand_text.as_str());
                text.append("\n");
            },
            AsmInstruction::AllocateStack(integer) => {
                if *integer > 0 {
                    text.append("\tsubq\t$");
                    let amount = u64_to_string((*integer as u64) * 4);
                    text.append(amount.as_str());
                    text.append(", %rsp\n");
                }
            },
        }
        proof {
            assert(text@ =~= before + render_instruction(body[k as int]));
            assert(body.take(k + 1).drop_last() =~= body.take(k as int));
            assert(body.take(k + 1).last() == body[k as int]);
        }
        k = k + 1;
    }
    proof {
        assert(body.take(instructions@.len() as int) =~= body);
    }
    text
}

fn emit_asm_function_definition(function_definition: AsmFunctionDefinition) -> (r: String)
    requires
        body_has_no_pseudo(function_definition@.body),
    ensures
        r@ == render_function(function_definition@),
{
    let AsmFunctionDefinition::Function(AsmIdentifier::Identifier(name), instructions) =
        function_definition;
    let mut asm_code = String::from_str("\t.globl ");
    asm_code.append(name.as_str());
    asm_code.append("\n");
    asm_code.append(name.as_str());
    asm_code.append(":\n\tpushq\t%rbp\n\tmovq\t%rsp, %rbp\n");
    let body_text = emit_asm_instructions(&instructions);
    asm_code.append(body_text.as_str());
    proof {
        assert(asm_code@ =~= render_function(
            AsmFunctionDefinition::Function(
                AsmIdentifier::Identifier(name),
                instructions,
            )@,
        ));
    }
    asm_code
}

/// Renders an abstract assembly program as GNU/AT&T text. The input may
/// hold no pseudo operands; the result is exactly the specification-level
/// rendering of the input's model.
pub fn emit_asm_program(asm_program: AsmProgram) -> (r: String)
    requires
        body_has_no_pseudo(asm_program@.body),
    ensures
        r@ == render_program(asm_program@),
{
    let ghost program_view = asm_program@;
    let AsmProgram::Program(function_definition) = asm_program;
    let mut asm_code = emit_asm_function_definition(function_definition);
    asm_code.append("\n\t.section .note.GNU-stack,\"\",@progbits");
    proof {
        assert(asm_code@ =~= render_program(program_view));
    }
    asm_code
}

} // verus!
