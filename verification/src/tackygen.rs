//! Lowering of the C abstract syntax tree to the three-address intermediate
//! representation: each unary operation is flattened into an instruction
//! that computes into a fresh temporary, and the function body ends with a
//! `Return` of the terminal value.

use vstd::prelude::*;
use vstd::string::StringExecFns;

use crate::ast_nodes::c_nodes::{
    CExpression, CExpressionView, CFunctionDefinition, CIdentifier, CProgram, CProgramView,
    CStatement, CUnaryOperator,
};
use crate::ast_nodes::tacky_nodes::{
    TackyFunctionDefinition, TackyIdentifier, TackyInstruction, TackyInstructionView,
    TackyOperand, TackyOperandView, TackyProgram, TackyProgramView, TackyUnaryOperator,
};
use crate::numerals::{dec_str, u64_to_string};

verus! {

/// The intermediate-representation operator for a C unary operator.
pub open spec fn lower_unary_operator(op: CUnaryOperator) -> TackyUnaryOperator {
    match op {
        CUnaryOperator::Complement => TackyUnaryOperator::Complement,
        CUnaryOperator::Negate => TackyUnaryOperator::Negate,
    }
}

/// The name of the temporary numbered `k`: `tmp{k}`.
pub open spec fn temporary_name(k: int) -> Seq<char> {
    "tmp"@ + dec_str(k)
}

/// The instruction sequence that computes `e`, together with the operand
/// that holds its value afterwards. A constant needs no instructions; a
/// unary operation computes its inner expression, then applies the operator
/// into a fresh temporary named after the number of instructions so far.
pub open spec fn lower_expression(e: CExpressionView) -> (Seq<TackyInstructionView>,
    TackyOperandView)
    decreases e,
{
    match e {
        CExpressionView::Constant(n) => (
            Seq::<TackyInstructionView>::empty(),
            TackyOperandView::Constant(n),
        ),
        CExpressionView::UnaryOperation(op, inner) => {
            let (instructions, src) = lower_expression(*inner);
            let dst = TackyOperandView::Variable(temporary_name(instructions.len() as int));
            (
                instructions.push(
                    TackyInstructionView::Unary(lower_unary_operator(op), src, dst),
                ),
                dst,
            )
        },
    }
}

/// The lowered program: the instructions of the returned expression,
/// followed by a `Return` of its value.
pub open spec fn lower_program(p: CProgramView) -> TackyProgramView {
    let (instructions, value) = lower_expression(p.ret);
    TackyProgramView {
        name: p.name,
        body: instructions.push(TackyInstructionView::Return(value)),
    }
}

/// The instruction list of a lowered program is never empty and always ends
/// in a `Return`.
pub proof fn lemma_lowered_body_ends_in_return(p: CProgramView)
    ensures
        lower_program(p).body.len() >= 1,
        lower_program(p).body.last() is Return,
{
}

/// Builds the name of the temporary numbered `k`.
fn make_temporary_name(k: usize) -> (r: String)
    ensures
        r@ == temporary_name(k as int),
{
    let r = String::from_str("tmp").concat(u64_to_string(k as u64).as_str());
    proof {
        assert(r@ =~= temporary_name(k as int));
    }
    r
}

fn gen_unary_operator(c_operator: CUnaryOperator) -> (r: TackyUnaryOperator)
    ensures
        r == lower_unary_operator(c_operator),
{
    match c_operator {
        CUnaryOperator::Complement => TackyUnaryOperator::Complement,
        CUnaryOperator::Negate => TackyUnaryOperator::Negate,
    }
}

fn gen_expression(c_expression: CExpression) -> (r: (Vec<TackyInstruction>, TackyOperand))
    ensures
        r.0@.map_values(|i: TackyInstruction| i@) == lower_expression(c_expression@).0,
        r.1@ == lower_expression(c_expression@).1,
    decreases c_expression,
{
    match c_expression {
        CExpression::Constant(integer) => {
            let instructions: Vec<TackyInstruction> = Vec::new();
            proof {
                assert(instructions@.map_values(|i: TackyInstruction| i@) =~= lower_expression(
                    CExpressionView::Constant(integer),
                ).0);
            }
            (instructions, TackyOperand::Constant(integer))
        },
        CExpression::UnaryOperation(operator, inner) => {
            let ghost inner_view = inner@;
            let (mut instructions, src) = gen_expression(*inner);
            let ghost previous = instructions@.map_values(|i: TackyInstruction| i@);
            let name = make_temporary_name(instructions.len());
            let dst = TackyOperand::Variable(TackyIdentifier::Identifier(name.clone()));
            instructions.push(
                TackyInstruction::Unary(
                    gen_unary_operator(operator),
                    src,
                    TackyOperand::Variable(TackyIdentifier::Identifier(name)),
                ),
            );
            proof {
                let (spec_instructions, spec_src) = lower_expression(inner_view);
                assert(previous == spec_instructions);
                assert(previous.len() == spec_instructions.len());
                assert(dst@ == TackyOperandView::Variable(
                    temporary_name(spec_instructions.len() as int),
                ));
                assert(instructions@.map_values(|i: TackyInstruction| i@) =~= previous.push(
                    instructions@.last()@,
                ));
            }
            (instructions, dst)
        },
    }
}

fn gen_function_definition(c_function_definition: CFunctionDefinition) -> (r:
    TackyFunctionDefinition)
    ensures
        r@ == lower_program(c_function_definition@),
{
    let CFunctionDefinition::Function(CIdentifier::Identifier(name), CStatement::Return(
        expression,
    )) = c_function_definition;
    let ghost previous_view = expression@;
    let (mut instructions, operand) = gen_expression(expression);
    let ghost previous = instructions@.map_values(|i: TackyInstruction| i@);
    instructions.push(TackyInstruction::Return(operand));
    proof {
        assert(instructions@.map_values(|i: TackyInstruction| i@) =~= previous.push(
            instructions@.last()@,
        ));
    }
    TackyFunctionDefinition::Function(TackyIdentifier::Identifier(name), instructions)
}

fn gen_program(c_program: CProgram) -> (r: TackyProgram)
    ensures
        r@ == lower_program(c_program@),
{
    let CProgram::Program(function_definition) = c_program;
    TackyProgram::Program(gen_function_definition(function_definition))
}

/// Lowers a parsed program to the intermediate representation. The result
/// is exactly the specification-level lowering of the input's model.
pub fn gen_tacky_program(c_program: CProgram) -> (r: TackyProgram)
    ensures
        r@ == lower_program(c_program@),
{
    gen_program(c_program)
}

} // verus!
