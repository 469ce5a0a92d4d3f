//! The abstract x86-64 assembly: instructions over immediates, registers,
//! named virtual (pseudo) operands and stack slots.

use vstd::prelude::*;

verus! {

#[derive(Debug, PartialEq, Eq)]
pub enum AsmProgram {
    Program(AsmFunctionDefinition),
}

#[derive(Debug, PartialEq, Eq)]
pub enum AsmFunctionDefinition {
    Function(AsmIdentifier, Vec<AsmInstruction>),
}

#[derive(Debug, Clone, PartialEq, Eq)]
pub enum AsmIdentifier {
    Identifier(String),
}

#[derive(Debug, Clone, PartialEq, Eq)]
pub enum AsmInstruction {
    Mov(AsmOperand, AsmOperand),
    Unary(AsmUnaryOperator, AsmOperand),
    AllocateStack(u32),
    Ret,
}

#[derive(Debug, Clone, Copy, PartialEq, Eq, Structural)]
pub enum AsmUnaryOperator {
    Neg,
    Not,
}

#[derive(Debug, Clone, PartialEq, Eq)]
pub enum AsmOperand {
    Imm(u32),
    Register(AsmReg),
    Pseudo(AsmIdentifier),
    Stack(u32),
}

#[derive(Debug, Clone, Copy, PartialEq, Eq, Structural)]
pub enum AsmReg {
    AX,
    R10,
}

/// Mathematical model of an assembly operand; a pseudo operand is modelled
/// by its name.
pub ghost enum AsmOperandView {
    Imm(u32),
    Register(AsmReg),
    Pseudo(Seq<char>),
    Stack(u32),
}

/// Mathematical model of an assembly instruction.
pub ghost enum AsmInstructionView {
    Mov(AsmOperandView, AsmOperandView),
    Unary(AsmUnaryOperator, AsmOperandView),
    AllocateStack(u32),
    Ret,
}

/// Mathematical model of an assembly program: the function name and its
/// instruction list.
pub ghost struct AsmProgramView {
    pub name: Seq<char>,
    pub body: Seq<AsmInstructionView>,
}

impl View for AsmIdentifier {
    type V = Seq<char>;

    open spec fn view(&self) -> Seq<char> {
        match self {
            AsmIdentifier::Identifier(s) => s@,
        }
    }
}

impl View for AsmOperand {
    type V = AsmOperandView;

    open spec fn view(&self) -> AsmOperandView {
        match self {
            AsmOperand::Imm(n) => AsmOperandView::Imm(*n),
            AsmOperand::Register(r) => AsmOperandView::Register(*r),
            AsmOperand::Pseudo(id) => AsmOperandView::Pseudo(id@),
            AsmOperand::Stack(n) => AsmOperandView::Stack(*n),
        }
    }
}

impl View for AsmInstruction {
    type V = AsmInstructionView;

    open spec fn view(&self) -> AsmInstructionView {
        match self {
            AsmInstruction::Mov(src, dst) => AsmInstructionView::Mov(src@, dst@),
            AsmInstruction::Unary(op, dst) => AsmInstructionView::Unary(*op, dst@),
            AsmInstruction::AllocateStack(n) => AsmInstructionView::AllocateStack(*n),
            AsmInstruction::Ret => AsmInstructionView::Ret,
        }
    }
}

impl View for AsmFunctionDefinition {
    type V = AsmProgramView;

    open spec fn view(&self) -> AsmProgramView {
        match self {
            AsmFunctionDefinition::Function(name, instructions) => AsmProgramView {
                name: name@,
                body: instructions@.map_values(|i: AsmInstruction| i@),
            },
        }
    }
}

impl View for AsmProgram {
    type V = AsmProgramView;

    open spec fn view(&self) -> AsmProgramView {
        match self {
            AsmProgram::Program(f) => f@,
        }
    }
}

} // verus!
