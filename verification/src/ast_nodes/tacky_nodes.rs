//! The three-address intermediate representation: a program is one function
//! holding a flat, ordered list of instructions over constants and named
//! variables.

use vstd::prelude::*;

verus! {

#[derive(Debug, PartialEq, Eq)]
pub enum TackyProgram {
    Program(TackyFunctionDefinition),
}

#[derive(Debug, PartialEq, Eq)]
pub enum TackyFunctionDefinition {
    Function(TackyIdentifier, Vec<TackyInstruction>),
}

#[derive(Debug, Clone, PartialEq, Eq)]
pub enum TackyIdentifier {
    Identifier(String),
}

#[derive(Debug, Clone, PartialEq, Eq)]
pub enum TackyInstruction {
    Return(TackyOperand),
    Unary(TackyUnaryOperator, TackyOperand, TackyOperand),
}

#[derive(Debug, Clone, PartialEq, Eq)]
pub enum TackyOperand {
    Constant(u32),
    Variable(TackyIdentifier),
}

#[derive(Debug, Clone, Copy, PartialEq, Eq, Structural)]
pub enum TackyUnaryOperator {
    Complement,
    Negate,
}

/// Mathematical model of an operand: a constant or a variable name.
pub ghost enum TackyOperandView {
    Constant(u32),
    Variable(Seq<char>),
}

/// Mathematical model of an instruction.
pub ghost enum TackyInstructionView {
    Return(TackyOperandView),
    Unary(TackyUnaryOperator, TackyOperandView, TackyOperandView),
}

/// Mathematical model of an intermediate-representation program: the
/// function name and its instruction list.
pub ghost struct TackyProgramView {
    pub name: Seq<char>,
    pub body: Seq<TackyInstructionView>,
}

impl View for TackyIdentifier {
    type V = Seq<char>;

    open spec fn view(&self) -> Seq<char> {
        match self {
            TackyIdentifier::Identifier(s) => s@,
        }
    }
}

impl View for TackyOperand {
    type V = TackyOperandView;

    open spec fn view(&self) -> TackyOperandView {
        match self {
            TackyOperand::Constant(n) => TackyOperandView::Constant(*n),
            TackyOperand::Variable(id) => TackyOperandView::Variable(id@),
        }
    }
}

impl View for TackyInstruction {
    type V = TackyInstructionView;

    open spec fn view(&self) -> TackyInstructionView {
        match self {
            TackyInstruction::Return(v) => TackyInstructionView::Return(v@),
            TackyInstruction::Unary(op, src, dst) => TackyInstructionView::Unary(*op, src@, dst@),
        }
    }
}

impl View for TackyFunctionDefinition {
    type V = TackyProgramView;

    open spec fn view(&self) -> TackyProgramView {
        match self {
            TackyFunctionDefinition::Function(name, instructions) => TackyProgramView {
                name: name@,
                body: instructions@.map_values(|i: TackyInstruction| i@),
            },
        }
    }
}

impl View for TackyProgram {
    type V = TackyProgramView;

    open spec fn view(&self) -> TackyProgramView {
        match self {
            TackyProgram::Program(f) => f@,
        }
    }
}

} // verus!
