//! The C abstract syntax tree: a program is a single function whose body is
//! one `return` statement over an expression of constants and unary
//! operators.

use vstd::prelude::*;

verus! {

#[derive(Debug, PartialEq, Eq)]
pub enum CProgram {
    Program(CFunctionDefinition),
}

#[derive(Debug, PartialEq, Eq)]
pub enum CFunctionDefinition {
    Function(CIdentifier, CStatement),
}

#[derive(Debug, PartialEq, Eq)]
pub enum CIdentifier {
    Identifier(String),
}

#[derive(Debug, PartialEq, Eq)]
pub enum CStatement {
    Return(CExpression),
}

#[derive(Debug, PartialEq, Eq)]
pub enum CExpression {
    Constant(u32),
    UnaryOperation(CUnaryOperator, Box<CExpression>),
}

#[derive(Debug, Clone, Copy, PartialEq, Eq, Structural)]
pub enum CUnaryOperator {
    Complement,
    Negate,
}

/// Mathematical model of an expression; identifiers and boxes are replaced
/// by their contents.
pub ghost enum CExpressionView {
    Constant(u32),
    UnaryOperation(CUnaryOperator, Box<CExpressionView>),
}

/// Mathematical model of a parsed program: the function name and the
/// expression returned by its single statement.
pub ghost struct CProgramView {
    pub name: Seq<char>,
    pub ret: CExpressionView,
}

impl View for CIdentifier {
    type V = Seq<char>;

    open spec fn view(&self) -> Seq<char> {
        match self {
            CIdentifier::Identifier(s) => s@,
        }
    }
}

impl View for CExpression {
    type V = CExpressionView;

    open spec fn view(&self) -> CExpressionView
        decreases self,
    {
        match self {
            CExpression::Constant(n) => CExpressionView::Constant(*n),
            CExpression::UnaryOperation(op, inner) => CExpressionView::UnaryOperation(
                *op,
                Box::new((**inner).view()),
            ),
        }
    }
}

impl View for CStatement {
    type V = CExpressionView;

    /// A statement is always `return e`; its model is the model of `e`.
    open spec fn view(&self) -> CExpressionView {
        match self {
            CStatement::Return(e) => e@,
        }
    }
}

impl View for CFunctionDefinition {
    type V = CProgramView;

    open spec fn view(&self) -> CProgramView {
        match self {
            CFunctionDefinition::Function(name, body) => CProgramView { name: name@, ret: body@ },
        }
    }
}

impl View for CProgram {
    type V = CProgramView;

    open spec fn view(&self) -> CProgramView {
        match self {
            CProgram::Program(f) => f@,
        }
    }
}

} // verus!
