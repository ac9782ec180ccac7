//! The expression side of the syntax tree: tagged variants whose children
//! are exclusively owned, so no cycles are possible. Each consumer (the
//! evaluator, the tree printer) walks the closed variant set with one
//! exhaustive match per operation.

use vstd::prelude::*;
use crate::object::Object;
use crate::object::ObjectV;
use crate::token::Token;
use crate::token::TokenV;

verus! {

/// Mathematical image of an expression tree.
pub ghost enum ExprV {
    Binary { left: Box<ExprV>, operator: TokenV, right: Box<ExprV> },
    Grouping { expression: Box<ExprV> },
    Literal { value: Option<ObjectV> },
    Unary { operator: TokenV, right: Box<ExprV> },
    Variable { name: TokenV },
}

pub enum Expr {
    Binary(BinaryExpr),
    Grouping(GroupingExpr),
    Literal(LiteralExpr),
    Unary(UnaryExpr),
    Variable(VariableExpr),
}

pub struct BinaryExpr {
    pub left: Box<Expr>,
    pub operator: Token,
    pub right: Box<Expr>,
}

pub struct GroupingExpr {
    pub expression: Box<Expr>,
}

pub struct LiteralExpr {
    pub value: Option<Object>,
}

pub struct UnaryExpr {
    pub operator: Token,
    pub right: Box<Expr>,
}

pub struct VariableExpr {
    pub name: Token,
}

/// The mathematical image of an expression tree.
pub open spec fn expr_view(e: &Expr) -> ExprV
    decreases e,
{
    match e {
        Expr::Binary(b) => ExprV::Binary {
            left: Box::new(expr_view(&b.left)),
            operator: b.operator@,
            right: Box::new(expr_view(&b.right)),
        },
        Expr::Grouping(g) => ExprV::Grouping { expression: Box::new(expr_view(&g.expression)) },
        Expr::Literal(l) => ExprV::Literal {
            value: match &l.value {
                Some(v) => Some(v@),
                None => None,
            },
        },
        Expr::Unary(u) => ExprV::Unary {
            operator: u.operator@,
            right: Box::new(expr_view(&u.right)),
        },
        Expr::Variable(v) => ExprV::Variable { name: v.name@ },
    }
}

impl View for Expr {
    type V = ExprV;

    open spec fn view(&self) -> ExprV {
        expr_view(self)
    }
}

/// Well-formedness of an expression tree as the parser emits it and the
/// evaluator expects it: every literal node carries a value, and that value
/// is never the internal arithmetic-error sentinel.
pub open spec fn expr_wf(e: ExprV) -> bool
    decreases e,
{
    match e {
        ExprV::Binary { left, operator, right } => expr_wf(*left) && expr_wf(*right),
        ExprV::Grouping { expression } => expr_wf(*expression),
        ExprV::Literal { value } => match value {
            Some(v) => !(v is ArithmeticError),
            None => false,
        },
        ExprV::Unary { operator, right } => expr_wf(*right),
        ExprV::Variable { name } => true,
    }
}

} // verus!
