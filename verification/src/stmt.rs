//! The statement side of the syntax tree: expression statements, print
//! statements, and variable declarations (which carry no environment yet).

use vstd::prelude::*;
use crate::expr::Expr;
use crate::expr::ExprV;
use crate::expr::expr_wf;
use crate::token::Token;
use crate::token::TokenV;

verus! {

/// Mathematical image of a statement.
pub ghost enum StmtV {
    Expression { expression: ExprV },
    Print { expression: ExprV },
    Var { name: TokenV, initializer: Option<ExprV> },
}

pub enum Stmt {
    Expression(ExpressionStmt),
    Print(PrintStmt),
    Var(VarStmt),
}

pub struct ExpressionStmt {
    pub expression: Expr,
}

pub struct PrintStmt {
    pub expression: Expr,
}

pub struct VarStmt {
    pub name: Token,
    pub initializer: Option<Expr>,
}

impl View for Stmt {
    type V = StmtV;

    open spec fn view(&self) -> StmtV {
        match self {
            Stmt::Expression(s) => StmtV::Expression { expression: s.expression@ },
            Stmt::Print(s) => StmtV::Print { expression: s.expression@ },
            Stmt::Var(s) => StmtV::Var {
                name: s.name@,
                initializer: match &s.initializer {
                    Some(e) => Some(e@),
                    None => None,
                },
            },
        }
    }
}

/// Well-formedness of a statement: every expression in it is well formed.
pub open spec fn stmt_wf(s: StmtV) -> bool {
    match s {
        StmtV::Expression { expression } => expr_wf(expression),
        StmtV::Print { expression } => expr_wf(expression),
        StmtV::Var { name, initializer } => match initializer {
            Some(e) => expr_wf(e),
            None => true,
        },
    }
}

} // verus!
