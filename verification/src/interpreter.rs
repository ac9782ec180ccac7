//! The tree-walking evaluator: one exhaustive match per node variant,
//! computing values left-to-right and turning every failed operator
//! application into a reported runtime error.
//!
//! There is no persistent interpreter state across statements: a variable
//! expression always evaluates to Nil, and a variable declaration stores
//! nothing. Runtime errors are fatal to the run: `interpret` stops at the
//! first one and returns it.

use vstd::prelude::*;
use crate::errors::syntax_error::SyntaxError;
use crate::errors::syntax_error::SyntaxErrorTypes;
use crate::errors::syntax_error::SyntaxErrorTypesV;
use crate::errors::syntax_error::SyntaxErrorV;
use crate::errors::syntax_error::spec_syntax_error;
use crate::expr::Expr;
use crate::expr::ExprV;
use crate::expr::expr_wf;
use crate::object::Object;
use crate::object::ObjectV;
use crate::object::spec_add;
use crate::object::spec_display;
use crate::object::spec_div;
use crate::object::spec_mul;
use crate::object::spec_obj_eq;
use crate::object::spec_obj_le;
use crate::object::spec_obj_lt;
use crate::object::spec_sub;
use crate::numeric::neg_bits;
use crate::numeric::num_neg;
use crate::stmt::Stmt;
use crate::stmt::StmtV;
use crate::stmt::stmt_wf;
use crate::token::Token;
use crate::token::TokenType;

verus! {

/// The result of one binary operator application; `ArithmeticError` marks a
/// combination with no defined result.
pub open spec fn spec_apply_binary(op: TokenType, l: ObjectV, r: ObjectV) -> ObjectV {
    match op {
        TokenType::MINUS => spec_sub(l, r),
        TokenType::SLASH => spec_div(l, r),
        TokenType::STAR => spec_mul(l, r),
        TokenType::PLUS => spec_add(l, r),
        TokenType::GREATER => ObjectV::Bool(spec_obj_lt(r, l)),
        TokenType::LESS => ObjectV::Bool(spec_obj_lt(l, r)),
        TokenType::GREATEREQUAL => ObjectV::Bool(spec_obj_le(r, l)),
        TokenType::LESSEQUAL => ObjectV::Bool(spec_obj_le(l, r)),
        TokenType::EQUALEQUAL => ObjectV::Bool(spec_obj_eq(l, r)),
        TokenType::BANGEQUAL => ObjectV::Bool(!spec_obj_eq(l, r)),
        _ => ObjectV::ArithmeticError,
    }
}

/// Truthiness: Nil and false are falsy; every other value, including the
/// number zero and the empty string, is truthy.
pub open spec fn spec_truthy(v: ObjectV) -> bool {
    !(v == ObjectV::Nil || v == ObjectV::Bool(false))
}

/// The value of an expression, or the first runtime error met while
/// evaluating it, operands left to right.
pub open spec fn spec_eval(e: ExprV) -> Result<ObjectV, SyntaxErrorV>
    decreases e,
{
    match e {
        ExprV::Literal { value } => match value {
            Some(v) => Ok(v),
            None => Err(spec_syntax_error(0, 0, SyntaxErrorTypesV::InvalidUnary)),
        },
        ExprV::Grouping { expression } => spec_eval(*expression),
        ExprV::Variable { name } => Ok(ObjectV::Nil),
        ExprV::Unary { operator, right } => match spec_eval(*right) {
            Err(err) => Err(err),
            Ok(v) => if operator.ttype == TokenType::BANG {
                Ok(ObjectV::Bool(!spec_truthy(v)))
            } else if operator.ttype == TokenType::MINUS {
                match v {
                    ObjectV::Num(n) => Ok(ObjectV::Num(neg_bits(n))),
                    _ => Err(
                        spec_syntax_error(
                            operator.line,
                            operator.position,
                            SyntaxErrorTypesV::OperandNaN,
                        ),
                    ),
                }
            } else {
                Err(
                    spec_syntax_error(
                        operator.line,
                        operator.position,
                        SyntaxErrorTypesV::InvalidUnary,
                    ),
                )
            },
        },
        ExprV::Binary { left, operator, right } => match spec_eval(*left) {
            Err(err) => Err(err),
            Ok(l) => match spec_eval(*right) {
                Err(err) => Err(err),
                Ok(r) => {
                    let res = spec_apply_binary(operator.ttype, l, r);
                    if res is ArithmeticError {
                        Err(
                            spec_syntax_error(
                                operator.line,
                                operator.position,
                                SyntaxErrorTypesV::InvalidUnary,
                            ),
                        )
                    } else {
                        Ok(res)
                    }
                },
            },
        },
    }
}

/// The effect of one statement: the line a print statement writes, nothing
/// for an expression statement or a variable declaration, or the first
/// runtime error.
pub open spec fn spec_exec_stmt(s: StmtV) -> Result<Option<Seq<char>>, SyntaxErrorV> {
    match s {
        StmtV::Expression { expression } => match spec_eval(expression) {
            Ok(v) => Ok(None),
            Err(err) => Err(err),
        },
        StmtV::Print { expression } => match spec_eval(expression) {
            Ok(v) => Ok(Some(spec_display(v))),
            Err(err) => Err(err),
        },
        StmtV::Var { name, initializer } => Ok(None),
    }
}

/// The lines a statement sequence prints, in order, or the first runtime
/// error; execution stops at that error.
pub open spec fn spec_interpret(stmts: Seq<StmtV>) -> Result<Seq<Seq<char>>, SyntaxErrorV>
    decreases stmts.len(),
{
    if stmts.len() == 0 {
        Ok(Seq::empty())
    } else {
        match spec_exec_stmt(stmts[0]) {
            Err(err) => Err(err),
            Ok(line) => match spec_interpret(stmts.drop_first()) {
                Err(err) => Err(err),
                Ok(rest) => match line {
                    Some(l) => Ok(seq![l] + rest),
                    None => Ok(rest),
                },
            },
        }
    }
}

/// Whether an executable evaluation result is the image of a mathematical
/// one.
pub open spec fn eval_result_matches(
    r: Result<Object, SyntaxError>,
    s: Result<ObjectV, SyntaxErrorV>,
) -> bool {
    match (r, s) {
        (Ok(o), Ok(v)) => o@ == v,
        (Err(e), Err(f)) => e@ == f,
        _ => false,
    }
}

/// Evaluation never hands the arithmetic-error sentinel to a caller: on a
/// well-formed expression, a failed operator application becomes an error,
/// never a value.
pub proof fn lemma_eval_no_sentinel(e: ExprV)
    requires
        expr_wf(e),
    ensures
        spec_eval(e) matches Ok(v) ==> !(v is ArithmeticError),
    decreases e,
{
    match e {
        ExprV::Literal { value } => {},
        ExprV::Grouping { expression } => {
            lemma_eval_no_sentinel(*expression);
        },
        ExprV::Variable { name } => {},
        ExprV::Unary { operator, right } => {
            lemma_eval_no_sentinel(*right);
        },
        ExprV::Binary { left, operator, right } => {
            lemma_eval_no_sentinel(*left);
            lemma_eval_no_sentinel(*right);
        },
    }
}

pub struct Interpreter {}

impl Interpreter {
    /// Whether unary `-` may be applied to a value: the operand must be a
    /// number; anything else is the runtime error the operator's token
    /// locates.
    pub fn check_number_operand(operator: Token, operand: &Object) -> (r: Result<
        (),
        SyntaxError,
    >)
        ensures
            operand@ is Num <==> r is Ok,
            !(operand@ is Num) ==> (r matches Err(e) && e@ == spec_syntax_error(
                operator@.line,
                operator@.position,
                SyntaxErrorTypesV::OperandNaN,
            )),
    {
        if let Object::Num(_) = operand {
            Ok(())
        } else {
            Err(
                SyntaxError::new(
                    operator.line,
                    operator.position,
                    SyntaxErrorTypes::OperandNaN(),
                ),
            )
        }
    }

    /// Truthiness of a value, as used by unary `!`.
    pub fn is_truthy(&self, object: &Object) -> (r: bool)
        ensures
            r == spec_truthy(object@),
    {
        !matches!(object, Object::Nil | Object::Bool(false))
    }

    /// The value of an expression, or the first runtime error met while
    /// evaluating it.
    pub fn evaluate(&self, expr: &Expr) -> (r: Result<Object, SyntaxError>)
        ensures
            eval_result_matches(r, spec_eval(expr@)),
        decreases expr,
    {
        match expr {
            Expr::Literal(l) => match &l.value {
                Some(v) => Ok(v.dup()),
                None => Err(SyntaxError::new(0, 0, SyntaxErrorTypes::InvalidUnary())),
            },
            Expr::Grouping(g) => self.evaluate(&g.expression),
            Expr::Variable(_) => Ok(Object::Nil),
            Expr::Unary(u) => {
                let right = match self.evaluate(&u.right) {
                    Ok(v) => v,
                    Err(err) => {
                        return Err(err);
                    },
                };
                if u.operator.ttype == TokenType::BANG {
                    Ok(Object::Bool(!self.is_truthy(&right)))
                } else if u.operator.ttype == TokenType::MINUS {
                    match Interpreter::check_number_operand(u.operator.dup(), &right) {
                        Ok(_) => match right {
                            Object::Num(n) => Ok(Object::Num(num_neg(n))),
                            _ => {
                                proof {
                                    assert(false);
                                }
                                Ok(Object::Nil)
                            },
                        },
                        Err(err) => Err(err),
                    }
                } else {
                    Err(
                        SyntaxError::new(
                            u.operator.line,
                            u.operator.position,
                            SyntaxErrorTypes::InvalidUnary(),
                        ),
                    )
                }
            },
            Expr::Binary(b) => {
                let left = match self.evaluate(&b.left) {
                    Ok(v) => v,
                    Err(err) => {
                        return Err(err);
                    },
                };
                let right = match self.evaluate(&b.right) {
                    Ok(v) => v,
                    Err(err) => {
                        return Err(err);
                    },
                };
                let result = match b.operator.ttype {
                    TokenType::MINUS => left.sub(right),
                    TokenType::SLASH => left.div(right),
                    TokenType::STAR => left.mul(right),
                    TokenType::PLUS => left.add(right),
                    TokenType::GREATER => Object::Bool(left.gt(&right)),
                    TokenType::LESS => Object::Bool(left.lt(&right)),
                    TokenType::GREATEREQUAL => Object::Bool(left.ge(&right)),
                    TokenType::LESSEQUAL => Object::Bool(left.le(&right)),
                    TokenType::EQUALEQUAL => Object::Bool(left.equals(&right)),
                    TokenType::BANGEQUAL => Object::Bool(!left.equals(&right)),
                    _ => Object::ArithmeticError,
                };
                if result.is_arithmetic_error() {
                    Err(
                        SyntaxError::new(
                            b.operator.line,
                            b.operator.position,
                            SyntaxErrorTypes::InvalidUnary(),
                        ),
                    )
                } else {
                    Ok(result)
                }
            },
        }
    }

    /// Runs one statement: the line it prints, if any, or the first runtime
    /// error met while evaluating it.
    pub fn execute(&mut self, stmt: &Stmt) -> (r: Result<Option<String>, SyntaxError>)
        requires
            stmt_wf(stmt@),
        ensures
            match (r, spec_exec_stmt(stmt@)) {
                (Ok(Some(line)), Ok(Some(l))) => line@ == l,
                (Ok(None), Ok(None)) => true,
                (Err(e), Err(f)) => e@ == f,
                _ => false,
            },
    {
        match stmt {
            Stmt::Expression(s) => match self.evaluate(&s.expression) {
                Ok(_) => Ok(None),
                Err(err) => Err(err),
            },
            Stmt::Print(s) => match self.evaluate(&s.expression) {
                Ok(value) => {
                    proof {
                        lemma_eval_no_sentinel(s.expression@);
                    }
                    Ok(Some(value.as_string()))
                },
                Err(err) => Err(err),
            },
            Stmt::Var(_) => Ok(None),
        }
    }

    /// Runs a statement sequence in order, collecting the lines its print
    /// statements write; stops at, and returns, the first runtime error.
    pub fn interpret(&mut self, statements: &[Stmt]) -> (r: Result<Vec<String>, SyntaxError>)
        requires
            forall|i: int| 0 <= i < statements@.len() ==> stmt_wf(#[trigger] statements@[i]@),
        ensures
            match (r, spec_interpret(statements@.map_values(|s: Stmt| s@))) {
                (Ok(out), Ok(lines)) => out.deep_view() == lines,
                (Err(e), Err(f)) => e@ == f,
                _ => false,
            },
    {
        let ghost all = statements@.map_values(|s: Stmt| s@);
        let mut out: Vec<String> = Vec::new();
        let mut i: usize = 0;
        proof {
            assert(all.skip(0) =~= all);
            match spec_interpret(all) {
                Ok(rest) => {
                    assert(out.deep_view() + rest =~= rest);
                },
                Err(_) => {},
            }
        }
        while i < statements.len()
            invariant
                0 <= i <= statements@.len(),
                all == statements@.map_values(|s: Stmt| s@),
                forall|k: int| 0 <= k < statements@.len() ==> stmt_wf(#[trigger] statements@[k]@),
                spec_interpret(all) == (match spec_interpret(all.skip(i as int)) {
                    Ok(rest) => Ok::<Seq<Seq<char>>, SyntaxErrorV>(out.deep_view() + rest),
                    Err(err) => Err::<Seq<Seq<char>>, SyntaxErrorV>(err),
                }),
            decreases statements@.len() - i,
        {
            proof {
                assert(all.skip(i as int)[0] == all[i as int]);
                assert(all.skip(i as int).drop_first() =~= all.skip(i as int + 1));
            }
            match self.execute(&statements[i]) {
                Ok(Some(line)) => {
                    let ghost prev = out.deep_view();
                    out.push(line);
                    proof {
                        assert(out.deep_view() =~= prev.push(line@));
                        match spec_interpret(all.skip(i as int + 1)) {
                            Ok(rest) => {
                                assert(prev + (seq![line@] + rest) =~= out.deep_view() + rest);
                            },
                            Err(_) => {},
                        }
                    }
                },
                Ok(None) => {},
                Err(err) => {
                    return Err(err);
                },
            }
            i += 1;
        }
        proof {
            assert(all.skip(statements@.len() as int) =~= Seq::<StmtV>::empty());
            assert(out.deep_view() + Seq::<Seq<char>>::empty() =~= out.deep_view());
        }
        Ok(out)
    }
}


/// Truthiness: Nil and false are the only falsy values; every other value,
/// the number zero and the empty string included, is truthy.
pub proof fn lemma_truthiness(v: ObjectV)
    ensures
        spec_truthy(v) <==> !(v == ObjectV::Nil || v == ObjectV::Bool(false)),
        v is Num ==> spec_truthy(v),
        v is Str ==> spec_truthy(v),
{
}

} // verus!
