//! A tree printer: renders an expression tree as a parenthesized prefix
//! form, one exhaustive match over the closed variant set.

use vstd::prelude::*;
use crate::error::CDLexerError;
use crate::expr::Expr;
use crate::expr::ExprV;
use crate::expr::expr_wf;
use crate::object::spec_display;
use crate::text::chars_to_string;
use crate::text::push_string_chars;
use crate::text::push_str_chars;

verus! {

/// The parenthesized prefix rendering of an expression tree: an operator
/// application renders as `(op operands...)`, a grouping as `(group inner)`,
/// a literal as its display form (`nil` when absent), a variable as its
/// name.
pub open spec fn spec_print_expr(e: ExprV) -> Seq<char>
    decreases e,
{
    match e {
        ExprV::Binary { left, operator, right } => "("@ + operator.lexeme + " "@ + spec_print_expr(
            *left,
        ) + " "@ + spec_print_expr(*right) + ")"@,
        ExprV::Grouping { expression } => "(group "@ + spec_print_expr(*expression) + ")"@,
        ExprV::Literal { value } => match value {
            Some(v) => spec_display(v),
            None => "nil"@,
        },
        ExprV::Unary { operator, right } => "("@ + operator.lexeme + " "@ + spec_print_expr(*right)
            + ")"@,
        ExprV::Variable { name } => name.lexeme,
    }
}

pub struct AstPrinter;

impl AstPrinter {
    /// Renders a well-formed expression tree; the error side of the result
    /// is never used.
    pub fn print(&self, expr: &Expr) -> (r: Result<String, CDLexerError>)
        requires
            expr_wf(expr@),
        ensures
            r matches Ok(s) && s@ == spec_print_expr(expr@),
    {
        let mut out: Vec<char> = Vec::new();
        self.print_into(expr, &mut out);
        Ok(chars_to_string(&out))
    }

    /// Appends the rendering of one node to the output buffer.
    fn print_into(&self, expr: &Expr, out: &mut Vec<char>)
        requires
            expr_wf(expr@),
        ensures
            final(out)@ == old(out)@ + spec_print_expr(expr@),
        decreases expr,
    {
        match expr {
            Expr::Binary(b) => {
                push_str_chars(out, "(");
                push_string_chars(out, &b.operator.lexeme);
                push_str_chars(out, " ");
                self.print_into(&b.left, out);
                push_str_chars(out, " ");
                self.print_into(&b.right, out);
                push_str_chars(out, ")");
                assert(out@ =~= old(out)@ + spec_print_expr(expr@));
            },
            Expr::Grouping(g) => {
                push_str_chars(out, "(group ");
                self.print_into(&g.expression, out);
                push_str_chars(out, ")");
                assert(out@ =~= old(out)@ + spec_print_expr(expr@));
            },
            Expr::Literal(l) => {
                match &l.value {
                    Some(v) => {
                        let text = v.as_string();
                        push_string_chars(out, &text);
                    },
                    None => {
                        push_str_chars(out, "nil");
                    },
                }
            },
            Expr::Unary(u) => {
                push_str_chars(out, "(");
                push_string_chars(out, &u.operator.lexeme);
                push_str_chars(out, " ");
                self.print_into(&u.right, out);
                push_str_chars(out, ")");
                assert(out@ =~= old(out)@ + spec_print_expr(expr@));
            },
            Expr::Variable(v) => {
                push_string_chars(out, &v.name.lexeme);
            },
        }
    }
}

} // verus!
