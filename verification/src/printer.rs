//! A bracketed text form of expression trees, for inspecting what the
//! parser built.

use crate::ast::Expr;
use crate::num::num_text;
use crate::token::LitValue;
use vstd::prelude::*;
use vstd::string::StringExecFns;

verus! {

/// The text of a literal value.
pub open spec fn spec_lit_text(v: Option<LitValue>) -> Seq<char> {
    match v {
        None => "nil"@,
        Some(LitValue::Str(s)) => s@,
        Some(LitValue::Num(n)) => num_text(n),
        Some(LitValue::Bool(b)) => if b {
            "true"@
        } else {
            "false"@
        },
    }
}

/// The bracketed text of an expression tree: each node spelled with its
/// kind, its operator where it has one, and its children in order.
pub open spec fn spec_expr_text(e: Expr) -> Seq<char>
    decreases e,
{
    match e {
        Expr::Literal { value } => spec_lit_text(value),
        Expr::Variable { name } => name.lexeme@,
        Expr::Assign { name, value } => "([assign] "@ + name.lexeme@ + " = "@ + spec_expr_text(
            *value,
        ) + ")"@,
        Expr::Binary { left, operator, right } => "([binary] "@ + spec_expr_text(*left) + " "@
            + operator.lexeme@ + " "@ + spec_expr_text(*right) + ")"@,
        Expr::Logical { left, operator, right } => "([logical] "@ + spec_expr_text(*left) + " "@
            + operator.lexeme@ + " "@ + spec_expr_text(*right) + ")"@,
        Expr::Unary { operator, right } => "([unary] "@ + operator.lexeme@ + " "@ + spec_expr_text(
            *right,
        ) + ")"@,
        Expr::Grouping { expression } => "([group] "@ + spec_expr_text(*expression) + ")"@,
        Expr::Call { callee, paren, arguments } => "([call] "@ + spec_expr_text(*callee)
            + spec_args_text(arguments@) + ")"@,
    }
}

/// The text of an argument list: each argument after one space.
pub open spec fn spec_args_text(es: Seq<Expr>) -> Seq<char>
    decreases es,
{
    if es.len() == 0 {
        Seq::empty()
    } else {
        " "@ + spec_expr_text(es.first()) + spec_args_text(es.drop_first())
    }
}

/// Renders an expression tree as bracketed text.
pub struct PrintExprVisitor;

impl PrintExprVisitor {
    /// The bracketed text of the tree.
    #[verifier::loop_isolation(false)]
    pub fn render(&self, e: &Expr) -> (r: String)
        ensures
            r@ == spec_expr_text(*e),
        decreases *e,
    {
        match e {
            Expr::Literal { value } => match value {
                None => String::from_str("nil"),
                Some(LitValue::Str(s)) => s.clone(),
                Some(LitValue::Num(n)) => crate::num::text_of_bits(*n),
                Some(LitValue::Bool(b)) => if *b {
                    String::from_str("true")
                } else {
                    String::from_str("false")
                },
            },
            Expr::Variable { name } => name.lexeme.clone(),
            Expr::Assign { name, value } => {
                let mut r = String::from_str("([assign] ");
                r.append(name.lexeme.as_str());
                r.append(" = ");
                let v = self.render(value);
                r.append(v.as_str());
                r.append(")");
                r
            },
            Expr::Binary { left, operator, right } => {
                let mut r = String::from_str("([binary] ");
                let l = self.render(left);
                r.append(l.as_str());
                r.append(" ");
                r.append(operator.lexeme.as_str());
                r.append(" ");
                let rt = self.render(right);
                r.append(rt.as_str());
                r.append(")");
                r
            },
            Expr::Logical { left, operator, right } => {
                let mut r = String::from_str("([logical] ");
                let l = self.render(left);
                r.append(l.as_str());
                r.append(" ");
                r.append(operator.lexeme.as_str());
                r.append(" ");
                let rt = self.render(right);
                r.append(rt.as_str());
                r.append(")");
                r
            },
            Expr::Unary { operator, right } => {
                let mut r = String::from_str("([unary] ");
                r.append(operator.lexeme.as_str());
                r.append(" ");
                let rt = self.render(right);
                r.append(rt.as_str());
                r.append(")");
                r
            },
            Expr::Grouping { expression } => {
                let mut r = String::from_str("([group] ");
                let inner = self.render(expression);
                r.append(inner.as_str());
                r.append(")");
                r
            },
            Expr::Call { callee, paren, arguments } => {
                let mut r = String::from_str("([call] ");
                let c = self.render(callee);
                r.append(c.as_str());
                let n = arguments.len();
                let mut i: usize = 0;
                while i < n
                    invariant
                        i <= n,
                        n == arguments@.len(),
                        r@ == "([call] "@ + spec_expr_text(**callee) + spec_args_text_upto(
                            arguments@,
                            i as int,
                        ),
                    decreases n - i,
                {
                    r.append(" ");
                    let a = self.render(&arguments[i]);
                    r.append(a.as_str());
                    i += 1;
                }
                r.append(")");
                proof {
                    lemma_args_text_upto(arguments@, n as int);
                }
                r
            },
        }
    }
}

/// The text of the first arguments of a list.
pub open spec fn spec_args_text_upto(es: Seq<Expr>, i: int) -> Seq<char>
    decreases (if i > 0 { i } else { 0 }),
{
    if i <= 0 {
        Seq::empty()
    } else if i > es.len() {
        Seq::empty()
    } else {
        spec_args_text_upto(es, i - 1) + " "@ + spec_expr_text(es[i - 1])
    }
}

/// Walking the whole list forward spells the same text as the recursive
/// definition.
proof fn lemma_args_text_upto(es: Seq<Expr>, i: int)
    requires
        0 <= i <= es.len(),
    ensures
        spec_args_text_upto(es, i) + spec_args_text(es.skip(i)) =~= spec_args_text(es),
    decreases i,
{
    if i == 0 {
        assert(es.skip(0) =~= es);
        assert(Seq::<char>::empty() + spec_args_text(es) =~= spec_args_text(es));
    } else {
        lemma_args_text_upto(es, i - 1);
        assert(es.skip(i - 1).first() == es[i - 1]);
        assert(es.skip(i - 1).drop_first() =~= es.skip(i));
        assert(spec_args_text(es.skip(i - 1)) =~= " "@ + spec_expr_text(es[i - 1])
            + spec_args_text(es.skip(i)));
        assert(spec_args_text_upto(es, i) =~= spec_args_text_upto(es, i - 1) + " "@
            + spec_expr_text(es[i - 1]));
        assert((spec_args_text_upto(es, i - 1) + " "@ + spec_expr_text(es[i - 1]))
            + spec_args_text(es.skip(i)) =~= spec_args_text_upto(es, i - 1) + (" "@
            + spec_expr_text(es[i - 1]) + spec_args_text(es.skip(i))));
    }
}

} // verus!
