//! The parser.
//!
//! Recursive descent with one-token lookahead, from a token sequence to a
//! statement list. Its meaning is a family of specification functions over
//! the token sequence and a position; the executable parser is proved to
//! build exactly the tree they describe, through a ghost view of the tree.
//!
//! Precedence, low to high: assignment, `or`, `and`, equality, comparison,
//! term, factor, unary, call, primary. Assignment is right-associative and
//! valid only when the left side already parsed as a variable. A `for`
//! loop is rewritten at parse time into a `while` with its initializer and
//! increment. On a grammar violation the error is recorded, the token
//! stream is synchronized to the next statement boundary, and a no-op
//! placeholder takes the statement's place, so one pass can report several
//! independent errors.

use crate::ast::{Expr, FunDecl, Stmt};
use crate::token::{LitValue, LoxType, Token, TokenType};
use std::rc::Rc;
use vstd::pervasive::arbitrary;
use vstd::prelude::*;

verus! {

/// A parse failure: a message and the source position of the offending
/// token.
#[derive(Debug)]
pub struct ParseError {
    pub message: String,
    pub line: usize,
    pub column: usize,
}

/// The model of a parse failure.
#[verifier::ext_equal]
pub ghost struct ParseErrV {
    pub message: Seq<char>,
    pub line: int,
    pub column: int,
}

/// The model of an executable parse failure.
pub open spec fn pview(e: ParseError) -> ParseErrV {
    ParseErrV { message: e.message@, line: e.line as int, column: e.column as int }
}

impl ParseError {
    pub fn new(message: &str) -> (r: Self)
        ensures
            r.message@ == message@,
            r.line == 0,
            r.column == 0,
    {
        ParseError { message: message.to_owned(), line: 0, column: 0 }
    }
}

/// The failure the parser records for a token: the message, at the token's
/// position.
pub open spec fn perr(t: Token, message: Seq<char>) -> ParseErrV {
    ParseErrV { message: message, line: t.line as int, column: t.col_start as int }
}

/// Build a parse failure carrying the offending token's position.
pub fn create_parse_error(token: &Token, message: &str) -> (r: ParseError)
    ensures
        pview(r) == perr(*token, message@),
{
    ParseError { message: message.to_owned(), line: token.line, column: token.col_start }
}

/// The ghost view of an expression tree: the same shape, with sequences
/// for argument lists.
#[verifier::ext_equal]
pub ghost enum ExprV {
    Literal { value: Option<LitValue> },
    Variable { name: Token },
    Assign { name: Token, value: Box<ExprV> },
    Binary { left: Box<ExprV>, operator: Token, right: Box<ExprV> },
    Logical { left: Box<ExprV>, operator: Token, right: Box<ExprV> },
    Unary { operator: Token, right: Box<ExprV> },
    Grouping { expression: Box<ExprV> },
    Call { callee: Box<ExprV>, paren: Token, arguments: Seq<ExprV> },
}

/// The ghost view of a statement tree.
#[verifier::ext_equal]
pub ghost enum StmtV {
    Expression { expression: ExprV },
    Print { expression: ExprV },
    Var { name: Token, initializer: ExprV },
    Block { statements: Seq<StmtV> },
    If { condition: ExprV, then_branch: Box<StmtV>, else_branch: Option<Box<StmtV>> },
    While { condition: ExprV, body: Box<StmtV> },
    Function { name: Token, params: Seq<Token>, body: Seq<StmtV>, id: int },
    Return { keyword: Token, value: Option<ExprV> },
}

/// The view of an expression node.
pub open spec fn expr_view(e: Expr) -> ExprV
    decreases e,
{
    match e {
        Expr::Literal { value } => ExprV::Literal { value },
        Expr::Variable { name } => ExprV::Variable { name },
        Expr::Assign { name, value } => ExprV::Assign { name, value: Box::new(expr_view(*value)) },
        Expr::Binary { left, operator, right } => ExprV::Binary {
            left: Box::new(expr_view(*left)),
            operator,
            right: Box::new(expr_view(*right)),
        },
        Expr::Logical { left, operator, right } => ExprV::Logical {
            left: Box::new(expr_view(*left)),
            operator,
            right: Box::new(expr_view(*right)),
        },
        Expr::Unary { operator, right } => ExprV::Unary {
            operator,
            right: Box::new(expr_view(*right)),
        },
        Expr::Grouping { expression } => ExprV::Grouping {
            expression: Box::new(expr_view(*expression)),
        },
        Expr::Call { callee, paren, arguments } => ExprV::Call {
            callee: Box::new(expr_view(*callee)),
            paren,
            arguments: exprs_view(arguments@),
        },
    }
}

/// The views of a sequence of expression nodes.
pub open spec fn exprs_view(es: Seq<Expr>) -> Seq<ExprV>
    decreases es,
{
    if es.len() == 0 {
        Seq::empty()
    } else {
        seq![expr_view(es.first())] + exprs_view(es.drop_first())
    }
}

/// The view of a statement node.
pub open spec fn stmt_view(s: Stmt) -> StmtV
    decreases s,
{
    match s {
        Stmt::Expression { expression } => StmtV::Expression { expression: expr_view(expression) },
        Stmt::Print { expression } => StmtV::Print { expression: expr_view(expression) },
        Stmt::Var { name, initializer } => StmtV::Var {
            name,
            initializer: expr_view(initializer),
        },
        Stmt::Block { statements } => StmtV::Block { statements: stmts_view(statements@) },
        Stmt::If { condition, then_branch, else_branch } => StmtV::If {
            condition: expr_view(condition),
            then_branch: Box::new(stmt_view(*then_branch)),
            else_branch: match else_branch {
                Some(b) => Some(Box::new(stmt_view(*b))),
                None => None,
            },
        },
        Stmt::While { condition, body } => StmtV::While {
            condition: expr_view(condition),
            body: Box::new(stmt_view(*body)),
        },
        Stmt::Function { declaration } => StmtV::Function {
            name: declaration.name,
            params: declaration.params@,
            body: stmts_view(declaration.body@),
            id: declaration.id as int,
        },
        Stmt::Return { keyword, value } => StmtV::Return {
            keyword,
            value: match value {
                Some(e) => Some(expr_view(e)),
                None => None,
            },
        },
    }
}

/// The views of a sequence of statement nodes.
pub open spec fn stmts_view(ss: Seq<Stmt>) -> Seq<StmtV>
    decreases ss,
{
    if ss.len() == 0 {
        Seq::empty()
    } else {
        seq![stmt_view(ss.first())] + stmts_view(ss.drop_first())
    }
}

/// Appending a node appends its view.
pub proof fn lemma_exprs_view_push(es: Seq<Expr>, e: Expr)
    ensures
        exprs_view(es.push(e)) =~= exprs_view(es).push(expr_view(e)),
    decreases es.len(),
{
    if es.len() == 0 {
        assert(es.push(e).drop_first() =~= Seq::<Expr>::empty());
        assert(es.push(e).first() == e);
        assert(exprs_view(Seq::<Expr>::empty()) =~= Seq::<ExprV>::empty());
        assert(seq![expr_view(e)] + Seq::<ExprV>::empty() =~= Seq::<ExprV>::empty().push(
            expr_view(e),
        ));
    } else {
        assert(es.push(e).first() == es.first());
        assert(es.push(e).drop_first() =~= es.drop_first().push(e));
        lemma_exprs_view_push(es.drop_first(), e);
        assert(exprs_view(es.push(e)) == seq![expr_view(es.push(e).first())] + exprs_view(
            es.push(e).drop_first(),
        ));
        assert(exprs_view(es.push(e).drop_first()) == exprs_view(es.drop_first().push(e)));
        assert(exprs_view(es.drop_first().push(e)) =~= exprs_view(es.drop_first()).push(
            expr_view(e),
        ));
        assert(seq![expr_view(es.first())] + exprs_view(es.drop_first()).push(expr_view(e))
            =~= (seq![expr_view(es.first())] + exprs_view(es.drop_first())).push(expr_view(e)));
        assert(exprs_view(es) == seq![expr_view(es.first())] + exprs_view(es.drop_first()));
    }
}

/// A sequence of views is as long as the sequence it views.
pub proof fn lemma_exprs_view_len(es: Seq<Expr>)
    ensures
        exprs_view(es).len() == es.len(),
    decreases es.len(),
{
    if es.len() > 0 {
        lemma_exprs_view_len(es.drop_first());
    }
}

/// Appending a node appends its view.
pub proof fn lemma_stmts_view_push(ss: Seq<Stmt>, s: Stmt)
    ensures
        stmts_view(ss.push(s)) =~= stmts_view(ss).push(stmt_view(s)),
    decreases ss.len(),
{
    if ss.len() == 0 {
        assert(ss.push(s).drop_first() =~= Seq::<Stmt>::empty());
        assert(ss.push(s).first() == s);
        assert(stmts_view(Seq::<Stmt>::empty()) =~= Seq::<StmtV>::empty());
        assert(seq![stmt_view(s)] + Seq::<StmtV>::empty() =~= Seq::<StmtV>::empty().push(
            stmt_view(s),
        ));
    } else {
        assert(ss.push(s).first() == ss.first());
        assert(ss.push(s).drop_first() =~= ss.drop_first().push(s));
        lemma_stmts_view_push(ss.drop_first(), s);
        assert(seq![stmt_view(ss.first())] + stmts_view(ss.drop_first()).push(stmt_view(s))
            =~= (seq![stmt_view(ss.first())] + stmts_view(ss.drop_first())).push(stmt_view(s)));
    }
}

/// The literal value a scanned token carries, as the tree stores it.
pub open spec fn lit_of_token(t: Token) -> Option<LitValue> {
    match t.literal {
        Some(LoxType::Str(s)) => Some(LitValue::Str(s)),
        Some(LoxType::Num(n)) => Some(LitValue::Num(n)),
        Some(LoxType::Bool(b)) => Some(LitValue::Bool(b)),
        _ => None,
    }
}

/// The token at a position; positions stay inside the sequence because
/// every token list ends in `Eof`.
pub open spec fn peek_tok(toks: Seq<Token>, pos: int) -> Token {
    if 0 <= pos < toks.len() {
        toks[pos]
    } else {
        arbitrary()
    }
}

pub open spec fn peek_type(toks: Seq<Token>, pos: int) -> TokenType {
    peek_tok(toks, pos).token_type
}

/// Whether the position has reached the end-of-input token.
pub open spec fn p_at_end(toks: Seq<Token>, pos: int) -> bool {
    peek_type(toks, pos) == TokenType::Eof
}

/// A well-formed token list: nonempty and ending in `Eof`, as the scanner
/// produces it.
pub open spec fn tokens_wf(toks: Seq<Token>) -> bool {
    toks.len() >= 1 && toks.last().token_type == TokenType::Eof
}

/// A parse outcome: the parsed thing and the position after it, or the
/// failure and the position where it arose.
pub ghost enum PRes<T> {
    POk(T, int),
    PErr(ParseErrV, int),
}

/// The tokens that remain at a position, the termination measure of the
/// parse functions.
pub open spec fn rem(toks: Seq<Token>, pos: int) -> int {
    if 0 <= pos <= toks.len() {
        toks.len() - pos
    } else {
        0
    }
}

/// The no-op placeholder that takes a malformed statement's place.
pub open spec fn placeholder_stmt() -> StmtV {
    StmtV::Expression { expression: ExprV::Literal { value: None } }
}

/// Parse a primary expression: a literal, an identifier, or a
/// parenthesized expression.
pub open spec fn p_primary(toks: Seq<Token>, pos: int) -> PRes<ExprV>
    decreases rem(toks, pos), 0int,
{
    if !(0 <= pos < toks.len()) {
        arbitrary()
    } else {
        let t = toks[pos];
        match t.token_type {
            TokenType::False => PRes::POk(
                ExprV::Literal { value: Some(LitValue::Bool(false)) },
                pos + 1,
            ),
            TokenType::True => PRes::POk(
                ExprV::Literal { value: Some(LitValue::Bool(true)) },
                pos + 1,
            ),
            TokenType::Nil => PRes::POk(ExprV::Literal { value: None }, pos + 1),
            TokenType::Number => PRes::POk(ExprV::Literal { value: lit_of_token(t) }, pos + 1),
            TokenType::String => PRes::POk(ExprV::Literal { value: lit_of_token(t) }, pos + 1),
            TokenType::Identifier => PRes::POk(ExprV::Variable { name: t }, pos + 1),
            TokenType::LeftParen => match p_expression(toks, pos + 1) {
                PRes::POk(e, p2) => if peek_type(toks, p2) == TokenType::RightParen {
                    PRes::POk(ExprV::Grouping { expression: Box::new(e) }, p2 + 1)
                } else {
                    PRes::PErr(
                        perr(
                            peek_tok(toks, p2),
                            "Parser consume error: "@ + "Expect ')' after expression."@,
                        ),
                        p2,
                    )
                },
                PRes::PErr(e, p2) => PRes::PErr(e, p2),
            },
            _ => PRes::PErr(perr(t, "Expect expression."@), pos),
        }
    }
}

/// Parse the arguments of a call after its opening parenthesis, up to but
/// not through the closing one. At most 255 arguments.
pub open spec fn p_arguments(toks: Seq<Token>, pos: int) -> PRes<Seq<ExprV>>
    decreases rem(toks, pos), 30int,
{
    if !(0 <= pos < toks.len()) {
        arbitrary()
    } else {
    if peek_type(toks, pos) == TokenType::RightParen {
        PRes::POk(Seq::empty(), pos)
    } else {
        match p_expression(toks, pos) {
            PRes::POk(e, p2) => if p2 > pos {
                p_args_more(toks, seq![e], p2)
            } else {
                arbitrary()
            },
            PRes::PErr(e, p2) => PRes::PErr(e, p2),
        }
    }
    }
}

pub open spec fn p_args_more(toks: Seq<Token>, acc: Seq<ExprV>, pos: int) -> PRes<Seq<ExprV>>
    decreases rem(toks, pos), 29int,
{
    if !(0 <= pos < toks.len()) {
        arbitrary()
    } else {
    if peek_type(toks, pos) == TokenType::Comma {
        if acc.len() >= 255 {
            PRes::PErr(
                perr(peek_tok(toks, pos + 1), "Can't have more than 255 arguments."@),
                pos + 1,
            )
        } else {
            match p_expression(toks, pos + 1) {
                PRes::POk(e, p2) => if p2 > pos {
                    p_args_more(toks, acc.push(e), p2)
                } else {
                    arbitrary()
                },
                PRes::PErr(e, p2) => PRes::PErr(e, p2),
            }
        }
    } else {
        PRes::POk(acc, pos)
    }
    }
}

/// Parse call expressions: a primary followed by any number of argument
/// lists in parentheses.
pub open spec fn p_call(toks: Seq<Token>, pos: int) -> PRes<ExprV>
    decreases rem(toks, pos), 2int,
{
    if !(0 <= pos < toks.len()) {
        arbitrary()
    } else {
    match p_primary(toks, pos) {
        PRes::POk(e, p2) => if p2 > pos {
            p_call_tail(toks, e, p2)
        } else {
            arbitrary()
        },
        PRes::PErr(e, p2) => PRes::PErr(e, p2),
    }
    }
}

pub open spec fn p_call_tail(toks: Seq<Token>, callee: ExprV, pos: int) -> PRes<ExprV>
    decreases rem(toks, pos), 3int,
{
    if !(0 <= pos < toks.len()) {
        arbitrary()
    } else {
    if peek_type(toks, pos) == TokenType::LeftParen {
        match p_arguments(toks, pos + 1) {
            PRes::POk(args, p2) => if peek_type(toks, p2) == TokenType::RightParen {
                if p2 + 1 > pos {
                    p_call_tail(
                        toks,
                        ExprV::Call {
                            callee: Box::new(callee),
                            paren: peek_tok(toks, p2),
                            arguments: args,
                        },
                        p2 + 1,
                    )
                } else {
                    arbitrary()
                }
            } else {
                PRes::PErr(
                    perr(
                        peek_tok(toks, p2),
                        "Parser consume error: "@ + "Expect ')' after arguments."@,
                    ),
                    p2,
                )
            },
            PRes::PErr(e, p2) => PRes::PErr(e, p2),
        }
    } else {
        PRes::POk(callee, pos)
    }
    }
}

/// Parse a unary expression: `!` or `-` applied to a unary expression, or
/// a call.
pub open spec fn p_unary(toks: Seq<Token>, pos: int) -> PRes<ExprV>
    decreases rem(toks, pos), 4int,
{
    if !(0 <= pos < toks.len()) {
        arbitrary()
    } else {
    if peek_type(toks, pos) == TokenType::Bang || peek_type(toks, pos) == TokenType::Minus {
        match p_unary(toks, pos + 1) {
            PRes::POk(e, p2) => PRes::POk(
                ExprV::Unary { operator: peek_tok(toks, pos), right: Box::new(e) },
                p2,
            ),
            PRes::PErr(e, p2) => PRes::PErr(e, p2),
        }
    } else {
        p_call(toks, pos)
    }
    }
}

/// Whether a token type is an operator of the given binary level.
pub open spec fn level_op_matches(level: int, tt: TokenType) -> bool {
    if level == 0 {
        tt == TokenType::Slash || tt == TokenType::Star
    } else if level == 1 {
        tt == TokenType::Minus || tt == TokenType::Plus
    } else if level == 2 {
        tt == TokenType::Greater || tt == TokenType::GreaterEqual || tt == TokenType::Less
            || tt == TokenType::LessEqual
    } else {
        tt == TokenType::BangEqual || tt == TokenType::EqualEqual
    }
}

/// One step of a left-associative binary level: fold further operands onto
/// the expression parsed so far.
pub open spec fn p_binary_tail(toks: Seq<Token>, left: ExprV, pos: int, level: int) -> PRes<ExprV>
    decreases rem(toks, pos), 5int + 2 * level,
{
    if !(0 <= pos < toks.len()) {
        arbitrary()
    } else {
    if 0 <= level && level_op_matches(level, peek_type(toks, pos)) {
        let sub = if level == 0 {
            p_unary(toks, pos + 1)
        } else {
            p_level(toks, pos + 1, level - 1)
        };
        match sub {
            PRes::POk(right, p2) => if p2 > pos {
                p_binary_tail(
                    toks,
                    ExprV::Binary {
                        left: Box::new(left),
                        operator: peek_tok(toks, pos),
                        right: Box::new(right),
                    },
                    p2,
                    level,
                )
            } else {
                arbitrary()
            },
            PRes::PErr(e, p2) => PRes::PErr(e, p2),
        }
    } else {
        PRes::POk(left, pos)
    }
    }
}

/// Parse one left-associative binary level: its operand level, then a fold
/// over its operator set. Level 0 is factor, 1 term, 2 comparison, 3
/// equality.
pub open spec fn p_level(toks: Seq<Token>, pos: int, level: int) -> PRes<ExprV>
    decreases rem(toks, pos), 6int + 2 * level,
{
    if !(0 <= pos < toks.len()) {
        arbitrary()
    } else {
    let sub = if level == 0 {
        p_unary(toks, pos)
    } else {
        if 1 <= level <= 3 {
            p_level(toks, pos, level - 1)
        } else {
            arbitrary()
        }
    };
    match sub {
        PRes::POk(e, p2) => if p2 > pos {
            p_binary_tail(toks, e, p2, level)
        } else {
            arbitrary()
        },
        PRes::PErr(e, p2) => PRes::PErr(e, p2),
    }
    }
}

/// Parse a logical `and` level: equality operands folded left to right,
/// short-circuit nodes.
pub open spec fn p_and_tail(toks: Seq<Token>, left: ExprV, pos: int) -> PRes<ExprV>
    decreases rem(toks, pos), 15int,
{
    if !(0 <= pos < toks.len()) {
        arbitrary()
    } else {
    if peek_type(toks, pos) == TokenType::And {
        match p_level(toks, pos + 1, 3) {
            PRes::POk(right, p2) => if p2 > pos {
                p_and_tail(
                    toks,
                    ExprV::Logical {
                        left: Box::new(left),
                        operator: peek_tok(toks, pos),
                        right: Box::new(right),
                    },
                    p2,
                )
            } else {
                arbitrary()
            },
            PRes::PErr(e, p2) => PRes::PErr(e, p2),
        }
    } else {
        PRes::POk(left, pos)
    }
    }
}

pub open spec fn p_and(toks: Seq<Token>, pos: int) -> PRes<ExprV>
    decreases rem(toks, pos), 16int,
{
    if !(0 <= pos < toks.len()) {
        arbitrary()
    } else {
    match p_level(toks, pos, 3) {
        PRes::POk(e, p2) => if p2 > pos {
            p_and_tail(toks, e, p2)
        } else {
            arbitrary()
        },
        PRes::PErr(e, p2) => PRes::PErr(e, p2),
    }
    }
}

/// Parse a logical `or` level.
pub open spec fn p_or_tail(toks: Seq<Token>, left: ExprV, pos: int) -> PRes<ExprV>
    decreases rem(toks, pos), 17int,
{
    if !(0 <= pos < toks.len()) {
        arbitrary()
    } else {
    if peek_type(toks, pos) == TokenType::Or {
        match p_and(toks, pos + 1) {
            PRes::POk(right, p2) => if p2 > pos {
                p_or_tail(
                    toks,
                    ExprV::Logical {
                        left: Box::new(left),
                        operator: peek_tok(toks, pos),
                        right: Box::new(right),
                    },
                    p2,
                )
            } else {
                arbitrary()
            },
            PRes::PErr(e, p2) => PRes::PErr(e, p2),
        }
    } else {
        PRes::POk(left, pos)
    }
    }
}

pub open spec fn p_or(toks: Seq<Token>, pos: int) -> PRes<ExprV>
    decreases rem(toks, pos), 18int,
{
    if !(0 <= pos < toks.len()) {
        arbitrary()
    } else {
    match p_and(toks, pos) {
        PRes::POk(e, p2) => if p2 > pos {
            p_or_tail(toks, e, p2)
        } else {
            arbitrary()
        },
        PRes::PErr(e, p2) => PRes::PErr(e, p2),
    }
    }
}

/// Parse an assignment: an `or` expression, optionally followed by `=` and
/// another assignment. The left side must have parsed as a variable, a
/// check made on the tree, not in the grammar.
pub open spec fn p_assignment(toks: Seq<Token>, pos: int) -> PRes<ExprV>
    decreases rem(toks, pos), 20int,
{
    if !(0 <= pos < toks.len()) {
        arbitrary()
    } else {
    match p_or(toks, pos) {
        PRes::POk(e, p2) => if peek_type(toks, p2) == TokenType::Equal {
            match e {
                ExprV::Variable { name } => if p2 + 1 > pos {
                    match p_assignment(toks, p2 + 1) {
                        PRes::POk(v, p3) => PRes::POk(
                            ExprV::Assign { name, value: Box::new(v) },
                            p3,
                        ),
                        PRes::PErr(er, p3) => PRes::PErr(er, p3),
                    }
                } else {
                    arbitrary()
                },
                _ => PRes::PErr(perr(peek_tok(toks, p2), "Invalid assignment target."@), p2),
            }
        } else {
            PRes::POk(e, p2)
        },
        PRes::PErr(e, p2) => PRes::PErr(e, p2),
    }
    }
}

/// Parse an expression: the assignment level.
pub open spec fn p_expression(toks: Seq<Token>, pos: int) -> PRes<ExprV>
    decreases rem(toks, pos), 21int,
{
    p_assignment(toks, pos)
}


/// Synchronize after a parse failure: discard the offending token, then
/// discard tokens until just past a `;` or just before a statement or
/// declaration keyword.
pub open spec fn p_sync(toks: Seq<Token>, pos: int) -> int
    decreases rem(toks, pos), 0int,
{
    if !(0 <= pos < toks.len()) {
        pos
    } else if p_at_end(toks, pos) {
        pos
    } else {
        p_sync_scan(toks, pos + 1)
    }
}

pub open spec fn p_sync_scan(toks: Seq<Token>, pos: int) -> int
    decreases rem(toks, pos), 1int,
{
    if !(1 <= pos < toks.len()) {
        pos
    } else if p_at_end(toks, pos) {
        pos
    } else if toks[pos - 1].token_type == TokenType::Semicolon {
        pos
    } else {
        match toks[pos].token_type {
            TokenType::Class => pos,
            TokenType::Fun => pos,
            TokenType::Var => pos,
            TokenType::For => pos,
            TokenType::If => pos,
            TokenType::While => pos,
            TokenType::Print => pos,
            TokenType::Return => pos,
            _ => p_sync_scan(toks, pos + 1),
        }
    }
}

/// Parse a variable declaration after its `var` keyword: a name, an
/// optional initializer defaulting to nil, and a semicolon.
pub open spec fn p_var_declaration(toks: Seq<Token>, pos: int) -> PRes<StmtV>
    decreases rem(toks, pos), 39int,
{
    if !(0 <= pos < toks.len()) {
        arbitrary()
    } else if peek_type(toks, pos) != TokenType::Identifier {
        PRes::PErr(
            perr(peek_tok(toks, pos), "Parser consume error: "@ + "Expect variable name"@),
            pos,
        )
    } else {
        let name = toks[pos];
        if peek_type(toks, pos + 1) == TokenType::Equal {
            match p_expression(toks, pos + 2) {
                PRes::POk(e, p2) => if peek_type(toks, p2) == TokenType::Semicolon {
                    PRes::POk(StmtV::Var { name, initializer: e }, p2 + 1)
                } else {
                    PRes::PErr(
                        perr(
                            peek_tok(toks, p2),
                            "Parser consume error: "@ + "Expect ';' after variable declaration"@,
                        ),
                        p2,
                    )
                },
                PRes::PErr(e, p2) => PRes::PErr(e, p2),
            }
        } else {
            if peek_type(toks, pos + 1) == TokenType::Semicolon {
                PRes::POk(
                    StmtV::Var { name, initializer: ExprV::Literal { value: None } },
                    pos + 2,
                )
            } else {
                PRes::PErr(
                    perr(
                        peek_tok(toks, pos + 1),
                        "Parser consume error: "@ + "Expect ';' after variable declaration"@,
                    ),
                    pos + 1,
                )
            }
        }
    }
}

/// Parse a print statement after its keyword: an expression and a
/// semicolon.
pub open spec fn p_print_statement(toks: Seq<Token>, pos: int) -> PRes<StmtV>
    decreases rem(toks, pos), 39int,
{
    match p_expression(toks, pos) {
        PRes::POk(e, p2) => if peek_type(toks, p2) == TokenType::Semicolon {
            PRes::POk(StmtV::Print { expression: e }, p2 + 1)
        } else {
            PRes::PErr(
                perr(peek_tok(toks, p2), "Parser consume error: "@ + "Expect ';' after value."@),
                p2,
            )
        },
        PRes::PErr(e, p2) => PRes::PErr(e, p2),
    }
}

/// Parse a return statement after its keyword: an optional value and a
/// semicolon.
pub open spec fn p_return_statement(toks: Seq<Token>, kw: Token, pos: int) -> PRes<StmtV>
    decreases rem(toks, pos), 39int,
{
    if peek_type(toks, pos) == TokenType::Semicolon {
        PRes::POk(StmtV::Return { keyword: kw, value: None }, pos + 1)
    } else {
        match p_expression(toks, pos) {
            PRes::POk(e, p2) => if peek_type(toks, p2) == TokenType::Semicolon {
                PRes::POk(StmtV::Return { keyword: kw, value: Some(e) }, p2 + 1)
            } else {
                PRes::PErr(
                    perr(
                        peek_tok(toks, p2),
                        "Parser consume error: "@ + "Expect ';' after return value."@,
                    ),
                    p2,
                )
            },
            PRes::PErr(e, p2) => PRes::PErr(e, p2),
        }
    }
}

/// Parse an expression statement: an expression and a semicolon.
pub open spec fn p_expr_statement(toks: Seq<Token>, pos: int) -> PRes<StmtV>
    decreases rem(toks, pos), 40int,
{
    match p_expression(toks, pos) {
        PRes::POk(e, p2) => if peek_type(toks, p2) == TokenType::Semicolon {
            PRes::POk(StmtV::Expression { expression: e }, p2 + 1)
        } else {
            PRes::PErr(
                perr(peek_tok(toks, p2), "Parser consume error: "@ + "Expect ';' after expression."@),
                p2,
            )
        },
        PRes::PErr(e, p2) => PRes::PErr(e, p2),
    }
}

/// Parse an if statement after its keyword: a parenthesized condition, a
/// then branch, and an optional else branch.
pub open spec fn p_if_statement(toks: Seq<Token>, pos: int, base: int) -> PRes<StmtV>
    decreases rem(toks, pos), 39int,
{
    if !(0 <= pos < toks.len()) {
        arbitrary()
    } else if peek_type(toks, pos) != TokenType::LeftParen {
        PRes::PErr(
            perr(peek_tok(toks, pos), "Parser consume error: "@ + "Expect '(' after 'if'."@),
            pos,
        )
    } else {
        match p_expression(toks, pos + 1) {
            PRes::POk(cond, p2) => if peek_type(toks, p2) != TokenType::RightParen {
                PRes::PErr(
                    perr(peek_tok(toks, p2), "Parser consume error: "@ + "Expect ')' after condition."@),
                    p2,
                )
            } else {
                if p2 + 1 > pos {
                    match p_statement(toks, p2 + 1, base) {
                        PRes::POk(then_b, p3) => if peek_type(toks, p3) == TokenType::Else {
                            if p3 + 1 > pos {
                                match p_statement(toks, p3 + 1, base) {
                                    PRes::POk(else_b, p4) => PRes::POk(
                                        StmtV::If {
                                            condition: cond,
                                            then_branch: Box::new(then_b),
                                            else_branch: Some(Box::new(else_b)),
                                        },
                                        p4,
                                    ),
                                    PRes::PErr(e, p4) => PRes::PErr(e, p4),
                                }
                            } else {
                                arbitrary()
                            }
                        } else {
                            PRes::POk(
                                StmtV::If {
                                    condition: cond,
                                    then_branch: Box::new(then_b),
                                    else_branch: None,
                                },
                                p3,
                            )
                        },
                        PRes::PErr(e, p3) => PRes::PErr(e, p3),
                    }
                } else {
                    arbitrary()
                }
            },
            PRes::PErr(e, p2) => PRes::PErr(e, p2),
        }
    }
}

/// Parse a while statement after its keyword: a parenthesized condition
/// and a body.
pub open spec fn p_while_statement(toks: Seq<Token>, pos: int, base: int) -> PRes<StmtV>
    decreases rem(toks, pos), 39int,
{
    if !(0 <= pos < toks.len()) {
        arbitrary()
    } else if peek_type(toks, pos) != TokenType::LeftParen {
        PRes::PErr(
            perr(peek_tok(toks, pos), "Parser consume error: "@ + "Expect '(' after 'while'."@),
            pos,
        )
    } else {
        match p_expression(toks, pos + 1) {
            PRes::POk(cond, p2) => if peek_type(toks, p2) != TokenType::RightParen {
                PRes::PErr(
                    perr(peek_tok(toks, p2), "Parser consume error: "@ + "Expect ')' after condition."@),
                    p2,
                )
            } else {
                if p2 + 1 > pos {
                    match p_statement(toks, p2 + 1, base) {
                        PRes::POk(body, p3) => PRes::POk(
                            StmtV::While { condition: cond, body: Box::new(body) },
                            p3,
                        ),
                        PRes::PErr(e, p3) => PRes::PErr(e, p3),
                    }
                } else {
                    arbitrary()
                }
            },
            PRes::PErr(e, p2) => PRes::PErr(e, p2),
        }
    }
}

/// Parse a for statement after its keyword and rewrite it into a while:
/// the initializer is placed before the loop, wrapped together with it in
/// a block; an omitted condition becomes a literal `true`; an increment is
/// appended to the body as an expression statement inside a block.
pub open spec fn p_for_statement(toks: Seq<Token>, pos: int, base: int) -> PRes<StmtV>
    decreases rem(toks, pos), 39int,
{
    if !(0 <= pos < toks.len()) {
        arbitrary()
    } else if peek_type(toks, pos) != TokenType::LeftParen {
        PRes::PErr(
            perr(peek_tok(toks, pos), "Parser consume error: "@ + "Expect '(' after 'for'."@),
            pos,
        )
    } else {
        let initr = if peek_type(toks, pos + 1) == TokenType::Semicolon {
            PRes::POk(None, pos + 2)
        } else if peek_type(toks, pos + 1) == TokenType::Var {
            if pos + 2 > pos {
                match p_var_declaration(toks, pos + 2) {
                    PRes::POk(s, p2) => PRes::POk(Some(s), p2),
                    PRes::PErr(e, p2) => PRes::PErr(e, p2),
                }
            } else {
                arbitrary()
            }
        } else {
            match p_expr_statement(toks, pos + 1) {
                PRes::POk(s, p2) => PRes::POk(Some(s), p2),
                PRes::PErr(e, p2) => PRes::PErr(e, p2),
            }
        };
        match initr {
            PRes::POk(init, pi) => {
                let condr = if peek_type(toks, pi) == TokenType::Semicolon {
                    PRes::POk(None, pi + 1)
                } else {
                    match p_expression(toks, pi) {
                        PRes::POk(c, p2) => if peek_type(toks, p2) == TokenType::Semicolon {
                            PRes::POk(Some(c), p2 + 1)
                        } else {
                            PRes::PErr(
                                perr(
                                    peek_tok(toks, p2),
                                    "Parser consume error: "@ + "Expect ';' after loop condition."@,
                                ),
                                p2,
                            )
                        },
                        PRes::PErr(e, p2) => PRes::PErr(e, p2),
                    }
                };
                match condr {
                    PRes::POk(cond, pc) => {
                        let incrr = if peek_type(toks, pc) == TokenType::RightParen {
                            PRes::POk(None, pc + 1)
                        } else {
                            match p_expression(toks, pc) {
                                PRes::POk(x, p2) => if peek_type(toks, p2)
                                    == TokenType::RightParen {
                                    PRes::POk(Some(x), p2 + 1)
                                } else {
                                    PRes::PErr(
                                        perr(
                                            peek_tok(toks, p2),
                                            "Parser consume error: "@ + "Expect ')' after for clauses."@,
                                        ),
                                        p2,
                                    )
                                },
                                PRes::PErr(e, p2) => PRes::PErr(e, p2),
                            }
                        };
                        match incrr {
                            PRes::POk(incr, px) => if px > pos {
                                match p_statement(toks, px, base) {
                                    PRes::POk(body, pb) => PRes::POk(
                                        desugar_for(init, cond, incr, body),
                                        pb,
                                    ),
                                    PRes::PErr(e, pb) => PRes::PErr(e, pb),
                                }
                            } else {
                                arbitrary()
                            },
                            PRes::PErr(e, px) => PRes::PErr(e, px),
                        }
                    },
                    PRes::PErr(e, pc) => PRes::PErr(e, pc),
                }
            },
            PRes::PErr(e, pi) => PRes::PErr(e, pi),
        }
    }
}

/// The rewriting of a for loop into a while loop.
pub open spec fn desugar_for(
    init: Option<StmtV>,
    cond: Option<ExprV>,
    incr: Option<ExprV>,
    body: StmtV,
) -> StmtV {
    let body2 = match incr {
        Some(x) => StmtV::Block {
            statements: seq![body, StmtV::Expression { expression: x }],
        },
        None => body,
    };
    let cond2 = match cond {
        Some(c) => c,
        None => ExprV::Literal { value: Some(LitValue::Bool(true)) },
    };
    let loop_s = StmtV::While { condition: cond2, body: Box::new(body2) };
    match init {
        Some(i) => StmtV::Block { statements: seq![i, loop_s] },
        None => loop_s,
    }
}

/// Parse the parameter list of a function declaration, after its opening
/// parenthesis, up to but not through the closing one. At most 255
/// parameters.
pub open spec fn p_params(toks: Seq<Token>, pos: int) -> PRes<Seq<Token>>
    decreases rem(toks, pos), 1int,
{
    if !(0 <= pos < toks.len()) {
        arbitrary()
    } else if peek_type(toks, pos) == TokenType::RightParen {
        PRes::POk(Seq::empty(), pos)
    } else if peek_type(toks, pos) == TokenType::Identifier {
        p_params_more(toks, seq![toks[pos]], pos + 1)
    } else {
        PRes::PErr(
            perr(peek_tok(toks, pos), "Parser consume error: "@ + "Expect parameter name."@),
            pos,
        )
    }
}

pub open spec fn p_params_more(toks: Seq<Token>, acc: Seq<Token>, pos: int) -> PRes<Seq<Token>>
    decreases rem(toks, pos), 0int,
{
    if !(0 <= pos < toks.len()) {
        arbitrary()
    } else if peek_type(toks, pos) == TokenType::Comma {
        if acc.len() >= 255 {
            PRes::PErr(
                perr(peek_tok(toks, pos + 1), "Can't have more than 255 parameters."@),
                pos + 1,
            )
        } else if peek_type(toks, pos + 1) == TokenType::Identifier {
            p_params_more(toks, acc.push(peek_tok(toks, pos + 1)), pos + 2)
        } else {
            PRes::PErr(
                perr(peek_tok(toks, pos + 1), "Parser consume error: "@ + "Expect parameter name."@),
                pos + 1,
            )
        }
    } else {
        PRes::POk(acc, pos)
    }
}

/// Parse a function declaration after its `fun` keyword: name, parameter
/// list, body block. The declaration's identifying number is the parse's
/// base offset plus the position of its `fun` keyword, so declarations in
/// one token list get distinct numbers, and parses given disjoint bases
/// never collide.
pub open spec fn p_function(toks: Seq<Token>, pos: int, id: int, base: int) -> PRes<StmtV>
    decreases rem(toks, pos), 45int,
{
    if !(0 <= pos < toks.len()) {
        arbitrary()
    } else if peek_type(toks, pos) != TokenType::Identifier {
        PRes::PErr(
            perr(peek_tok(toks, pos), "Parser consume error: "@ + "Expect function name."@),
            pos,
        )
    } else {
        let name = toks[pos];
        if peek_type(toks, pos + 1) != TokenType::LeftParen {
            PRes::PErr(
                perr(
                    peek_tok(toks, pos + 1),
                    "Parser consume error: "@ + "Expect '(' after function name."@,
                ),
                pos + 1,
            )
        } else {
            match p_params(toks, pos + 2) {
                PRes::POk(params, p2) => if peek_type(toks, p2) != TokenType::RightParen {
                    PRes::PErr(
                        perr(
                            peek_tok(toks, p2),
                            "Parser consume error: "@ + "Expect ')' after parameters."@,
                        ),
                        p2,
                    )
                } else if peek_type(toks, p2 + 1) != TokenType::LeftBrace {
                    PRes::PErr(
                        perr(
                            peek_tok(toks, p2 + 1),
                            "Parser consume error: "@ + "Expect '{' before function body."@,
                        ),
                        p2 + 1,
                    )
                } else {
                    if p2 + 2 > pos {
                        match p_block_items(toks, p2 + 2, Seq::empty(), base) {
                            PRes::POk(body, p3) => PRes::POk(
                                StmtV::Function { name, params, body, id },
                                p3,
                            ),
                            PRes::PErr(e, p3) => PRes::PErr(e, p3),
                        }
                    } else {
                        arbitrary()
                    }
                },
                PRes::PErr(e, p2) => PRes::PErr(e, p2),
            }
        }
    }
}

/// Parse the statements of a block up to its closing brace. A malformed
/// statement fails the whole block: recovery happens only in the
/// top-level per-statement loop.
pub open spec fn p_block_items(
    toks: Seq<Token>,
    pos: int,
    acc: Seq<StmtV>,
    base: int,
) -> PRes<Seq<StmtV>>
    decreases rem(toks, pos), 44int,
{
    if !(0 <= pos < toks.len()) {
        arbitrary()
    } else if peek_type(toks, pos) == TokenType::RightBrace {
        PRes::POk(acc, pos + 1)
    } else if p_at_end(toks, pos) {
        PRes::PErr(
            perr(peek_tok(toks, pos), "Parser consume error: "@ + "Expect '}' after block."@),
            pos,
        )
    } else {
        match p_declaration(toks, pos, base) {
            PRes::POk(s, p2) => if p2 > pos {
                p_block_items(toks, p2, acc.push(s), base)
            } else {
                arbitrary()
            },
            PRes::PErr(e, p2) => PRes::PErr(e, p2),
        }
    }
}

/// Parse one statement.
pub open spec fn p_statement(toks: Seq<Token>, pos: int, base: int) -> PRes<StmtV>
    decreases rem(toks, pos), 41int,
{
    if !(0 <= pos < toks.len()) {
        arbitrary()
    } else {
        match peek_type(toks, pos) {
            TokenType::Print => p_print_statement(toks, pos + 1),
            TokenType::Return => p_return_statement(toks, toks[pos], pos + 1),
            TokenType::If => p_if_statement(toks, pos + 1, base),
            TokenType::While => p_while_statement(toks, pos + 1, base),
            TokenType::For => p_for_statement(toks, pos + 1, base),
            TokenType::LeftBrace => match p_block_items(toks, pos + 1, Seq::empty(), base) {
                PRes::POk(ss, p2) => PRes::POk(StmtV::Block { statements: ss }, p2),
                PRes::PErr(e, p2) => PRes::PErr(e, p2),
            },
            _ => p_expr_statement(toks, pos),
        }
    }
}

/// Parse one declaration: a variable declaration, a function declaration,
/// or a statement.
pub open spec fn p_declaration(toks: Seq<Token>, pos: int, base: int) -> PRes<StmtV>
    decreases rem(toks, pos), 42int,
{
    if !(0 <= pos < toks.len()) {
        arbitrary()
    } else {
        match peek_type(toks, pos) {
            TokenType::Var => p_var_declaration(toks, pos + 1),
            TokenType::Fun => p_function(toks, pos + 1, base + pos, base),
            _ => p_statement(toks, pos, base),
        }
    }
}

/// Parse one declaration with recovery: on failure, record the error,
/// synchronize, and substitute the no-op placeholder.
pub open spec fn p_decl_caught(toks: Seq<Token>, pos: int, base: int) -> (
    StmtV,
    Seq<ParseErrV>,
    int,
)
    decreases rem(toks, pos), 43int,
{
    match p_declaration(toks, pos, base) {
        PRes::POk(s, p2) => (s, Seq::empty(), p2),
        PRes::PErr(e, p2) => (placeholder_stmt(), seq![e], p_sync(toks, p2)),
    }
}

/// Parse a whole program: declarations until the end of input, each
/// malformed one recorded and replaced by a placeholder.
pub open spec fn p_program(
    toks: Seq<Token>,
    pos: int,
    acc: Seq<StmtV>,
    errs: Seq<ParseErrV>,
    base: int,
) -> (Seq<StmtV>, Seq<ParseErrV>)
    decreases rem(toks, pos), 46int,
{
    if !(0 <= pos < toks.len()) {
        arbitrary()
    } else if p_at_end(toks, pos) {
        (acc, errs)
    } else {
        let (s, es, p2) = p_decl_caught(toks, pos, base);
        if p2 > pos {
            p_program(toks, p2, acc.push(s), errs + es, base)
        } else {
            arbitrary()
        }
    }
}


/// The models of the recorded parse failures.
pub open spec fn perrs_view(es: Seq<ParseError>) -> Seq<ParseErrV> {
    es.map_values(|e: ParseError| pview(e))
}

/// The recursive-descent parser: the token list, the position of the next
/// token, the failures recorded so far, and the base offset of the
/// identifying numbers it gives function declarations. A declaration's
/// number is the base plus the position of its `fun` keyword, so two
/// token lists parsed with disjoint bases never share a number.
pub struct Parser {
    pub tokens: Vec<Token>,
    pub current: usize,
    pub errors: Vec<ParseError>,
    pub base: usize,
}

impl Parser {
    /// The parser's working state: a token list that ends in `Eof`, the
    /// position inside it, and a base that keeps the identifying numbers
    /// inside the machine's integers.
    pub open spec fn wf(&self) -> bool {
        tokens_wf(self.tokens@) && self.current < self.tokens@.len() && self.base
            + self.tokens@.len() <= usize::MAX
    }

    pub fn new(tokens: Vec<Token>) -> (r: Self)
        ensures
            r.tokens@ == tokens@,
            r.current == 0,
            r.errors@.len() == 0,
            r.base == 0,
    {
        Parser { tokens, current: 0, errors: Vec::new(), base: 0 }
    }

    /// A parser whose function declarations are numbered from the given
    /// base: a session that parses several texts hands each parse a fresh
    /// base past the numbers already given out, so declarations from
    /// different texts stay distinct.
    pub fn with_base(tokens: Vec<Token>, base: usize) -> (r: Self)
        requires
            base + tokens@.len() <= usize::MAX,
        ensures
            r.tokens@ == tokens@,
            r.current == 0,
            r.errors@.len() == 0,
            r.base == base,
    {
        Parser { tokens, current: 0, errors: Vec::new(), base }
    }

    /// Step past the next token; never called at the end of input.
    fn advance_one(&mut self)
        requires
            old(self).wf(),
            peek_type(old(self).tokens@, old(self).current as int) != TokenType::Eof,
        ensures
            final(self).wf(),
            final(self).tokens@ == old(self).tokens@,
            final(self).base == old(self).base,
            final(self).errors@ == old(self).errors@,
            final(self).current == old(self).current + 1,
    {
        let n = self.tokens.len();
        self.current = self.current + 1;
    }

    fn peek(&self) -> (t: &Token)
        requires
            self.wf(),
        ensures
            *t == peek_tok(self.tokens@, self.current as int),
    {
        &self.tokens[self.current]
    }

    fn peek_clone(&self) -> (t: Token)
        requires
            self.wf(),
        ensures
            t == peek_tok(self.tokens@, self.current as int),
    {
        self.tokens[self.current].duplicate()
    }

    fn is_at_end(&self) -> (r: bool)
        requires
            self.wf(),
        ensures
            r == p_at_end(self.tokens@, self.current as int),
    {
        self.tokens[self.current].token_type == TokenType::Eof
    }

    /// Whether the next token has the given kind; always false at the end
    /// of input.
    fn check(&self, ttype: TokenType) -> (r: bool)
        requires
            self.wf(),
        ensures
            r == (!p_at_end(self.tokens@, self.current as int) && peek_type(
                self.tokens@,
                self.current as int,
            ) == ttype),
    {
        if self.is_at_end() {
            false
        } else {
            self.tokens[self.current].token_type == ttype
        }
    }

    /// Demand a token of the given kind: consume and return it, or report
    /// a failure at the offending token.
    fn consume(&mut self, ttype: TokenType, message: &str) -> (r: Result<Token, ParseError>)
        requires
            old(self).wf(),
            ttype != TokenType::Eof,
        ensures
            final(self).wf(),
            final(self).tokens@ == old(self).tokens@,
            final(self).base == old(self).base,
            final(self).errors@ == old(self).errors@,
            peek_type(old(self).tokens@, old(self).current as int) == ttype ==> (r matches Ok(t)
                && t == peek_tok(old(self).tokens@, old(self).current as int) && final(self).current
                == old(self).current + 1),
            peek_type(old(self).tokens@, old(self).current as int) != ttype ==> (r matches Err(e)
                && pview(e) == perr(
                peek_tok(old(self).tokens@, old(self).current as int),
                "Parser consume error: "@ + message@,
            ) && final(self).current == old(self).current),
    {
        if self.check(ttype) {
            let t = self.peek_clone();
            self.advance_one();
            Ok(t)
        } else {
            let t = self.peek();
            let mut m = String::from_str("Parser consume error: ");
            let line = t.line;
            let column = t.col_start;
            m.append(message);
            Err(ParseError { message: m, line, column })
        }
    }

    /// Parse a primary expression.
    #[verifier::rlimit(50)]
    fn primary(&mut self) -> (r: Result<Expr, ParseError>)
        requires
            old(self).wf(),
        ensures
            final(self).wf(),
            final(self).tokens@ == old(self).tokens@,
            final(self).base == old(self).base,
            final(self).errors@ == old(self).errors@,
            old(self).current <= final(self).current,
            match (r, p_primary(old(self).tokens@, old(self).current as int)) {
                (Ok(e), PRes::POk(ev, p2)) => expr_view(e) == ev && final(self).current == p2
                    && old(self).current < p2,
                (Err(e), PRes::PErr(ev, p2)) => pview(e) == ev && final(self).current == p2,
                _ => false,
            },
        decreases rem(self.tokens@, self.current as int), 0int,
    {
        let tt = self.peek().token_type;
        match tt {
            TokenType::False => {
                self.advance_one();
                Ok(Expr::Literal { value: Some(LitValue::Bool(false)) })
            },
            TokenType::True => {
                self.advance_one();
                Ok(Expr::Literal { value: Some(LitValue::Bool(true)) })
            },
            TokenType::Nil => {
                self.advance_one();
                Ok(Expr::Literal { value: None })
            },
            TokenType::Number => {
                let v = token_literal(self.peek());
                self.advance_one();
                Ok(Expr::Literal { value: v })
            },
            TokenType::String => {
                let v = token_literal(self.peek());
                self.advance_one();
                Ok(Expr::Literal { value: v })
            },
            TokenType::Identifier => {
                let name = self.peek_clone();
                self.advance_one();
                Ok(Expr::Variable { name })
            },
            TokenType::LeftParen => {
                self.advance_one();
                let e = match self.expression() {
                    Ok(e) => e,
                    Err(er) => return Err(er),
                };
                match self.consume(TokenType::RightParen, "Expect ')' after expression.") {
                    Ok(_) => Ok(Expr::Grouping { expression: Box::new(e) }),
                    Err(er) => Err(er),
                }
            },
            _ => Err(create_parse_error(self.peek(), "Expect expression.")),
        }
    }

    /// Parse the arguments of a call, up to but not through the closing
    /// parenthesis.
    #[verifier::rlimit(50)]
    #[verifier::loop_isolation(false)]
    fn arguments(&mut self) -> (r: Result<Vec<Expr>, ParseError>)
        requires
            old(self).wf(),
        ensures
            final(self).wf(),
            final(self).tokens@ == old(self).tokens@,
            final(self).base == old(self).base,
            final(self).errors@ == old(self).errors@,
            old(self).current <= final(self).current,
            match (r, p_arguments(old(self).tokens@, old(self).current as int)) {
                (Ok(v), PRes::POk(vs, p2)) => exprs_view(v@) == vs && final(self).current == p2,
                (Err(e), PRes::PErr(ev, p2)) => pview(e) == ev && final(self).current == p2,
                _ => false,
            },
        decreases rem(self.tokens@, self.current as int), 30int,
    {
        let ghost toks = self.tokens@;
        let ghost args_start = self.current as int;
        let mut arguments: Vec<Expr> = Vec::new();
        proof {
            assert(exprs_view(Seq::<Expr>::empty()) =~= Seq::<ExprV>::empty());
        }
        if self.check(TokenType::RightParen) {
            return Ok(arguments);
        }
        let first = match self.expression() {
            Ok(x) => x,
            Err(er) => return Err(er),
        };
        arguments.push(first);
        proof {
            lemma_exprs_view_push(Seq::<Expr>::empty(), first);
            assert(exprs_view(arguments@) =~= seq![expr_view(first)]);
        }
        loop
            invariant
                self.wf(),
                self.tokens@ == toks,
                self.errors@ == old(self).errors@,
                self.base == old(self).base,
                args_start < self.current,
                p_args_more(toks, exprs_view(arguments@), self.current as int) == p_arguments(
                    toks,
                    args_start,
                ),
            decreases rem(toks, self.current as int),
        {
            proof {
                lemma_exprs_view_len(arguments@);
            }
            if !self.check(TokenType::Comma) {
                return Ok(arguments);
            }
            self.advance_one();
            if arguments.len() >= 255 {
                return Err(create_parse_error(self.peek(), "Can't have more than 255 arguments."));
            }
            let ghost before = arguments@;
            let a = match self.expression() {
                Ok(x) => x,
                Err(er) => return Err(er),
            };
            arguments.push(a);
            proof {
                lemma_exprs_view_push(before, a);
            }
        }
    }

    /// Parse call expressions: a primary followed by any number of
    /// argument lists.
    #[verifier::loop_isolation(false)]
    #[verifier::rlimit(50)]
    fn call(&mut self) -> (r: Result<Expr, ParseError>)
        requires
            old(self).wf(),
        ensures
            final(self).wf(),
            final(self).tokens@ == old(self).tokens@,
            final(self).base == old(self).base,
            final(self).errors@ == old(self).errors@,
            old(self).current <= final(self).current,
            match (r, p_call(old(self).tokens@, old(self).current as int)) {
                (Ok(e), PRes::POk(ev, p2)) => expr_view(e) == ev && final(self).current == p2
                    && old(self).current < p2,
                (Err(e), PRes::PErr(ev, p2)) => pview(e) == ev && final(self).current == p2,
                _ => false,
            },
        decreases rem(self.tokens@, self.current as int), 2int,
    {
        let ghost toks = self.tokens@;
        let mut e = match self.primary() {
            Ok(e) => e,
            Err(er) => return Err(er),
        };
        loop
            invariant
                self.wf(),
                self.tokens@ == toks,
                self.errors@ == old(self).errors@,
                self.base == old(self).base,
                old(self).current < self.current,
                p_call_tail(toks, expr_view(e), self.current as int) == p_call(
                    toks,
                    old(self).current as int,
                ),
            decreases rem(toks, self.current as int),
        {
            if !self.check(TokenType::LeftParen) {
                return Ok(e);
            }
            self.advance_one();
            let arguments = match self.arguments() {
                Ok(v) => v,
                Err(er) => return Err(er),
            };
            let paren = match self.consume(TokenType::RightParen, "Expect ')' after arguments.") {
                Ok(t) => t,
                Err(er) => return Err(er),
            };
            e = Expr::Call { callee: Box::new(e), paren, arguments };
        }
    }

    /// Parse a unary expression.
    #[verifier::rlimit(50)]
    fn unary(&mut self) -> (r: Result<Expr, ParseError>)
        requires
            old(self).wf(),
        ensures
            final(self).wf(),
            final(self).tokens@ == old(self).tokens@,
            final(self).base == old(self).base,
            final(self).errors@ == old(self).errors@,
            old(self).current <= final(self).current,
            match (r, p_unary(old(self).tokens@, old(self).current as int)) {
                (Ok(e), PRes::POk(ev, p2)) => expr_view(e) == ev && final(self).current == p2
                    && old(self).current < p2,
                (Err(e), PRes::PErr(ev, p2)) => pview(e) == ev && final(self).current == p2,
                _ => false,
            },
        decreases rem(self.tokens@, self.current as int), 4int,
    {
        if self.check(TokenType::Bang) || self.check(TokenType::Minus) {
            let operator = self.peek_clone();
            self.advance_one();
            match self.unary() {
                Ok(e) => Ok(Expr::Unary { operator, right: Box::new(e) }),
                Err(er) => Err(er),
            }
        } else {
            self.call()
        }
    }

    /// Whether the next token is an operator of the given binary level.
    fn level_op(&self, level: usize) -> (r: bool)
        requires
            self.wf(),
            level <= 3,
        ensures
            r == (!p_at_end(self.tokens@, self.current as int) && level_op_matches(
                level as int,
                peek_type(self.tokens@, self.current as int),
            )),
    {
        if level == 0 {
            self.check(TokenType::Slash) || self.check(TokenType::Star)
        } else if level == 1 {
            self.check(TokenType::Minus) || self.check(TokenType::Plus)
        } else if level == 2 {
            self.check(TokenType::Greater) || self.check(TokenType::GreaterEqual) || self.check(
                TokenType::Less,
            ) || self.check(TokenType::LessEqual)
        } else {
            self.check(TokenType::BangEqual) || self.check(TokenType::EqualEqual)
        }
    }

    /// Parse one left-associative binary level: level 0 is factor, 1 term,
    /// 2 comparison, 3 equality.
    #[verifier::loop_isolation(false)]
    #[verifier::rlimit(50)]
    fn binary_level(&mut self, level: usize) -> (r: Result<Expr, ParseError>)
        requires
            old(self).wf(),
            level <= 3,
        ensures
            final(self).wf(),
            final(self).tokens@ == old(self).tokens@,
            final(self).base == old(self).base,
            final(self).errors@ == old(self).errors@,
            old(self).current <= final(self).current,
            match (r, p_level(old(self).tokens@, old(self).current as int, level as int)) {
                (Ok(e), PRes::POk(ev, p2)) => expr_view(e) == ev && final(self).current == p2
                    && old(self).current < p2,
                (Err(e), PRes::PErr(ev, p2)) => pview(e) == ev && final(self).current == p2,
                _ => false,
            },
        decreases rem(self.tokens@, self.current as int), 6int + 2 * level,
    {
        let ghost toks = self.tokens@;
        let sub = if level == 0 {
            self.unary()
        } else {
            self.binary_level(level - 1)
        };
        let mut e = match sub {
            Ok(e) => e,
            Err(er) => return Err(er),
        };
        loop
            invariant
                self.wf(),
                self.tokens@ == toks,
                self.errors@ == old(self).errors@,
                self.base == old(self).base,
                old(self).current < self.current,
                p_binary_tail(toks, expr_view(e), self.current as int, level as int) == p_level(
                    toks,
                    old(self).current as int,
                    level as int,
                ),
            decreases rem(toks, self.current as int),
        {
            if !self.level_op(level) {
                return Ok(e);
            }
            let operator = self.peek_clone();
            self.advance_one();
            let sub2 = if level == 0 {
                self.unary()
            } else {
                self.binary_level(level - 1)
            };
            let right = match sub2 {
                Ok(x) => x,
                Err(er) => return Err(er),
            };
            e = Expr::Binary { left: Box::new(e), operator, right: Box::new(right) };
        }
    }

    /// Parse a logical `and` level.
    #[verifier::loop_isolation(false)]
    #[verifier::rlimit(50)]
    fn and_level(&mut self) -> (r: Result<Expr, ParseError>)
        requires
            old(self).wf(),
        ensures
            final(self).wf(),
            final(self).tokens@ == old(self).tokens@,
            final(self).base == old(self).base,
            final(self).errors@ == old(self).errors@,
            old(self).current <= final(self).current,
            match (r, p_and(old(self).tokens@, old(self).current as int)) {
                (Ok(e), PRes::POk(ev, p2)) => expr_view(e) == ev && final(self).current == p2
                    && old(self).current < p2,
                (Err(e), PRes::PErr(ev, p2)) => pview(e) == ev && final(self).current == p2,
                _ => false,
            },
        decreases rem(self.tokens@, self.current as int), 16int,
    {
        let ghost toks = self.tokens@;
        let mut e = match self.binary_level(3) {
            Ok(e) => e,
            Err(er) => return Err(er),
        };
        loop
            invariant
                self.wf(),
                self.tokens@ == toks,
                self.errors@ == old(self).errors@,
                self.base == old(self).base,
                old(self).current < self.current,
                p_and_tail(toks, expr_view(e), self.current as int) == p_and(
                    toks,
                    old(self).current as int,
                ),
            decreases rem(toks, self.current as int),
        {
            if !self.check(TokenType::And) {
                return Ok(e);
            }
            let operator = self.peek_clone();
            self.advance_one();
            let right = match self.binary_level(3) {
                Ok(x) => x,
                Err(er) => return Err(er),
            };
            e = Expr::Logical { left: Box::new(e), operator, right: Box::new(right) };
        }
    }

    /// Parse a logical `or` level.
    #[verifier::loop_isolation(false)]
    #[verifier::rlimit(50)]
    fn or_level(&mut self) -> (r: Result<Expr, ParseError>)
        requires
            old(self).wf(),
        ensures
            final(self).wf(),
            final(self).tokens@ == old(self).tokens@,
            final(self).base == old(self).base,
            final(self).errors@ == old(self).errors@,
            old(self).current <= final(self).current,
            match (r, p_or(old(self).tokens@, old(self).current as int)) {
                (Ok(e), PRes::POk(ev, p2)) => expr_view(e) == ev && final(self).current == p2
                    && old(self).current < p2,
                (Err(e), PRes::PErr(ev, p2)) => pview(e) == ev && final(self).current == p2,
                _ => false,
            },
        decreases rem(self.tokens@, self.current as int), 18int,
    {
        let ghost toks = self.tokens@;
        let mut e = match self.and_level() {
            Ok(e) => e,
            Err(er) => return Err(er),
        };
        loop
            invariant
                self.wf(),
                self.tokens@ == toks,
                self.errors@ == old(self).errors@,
                self.base == old(self).base,
                old(self).current < self.current,
                p_or_tail(toks, expr_view(e), self.current as int) == p_or(
                    toks,
                    old(self).current as int,
                ),
            decreases rem(toks, self.current as int),
        {
            if !self.check(TokenType::Or) {
                return Ok(e);
            }
            let operator = self.peek_clone();
            self.advance_one();
            let right = match self.and_level() {
                Ok(x) => x,
                Err(er) => return Err(er),
            };
            e = Expr::Logical { left: Box::new(e), operator, right: Box::new(right) };
        }
    }

    /// Parse an assignment: valid only when the left side parsed as a
    /// variable, a check made on the tree after parsing it.
    #[verifier::rlimit(50)]
    fn assignment(&mut self) -> (r: Result<Expr, ParseError>)
        requires
            old(self).wf(),
        ensures
            final(self).wf(),
            final(self).tokens@ == old(self).tokens@,
            final(self).base == old(self).base,
            final(self).errors@ == old(self).errors@,
            old(self).current <= final(self).current,
            match (r, p_assignment(old(self).tokens@, old(self).current as int)) {
                (Ok(e), PRes::POk(ev, p2)) => expr_view(e) == ev && final(self).current == p2
                    && old(self).current < p2,
                (Err(e), PRes::PErr(ev, p2)) => pview(e) == ev && final(self).current == p2,
                _ => false,
            },
        decreases rem(self.tokens@, self.current as int), 20int,
    {
        let e = match self.or_level() {
            Ok(e) => e,
            Err(er) => return Err(er),
        };
        if self.check(TokenType::Equal) {
            match e {
                Expr::Variable { name } => {
                    self.advance_one();
                    match self.assignment() {
                        Ok(v) => Ok(Expr::Assign { name, value: Box::new(v) }),
                        Err(er) => Err(er),
                    }
                },
                _ => Err(create_parse_error(self.peek(), "Invalid assignment target.")),
            }
        } else {
            Ok(e)
        }
    }

    /// Parse an expression: the assignment level.
    pub fn expression(&mut self) -> (r: Result<Expr, ParseError>)
        requires
            old(self).wf(),
        ensures
            final(self).wf(),
            final(self).tokens@ == old(self).tokens@,
            final(self).base == old(self).base,
            final(self).errors@ == old(self).errors@,
            old(self).current <= final(self).current,
            match (r, p_expression(old(self).tokens@, old(self).current as int)) {
                (Ok(e), PRes::POk(ev, p2)) => expr_view(e) == ev && final(self).current == p2
                    && old(self).current < p2,
                (Err(e), PRes::PErr(ev, p2)) => pview(e) == ev && final(self).current == p2,
                _ => false,
            },
        decreases rem(self.tokens@, self.current as int), 21int,
    {
        self.assignment()
    }
}

/// Build the while loop a for statement rewrites into.
fn build_for(init: Option<Stmt>, cond: Option<Expr>, incr: Option<Expr>, body: Stmt) -> (r: Stmt)
    ensures
        stmt_view(r) == desugar_for(
            match init {
                Some(s) => Some(stmt_view(s)),
                None => None,
            },
            match cond {
                Some(c) => Some(expr_view(c)),
                None => None,
            },
            match incr {
                Some(x) => Some(expr_view(x)),
                None => None,
            },
            stmt_view(body),
        ),
{
    let body2 = match incr {
        Some(x) => {
            let ghost bv = stmt_view(body);
            let incr_stmt = Stmt::Expression { expression: x };
            let ghost iv = stmt_view(incr_stmt);
            let mut v: Vec<Stmt> = Vec::new();
            v.push(body);
            v.push(incr_stmt);
            proof {
                assert(stmts_view(Seq::<Stmt>::empty()) =~= Seq::<StmtV>::empty());
                lemma_stmts_view_push(Seq::<Stmt>::empty(), v@[0]);
                assert(seq![v@[0]] =~= Seq::<Stmt>::empty().push(v@[0]));
                lemma_stmts_view_push(seq![v@[0]], v@[1]);
                assert(v@ =~= seq![v@[0]].push(v@[1]));
                assert(stmts_view(v@) =~= seq![bv, iv]);
            }
            Stmt::Block { statements: v }
        },
        None => body,
    };
    let condition2 = match cond {
        Some(c) => c,
        None => Expr::Literal { value: Some(LitValue::Bool(true)) },
    };
    proof {
        assert(stmt_view(body2) == (match incr {
            Some(x) => StmtV::Block {
                statements: seq![
                    stmt_view(body),
                    StmtV::Expression { expression: expr_view(x) },
                ],
            },
            None => stmt_view(body),
        }));
        assert(expr_view(condition2) == (match cond {
            Some(c) => expr_view(c),
            None => ExprV::Literal { value: Some(LitValue::Bool(true)) },
        }));
    }
    let loop_stmt = Stmt::While { condition: condition2, body: Box::new(body2) };
    match init {
        Some(i) => {
            proof {
                assert(stmt_view(loop_stmt) == StmtV::While {
                    condition: match cond {
                        Some(c) => expr_view(c),
                        None => ExprV::Literal { value: Some(LitValue::Bool(true)) },
                    },
                    body: Box::new(match incr {
                        Some(x) => StmtV::Block {
                            statements: seq![
                                stmt_view(body),
                                StmtV::Expression { expression: expr_view(x) },
                            ],
                        },
                        None => stmt_view(body),
                    }),
                });
            }
            let ghost iv = stmt_view(i);
            let ghost wv = stmt_view(loop_stmt);
            let mut v: Vec<Stmt> = Vec::new();
            v.push(i);
            v.push(loop_stmt);
            proof {
                assert(stmts_view(Seq::<Stmt>::empty()) =~= Seq::<StmtV>::empty());
                lemma_stmts_view_push(Seq::<Stmt>::empty(), v@[0]);
                assert(seq![v@[0]] =~= Seq::<Stmt>::empty().push(v@[0]));
                lemma_stmts_view_push(seq![v@[0]], v@[1]);
                assert(v@ =~= seq![v@[0]].push(v@[1]));
                assert(stmts_view(v@) =~= seq![iv, wv]);
            }
            Stmt::Block { statements: v }
        },
        None => loop_stmt,
    }
}

/// The literal value a token carries, as the tree stores it.
fn token_literal(t: &Token) -> (r: Option<LitValue>)
    ensures
        r == lit_of_token(*t),
{
    match &t.literal {
        Some(LoxType::Str(s)) => Some(LitValue::Str(s.clone())),
        Some(LoxType::Num(n)) => Some(LitValue::Num(*n)),
        Some(LoxType::Bool(b)) => Some(LitValue::Bool(*b)),
        _ => None,
    }
}


impl Parser {
    /// Discard tokens until just past a `;` or just before a statement or
    /// declaration keyword, so parsing can resume at a boundary.
    #[verifier::loop_isolation(false)]
    pub fn synchronize(&mut self)
        requires
            old(self).wf(),
        ensures
            final(self).wf(),
            final(self).tokens@ == old(self).tokens@,
            final(self).base == old(self).base,
            final(self).errors@ == old(self).errors@,
            final(self).current as int == p_sync(old(self).tokens@, old(self).current as int),
            old(self).current <= final(self).current,
            !p_at_end(old(self).tokens@, old(self).current as int) ==> old(self).current
                < final(self).current,
    {
        let ghost toks = self.tokens@;
        if self.is_at_end() {
            return ;
        }
        self.advance_one();
        loop
            invariant
                self.wf(),
                self.tokens@ == toks,
                self.errors@ == old(self).errors@,
                self.base == old(self).base,
                old(self).current < self.current,
                p_sync_scan(toks, self.current as int) == p_sync(toks, old(self).current as int),
            decreases rem(toks, self.current as int),
        {
            if self.is_at_end() {
                return ;
            }
            if self.tokens[self.current - 1].token_type == TokenType::Semicolon {
                return ;
            }
            match self.peek().token_type {
                TokenType::Class => return ,
                TokenType::Fun => return ,
                TokenType::Var => return ,
                TokenType::For => return ,
                TokenType::If => return ,
                TokenType::While => return ,
                TokenType::Print => return ,
                TokenType::Return => return ,
                _ => {},
            }
            self.advance_one();
        }
    }

    /// Parse a variable declaration after its `var` keyword.
    fn var_declaration(&mut self) -> (r: Result<Stmt, ParseError>)
        requires
            old(self).wf(),
        ensures
            final(self).wf(),
            final(self).tokens@ == old(self).tokens@,
            final(self).base == old(self).base,
            final(self).errors@ == old(self).errors@,
            old(self).current <= final(self).current,
            match (r, p_var_declaration(old(self).tokens@, old(self).current as int)) {
                (Ok(s), PRes::POk(sv, p2)) => stmt_view(s) == sv && final(self).current == p2
                    && old(self).current < p2,
                (Err(e), PRes::PErr(ev, p2)) => pview(e) == ev && final(self).current == p2,
                _ => false,
            },
        decreases rem(self.tokens@, self.current as int), 39int,
    {
        let name = match self.consume(TokenType::Identifier, "Expect variable name") {
            Ok(t) => t,
            Err(er) => return Err(er),
        };
        if self.check(TokenType::Equal) {
            self.advance_one();
            let initializer = match self.expression() {
                Ok(e) => e,
                Err(er) => return Err(er),
            };
            match self.consume(TokenType::Semicolon, "Expect ';' after variable declaration") {
                Ok(_) => Ok(Stmt::Var { name, initializer }),
                Err(er) => Err(er),
            }
        } else {
            match self.consume(TokenType::Semicolon, "Expect ';' after variable declaration") {
                Ok(_) => Ok(Stmt::Var { name, initializer: Expr::Literal { value: None } }),
                Err(er) => Err(er),
            }
        }
    }

    /// Parse a print statement after its keyword.
    fn print_statement(&mut self) -> (r: Result<Stmt, ParseError>)
        requires
            old(self).wf(),
        ensures
            final(self).wf(),
            final(self).tokens@ == old(self).tokens@,
            final(self).base == old(self).base,
            final(self).errors@ == old(self).errors@,
            old(self).current <= final(self).current,
            match (r, p_print_statement(old(self).tokens@, old(self).current as int)) {
                (Ok(s), PRes::POk(sv, p2)) => stmt_view(s) == sv && final(self).current == p2
                    && old(self).current < p2,
                (Err(e), PRes::PErr(ev, p2)) => pview(e) == ev && final(self).current == p2,
                _ => false,
            },
        decreases rem(self.tokens@, self.current as int), 39int,
    {
        let expression = match self.expression() {
            Ok(e) => e,
            Err(er) => return Err(er),
        };
        match self.consume(TokenType::Semicolon, "Expect ';' after value.") {
            Ok(_) => Ok(Stmt::Print { expression }),
            Err(er) => Err(er),
        }
    }

    /// Parse a return statement after its keyword.
    fn return_statement(&mut self, keyword: Token) -> (r: Result<Stmt, ParseError>)
        requires
            old(self).wf(),
        ensures
            final(self).wf(),
            final(self).tokens@ == old(self).tokens@,
            final(self).base == old(self).base,
            final(self).errors@ == old(self).errors@,
            old(self).current <= final(self).current,
            match (r, p_return_statement(old(self).tokens@, keyword, old(self).current as int)) {
                (Ok(s), PRes::POk(sv, p2)) => stmt_view(s) == sv && final(self).current == p2
                    && old(self).current < p2,
                (Err(e), PRes::PErr(ev, p2)) => pview(e) == ev && final(self).current == p2,
                _ => false,
            },
        decreases rem(self.tokens@, self.current as int), 39int,
    {
        if self.check(TokenType::Semicolon) {
            self.advance_one();
            return Ok(Stmt::Return { keyword, value: None });
        }
        let e = match self.expression() {
            Ok(e) => e,
            Err(er) => return Err(er),
        };
        match self.consume(TokenType::Semicolon, "Expect ';' after return value.") {
            Ok(_) => Ok(Stmt::Return { keyword, value: Some(e) }),
            Err(er) => Err(er),
        }
    }

    /// Parse an expression statement.
    fn expression_statement(&mut self) -> (r: Result<Stmt, ParseError>)
        requires
            old(self).wf(),
        ensures
            final(self).wf(),
            final(self).tokens@ == old(self).tokens@,
            final(self).base == old(self).base,
            final(self).errors@ == old(self).errors@,
            old(self).current <= final(self).current,
            match (r, p_expr_statement(old(self).tokens@, old(self).current as int)) {
                (Ok(s), PRes::POk(sv, p2)) => stmt_view(s) == sv && final(self).current == p2
                    && old(self).current < p2,
                (Err(e), PRes::PErr(ev, p2)) => pview(e) == ev && final(self).current == p2,
                _ => false,
            },
        decreases rem(self.tokens@, self.current as int), 40int,
    {
        let expression = match self.expression() {
            Ok(e) => e,
            Err(er) => return Err(er),
        };
        match self.consume(TokenType::Semicolon, "Expect ';' after expression.") {
            Ok(_) => Ok(Stmt::Expression { expression }),
            Err(er) => Err(er),
        }
    }

    /// Parse an if statement after its keyword.
    fn if_statement(&mut self) -> (r: Result<Stmt, ParseError>)
        requires
            old(self).wf(),
        ensures
            final(self).wf(),
            final(self).tokens@ == old(self).tokens@,
            final(self).base == old(self).base,
            final(self).errors@ == old(self).errors@,
            old(self).current <= final(self).current,
            match (r, p_if_statement(old(self).tokens@, old(self).current as int, old(self).base as int)) {
                (Ok(s), PRes::POk(sv, p2)) => stmt_view(s) == sv && final(self).current == p2
                    && old(self).current < p2,
                (Err(e), PRes::PErr(ev, p2)) => pview(e) == ev && final(self).current == p2,
                _ => false,
            },
        decreases rem(self.tokens@, self.current as int), 39int,
    {
        match self.consume(TokenType::LeftParen, "Expect '(' after 'if'.") {
            Ok(_) => {},
            Err(er) => return Err(er),
        }
        let condition = match self.expression() {
            Ok(e) => e,
            Err(er) => return Err(er),
        };
        match self.consume(TokenType::RightParen, "Expect ')' after condition.") {
            Ok(_) => {},
            Err(er) => return Err(er),
        }
        let then_branch = match self.statement() {
            Ok(s) => s,
            Err(er) => return Err(er),
        };
        if self.check(TokenType::Else) {
            self.advance_one();
            let else_branch = match self.statement() {
                Ok(s) => s,
                Err(er) => return Err(er),
            };
            Ok(
                Stmt::If {
                    condition,
                    then_branch: Box::new(then_branch),
                    else_branch: Some(Box::new(else_branch)),
                },
            )
        } else {
            Ok(Stmt::If { condition, then_branch: Box::new(then_branch), else_branch: None })
        }
    }

    /// Parse a while statement after its keyword.
    fn while_statement(&mut self) -> (r: Result<Stmt, ParseError>)
        requires
            old(self).wf(),
        ensures
            final(self).wf(),
            final(self).tokens@ == old(self).tokens@,
            final(self).base == old(self).base,
            final(self).errors@ == old(self).errors@,
            old(self).current <= final(self).current,
            match (r, p_while_statement(old(self).tokens@, old(self).current as int, old(self).base as int)) {
                (Ok(s), PRes::POk(sv, p2)) => stmt_view(s) == sv && final(self).current == p2
                    && old(self).current < p2,
                (Err(e), PRes::PErr(ev, p2)) => pview(e) == ev && final(self).current == p2,
                _ => false,
            },
        decreases rem(self.tokens@, self.current as int), 39int,
    {
        match self.consume(TokenType::LeftParen, "Expect '(' after 'while'.") {
            Ok(_) => {},
            Err(er) => return Err(er),
        }
        let condition = match self.expression() {
            Ok(e) => e,
            Err(er) => return Err(er),
        };
        match self.consume(TokenType::RightParen, "Expect ')' after condition.") {
            Ok(_) => {},
            Err(er) => return Err(er),
        }
        match self.statement() {
            Ok(body) => Ok(Stmt::While { condition, body: Box::new(body) }),
            Err(er) => Err(er),
        }
    }

    /// Parse a for statement after its keyword and rewrite it into a
    /// while, as `desugar_for` says.
    #[verifier::rlimit(100)]
    #[verifier::spinoff_prover]
    fn for_statement(&mut self) -> (r: Result<Stmt, ParseError>)
        requires
            old(self).wf(),
        ensures
            final(self).wf(),
            final(self).tokens@ == old(self).tokens@,
            final(self).base == old(self).base,
            final(self).errors@ == old(self).errors@,
            old(self).current <= final(self).current,
            match (r, p_for_statement(old(self).tokens@, old(self).current as int, old(self).base as int)) {
                (Ok(s), PRes::POk(sv, p2)) => stmt_view(s) == sv && final(self).current == p2
                    && old(self).current < p2,
                (Err(e), PRes::PErr(ev, p2)) => pview(e) == ev && final(self).current == p2,
                _ => false,
            },
        decreases rem(self.tokens@, self.current as int), 39int,
    {
        match self.consume(TokenType::LeftParen, "Expect '(' after 'for'.") {
            Ok(_) => {},
            Err(er) => return Err(er),
        }
        let initializer: Option<Stmt> = if self.check(TokenType::Semicolon) {
            self.advance_one();
            None
        } else if self.check(TokenType::Var) {
            self.advance_one();
            match self.var_declaration() {
                Ok(s) => Some(s),
                Err(er) => return Err(er),
            }
        } else {
            match self.expression_statement() {
                Ok(s) => Some(s),
                Err(er) => return Err(er),
            }
        };
        let condition: Option<Expr> = if self.check(TokenType::Semicolon) {
            self.advance_one();
            None
        } else {
            let c = match self.expression() {
                Ok(e) => e,
                Err(er) => return Err(er),
            };
            match self.consume(TokenType::Semicolon, "Expect ';' after loop condition.") {
                Ok(_) => {},
                Err(er) => return Err(er),
            }
            Some(c)
        };
        let increment: Option<Expr> = if self.check(TokenType::RightParen) {
            self.advance_one();
            None
        } else {
            let x = match self.expression() {
                Ok(e) => e,
                Err(er) => return Err(er),
            };
            match self.consume(TokenType::RightParen, "Expect ')' after for clauses.") {
                Ok(_) => {},
                Err(er) => return Err(er),
            }
            Some(x)
        };
        let body = match self.statement() {
            Ok(s) => s,
            Err(er) => return Err(er),
        };
        Ok(build_for(initializer, condition, increment, body))
    }

    /// Parse the parameter list of a function declaration, up to but not
    /// through the closing parenthesis.
    #[verifier::loop_isolation(false)]
    fn params(&mut self) -> (r: Result<Vec<Token>, ParseError>)
        requires
            old(self).wf(),
        ensures
            final(self).wf(),
            final(self).tokens@ == old(self).tokens@,
            final(self).base == old(self).base,
            final(self).errors@ == old(self).errors@,
            old(self).current <= final(self).current,
            match (r, p_params(old(self).tokens@, old(self).current as int)) {
                (Ok(v), PRes::POk(vs, p2)) => v@ == vs && final(self).current == p2,
                (Err(e), PRes::PErr(ev, p2)) => pview(e) == ev && final(self).current == p2,
                _ => false,
            },
    {
        let ghost toks = self.tokens@;
        let ghost start = self.current as int;
        let mut params: Vec<Token> = Vec::new();
        if self.check(TokenType::RightParen) {
            return Ok(params);
        }
        match self.consume(TokenType::Identifier, "Expect parameter name.") {
            Ok(t) => params.push(t),
            Err(er) => return Err(er),
        }
        proof {
            assert(params@ =~= seq![toks[start]]);
        }
        loop
            invariant
                self.wf(),
                self.tokens@ == toks,
                self.errors@ == old(self).errors@,
                self.base == old(self).base,
                start < self.current,
                p_params_more(toks, params@, self.current as int) == p_params(toks, start),
            decreases rem(toks, self.current as int),
        {
            if !self.check(TokenType::Comma) {
                return Ok(params);
            }
            self.advance_one();
            if params.len() >= 255 {
                return Err(create_parse_error(self.peek(), "Can't have more than 255 parameters."));
            }
            match self.consume(TokenType::Identifier, "Expect parameter name.") {
                Ok(t) => params.push(t),
                Err(er) => return Err(er),
            }
        }
    }

    /// Parse the statements of a block up to and through its closing
    /// brace.
    #[verifier::loop_isolation(false)]
    fn block_items(&mut self) -> (r: Result<Vec<Stmt>, ParseError>)
        requires
            old(self).wf(),
        ensures
            final(self).wf(),
            final(self).tokens@ == old(self).tokens@,
            final(self).base == old(self).base,
            final(self).errors@ == old(self).errors@,
            old(self).current <= final(self).current,
            match (r, p_block_items(
                old(self).tokens@,
                old(self).current as int,
                Seq::empty(),
                old(self).base as int,
            )) {
                (Ok(v), PRes::POk(vs, p2)) => stmts_view(v@) == vs && final(self).current == p2
                    && old(self).current < p2,
                (Err(e), PRes::PErr(ev, p2)) => pview(e) == ev && final(self).current == p2,
                _ => false,
            },
        decreases rem(self.tokens@, self.current as int), 44int,
    {
        let ghost toks = self.tokens@;
        let mut items: Vec<Stmt> = Vec::new();
        proof {
            assert(stmts_view(Seq::<Stmt>::empty()) =~= Seq::<StmtV>::empty());
        }
        loop
            invariant
                self.wf(),
                self.tokens@ == toks,
                self.errors@ == old(self).errors@,
                self.base == old(self).base,
                old(self).current <= self.current,
                p_block_items(
                    toks,
                    self.current as int,
                    stmts_view(items@),
                    old(self).base as int,
                ) == p_block_items(
                    toks,
                    old(self).current as int,
                    Seq::empty(),
                    old(self).base as int,
                ),
            decreases rem(toks, self.current as int),
        {
            if self.check(TokenType::RightBrace) {
                self.advance_one();
                return Ok(items);
            }
            if self.is_at_end() {
                let t = self.peek();
                let line = t.line;
                let column = t.col_start;
                let mut m = String::from_str("Parser consume error: ");
                m.append("Expect '}' after block.");
                return Err(ParseError { message: m, line, column });
            }
            let ghost before = items@;
            match self.declaration() {
                Ok(s) => {
                    items.push(s);
                    proof {
                        lemma_stmts_view_push(before, items@.last());
                        assert(items@ =~= before.push(items@.last()));
                    }
                },
                Err(er) => return Err(er),
            }
        }
    }

    /// Parse a function declaration after its `fun` keyword; the
    /// declaration's identifying number is handed in by the caller.
    fn function_declaration(&mut self, id: usize) -> (r: Result<Stmt, ParseError>)
        requires
            old(self).wf(),
        ensures
            final(self).wf(),
            final(self).tokens@ == old(self).tokens@,
            final(self).base == old(self).base,
            final(self).errors@ == old(self).errors@,
            old(self).current <= final(self).current,
            match (r, p_function(old(self).tokens@, old(self).current as int, id as int, old(self).base as int)) {
                (Ok(s), PRes::POk(sv, p2)) => stmt_view(s) == sv && final(self).current == p2
                    && old(self).current < p2,
                (Err(e), PRes::PErr(ev, p2)) => pview(e) == ev && final(self).current == p2,
                _ => false,
            },
        decreases rem(self.tokens@, self.current as int), 45int,
    {
        let name = match self.consume(TokenType::Identifier, "Expect function name.") {
            Ok(t) => t,
            Err(er) => return Err(er),
        };
        match self.consume(TokenType::LeftParen, "Expect '(' after function name.") {
            Ok(_) => {},
            Err(er) => return Err(er),
        }
        let params = match self.params() {
            Ok(v) => v,
            Err(er) => return Err(er),
        };
        match self.consume(TokenType::RightParen, "Expect ')' after parameters.") {
            Ok(_) => {},
            Err(er) => return Err(er),
        }
        match self.consume(TokenType::LeftBrace, "Expect '{' before function body.") {
            Ok(_) => {},
            Err(er) => return Err(er),
        }
        let body = match self.block_items() {
            Ok(v) => v,
            Err(er) => return Err(er),
        };
        Ok(Stmt::Function { declaration: Rc::new(FunDecl { name, params, body, id }) })
    }

    /// Parse one statement.
    fn statement(&mut self) -> (r: Result<Stmt, ParseError>)
        requires
            old(self).wf(),
        ensures
            final(self).wf(),
            final(self).tokens@ == old(self).tokens@,
            final(self).base == old(self).base,
            final(self).errors@ == old(self).errors@,
            old(self).current <= final(self).current,
            match (r, p_statement(old(self).tokens@, old(self).current as int, old(self).base as int)) {
                (Ok(s), PRes::POk(sv, p2)) => stmt_view(s) == sv && final(self).current == p2
                    && old(self).current < p2,
                (Err(e), PRes::PErr(ev, p2)) => pview(e) == ev && final(self).current == p2,
                _ => false,
            },
        decreases rem(self.tokens@, self.current as int), 41int,
    {
        let tt = self.peek().token_type;
        match tt {
            TokenType::Print => {
                self.advance_one();
                self.print_statement()
            },
            TokenType::Return => {
                let keyword = self.peek_clone();
                self.advance_one();
                self.return_statement(keyword)
            },
            TokenType::If => {
                self.advance_one();
                self.if_statement()
            },
            TokenType::While => {
                self.advance_one();
                self.while_statement()
            },
            TokenType::For => {
                self.advance_one();
                self.for_statement()
            },
            TokenType::LeftBrace => {
                self.advance_one();
                match self.block_items() {
                    Ok(v) => Ok(Stmt::Block { statements: v }),
                    Err(er) => Err(er),
                }
            },
            _ => self.expression_statement(),
        }
    }

    /// Parse one declaration: a variable or function declaration, or a
    /// statement.
    pub fn declaration(&mut self) -> (r: Result<Stmt, ParseError>)
        requires
            old(self).wf(),
        ensures
            final(self).wf(),
            final(self).tokens@ == old(self).tokens@,
            final(self).base == old(self).base,
            final(self).errors@ == old(self).errors@,
            old(self).current <= final(self).current,
            match (r, p_declaration(old(self).tokens@, old(self).current as int, old(self).base as int)) {
                (Ok(s), PRes::POk(sv, p2)) => stmt_view(s) == sv && final(self).current == p2
                    && old(self).current < p2,
                (Err(e), PRes::PErr(ev, p2)) => pview(e) == ev && final(self).current == p2,
                _ => false,
            },
        decreases rem(self.tokens@, self.current as int), 42int,
    {
        let tt = self.peek().token_type;
        match tt {
            TokenType::Var => {
                self.advance_one();
                self.var_declaration()
            },
            TokenType::Fun => {
                let id = self.base + self.current;
                self.advance_one();
                self.function_declaration(id)
            },
            _ => self.statement(),
        }
    }

    /// Parse a whole program: declarations until the end of input. A
    /// malformed statement is recorded, the stream synchronized, and a
    /// no-op placeholder put in its place, so one pass surfaces several
    /// independent failures.
    #[verifier::loop_isolation(false)]
    pub fn parse(&mut self) -> (r: Vec<Stmt>)
        requires
            old(self).wf(),
        ensures
            final(self).wf(),
            final(self).tokens@ == old(self).tokens@,
            final(self).base == old(self).base,
            ({
                let (ss, es) = p_program(
                    old(self).tokens@,
                    old(self).current as int,
                    Seq::empty(),
                    perrs_view(old(self).errors@),
                    old(self).base as int,
                );
                stmts_view(r@) == ss && perrs_view(final(self).errors@) == es
            }),
    {
        let ghost toks = self.tokens@;
        let mut statements: Vec<Stmt> = Vec::new();
        proof {
            assert(stmts_view(Seq::<Stmt>::empty()) =~= Seq::<StmtV>::empty());
        }
        loop
            invariant
                self.wf(),
                self.tokens@ == toks,
                self.base == old(self).base,
                p_program(
                    toks,
                    self.current as int,
                    stmts_view(statements@),
                    perrs_view(self.errors@),
                    old(self).base as int,
                ) == p_program(
                    toks,
                    old(self).current as int,
                    Seq::empty(),
                    perrs_view(old(self).errors@),
                    old(self).base as int,
                ),
            decreases rem(toks, self.current as int),
        {
            if self.is_at_end() {
                return statements;
            }
            let ghost before = statements@;
            let ghost before_errs = self.errors@;
            match self.declaration() {
                Ok(s) => {
                    statements.push(s);
                    proof {
                        lemma_stmts_view_push(before, statements@.last());
                        assert(statements@ =~= before.push(statements@.last()));
                        assert(perrs_view(self.errors@) + Seq::<ParseErrV>::empty() =~= perrs_view(
                            self.errors@,
                        ));
                    }
                },
                Err(e) => {
                    let ghost ev = pview(e);
                    self.errors.push(e);
                    self.synchronize();
                    statements.push(Stmt::Expression { expression: Expr::Literal { value: None } });
                    proof {
                        lemma_stmts_view_push(before, statements@.last());
                        assert(statements@ =~= before.push(statements@.last()));
                        assert(perrs_view(self.errors@) =~= perrs_view(before_errs) + seq![ev]);
                    }
                },
            }
        }
    }
}

} // verus!
