//! The abstract syntax tree.
//!
//! Expressions and statements are closed tagged variants, one evaluation
//! rule per kind. Nodes are built once by the parser and never mutated. A
//! function declaration sits behind a shared handle so that a closure can
//! keep its declaration alive after the statement that produced it.

use crate::token::{LitValue, Token};
use std::rc::Rc;
use vstd::prelude::*;

verus! {

/// A function declaration: name, parameter list, body, and a number that
/// identifies the declaration itself. The parser gives every declaration a
/// distinct number; two function values are equal exactly when they come
/// from the same declaration.
#[derive(Debug)]
pub struct FunDecl {
    pub name: Token,
    pub params: Vec<Token>,
    pub body: Vec<Stmt>,
    pub id: usize,
}

/// An expression node. Each node owns its children exclusively: the tree is
/// never shared.
#[derive(Debug)]
pub enum Expr {
    Literal { value: Option<LitValue> },
    Variable { name: Token },
    Assign { name: Token, value: Box<Expr> },
    Binary { left: Box<Expr>, operator: Token, right: Box<Expr> },
    Logical { left: Box<Expr>, operator: Token, right: Box<Expr> },
    Unary { operator: Token, right: Box<Expr> },
    Grouping { expression: Box<Expr> },
    Call { callee: Box<Expr>, paren: Token, arguments: Vec<Expr> },
}

/// A statement node.
#[derive(Debug)]
pub enum Stmt {
    Expression { expression: Expr },
    Print { expression: Expr },
    Var { name: Token, initializer: Expr },
    Block { statements: Vec<Stmt> },
    If { condition: Expr, then_branch: Box<Stmt>, else_branch: Option<Box<Stmt>> },
    While { condition: Expr, body: Box<Stmt> },
    Function { declaration: Rc<FunDecl> },
    Return { keyword: Token, value: Option<Expr> },
}

} // verus!
