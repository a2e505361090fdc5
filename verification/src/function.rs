//! Callable values: declared functions with their captured environment, and
//! the native functions of the host.

use crate::ast::FunDecl;
use std::rc::Rc;
use vstd::prelude::*;

verus! {

/// Relies on `Rc::clone`: the returned handle refers to the same
/// allocation, so it carries the same value.
#[verifier::external_body]
pub(crate) fn rc_clone_fun(r: &Rc<FunDecl>) -> (o: Rc<FunDecl>)
    ensures
        o == *r,
{
    Rc::clone(r)
}

/// A declared function value: the declaration it was built from, and the
/// index of the environment frame that was active at declaration time. The
/// captured frame, not the caller's, becomes the parent of the call frame,
/// which is what makes closures lexically scoped.
#[derive(Debug)]
pub struct LoxFunction {
    pub declaration: Rc<FunDecl>,
    pub env: usize,
}

impl LoxFunction {
    pub fn new(declaration: Rc<FunDecl>, env: usize) -> (r: Self)
        ensures
            r == (LoxFunction { declaration, env }),
    {
        LoxFunction { declaration, env }
    }

    /// The number of parameters the function requires.
    pub fn arity(&self) -> (n: usize)
        ensures
            n == self.declaration.params@.len(),
    {
        self.declaration.params.len()
    }

    /// A copy that is equal, in the sense of the verifier, to the original.
    pub fn duplicate(&self) -> (r: Self)
        ensures
            r == *self,
    {
        LoxFunction { declaration: rc_clone_fun(&self.declaration), env: self.env }
    }
}

/// The native `clock` function: zero arity, result computed by the host.
#[derive(Debug, Clone, Copy, PartialEq, Eq, Structural)]
pub struct ClockNativeFunction;

impl ClockNativeFunction {
    pub fn new() -> (r: Self)
        ensures
            r == ClockNativeFunction,
    {
        ClockNativeFunction
    }

    pub fn arity(&self) -> (n: usize)
        ensures
            n == 0,
    {
        0
    }
}

/// A callable value: a declared function or a native one.
#[derive(Debug)]
pub enum Callable {
    Lox(LoxFunction),
    Native(ClockNativeFunction),
}

impl Callable {
    /// The fixed number of arguments the callable requires.
    pub fn arity(&self) -> (n: usize)
        ensures
            n == spec_arity(*self),
    {
        match self {
            Callable::Lox(f) => f.arity(),
            Callable::Native(c) => c.arity(),
        }
    }

    /// A copy that is equal, in the sense of the verifier, to the original.
    pub fn duplicate(&self) -> (r: Self)
        ensures
            r == *self,
    {
        match self {
            Callable::Lox(f) => Callable::Lox(f.duplicate()),
            Callable::Native(c) => Callable::Native(*c),
        }
    }

    /// Callables compare by declaration identity: two declared functions are
    /// equal when they come from the same declaration, and the native clock
    /// is equal to itself.
    pub fn eq_callable(&self, other: &Callable) -> (r: bool)
        ensures
            r == spec_eq_callable(*self, *other),
    {
        match (self, other) {
            (Callable::Lox(a), Callable::Lox(b)) => a.declaration.id == b.declaration.id,
            (Callable::Native(_), Callable::Native(_)) => true,
            _ => false,
        }
    }
}

/// The arity of a callable.
pub open spec fn spec_arity(c: Callable) -> nat {
    match c {
        Callable::Lox(f) => f.declaration.params@.len(),
        Callable::Native(_) => 0,
    }
}

/// Equality of callables: by declaration identity for declared functions,
/// by kind for natives.
pub open spec fn spec_eq_callable(a: Callable, b: Callable) -> bool {
    match (a, b) {
        (Callable::Lox(x), Callable::Lox(y)) => x.declaration.id == y.declaration.id,
        (Callable::Native(_), Callable::Native(_)) => true,
        _ => false,
    }
}

} // verus!
