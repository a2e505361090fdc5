//! The mathematical model of runtime values, and the executable helpers
//! that the evaluator shares: truthiness, structural equality, and the
//! rendering of a value to output text.

use crate::ast::FunDecl;
use crate::function::Callable;
use crate::num::{eq_bits, num_eq, num_text, text_of_bits};
use crate::text::{unescape_text, unescaped_text};
use crate::token::{LitValue, LoxType};
use vstd::prelude::*;
use vstd::string::StringExecFns;

verus! {

/// The model of a runtime value. A string is its character sequence, a
/// number its bit pattern, a function its declaration and the index of the
/// frame it captured.
#[verifier::ext_equal]
pub ghost enum ValueV {
    Str(Seq<char>),
    Num(u64),
    Bool(bool),
    Fun(FunDecl, int),
    Native,
}

/// The model of an executable value.
pub open spec fn vview(v: LoxType) -> ValueV {
    match v {
        LoxType::Str(s) => ValueV::Str(s@),
        LoxType::Num(n) => ValueV::Num(n),
        LoxType::Bool(b) => ValueV::Bool(b),
        LoxType::Callable(c) => match c {
            Callable::Lox(f) => ValueV::Fun(*f.declaration, f.env as int),
            Callable::Native(_) => ValueV::Native,
        },
    }
}

/// The model of an optional value; `None` is nil.
pub open spec fn vview_opt(v: Option<LoxType>) -> Option<ValueV> {
    match v {
        Some(x) => Some(vview(x)),
        None => None,
    }
}

/// The model of a literal value.
pub open spec fn lit_view(l: LitValue) -> ValueV {
    match l {
        LitValue::Str(s) => ValueV::Str(s@),
        LitValue::Num(n) => ValueV::Num(n),
        LitValue::Bool(b) => ValueV::Bool(b),
    }
}

/// The model of an optional literal value; `None` is nil.
pub open spec fn lit_view_opt(l: Option<LitValue>) -> Option<ValueV> {
    match l {
        Some(x) => Some(lit_view(x)),
        None => None,
    }
}

/// The runtime value a literal evaluates to.
pub fn lit_value(l: &Option<LitValue>) -> (r: Option<LoxType>)
    ensures
        vview_opt(r) == lit_view_opt(*l),
{
    match l {
        Some(LitValue::Str(s)) => Some(LoxType::Str(s.clone())),
        Some(LitValue::Num(n)) => Some(LoxType::Num(*n)),
        Some(LitValue::Bool(b)) => Some(LoxType::Bool(*b)),
        None => None,
    }
}

/// The one truthiness rule: nil and `false` are falsy, every other value,
/// numeric zero and the empty string included, is truthy.
pub open spec fn spec_truthy(v: Option<ValueV>) -> bool {
    match v {
        None => false,
        Some(ValueV::Bool(b)) => b,
        Some(_) => true,
    }
}

/// Structural equality of values: nil is equal only to nil, numbers compare
/// as IEEE-754 doubles, values of different kinds are never equal, and
/// callables compare by declaration identity.
pub open spec fn spec_is_equal(a: Option<ValueV>, b: Option<ValueV>) -> bool {
    match (a, b) {
        (None, None) => true,
        (Some(x), Some(y)) => match (x, y) {
            (ValueV::Str(s), ValueV::Str(t)) => s == t,
            (ValueV::Num(m), ValueV::Num(n)) => num_eq(m, n),
            (ValueV::Bool(p), ValueV::Bool(q)) => p == q,
            (ValueV::Fun(d, _), ValueV::Fun(e, _)) => d.id == e.id,
            (ValueV::Native, ValueV::Native) => true,
            _ => false,
        },
        _ => false,
    }
}

/// The text a value prints as: strings with their backslash escapes
/// rewritten (left as they stand when malformed), numbers and booleans in
/// their default text form, nil as a fixed placeholder, callables as a
/// bracketed tag.
pub open spec fn spec_render(v: Option<ValueV>) -> Seq<char> {
    match v {
        None => "<nil>"@,
        Some(ValueV::Str(s)) => match unescaped_text(s) {
            Some(u) => u,
            None => s,
        },
        Some(ValueV::Num(n)) => num_text(n),
        Some(ValueV::Bool(b)) => if b {
            "true"@
        } else {
            "false"@
        },
        Some(ValueV::Fun(d, _)) => "<fn "@ + d.name.lexeme@ + ">"@,
        Some(ValueV::Native) => "<native fn>"@,
    }
}

/// Coerce a value to a boolean by the truthiness rule.
pub fn is_truthy(v: &Option<LoxType>) -> (r: bool)
    ensures
        r == spec_truthy(vview_opt(*v)),
{
    match v {
        None => false,
        Some(LoxType::Bool(b)) => *b,
        Some(_) => true,
    }
}

/// Structural equality of two optional values.
pub fn is_equal(a: &Option<LoxType>, b: &Option<LoxType>) -> (r: bool)
    ensures
        r == spec_is_equal(vview_opt(*a), vview_opt(*b)),
{
    match (a, b) {
        (None, None) => true,
        (Some(x), Some(y)) => match (x, y) {
            (LoxType::Str(s), LoxType::Str(t)) => *s == *t,
            (LoxType::Num(m), LoxType::Num(n)) => eq_bits(*m, *n),
            (LoxType::Bool(p), LoxType::Bool(q)) => p == q,
            (LoxType::Callable(c), LoxType::Callable(d)) => c.eq_callable(d),
            _ => false,
        },
        _ => false,
    }
}

/// Render a value to the text it prints as.
pub fn render_value(v: &Option<LoxType>) -> (r: String)
    ensures
        r@ == spec_render(vview_opt(*v)),
{
    match v {
        None => String::from_str("<nil>"),
        Some(LoxType::Str(s)) => match unescape_text(s.as_str()) {
            Some(u) => u,
            None => s.clone(),
        },
        Some(LoxType::Num(n)) => text_of_bits(*n),
        Some(LoxType::Bool(b)) => if *b {
            String::from_str("true")
        } else {
            String::from_str("false")
        },
        Some(LoxType::Callable(Callable::Lox(f))) => {
            let mut r = String::from_str("<fn ");
            r.append(f.declaration.name.lexeme.as_str());
            r.append(">");
            r
        },
        Some(LoxType::Callable(Callable::Native(_))) => String::from_str("<native fn>"),
    }
}

} // verus!
