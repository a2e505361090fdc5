//! The evaluator.
//!
//! The meaning of a program is given by a family of specification
//! functions: a big-step semantics over the model state, bounded by a step
//! budget so that it is a total mathematical function. The executable
//! interpreter is proved to return exactly what the semantics says, state,
//! output and error included. A budget that runs out is reported as a
//! runtime error of its own, the guard against runaway loops and
//! recursion.
//!
//! Runtime errors are fatal: evaluation stops and the error is handed
//! back, with the offending token where there is one. The return signal is
//! not an error: it is a control-flow result that every statement rule
//! propagates until a function-call boundary catches it.

use crate::ast::{Expr, FunDecl, Stmt};
use crate::env::{chain_assign, chain_lookup, frames_view, wf_frames, Environment, FrameV};
use crate::function::{rc_clone_fun, Callable, ClockNativeFunction, LoxFunction};
use crate::num::{
    add_bits, div_bits, eq_bits, ge_bits, gt_bits, le_bits, lt_bits, mul_bits, num_add, num_div,
    num_eq, num_ge, num_gt, num_le, num_lt, num_mul, num_neg, num_sub, num_text, spec_num_neg,
    sub_bits, text_of_bits, current_seconds, seconds_to_bits, ZERO_BITS,
};
use crate::token::{duplicate_value, LoxType, Token, TokenType};
use crate::value::{
    is_equal, is_truthy, lit_value, lit_view_opt, render_value, spec_is_equal, spec_render,
    spec_truthy, vview_opt, ValueV,
};
use vstd::prelude::*;

verus! {

/// The default step budget of `interpret`: a guard against runaway loops
/// and recursion.
pub const DEFAULT_STEPS: u64 = 1000000;

/// A fatal runtime failure. Each variant carries the offending token or
/// the counts it reports, so a diagnostic can name them.
#[derive(Debug)]
pub enum RuntimeError {
    /// A unary operand of the wrong kind.
    OperandNotNumber { operator: Token },
    /// A binary operand was nil.
    OperandNil { operator: Token },
    /// Both operands of an arithmetic or ordering operator must be numbers.
    OperandsNotNumbers { operator: Token },
    /// `+` takes two numbers, or a string on either side.
    OperandsNotNumbersOrStrings { operator: Token },
    /// Division by zero.
    DivisionByZero { operator: Token },
    /// A name that no frame in the active chain binds.
    UndefinedVariable { name: Token },
    /// Only functions can be called.
    NotCallable { paren: Token },
    /// The argument count differs from the callable's arity.
    ArityMismatch { paren: Token, expected: usize, actual: usize },
    /// The step budget ran out.
    OutOfSteps,
}

/// What executing a statement hands back: fall-through, or a return signal
/// unwinding with its value.
#[derive(Debug)]
pub enum Flow {
    Normal,
    Returning(Option<LoxType>),
}

/// The model of a flow result.
#[verifier::ext_equal]
pub ghost enum FlowV {
    Normal,
    Returning(Option<ValueV>),
}

/// The model of an executable flow result.
pub open spec fn fview(f: Flow) -> FlowV {
    match f {
        Flow::Normal => FlowV::Normal,
        Flow::Returning(v) => FlowV::Returning(vview_opt(v)),
    }
}

/// The model of the whole interpreter state: the frame arena, the index of
/// the active frame, the output chunks printed so far, and the clock
/// reading the native `clock` currently yields.
#[verifier::ext_equal]
pub ghost struct StateV {
    pub frames: Seq<FrameV>,
    pub cur: int,
    pub out: Seq<Seq<char>>,
    pub now: u64,
}

/// A value is well formed when any environment it captures lies inside the
/// arena.
pub open spec fn value_wf(v: ValueV, n: int) -> bool {
    match v {
        ValueV::Fun(d, env) => 0 <= env < n,
        _ => true,
    }
}

pub open spec fn value_wf_opt(v: Option<ValueV>, n: int) -> bool {
    match v {
        Some(x) => value_wf(x, n),
        None => true,
    }
}

pub open spec fn values_wf(vs: Seq<Option<ValueV>>, n: int) -> bool {
    forall|i: int| 0 <= i < vs.len() ==> value_wf_opt(#[trigger] vs[i], n)
}

/// A frame is well formed when every value it binds is.
pub open spec fn frame_wf(f: FrameV, n: int) -> bool {
    forall|k: Seq<char>| f.table.contains_key(k) ==> value_wf_opt(#[trigger] f.table[k], n)
}

/// The interpreter state is well formed: the chain structure is acyclic,
/// the active frame lies in the arena, and every bound value is well
/// formed.
pub open spec fn state_wf(st: StateV) -> bool {
    &&& wf_frames(st.frames)
    &&& 0 <= st.cur < st.frames.len()
    &&& forall|i: int|
        0 <= i < st.frames.len() ==> frame_wf(#[trigger] st.frames[i], st.frames.len() as int)
}

/// The models of a vector of argument values.
pub open spec fn vals_view(vs: Seq<Option<LoxType>>) -> Seq<Option<ValueV>> {
    vs.map_values(|v: Option<LoxType>| vview_opt(v))
}

/// The result of a unary operator on an evaluated operand: `-` requires a
/// number and flips its sign, `!` negates truthiness. Any other operator
/// yields nil.
pub open spec fn unary_op_s(op: Token, v: Option<ValueV>) -> Result<Option<ValueV>, RuntimeError> {
    match op.token_type {
        TokenType::Minus => match v {
            Some(ValueV::Num(n)) => Ok(Some(ValueV::Num(spec_num_neg(n)))),
            _ => Err(RuntimeError::OperandNotNumber { operator: op }),
        },
        TokenType::Bang => Ok(Some(ValueV::Bool(!spec_truthy(v)))),
        _ => Ok(None),
    }
}

/// The result of a binary operator on two evaluated operands.
///
/// Equality is structural over any two values. Every other operator
/// rejects nil. `+` adds two numbers or concatenates as soon as either
/// side is a string, rendering a number operand as its decimal text;
/// `-`, `*`, `/` and the orderings require two numbers, and a zero divisor
/// is reported, never infinity. An operator token of any other kind yields
/// nil.
pub open spec fn binary_op_s(op: Token, l: Option<ValueV>, r: Option<ValueV>) -> Result<
    Option<ValueV>,
    RuntimeError,
> {
    match op.token_type {
        TokenType::EqualEqual => Ok(Some(ValueV::Bool(spec_is_equal(l, r)))),
        TokenType::BangEqual => Ok(Some(ValueV::Bool(!spec_is_equal(l, r)))),
        TokenType::Plus => match (l, r) {
            (None, _) => Err(RuntimeError::OperandNil { operator: op }),
            (_, None) => Err(RuntimeError::OperandNil { operator: op }),
            (Some(ValueV::Str(a)), Some(ValueV::Str(b))) => Ok(Some(ValueV::Str(a + b))),
            (Some(ValueV::Num(a)), Some(ValueV::Num(b))) => Ok(Some(ValueV::Num(num_add(a, b)))),
            (Some(ValueV::Str(a)), Some(ValueV::Num(b))) => Ok(Some(ValueV::Str(a + num_text(b)))),
            (Some(ValueV::Num(a)), Some(ValueV::Str(b))) => Ok(Some(ValueV::Str(num_text(a) + b))),
            _ => Err(RuntimeError::OperandsNotNumbersOrStrings { operator: op }),
        },
        TokenType::Minus | TokenType::Star | TokenType::Slash | TokenType::Greater
            | TokenType::GreaterEqual | TokenType::Less | TokenType::LessEqual => match (l, r) {
            (None, _) => Err(RuntimeError::OperandNil { operator: op }),
            (_, None) => Err(RuntimeError::OperandNil { operator: op }),
            (Some(ValueV::Num(a)), Some(ValueV::Num(b))) => match op.token_type {
                TokenType::Minus => Ok(Some(ValueV::Num(num_sub(a, b)))),
                TokenType::Star => Ok(Some(ValueV::Num(num_mul(a, b)))),
                TokenType::Slash => if num_eq(b, ZERO_BITS) {
                    Err(RuntimeError::DivisionByZero { operator: op })
                } else {
                    Ok(Some(ValueV::Num(num_div(a, b))))
                },
                TokenType::Greater => Ok(Some(ValueV::Bool(num_gt(a, b)))),
                TokenType::GreaterEqual => Ok(Some(ValueV::Bool(num_ge(a, b)))),
                TokenType::Less => Ok(Some(ValueV::Bool(num_lt(a, b)))),
                _ => Ok(Some(ValueV::Bool(num_le(a, b)))),
            },
            _ => Err(RuntimeError::OperandsNotNumbers { operator: op }),
        },
        _ => Ok(None),
    }
}

/// The parameter frame of a call: each parameter bound to its argument, in
/// order, a later duplicate shadowing an earlier one.
pub open spec fn bind_params(params: Seq<Token>, args: Seq<Option<ValueV>>) -> Map<
    Seq<char>,
    Option<ValueV>,
>
    decreases params.len(),
{
    if params.len() == 0 {
        Map::empty()
    } else {
        bind_params(params.drop_last(), args.drop_last()).insert(
            params.last().lexeme@,
            args.last(),
        )
    }
}

/// Evaluate an expression: its value and the state it leaves behind, or
/// the error that aborted it. Consumes one step, and one more for each
/// nested evaluation.
pub open spec fn eval_expr_s(e: Expr, st: StateV, fuel: nat) -> (Result<
    Option<ValueV>,
    RuntimeError,
>, StateV)
    decreases fuel, 0nat, 0nat,
{
    if fuel == 0 {
        (Err(RuntimeError::OutOfSteps), st)
    } else {
        let f = (fuel - 1) as nat;
        match e {
            Expr::Literal { value } => (Ok(lit_view_opt(value)), st),
            Expr::Variable { name } => match chain_lookup(st.frames, st.cur, name.lexeme@) {
                Some(v) => (Ok(v), st),
                None => (Err(RuntimeError::UndefinedVariable { name }), st),
            },
            Expr::Assign { name, value } => {
                let (r1, st1) = eval_expr_s(*value, st, f);
                match r1 {
                    Ok(v) => match chain_assign(st1.frames, st1.cur, name.lexeme@, v) {
                        Some(frames2) => (
                            Ok(v),
                            StateV { frames: frames2, cur: st1.cur, out: st1.out, now: st1.now },
                        ),
                        None => (Err(RuntimeError::UndefinedVariable { name }), st1),
                    },
                    Err(er) => (Err(er), st1),
                }
            },
            Expr::Grouping { expression } => eval_expr_s(*expression, st, f),
            Expr::Unary { operator, right } => {
                let (r1, st1) = eval_expr_s(*right, st, f);
                match r1 {
                    Ok(v) => (unary_op_s(operator, v), st1),
                    Err(er) => (Err(er), st1),
                }
            },
            Expr::Binary { left, operator, right } => {
                let (r1, st1) = eval_expr_s(*left, st, f);
                match r1 {
                    Ok(lv) => {
                        let (r2, st2) = eval_expr_s(*right, st1, f);
                        match r2 {
                            Ok(rv) => (binary_op_s(operator, lv, rv), st2),
                            Err(er) => (Err(er), st2),
                        }
                    },
                    Err(er) => (Err(er), st1),
                }
            },
            Expr::Logical { left, operator, right } => {
                let (r1, st1) = eval_expr_s(*left, st, f);
                match r1 {
                    Ok(lv) => if operator.token_type == TokenType::Or {
                        if spec_truthy(lv) {
                            (Ok(lv), st1)
                        } else {
                            eval_expr_s(*right, st1, f)
                        }
                    } else {
                        if !spec_truthy(lv) {
                            (Ok(lv), st1)
                        } else {
                            eval_expr_s(*right, st1, f)
                        }
                    },
                    Err(er) => (Err(er), st1),
                }
            },
            Expr::Call { callee, paren, arguments } => {
                let (r1, st1) = eval_expr_s(*callee, st, f);
                match r1 {
                    Ok(cv) => {
                        let (r2, st2) = eval_exprs_s(arguments@, st1, f);
                        match r2 {
                            Ok(avs) => call_s(cv, avs, paren, st2, f),
                            Err(er) => (Err(er), st2),
                        }
                    },
                    Err(er) => (Err(er), st1),
                }
            },
        }
    }
}

/// Evaluate a list of expressions left to right, stopping at the first
/// error.
pub open spec fn eval_exprs_s(es: Seq<Expr>, st: StateV, fuel: nat) -> (Result<
    Seq<Option<ValueV>>,
    RuntimeError,
>, StateV)
    decreases fuel, 0nat, es.len() + 1,
{
    if es.len() == 0 {
        (Ok(Seq::empty()), st)
    } else if fuel == 0 {
        (Err(RuntimeError::OutOfSteps), st)
    } else {
        let (r1, st1) = eval_expr_s(es.first(), st, (fuel - 1) as nat);
        match r1 {
            Ok(v) => {
                let (r2, st2) = eval_exprs_s(es.drop_first(), st1, fuel);
                match r2 {
                    Ok(vs) => (Ok(seq![v] + vs), st2),
                    Err(er) => (Err(er), st2),
                }
            },
            Err(er) => (Err(er), st1),
        }
    }
}

/// Call an evaluated callee on evaluated arguments. The callee must be
/// callable and the argument count must equal its arity exactly; the
/// mismatch error names the expected and the actual count. The native
/// clock ignores its frame and yields the interpreter's clock reading.
pub open spec fn call_s(
    callee: Option<ValueV>,
    args: Seq<Option<ValueV>>,
    paren: Token,
    st: StateV,
    fuel: nat,
) -> (Result<Option<ValueV>, RuntimeError>, StateV)
    decreases fuel, 0nat, 0nat,
{
    if fuel == 0 {
        (Err(RuntimeError::OutOfSteps), st)
    } else {
        match callee {
            Some(ValueV::Fun(d, env)) => if args.len() != d.params@.len() {
                (
                    Err(
                        RuntimeError::ArityMismatch {
                            paren,
                            expected: d.params@.len() as usize,
                            actual: args.len() as usize,
                        },
                    ),
                    st,
                )
            } else {
                call_fun_s(d, env, args, st, (fuel - 1) as nat)
            },
            Some(ValueV::Native) => if args.len() != 0 {
                (
                    Err(
                        RuntimeError::ArityMismatch {
                            paren,
                            expected: 0,
                            actual: args.len() as usize,
                        },
                    ),
                    st,
                )
            } else {
                (Ok(Some(ValueV::Num(st.now))), st)
            },
            _ => (Err(RuntimeError::NotCallable { paren }), st),
        }
    }
}

/// Execute a list of statements in a fresh frame pushed onto the arena,
/// then restore the frame that was active before, whatever the outcome.
pub open spec fn exec_in_frame_s(ss: Seq<Stmt>, frame: FrameV, st: StateV, fuel: nat) -> (Result<
    FlowV,
    RuntimeError,
>, StateV)
    decreases fuel, 1nat, 0nat,
{
    let st1 = StateV {
        frames: st.frames.push(frame),
        cur: st.frames.len() as int,
        out: st.out,
        now: st.now,
    };
    let (r, st2) = exec_stmts_s(ss, st1, fuel);
    (r, StateV { frames: st2.frames, cur: st.cur, out: st2.out, now: st2.now })
}

/// Call a declared function: a fresh frame whose parent is the function's
/// captured defining environment, never the caller's, with each parameter
/// bound to its argument. A caught return signal yields its value; falling
/// off the end of the body yields nil.
pub open spec fn call_fun_s(
    d: FunDecl,
    env: int,
    args: Seq<Option<ValueV>>,
    st: StateV,
    fuel: nat,
) -> (Result<Option<ValueV>, RuntimeError>, StateV)
    decreases fuel, 2nat, 0nat,
{
    let frame = FrameV { table: bind_params(d.params@, args), enclosing: Some(env) };
    let (r, st2) = exec_in_frame_s(d.body@, frame, st, fuel);
    match r {
        Ok(FlowV::Returning(v)) => (Ok(v), st2),
        Ok(FlowV::Normal) => (Ok(None), st2),
        Err(er) => (Err(er), st2),
    }
}

/// Execute one statement. Consumes one step, and one more for each nested
/// evaluation; a loop consumes one step per iteration.
pub open spec fn exec_stmt_s(s: Stmt, st: StateV, fuel: nat) -> (Result<FlowV, RuntimeError>, StateV)
    decreases fuel, 0nat, 0nat,
{
    if fuel == 0 {
        (Err(RuntimeError::OutOfSteps), st)
    } else {
        let f = (fuel - 1) as nat;
        match s {
            Stmt::Expression { expression } => {
                let (r1, st1) = eval_expr_s(expression, st, f);
                match r1 {
                    Ok(_) => (Ok(FlowV::Normal), st1),
                    Err(er) => (Err(er), st1),
                }
            },
            Stmt::Print { expression } => {
                let (r1, st1) = eval_expr_s(expression, st, f);
                match r1 {
                    Ok(v) => (
                        Ok(FlowV::Normal),
                        StateV {
                            frames: st1.frames,
                            cur: st1.cur,
                            out: st1.out.push(spec_render(v)),
                            now: st1.now,
                        },
                    ),
                    Err(er) => (Err(er), st1),
                }
            },
            Stmt::Var { name, initializer } => {
                let (r1, st1) = eval_expr_s(initializer, st, f);
                match r1 {
                    Ok(v) => (
                        Ok(FlowV::Normal),
                        StateV {
                            frames: st1.frames.update(
                                st1.cur,
                                FrameV {
                                    table: st1.frames[st1.cur].table.insert(name.lexeme@, v),
                                    enclosing: st1.frames[st1.cur].enclosing,
                                },
                            ),
                            cur: st1.cur,
                            out: st1.out,
                            now: st1.now,
                        },
                    ),
                    Err(er) => (Err(er), st1),
                }
            },
            Stmt::Block { statements } => exec_in_frame_s(
                statements@,
                FrameV { table: Map::empty(), enclosing: Some(st.cur) },
                st,
                f,
            ),
            Stmt::If { condition, then_branch, else_branch } => {
                let (r1, st1) = eval_expr_s(condition, st, f);
                match r1 {
                    Ok(v) => if spec_truthy(v) {
                        exec_stmt_s(*then_branch, st1, f)
                    } else {
                        match else_branch {
                            Some(b) => exec_stmt_s(*b, st1, f),
                            None => (Ok(FlowV::Normal), st1),
                        }
                    },
                    Err(er) => (Err(er), st1),
                }
            },
            Stmt::While { condition, body } => {
                let (r1, st1) = eval_expr_s(condition, st, f);
                match r1 {
                    Ok(v) => if !spec_truthy(v) {
                        (Ok(FlowV::Normal), st1)
                    } else {
                        let (r2, st2) = exec_stmt_s(*body, st1, f);
                        match r2 {
                            Ok(FlowV::Normal) => exec_stmt_s(s, st2, f),
                            Ok(FlowV::Returning(rv)) => (Ok(FlowV::Returning(rv)), st2),
                            Err(er) => (Err(er), st2),
                        }
                    },
                    Err(er) => (Err(er), st1),
                }
            },
            Stmt::Function { declaration } => {
                let v = Some(ValueV::Fun(*declaration, st.cur));
                (
                    Ok(FlowV::Normal),
                    StateV {
                        frames: st.frames.update(
                            st.cur,
                            FrameV {
                                table: st.frames[st.cur].table.insert(
                                    declaration.name.lexeme@,
                                    v,
                                ),
                                enclosing: st.frames[st.cur].enclosing,
                            },
                        ),
                        cur: st.cur,
                        out: st.out,
                        now: st.now,
                    },
                )
            },
            Stmt::Return { keyword, value } => match value {
                Some(e) => {
                    let (r1, st1) = eval_expr_s(e, st, f);
                    match r1 {
                        Ok(v) => (Ok(FlowV::Returning(v)), st1),
                        Err(er) => (Err(er), st1),
                    }
                },
                None => (Ok(FlowV::Returning(None)), st),
            },
        }
    }
}

/// Execute statements in order. A return signal or an error stops the
/// sequence at once; the statements after it are not executed.
pub open spec fn exec_stmts_s(ss: Seq<Stmt>, st: StateV, fuel: nat) -> (Result<
    FlowV,
    RuntimeError,
>, StateV)
    decreases fuel, 0nat, ss.len() + 1,
{
    if ss.len() == 0 {
        (Ok(FlowV::Normal), st)
    } else if fuel == 0 {
        (Err(RuntimeError::OutOfSteps), st)
    } else {
        let (r1, st1) = exec_stmt_s(ss.first(), st, (fuel - 1) as nat);
        match r1 {
            Ok(FlowV::Normal) => exec_stmts_s(ss.drop_first(), st1, fuel),
            Ok(FlowV::Returning(v)) => (Ok(FlowV::Returning(v)), st1),
            Err(er) => (Err(er), st1),
        }
    }
}


/// A flow result is well formed when any value it carries is.
pub open spec fn flow_wf(f: FlowV, n: int) -> bool {
    match f {
        FlowV::Returning(v) => value_wf_opt(v, n),
        FlowV::Normal => true,
    }
}

/// Well-formedness of a value is monotone in the size of the arena.
proof fn lemma_value_wf_mono(v: Option<ValueV>, n: int, m: int)
    requires
        value_wf_opt(v, n),
        n <= m,
    ensures
        value_wf_opt(v, m),
{
}

/// Well-formedness of a frame is monotone in the size of the arena.
proof fn lemma_frame_wf_mono(f: FrameV, n: int, m: int)
    requires
        frame_wf(f, n),
        n <= m,
    ensures
        frame_wf(f, m),
{
    assert forall|k: Seq<char>| f.table.contains_key(k) implies value_wf_opt(
        #[trigger] f.table[k],
        m,
    ) by {
        assert(value_wf_opt(f.table[k], n));
    }
}

/// Pushing a well-formed frame whose parent lies in the arena keeps the
/// state well formed, with the new frame active.
proof fn lemma_push_frame_wf(st: StateV, frame: FrameV)
    requires
        state_wf(st),
        frame_wf(frame, st.frames.len() as int),
        match frame.enclosing {
            Some(j) => 0 <= j < st.frames.len(),
            None => true,
        },
    ensures
        state_wf(
            StateV {
                frames: st.frames.push(frame),
                cur: st.frames.len() as int,
                out: st.out,
                now: st.now,
            },
        ),
{
    let fr2 = st.frames.push(frame);
    let n2 = fr2.len() as int;
    assert forall|i: int| 0 <= i < fr2.len() implies match (#[trigger] fr2[i]).enclosing {
        Some(j) => 0 <= j < i,
        None => true,
    } by {
        if i < st.frames.len() {
            assert(fr2[i] == st.frames[i]);
        } else {
            assert(fr2[i] == frame);
        }
    }
    assert forall|i: int| 0 <= i < fr2.len() implies frame_wf(#[trigger] fr2[i], n2) by {
        if i < st.frames.len() {
            assert(fr2[i] == st.frames[i]);
            lemma_frame_wf_mono(st.frames[i], st.frames.len() as int, n2);
        } else {
            assert(fr2[i] == frame);
            lemma_frame_wf_mono(frame, st.frames.len() as int, n2);
        }
    }
}

/// Binding a well-formed value in the active frame keeps the state well
/// formed.
proof fn lemma_define_wf(st: StateV, name: Seq<char>, v: Option<ValueV>)
    requires
        state_wf(st),
        value_wf_opt(v, st.frames.len() as int),
    ensures
        state_wf(
            StateV {
                frames: st.frames.update(
                    st.cur,
                    FrameV {
                        table: st.frames[st.cur].table.insert(name, v),
                        enclosing: st.frames[st.cur].enclosing,
                    },
                ),
                cur: st.cur,
                out: st.out,
                now: st.now,
            },
        ),
{
    let n = st.frames.len() as int;
    let fr2 = st.frames.update(
        st.cur,
        FrameV {
            table: st.frames[st.cur].table.insert(name, v),
            enclosing: st.frames[st.cur].enclosing,
        },
    );
    assert forall|i: int| 0 <= i < fr2.len() implies match (#[trigger] fr2[i]).enclosing {
        Some(j) => 0 <= j < i,
        None => true,
    } by {
        assert(fr2[i].enclosing == st.frames[i].enclosing);
    }
    assert forall|i: int| 0 <= i < fr2.len() implies frame_wf(#[trigger] fr2[i], n) by {
        if i != st.cur {
            assert(fr2[i] == st.frames[i]);
        } else {
            assert forall|k: Seq<char>| fr2[i].table.contains_key(k) implies value_wf_opt(
                #[trigger] fr2[i].table[k],
                n,
            ) by {
                if k != name {
                    assert(fr2[i].table[k] == st.frames[st.cur].table[k]);
                    assert(frame_wf(st.frames[st.cur], n));
                }
            }
        }
    }
}

/// A value found by walking the chain came out of some frame's table, so
/// it is well formed.
proof fn lemma_chain_lookup_wf(frames: Seq<FrameV>, idx: int, name: Seq<char>, n: int)
    requires
        wf_frames(frames),
        0 <= idx < frames.len(),
        forall|i: int| 0 <= i < frames.len() ==> frame_wf(#[trigger] frames[i], n),
        chain_lookup(frames, idx, name) is Some,
    ensures
        value_wf_opt(chain_lookup(frames, idx, name)->Some_0, n),
    decreases idx,
{
    if frames[idx].table.contains_key(name) {
        assert(frame_wf(frames[idx], n));
    } else {
        match frames[idx].enclosing {
            Some(j) => {
                lemma_chain_lookup_wf(frames, j, name, n);
            },
            None => {},
        }
    }
}

/// Overwriting a binding with a well-formed value keeps the frames well
/// formed and their chain structure unchanged.
proof fn lemma_chain_assign_wf(frames: Seq<FrameV>, idx: int, name: Seq<char>, v: Option<ValueV>)
    requires
        wf_frames(frames),
        0 <= idx < frames.len(),
        forall|i: int| 0 <= i < frames.len() ==> frame_wf(#[trigger] frames[i], frames.len() as int),
        value_wf_opt(v, frames.len() as int),
        chain_assign(frames, idx, name, v) is Some,
    ensures
        ({
            let fr2 = chain_assign(frames, idx, name, v)->Some_0;
            &&& fr2.len() == frames.len()
            &&& wf_frames(fr2)
            &&& forall|i: int| 0 <= i < fr2.len() ==> frame_wf(#[trigger] fr2[i], fr2.len() as int)
        }),
    decreases idx,
{
    let n = frames.len() as int;
    if frames[idx].table.contains_key(name) {
        let fr2 = chain_assign(frames, idx, name, v)->Some_0;
        assert forall|i: int| 0 <= i < fr2.len() implies match (#[trigger] fr2[i]).enclosing {
            Some(j) => 0 <= j < i,
            None => true,
        } by {
            assert(fr2[i].enclosing == frames[i].enclosing);
        }
        assert forall|i: int| 0 <= i < fr2.len() implies frame_wf(#[trigger] fr2[i], n) by {
            if i != idx {
                assert(fr2[i] == frames[i]);
            } else {
                assert forall|k: Seq<char>| fr2[i].table.contains_key(k) implies value_wf_opt(
                    #[trigger] fr2[i].table[k],
                    n,
                ) by {
                    if k != name {
                        assert(fr2[i].table[k] == frames[idx].table[k]);
                        assert(frame_wf(frames[idx], n));
                    }
                }
            }
        }
    } else {
        match frames[idx].enclosing {
            Some(j) => {
                if 0 <= j < idx {
                    lemma_chain_assign_wf(frames, j, name, v);
                }
            },
            None => {},
        }
    }
}

/// The parameter frame of a call binds only argument values, so it is well
/// formed whenever they are.
proof fn lemma_bind_params_wf(params: Seq<Token>, args: Seq<Option<ValueV>>, m: int)
    requires
        params.len() == args.len(),
        values_wf(args, m),
    ensures
        forall|k: Seq<char>| #[trigger]
            bind_params(params, args).contains_key(k) ==> value_wf_opt(
                bind_params(params, args)[k],
                m,
            ),
    decreases params.len(),
{
    if params.len() > 0 {
        assert forall|i: int| 0 <= i < args.len() - 1 implies value_wf_opt(
            #[trigger] args.drop_last()[i],
            m,
        ) by {
            assert(args.drop_last()[i] == args[i]);
        }
        lemma_bind_params_wf(params.drop_last(), args.drop_last(), m);
        assert(value_wf_opt(args.last(), m));
        let full = bind_params(params, args);
        let inner = bind_params(params.drop_last(), args.drop_last());
        assert forall|k: Seq<char>| #[trigger] full.contains_key(k) implies value_wf_opt(
            full[k],
            m,
        ) by {
            if k == params.last().lexeme@ {
                assert(full[k] == args.last());
            } else {
                assert(full[k] == inner[k]);
                assert(inner.contains_key(k));
            }
        }
    }
}

/// Coerce a unary operator application, mirroring `unary_op_s`.
fn unary_op(operator: &Token, v: Option<LoxType>) -> (res: Result<Option<LoxType>, RuntimeError>)
    ensures
        ({
            let sres = unary_op_s(*operator, vview_opt(v));
            match (res, sres) {
                (Ok(rv), Ok(sv)) => vview_opt(rv) == sv && value_wf_opt(sv, 0),
                (Err(a), Err(b)) => a == b,
                _ => false,
            }
        }),
{
    match operator.token_type {
        TokenType::Minus => match v {
            Some(LoxType::Num(n)) => Ok(Some(LoxType::Num(num_neg(n)))),
            _ => Err(RuntimeError::OperandNotNumber { operator: operator.duplicate() }),
        },
        TokenType::Bang => Ok(Some(LoxType::Bool(!is_truthy(&v)))),
        _ => Ok(None),
    }
}

/// Apply a binary operator to two evaluated operands, mirroring
/// `binary_op_s`.
fn binary_op(operator: &Token, l: Option<LoxType>, r: Option<LoxType>) -> (res: Result<
    Option<LoxType>,
    RuntimeError,
>)
    ensures
        ({
            let sres = binary_op_s(*operator, vview_opt(l), vview_opt(r));
            match (res, sres) {
                (Ok(rv), Ok(sv)) => vview_opt(rv) == sv && value_wf_opt(sv, 0),
                (Err(a), Err(b)) => a == b,
                _ => false,
            }
        }),
{
    match operator.token_type {
        TokenType::EqualEqual => Ok(Some(LoxType::Bool(is_equal(&l, &r)))),
        TokenType::BangEqual => Ok(Some(LoxType::Bool(!is_equal(&l, &r)))),
        TokenType::Plus => match (l, r) {
            (None, _) => Err(RuntimeError::OperandNil { operator: operator.duplicate() }),
            (_, None) => Err(RuntimeError::OperandNil { operator: operator.duplicate() }),
            (Some(LoxType::Str(a)), Some(LoxType::Str(b))) => Ok(
                Some(LoxType::Str(a.concat(b.as_str()))),
            ),
            (Some(LoxType::Num(a)), Some(LoxType::Num(b))) => Ok(
                Some(LoxType::Num(add_bits(a, b))),
            ),
            (Some(LoxType::Str(a)), Some(LoxType::Num(b))) => {
                let t = text_of_bits(b);
                Ok(Some(LoxType::Str(a.concat(t.as_str()))))
            },
            (Some(LoxType::Num(a)), Some(LoxType::Str(b))) => {
                let t = text_of_bits(a);
                Ok(Some(LoxType::Str(t.concat(b.as_str()))))
            },
            _ => Err(RuntimeError::OperandsNotNumbersOrStrings { operator: operator.duplicate() }),
        },
        TokenType::Minus | TokenType::Star | TokenType::Slash | TokenType::Greater
            | TokenType::GreaterEqual | TokenType::Less | TokenType::LessEqual => match (l, r) {
            (None, _) => Err(RuntimeError::OperandNil { operator: operator.duplicate() }),
            (_, None) => Err(RuntimeError::OperandNil { operator: operator.duplicate() }),
            (Some(LoxType::Num(a)), Some(LoxType::Num(b))) => match operator.token_type {
                TokenType::Minus => Ok(Some(LoxType::Num(sub_bits(a, b)))),
                TokenType::Star => Ok(Some(LoxType::Num(mul_bits(a, b)))),
                TokenType::Slash => if eq_bits(b, ZERO_BITS) {
                    Err(RuntimeError::DivisionByZero { operator: operator.duplicate() })
                } else {
                    Ok(Some(LoxType::Num(div_bits(a, b))))
                },
                TokenType::Greater => Ok(Some(LoxType::Bool(gt_bits(a, b)))),
                TokenType::GreaterEqual => Ok(Some(LoxType::Bool(ge_bits(a, b)))),
                TokenType::Less => Ok(Some(LoxType::Bool(lt_bits(a, b)))),
                _ => Ok(Some(LoxType::Bool(le_bits(a, b)))),
            },
            _ => Err(RuntimeError::OperandsNotNumbers { operator: operator.duplicate() }),
        },
        _ => Ok(None),
    }
}

/// The interpreter: the frame arena, the active frame, the output sink,
/// and the clock reading that the native `clock` yields. The reading is
/// taken when the interpreter is built and refreshed at the start of each
/// run, so within one run every `clock` call agrees.
pub struct Interpreter {
    pub frames: Vec<Environment>,
    pub current: usize,
    pub output: Vec<String>,
    pub now_bits: u64,
}

impl View for Interpreter {
    type V = StateV;

    open spec fn view(&self) -> StateV {
        StateV {
            frames: frames_view(self.frames@),
            cur: self.current as int,
            out: self.output@.map_values(|s: String| s@),
            now: self.now_bits,
        }
    }
}

impl Interpreter {
    /// A fresh interpreter: one global frame, pre-seeded with the native
    /// `clock`, and a clock reading taken now.
    pub fn new() -> (r: Self)
        ensures
            state_wf(r@),
            r@.cur == 0,
            r@.frames.len() == 1,
            r@.frames[0].enclosing is None,
            r@.frames[0].table == Map::<Seq<char>, Option<ValueV>>::empty().insert(
                "clock"@,
                Some(ValueV::Native),
            ),
            r@.out == Seq::<Seq<char>>::empty(),
    {
        let mut globals = Environment::new();
        globals.define(
            String::from_str("clock"),
            Some(LoxType::Callable(Callable::Native(ClockNativeFunction::new()))),
        );
        let secs = current_seconds();
        let mut frames: Vec<Environment> = Vec::new();
        frames.push(globals);
        let r = Interpreter { frames, current: 0, output: Vec::new(), now_bits: seconds_to_bits(secs) };
        proof {
            assert(r@.frames.len() == 1);
            assert(r@.frames[0] == r.frames@[0]@);
            assert(r@.out =~= Seq::<Seq<char>>::empty());
            assert forall|k: Seq<char>| r@.frames[0].table.contains_key(k) implies value_wf_opt(
                #[trigger] r@.frames[0].table[k],
                1,
            ) by {}
        }
        r
    }

    /// Evaluate an expression against the current environment, returning
    /// exactly what `eval_expr_s` says, state and error included.
    #[verifier::loop_isolation(false)]
    pub fn evaluate(&mut self, expr: &Expr, fuel: u64) -> (r: Result<Option<LoxType>, RuntimeError>)
        requires
            state_wf(old(self)@),
        ensures
            ({
                let (res, st) = eval_expr_s(*expr, old(self)@, fuel as nat);
                &&& final(self)@ == st
                &&& state_wf(final(self)@)
                &&& old(self)@.frames.len() <= final(self)@.frames.len()
                &&& final(self)@.now == old(self)@.now
                &&& match (r, res) {
                    (Ok(rv), Ok(v)) => vview_opt(rv) == v && value_wf_opt(
                        v,
                        final(self)@.frames.len() as int,
                    ),
                    (Err(a), Err(b)) => a == b,
                    _ => false,
                }
            }),
        decreases fuel, 3nat,
    {
        if fuel == 0 {
            return Err(RuntimeError::OutOfSteps);
        }
        let f = fuel - 1;
        match expr {
            Expr::Literal { value } => Ok(lit_value(value)),
            Expr::Variable { name } => {
                match Environment::get(&self.frames, self.current, &name.lexeme) {
                    Some(v) => {
                        proof {
                            lemma_chain_lookup_wf(
                                self@.frames,
                                self@.cur,
                                name.lexeme@,
                                self@.frames.len() as int,
                            );
                        }
                        Ok(v)
                    },
                    None => Err(RuntimeError::UndefinedVariable { name: name.duplicate() }),
                }
            },
            Expr::Assign { name, value } => {
                let v = match self.evaluate(value, f) {
                    Ok(v) => v,
                    Err(e) => return Err(e),
                };
                let ghost st1 = self@;
                let stored = duplicate_value(&v);
                let ok = Environment::assign(&mut self.frames, self.current, &name.lexeme, stored);
                if ok {
                    proof {
                        lemma_chain_assign_wf(st1.frames, st1.cur, name.lexeme@, vview_opt(v));
                    }
                    Ok(v)
                } else {
                    Err(RuntimeError::UndefinedVariable { name: name.duplicate() })
                }
            },
            Expr::Grouping { expression } => self.evaluate(expression, f),
            Expr::Unary { operator, right } => {
                let v = match self.evaluate(right, f) {
                    Ok(v) => v,
                    Err(e) => return Err(e),
                };
                match unary_op(operator, v) {
                    Ok(rv) => {
                        proof {
                            lemma_value_wf_mono(vview_opt(rv), 0, self@.frames.len() as int);
                        }
                        Ok(rv)
                    },
                    Err(e) => Err(e),
                }
            },
            Expr::Binary { left, operator, right } => {
                let lv = match self.evaluate(left, f) {
                    Ok(v) => v,
                    Err(e) => return Err(e),
                };
                let rv = match self.evaluate(right, f) {
                    Ok(v) => v,
                    Err(e) => return Err(e),
                };
                match binary_op(operator, lv, rv) {
                    Ok(out) => {
                        proof {
                            lemma_value_wf_mono(vview_opt(out), 0, self@.frames.len() as int);
                        }
                        Ok(out)
                    },
                    Err(e) => Err(e),
                }
            },
            Expr::Logical { left, operator, right } => {
                let lv = match self.evaluate(left, f) {
                    Ok(v) => v,
                    Err(e) => return Err(e),
                };
                if operator.token_type == TokenType::Or {
                    if is_truthy(&lv) {
                        return Ok(lv);
                    }
                } else {
                    if !is_truthy(&lv) {
                        return Ok(lv);
                    }
                }
                self.evaluate(right, f)
            },
            Expr::Call { callee, paren, arguments } => {
                let cv = match self.evaluate(callee, f) {
                    Ok(v) => v,
                    Err(e) => return Err(e),
                };
                let ghost st_a = self@;
                let n = arguments.len();
                if n > 0 && f == 0 {
                    return Err(RuntimeError::OutOfSteps);
                }
                let mut args: Vec<Option<LoxType>> = Vec::new();
                let mut i: usize = 0;
                proof {
                    assert(arguments@.skip(0) =~= arguments@);
                    assert(vals_view(args@) =~= Seq::<Option<ValueV>>::empty());
                }
                while i < n
                    invariant
                        state_wf(self@),
                        st_a.frames.len() <= self@.frames.len(),
                        self@.now == old(self)@.now,
                        n == arguments@.len(),
                        i <= n,
                        args@.len() == i,
                        f < fuel,
                        n > 0 ==> f >= 1,
                        values_wf(vals_view(args@), self@.frames.len() as int),
                        ({
                            let (res, st) = eval_exprs_s(arguments@, st_a, f as nat);
                            let (resi, sti) = eval_exprs_s(
                                arguments@.skip(i as int),
                                self@,
                                f as nat,
                            );
                            &&& st == sti
                            &&& match (res, resi) {
                                (Ok(vs), Ok(vsi)) => vs == vals_view(args@) + vsi,
                                (Err(a), Err(b)) => a == b,
                                _ => false,
                            }
                        }),
                    decreases n - i,
                {
                    let ghost pre = self@;
                    let ghost oldargs = args@;
                    proof {
                        assert(arguments@.skip(i as int).first() == arguments@[i as int]);
                        assert(arguments@.skip(i as int).drop_first() =~= arguments@.skip(
                            i as int + 1,
                        ));
                    }
                    match self.evaluate(&arguments[i], f - 1) {
                        Ok(v) => {
                            let ghost vv = vview_opt(v);
                            args.push(v);
                            proof {
                                assert(vals_view(args@) =~= vals_view(oldargs) + seq![vv]);
                                assert forall|j: int| 0 <= j < vals_view(args@).len()
                                    implies value_wf_opt(
                                    #[trigger] vals_view(args@)[j],
                                    self@.frames.len() as int,
                                ) by {
                                    if j < oldargs.len() {
                                        assert(vals_view(args@)[j] == vals_view(oldargs)[j]);
                                        lemma_value_wf_mono(
                                            vals_view(oldargs)[j],
                                            pre.frames.len() as int,
                                            self@.frames.len() as int,
                                        );
                                    }
                                }
                                let (res2, st2) = eval_exprs_s(
                                    arguments@.skip(i as int + 1),
                                    self@,
                                    f as nat,
                                );
                                if res2 is Ok {
                                    assert((vals_view(oldargs) + seq![vv]) + res2->Ok_0
                                        =~= vals_view(oldargs) + (seq![vv] + res2->Ok_0));
                                }
                            }
                            i += 1;
                        },
                        Err(e) => {
                            return Err(e);
                        },
                    }
                }
                proof {
                    assert(arguments@.skip(n as int) =~= Seq::<Expr>::empty());
                    let (res, st) = eval_exprs_s(arguments@, st_a, f as nat);
                    if res is Ok {
                        assert(vals_view(args@) + Seq::<Option<ValueV>>::empty() =~= vals_view(
                            args@,
                        ));
                    }
                }
                if f == 0 {
                    return Err(RuntimeError::OutOfSteps);
                }
                let fc = f - 1;
                proof {
                    let (r2, st2) = eval_exprs_s(arguments@, st_a, f as nat);
                    assert(st2 == self@);
                    assert(r2 == Ok::<Seq<Option<ValueV>>, RuntimeError>(vals_view(args@)));
                    let (rr, st_s) = eval_expr_s(*expr, old(self)@, fuel as nat);
                    assert((rr, st_s) == call_s(vview_opt(cv), vals_view(args@), *paren, self@, f as nat));
                    assert(vals_view(args@).len() == args@.len());
                }
                match &cv {
                    Some(LoxType::Callable(c)) => match c {
                        Callable::Lox(lf) => {
                            let expected = lf.arity();
                            if args.len() != expected {
                                return Err(
                                    RuntimeError::ArityMismatch {
                                        paren: paren.duplicate(),
                                        expected,
                                        actual: args.len(),
                                    },
                                );
                            }
                            lf.call(self, &args, fc)
                        },
                        Callable::Native(_) => {
                            if args.len() != 0 {
                                return Err(
                                    RuntimeError::ArityMismatch {
                                        paren: paren.duplicate(),
                                        expected: 0,
                                        actual: args.len(),
                                    },
                                );
                            }
                            Ok(Some(LoxType::Num(self.now_bits)))
                        },
                    },
                    _ => Err(RuntimeError::NotCallable { paren: paren.duplicate() }),
                }
            },
        }
    }

    /// Execute one statement, returning exactly what `exec_stmt_s` says.
    #[verifier::loop_isolation(false)]
    pub fn execute(&mut self, stmt: &Stmt, fuel: u64) -> (r: Result<Flow, RuntimeError>)
        requires
            state_wf(old(self)@),
        ensures
            ({
                let (res, st) = exec_stmt_s(*stmt, old(self)@, fuel as nat);
                &&& final(self)@ == st
                &&& state_wf(final(self)@)
                &&& old(self)@.frames.len() <= final(self)@.frames.len()
                &&& final(self)@.now == old(self)@.now
                &&& match (r, res) {
                    (Ok(fl), Ok(flv)) => fview(fl) == flv && flow_wf(
                        flv,
                        final(self)@.frames.len() as int,
                    ),
                    (Err(a), Err(b)) => a == b,
                    _ => false,
                }
            }),
        decreases fuel, 3nat,
    {
        if fuel == 0 {
            return Err(RuntimeError::OutOfSteps);
        }
        let f = fuel - 1;
        match stmt {
            Stmt::Expression { expression } => match self.evaluate(expression, f) {
                Ok(_) => Ok(Flow::Normal),
                Err(e) => Err(e),
            },
            Stmt::Print { expression } => {
                let v = match self.evaluate(expression, f) {
                    Ok(v) => v,
                    Err(e) => return Err(e),
                };
                let ghost st1 = self@;
                let text = render_value(&v);
                self.output.push(text);
                proof {
                    assert(self@.out =~= st1.out.push(spec_render(vview_opt(v))));
                }
                Ok(Flow::Normal)
            },
            Stmt::Var { name, initializer } => {
                let v = match self.evaluate(initializer, f) {
                    Ok(v) => v,
                    Err(e) => return Err(e),
                };
                let ghost st1 = self@;
                let ghost vv = vview_opt(v);
                proof {
                    lemma_define_wf(st1, name.lexeme@, vv);
                }
                let idx = self.current;
                let fr = &mut self.frames[idx];
                fr.define(name.lexeme.clone(), v);
                proof {
                    assert(frames_view(self.frames@) =~= st1.frames.update(
                        st1.cur,
                        FrameV {
                            table: st1.frames[st1.cur].table.insert(name.lexeme@, vv),
                            enclosing: st1.frames[st1.cur].enclosing,
                        },
                    ));
                }
                Ok(Flow::Normal)
            },
            Stmt::Block { statements } => {
                let child = Environment::new_with_enclosing(self.current);
                self.execute_block(statements, child, f)
            },
            Stmt::If { condition, then_branch, else_branch } => {
                let cv = match self.evaluate(condition, f) {
                    Ok(v) => v,
                    Err(e) => return Err(e),
                };
                if is_truthy(&cv) {
                    self.execute(then_branch, f)
                } else {
                    match else_branch {
                        Some(b) => self.execute(b, f),
                        None => Ok(Flow::Normal),
                    }
                }
            },
            Stmt::While { condition, body } => {
                let mut g: u64 = fuel;
                loop
                    invariant
                        1 <= g <= fuel,
                        state_wf(self@),
                        old(self)@.frames.len() <= self@.frames.len(),
                        self@.now == old(self)@.now,
                        (*stmt matches Stmt::While { condition: c, body: b } && c == *condition
                            && b == *body),
                        exec_stmt_s(*stmt, old(self)@, fuel as nat) == exec_stmt_s(
                            *stmt,
                            self@,
                            g as nat,
                        ),
                    decreases g,
                {
                    let gf = g - 1;
                    let cv = match self.evaluate(condition, gf) {
                        Ok(v) => v,
                        Err(e) => return Err(e),
                    };
                    if !is_truthy(&cv) {
                        return Ok(Flow::Normal);
                    }
                    match self.execute(body, gf) {
                        Ok(Flow::Normal) => {},
                        Ok(Flow::Returning(v)) => {
                            return Ok(Flow::Returning(v));
                        },
                        Err(e) => {
                            return Err(e);
                        },
                    }
                    if gf == 0 {
                        return Err(RuntimeError::OutOfSteps);
                    }
                    g = gf;
                }
            },
            Stmt::Function { declaration } => {
                let ghost st0 = self@;
                let lf = LoxFunction::new(rc_clone_fun(declaration), self.current);
                let v = Some(LoxType::Callable(Callable::Lox(lf)));
                let ghost vv = vview_opt(v);
                proof {
                    lemma_define_wf(st0, declaration.name.lexeme@, vv);
                }
                let idx = self.current;
                let fr = &mut self.frames[idx];
                fr.define(declaration.name.lexeme.clone(), v);
                proof {
                    assert(frames_view(self.frames@) =~= st0.frames.update(
                        st0.cur,
                        FrameV {
                            table: st0.frames[st0.cur].table.insert(declaration.name.lexeme@, vv),
                            enclosing: st0.frames[st0.cur].enclosing,
                        },
                    ));
                }
                Ok(Flow::Normal)
            },
            Stmt::Return { keyword, value } => match value {
                Some(e) => match self.evaluate(e, f) {
                    Ok(v) => Ok(Flow::Returning(v)),
                    Err(er) => Err(er),
                },
                None => Ok(Flow::Returning(None)),
            },
        }
    }

    /// Execute statements inside a fresh frame pushed onto the arena,
    /// restoring the previously active frame on every exit path, the
    /// propagation of a return signal included.
    #[verifier::loop_isolation(false)]
    pub fn execute_block(&mut self, statements: &Vec<Stmt>, environment: Environment, fuel: u64)
        -> (r: Result<Flow, RuntimeError>)
        requires
            state_wf(old(self)@),
            frame_wf(environment@, old(self)@.frames.len() as int),
            match environment@.enclosing {
                Some(j) => 0 <= j < old(self)@.frames.len(),
                None => true,
            },
        ensures
            ({
                let (res, st) = exec_in_frame_s(statements@, environment@, old(self)@, fuel as nat);
                &&& final(self)@ == st
                &&& state_wf(final(self)@)
                &&& old(self)@.frames.len() <= final(self)@.frames.len()
                &&& final(self)@.now == old(self)@.now
                &&& match (r, res) {
                    (Ok(fl), Ok(flv)) => fview(fl) == flv && flow_wf(
                        flv,
                        final(self)@.frames.len() as int,
                    ),
                    (Err(a), Err(b)) => a == b,
                    _ => false,
                }
            }),
        decreases fuel, 0nat,
    {
        let ghost st0 = self@;
        let ghost fv = environment@;
        let prev = self.current;
        self.current = self.frames.len();
        self.frames.push(environment);
        proof {
            assert(frames_view(self.frames@) =~= st0.frames.push(fv));
            lemma_push_frame_wf(st0, fv);
            assert(self@ =~= StateV {
                frames: st0.frames.push(fv),
                cur: st0.frames.len() as int,
                out: st0.out,
                now: st0.now,
            });
        }
        let ghost st1 = self@;
        let n = statements.len();
        if n > 0 && fuel == 0 {
            self.current = prev;
            proof {
                assert(self@ =~= StateV { frames: st1.frames, cur: st0.cur, out: st1.out, now: st1.now });
            }
            return Err(RuntimeError::OutOfSteps);
        }
        proof {
            assert(statements@.skip(0) =~= statements@);
        }
        let mut i: usize = 0;
        while i < n
            invariant
                n == statements@.len(),
                i <= n,
                n > 0 ==> fuel >= 1,
                state_wf(self@),
                st1.frames.len() <= self@.frames.len(),
                self@.now == old(self)@.now,
                prev == st0.cur,
                st0.cur < st1.frames.len(),
                ({
                    let (res, st) = exec_stmts_s(statements@, st1, fuel as nat);
                    let (resi, sti) = exec_stmts_s(statements@.skip(i as int), self@, fuel as nat);
                    res == resi && st == sti
                }),
            decreases n - i,
        {
            proof {
                assert(statements@.skip(i as int).first() == statements@[i as int]);
                assert(statements@.skip(i as int).drop_first() =~= statements@.skip(i as int + 1));
            }
            match self.execute(&statements[i], fuel - 1) {
                Ok(Flow::Normal) => {
                    i += 1;
                },
                Ok(Flow::Returning(v)) => {
                    let ghost st2 = self@;
                    self.current = prev;
                    proof {
                        assert(self@ =~= StateV {
                            frames: st2.frames,
                            cur: st0.cur,
                            out: st2.out,
                            now: st2.now,
                        });
                    }
                    return Ok(Flow::Returning(v));
                },
                Err(e) => {
                    let ghost st2 = self@;
                    self.current = prev;
                    proof {
                        assert(self@ =~= StateV {
                            frames: st2.frames,
                            cur: st0.cur,
                            out: st2.out,
                            now: st2.now,
                        });
                    }
                    return Err(e);
                },
            }
        }
        proof {
            assert(statements@.skip(n as int) =~= Seq::<Stmt>::empty());
        }
        let ghost st2 = self@;
        self.current = prev;
        proof {
            assert(self@ =~= StateV { frames: st2.frames, cur: st0.cur, out: st2.out, now: st2.now });
        }
        Ok(Flow::Normal)
    }

    /// Read the host clock again: the reading the native `clock` yields
    /// from now on. Everything else of the state stays as it was.
    pub fn refresh_clock(&mut self)
        ensures
            final(self)@.frames == old(self)@.frames,
            final(self)@.cur == old(self)@.cur,
            final(self)@.out == old(self)@.out,
            state_wf(old(self)@) ==> state_wf(final(self)@),
    {
        let secs = current_seconds();
        self.now_bits = seconds_to_bits(secs);
    }

    /// Run a program with an explicit step budget: execute each top-level
    /// statement in order against the current environment. A runtime error
    /// aborts the run at once; a return signal at top level stops it.
    #[verifier::loop_isolation(false)]
    pub fn interpret_with_steps(&mut self, statements: &Vec<Stmt>, fuel: u64) -> (r: Result<
        Flow,
        RuntimeError,
    >)
        requires
            state_wf(old(self)@),
        ensures
            ({
                let (res, st) = exec_stmts_s(statements@, old(self)@, fuel as nat);
                &&& final(self)@ == st
                &&& state_wf(final(self)@)
                &&& old(self)@.frames.len() <= final(self)@.frames.len()
                &&& final(self)@.now == old(self)@.now
                &&& match (r, res) {
                    (Ok(fl), Ok(flv)) => fview(fl) == flv,
                    (Err(a), Err(b)) => a == b,
                    _ => false,
                }
            }),
    {
        let ghost st1 = self@;
        let n = statements.len();
        if n > 0 && fuel == 0 {
            return Err(RuntimeError::OutOfSteps);
        }
        proof {
            assert(statements@.skip(0) =~= statements@);
        }
        let mut i: usize = 0;
        while i < n
            invariant
                n == statements@.len(),
                i <= n,
                n > 0 ==> fuel >= 1,
                state_wf(self@),
                st1.frames.len() <= self@.frames.len(),
                self@.now == old(self)@.now,
                ({
                    let (res, st) = exec_stmts_s(statements@, st1, fuel as nat);
                    let (resi, sti) = exec_stmts_s(statements@.skip(i as int), self@, fuel as nat);
                    res == resi && st == sti
                }),
            decreases n - i,
        {
            proof {
                assert(statements@.skip(i as int).first() == statements@[i as int]);
                assert(statements@.skip(i as int).drop_first() =~= statements@.skip(i as int + 1));
            }
            match self.execute(&statements[i], fuel - 1) {
                Ok(Flow::Normal) => {
                    i += 1;
                },
                Ok(Flow::Returning(v)) => {
                    return Ok(Flow::Returning(v));
                },
                Err(e) => {
                    return Err(e);
                },
            }
        }
        proof {
            assert(statements@.skip(n as int) =~= Seq::<Stmt>::empty());
        }
        Ok(Flow::Normal)
    }

    /// Run a program with the default step budget.
    pub fn interpret(&mut self, statements: &Vec<Stmt>) -> (r: Result<(), RuntimeError>)
        requires
            state_wf(old(self)@),
        ensures
            ({
                let (res, st) = exec_stmts_s(statements@, old(self)@, DEFAULT_STEPS as nat);
                &&& final(self)@ == st
                &&& state_wf(final(self)@)
                &&& final(self)@.now == old(self)@.now
                &&& match (r, res) {
                    (Ok(_), Ok(_)) => true,
                    (Err(a), Err(b)) => a == b,
                    _ => false,
                }
            }),
    {
        match self.interpret_with_steps(statements, DEFAULT_STEPS) {
            Ok(_) => Ok(()),
            Err(e) => Err(e),
        }
    }
}

impl LoxFunction {
    /// Call the function: bind the arguments in a fresh frame whose parent
    /// is the captured defining environment, never the caller's, execute
    /// the body there, and yield the caught return value, nil when the
    /// body falls off the end.
    #[verifier::loop_isolation(false)]
    pub fn call(
        &self,
        interpreter: &mut Interpreter,
        arguments: &Vec<Option<LoxType>>,
        fuel: u64,
    ) -> (r: Result<Option<LoxType>, RuntimeError>)
        requires
            state_wf(old(interpreter)@),
            self.env < old(interpreter)@.frames.len(),
            arguments@.len() == self.declaration.params@.len(),
            values_wf(vals_view(arguments@), old(interpreter)@.frames.len() as int),
        ensures
            ({
                let (res, st) = call_fun_s(
                    *self.declaration,
                    self.env as int,
                    vals_view(arguments@),
                    old(interpreter)@,
                    fuel as nat,
                );
                &&& final(interpreter)@ == st
                &&& state_wf(final(interpreter)@)
                &&& old(interpreter)@.frames.len() <= final(interpreter)@.frames.len()
                &&& final(interpreter)@.now == old(interpreter)@.now
                &&& match (r, res) {
                    (Ok(rv), Ok(v)) => vview_opt(rv) == v && value_wf_opt(
                        v,
                        final(interpreter)@.frames.len() as int,
                    ),
                    (Err(a), Err(b)) => a == b,
                    _ => false,
                }
            }),
        decreases fuel, 1nat,
    {
        let mut environment = Environment::new_with_enclosing(self.env);
        let n = self.declaration.params.len();
        proof {
            assert(self.declaration.params@.take(0) =~= Seq::<Token>::empty());
            assert(vals_view(arguments@).take(0) =~= Seq::<Option<ValueV>>::empty());
        }
        let mut i: usize = 0;
        while i < n
            invariant
                i <= n,
                n == self.declaration.params@.len(),
                n == arguments@.len(),
                environment@.enclosing == Some(self.env as int),
                environment@.table == bind_params(
                    self.declaration.params@.take(i as int),
                    vals_view(arguments@).take(i as int),
                ),
            decreases n - i,
        {
            let pname = self.declaration.params[i].lexeme.clone();
            let v = duplicate_value(&arguments[i]);
            environment.define(pname, v);
            proof {
                assert(self.declaration.params@.take(i as int + 1).drop_last()
                    =~= self.declaration.params@.take(i as int));
                assert(vals_view(arguments@).take(i as int + 1).drop_last() =~= vals_view(
                    arguments@,
                ).take(i as int));
                assert(self.declaration.params@.take(i as int + 1).last()
                    == self.declaration.params@[i as int]);
                assert(vals_view(arguments@).take(i as int + 1).last() == vview_opt(
                    arguments@[i as int],
                ));
            }
            i += 1;
        }
        proof {
            assert(self.declaration.params@.take(n as int) =~= self.declaration.params@);
            assert(vals_view(arguments@).take(n as int) =~= vals_view(arguments@));
            lemma_bind_params_wf(
                self.declaration.params@,
                vals_view(arguments@),
                old(interpreter)@.frames.len() as int,
            );
            assert(environment@ =~= FrameV {
                table: bind_params(self.declaration.params@, vals_view(arguments@)),
                enclosing: Some(self.env as int),
            });
        }
        let flow = match interpreter.execute_block(&self.declaration.body, environment, fuel) {
            Ok(fl) => fl,
            Err(e) => return Err(e),
        };
        match flow {
            Flow::Returning(v) => Ok(v),
            Flow::Normal => Ok(None),
        }
    }
}

} // verus!
