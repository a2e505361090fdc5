//! The laws of the language, stated and proved against the semantics.

use crate::ast::{Expr, FunDecl, Stmt};
use crate::env::{chain_assign, chain_lookup, wf_frames, FrameV};
use crate::interp::{
    binary_op_s, call_fun_s, call_s, exec_in_frame_s, exec_stmt_s, exec_stmts_s, FlowV,
    RuntimeError, StateV,
};
use crate::num::{is_nan_bits, num_div, num_eq, num_text, ZERO_BITS};
use crate::token::{Token, TokenType};
use crate::value::{spec_is_equal, ValueV};
use vstd::prelude::*;

verus! {

/// Division by zero is a reported failure, never an infinity: `/` on two
/// numbers yields their IEEE-754 quotient exactly when the divisor is not
/// zero, and the division-by-zero error when it is, the negative zero
/// included.
pub proof fn lemma_division_by_zero(op: Token, a: u64, b: u64)
    requires
        op.token_type == TokenType::Slash,
    ensures
        num_eq(b, ZERO_BITS) ==> binary_op_s(op, Some(ValueV::Num(a)), Some(ValueV::Num(b)))
            == Err::<Option<ValueV>, RuntimeError>(RuntimeError::DivisionByZero { operator: op }),
        !num_eq(b, ZERO_BITS) ==> binary_op_s(op, Some(ValueV::Num(a)), Some(ValueV::Num(b)))
            == Ok::<Option<ValueV>, RuntimeError>(Some(ValueV::Num(num_div(a, b)))),
{
}

/// `+` concatenates as soon as either operand is a string, rendering a
/// number operand as its default decimal text; two strings concatenate
/// directly.
pub proof fn lemma_plus_concatenates(op: Token, s: Seq<char>, t: Seq<char>, n: u64)
    requires
        op.token_type == TokenType::Plus,
    ensures
        binary_op_s(op, Some(ValueV::Str(s)), Some(ValueV::Str(t))) == Ok::<
            Option<ValueV>,
            RuntimeError,
        >(Some(ValueV::Str(s + t))),
        binary_op_s(op, Some(ValueV::Str(s)), Some(ValueV::Num(n))) == Ok::<
            Option<ValueV>,
            RuntimeError,
        >(Some(ValueV::Str(s + num_text(n)))),
        binary_op_s(op, Some(ValueV::Num(n)), Some(ValueV::Str(s))) == Ok::<
            Option<ValueV>,
            RuntimeError,
        >(Some(ValueV::Str(num_text(n) + s))),
{
}

/// Equality is structural: nil is equal only to nil, values of different
/// kinds are never equal, and numbers compare as IEEE-754 doubles, so two
/// spellings of the same double compare equal.
pub proof fn lemma_equality_rules(n: u64, m: u64, s: Seq<char>)
    ensures
        spec_is_equal(None, None),
        !spec_is_equal(None, Some(ValueV::Num(n))),
        !spec_is_equal(Some(ValueV::Num(n)), None),
        !spec_is_equal(Some(ValueV::Str(s)), Some(ValueV::Num(n))),
        spec_is_equal(Some(ValueV::Num(n)), Some(ValueV::Num(m))) == num_eq(n, m),
        spec_is_equal(Some(ValueV::Str(s)), Some(ValueV::Str(s))),
{
}

/// The two zeros are equal to each other; NaN is equal to nothing, itself
/// included; every other double is equal to itself.
pub proof fn lemma_number_equality(n: u64)
    ensures
        num_eq(0, 0x8000_0000_0000_0000),
        !num_eq(0x7FF8_0000_0000_0000, 0x7FF8_0000_0000_0000),
        !is_nan_bits(n) ==> num_eq(n, n),
{
    assert(0u64 & 0x7FFF_FFFF_FFFF_FFFFu64 == 0u64) by (bit_vector);
    assert(0x8000_0000_0000_0000u64 & 0x7FFF_FFFF_FFFF_FFFFu64 == 0u64) by (bit_vector);
    assert((0u64 >> 52u64) & 0x7FFu64 != 0x7FFu64) by (bit_vector);
    assert((0x8000_0000_0000_0000u64 >> 52u64) & 0x7FFu64 != 0x7FFu64) by (bit_vector);
    assert((0x7FF8_0000_0000_0000u64 >> 52u64) & 0x7FFu64 == 0x7FFu64) by (bit_vector);
    assert(0x7FF8_0000_0000_0000u64 & 0x000F_FFFF_FFFF_FFFFu64 != 0u64) by (bit_vector);
}

/// A return signal unwinds through a statement sequence: the statements
/// after the one that returned are not executed, and the signal carries
/// its value unchanged.
pub proof fn lemma_return_skips_rest(ss: Seq<Stmt>, st: StateV, fuel: nat)
    requires
        ss.len() > 0,
        fuel > 0,
    ensures
        ({
            let (r1, st1) = exec_stmt_s(ss.first(), st, (fuel - 1) as nat);
            r1 matches Ok(FlowV::Returning(v)) ==> exec_stmts_s(ss, st, fuel) == (
                Ok::<FlowV, RuntimeError>(FlowV::Returning(v)),
                st1,
            )
        }),
{
}

/// A return signal unwinds past a block: the block propagates the signal
/// and its value, while still restoring the frame that was active before
/// the block.
pub proof fn lemma_return_through_block(ss: Seq<Stmt>, frame: FrameV, st: StateV, fuel: nat)
    ensures
        ({
            let st1 = StateV {
                frames: st.frames.push(frame),
                cur: st.frames.len() as int,
                out: st.out,
                now: st.now,
            };
            let (r, st2) = exec_stmts_s(ss, st1, fuel);
            r matches Ok(FlowV::Returning(v)) ==> exec_in_frame_s(ss, frame, st, fuel) == (
                Ok::<FlowV, RuntimeError>(FlowV::Returning(v)),
                StateV { frames: st2.frames, cur: st.cur, out: st2.out, now: st2.now },
            )
        }),
{
}

/// A function-call boundary catches the signal: a body that returns
/// yields exactly the returned value as the call's result, and a body
/// that falls off its end yields nil.
pub proof fn lemma_call_catches_return(
    d: FunDecl,
    env: int,
    args: Seq<Option<ValueV>>,
    st: StateV,
    fuel: nat,
)
    ensures
        ({
            let frame = FrameV {
                table: crate::interp::bind_params(d.params@, args),
                enclosing: Some(env),
            };
            let (r, st2) = exec_in_frame_s(d.body@, frame, st, fuel);
            &&& (r matches Ok(FlowV::Returning(v)) ==> call_fun_s(d, env, args, st, fuel) == (
                Ok::<Option<ValueV>, RuntimeError>(v),
                st2,
            ))
            &&& (r matches Ok(FlowV::Normal) ==> call_fun_s(d, env, args, st, fuel) == (
                Ok::<Option<ValueV>, RuntimeError>(None),
                st2,
            ))
        }),
{
}

/// Calling a callable with the wrong number of arguments is a fatal
/// error naming the expected and the actual counts, and the call is not
/// entered.
pub proof fn lemma_arity_mismatch(
    d: FunDecl,
    env: int,
    args: Seq<Option<ValueV>>,
    paren: Token,
    st: StateV,
    fuel: nat,
)
    requires
        fuel > 0,
        args.len() != d.params@.len(),
    ensures
        call_s(Some(ValueV::Fun(d, env)), args, paren, st, fuel) == (
            Err::<Option<ValueV>, RuntimeError>(
                RuntimeError::ArityMismatch {
                    paren,
                    expected: d.params@.len() as usize,
                    actual: args.len() as usize,
                },
            ),
            st,
        ),
{
}

/// A block's frame is its own: whatever the statements inside declared,
/// the frame that was active before the block is active again after it,
/// on the normal path and on the unwinding one alike.
pub proof fn lemma_block_restores_frame(ss: Seq<Stmt>, frame: FrameV, st: StateV, fuel: nat)
    ensures
        exec_in_frame_s(ss, frame, st, fuel).1.cur == st.cur,
{
}

/// Declaring a name binds it in the current frame alone: every other
/// frame keeps exactly the bindings it had, which is why a declaration in
/// a block shadows an outer binding rather than overwrite it, and why the
/// binding is invisible once the block's frame is gone.
pub proof fn lemma_define_touches_one_frame(
    frames: Seq<FrameV>,
    i: int,
    name: Seq<char>,
    v: Option<ValueV>,
)
    requires
        0 <= i < frames.len(),
    ensures
        ({
            let f2 = frames.update(
                i,
                FrameV {
                    table: frames[i].table.insert(name, v),
                    enclosing: frames[i].enclosing,
                },
            );
            &&& (forall|j: int| 0 <= j < frames.len() && j != i ==> f2[j] == frames[j])
            &&& chain_lookup(f2, i, name) == Some(v)
        }),
{
}

/// Assigning to a name that the current frame does not bind walks outward
/// and overwrites the binding in the nearest enclosing frame that has
/// one: the mechanism by which a nested block mutates an outer binding.
pub proof fn lemma_assign_reaches_outer(
    frames: Seq<FrameV>,
    i: int,
    j: int,
    name: Seq<char>,
    v: Option<ValueV>,
)
    requires
        wf_frames(frames),
        0 <= i < frames.len(),
        !frames[i].table.contains_key(name),
        frames[i].enclosing == Some(j),
        frames[j].table.contains_key(name),
    ensures
        chain_assign(frames, i, name, v) == Some(
            frames.update(
                j,
                FrameV {
                    table: frames[j].table.insert(name, v),
                    enclosing: frames[j].enclosing,
                },
            ),
        ),
{
    assert(0 <= j < i);
    assert(chain_assign(frames, i, name, v) == chain_assign(frames, j, name, v));
}

/// A function declaration captures the environment active at declaration
/// time: the closure it binds holds the frame that was current, and the
/// declaration leaves every frame's bindings unchanged but for the new
/// name.
pub proof fn lemma_closure_captures(s: Stmt, st: StateV, fuel: nat)
    requires
        fuel > 0,
        s matches Stmt::Function { .. },
    ensures
        (match s {
            Stmt::Function { declaration } => exec_stmt_s(s, st, fuel) == (
                Ok::<FlowV, RuntimeError>(FlowV::Normal),
                StateV {
                    frames: st.frames.update(
                        st.cur,
                        FrameV {
                            table: st.frames[st.cur].table.insert(
                                declaration.name.lexeme@,
                                Some(ValueV::Fun(*declaration, st.cur)),
                            ),
                            enclosing: st.frames[st.cur].enclosing,
                        },
                    ),
                    cur: st.cur,
                    out: st.out,
                    now: st.now,
                },
            ),
            _ => true,
        }),
{
}


/// Between two frame arenas: no frame but the one at `cur` has gained or
/// lost a binding, and no chain link has moved.
pub open spec fn doms_preserved_except(frames0: Seq<FrameV>, frames1: Seq<FrameV>, cur: int) -> bool {
    &&& frames1.len() >= frames0.len()
    &&& forall|j: int|
        0 <= j < frames0.len() && j != cur ==> (#[trigger] frames1[j]).table.dom()
            == frames0[j].table.dom() && frames1[j].enclosing == frames0[j].enclosing
}

/// Assignment overwrites an existing binding somewhere in a chain: no
/// frame gains or loses a binding, and no chain link moves.
pub proof fn lemma_assign_preserves_doms(
    frames: Seq<FrameV>,
    idx: int,
    name: Seq<char>,
    v: Option<ValueV>,
)
    requires
        chain_assign(frames, idx, name, v) is Some,
    ensures
        ({
            let fr2 = chain_assign(frames, idx, name, v)->Some_0;
            &&& fr2.len() == frames.len()
            &&& forall|j: int|
                0 <= j < frames.len() ==> (#[trigger] fr2[j]).table.dom()
                    == frames[j].table.dom() && fr2[j].enclosing == frames[j].enclosing
        }),
    decreases (if idx < 0 { 0int } else { idx }),
{
    if 0 <= idx < frames.len() {
        if frames[idx].table.contains_key(name) {
            assert(frames[idx].table.insert(name, v).dom() =~= frames[idx].table.dom());
        } else {
            match frames[idx].enclosing {
                Some(j) => if 0 <= j < idx {
                    lemma_assign_preserves_doms(frames, j, name, v);
                },
                None => {},
            }
        }
    }
}

/// Preservation of binding sets composes.
pub proof fn lemma_doms_trans(f0: Seq<FrameV>, f1: Seq<FrameV>, f2: Seq<FrameV>, cur: int)
    requires
        doms_preserved_except(f0, f1, cur),
        doms_preserved_except(f1, f2, cur),
    ensures
        doms_preserved_except(f0, f2, cur),
{
    assert forall|j: int| 0 <= j < f0.len() && j != cur implies (#[trigger] f2[j]).table.dom()
        == f0[j].table.dom() && f2[j].enclosing == f0[j].enclosing by {
        assert(f1[j].table.dom() == f0[j].table.dom());
        assert(f2[j].table.dom() == f1[j].table.dom());
    }
}

/// Binding a name in the frame at `cur` preserves every other frame's
/// binding set.
pub proof fn lemma_doms_define(f1: Seq<FrameV>, cur: int, name: Seq<char>, v: Option<ValueV>)
    requires
        0 <= cur < f1.len(),
    ensures
        doms_preserved_except(
            f1,
            f1.update(
                cur,
                FrameV { table: f1[cur].table.insert(name, v), enclosing: f1[cur].enclosing },
            ),
            cur,
        ),
{
}

/// Evaluating an expression can push frames and overwrite reachable
/// bindings, but the only frame whose binding set can change is the one
/// active when evaluation began, and the active frame afterwards is the
/// one that was active before.
pub proof fn lemma_eval_frames(e: Expr, st: StateV, fuel: nat)
    requires
        0 <= st.cur < st.frames.len(),
    ensures
        ({
            let (r, st2) = crate::interp::eval_expr_s(e, st, fuel);
            st2.cur == st.cur && doms_preserved_except(st.frames, st2.frames, st.cur)
        }),
    decreases fuel, 0nat, 0nat,
{
    if fuel > 0 {
        let f = (fuel - 1) as nat;
        match e {
            Expr::Literal { value } => {},
            Expr::Variable { name } => {},
            Expr::Assign { name, value } => {
                lemma_eval_frames(*value, st, f);
                let (r1, st1) = crate::interp::eval_expr_s(*value, st, f);
                if r1 is Ok {
                    let v = r1->Ok_0;
                    if chain_assign(st1.frames, st1.cur, name.lexeme@, v) is Some {
                        lemma_assign_preserves_doms(st1.frames, st1.cur, name.lexeme@, v);
                    }
                }
            },
            Expr::Grouping { expression } => {
                lemma_eval_frames(*expression, st, f);
            },
            Expr::Unary { operator, right } => {
                lemma_eval_frames(*right, st, f);
            },
            Expr::Binary { left, operator, right } => {
                lemma_eval_frames(*left, st, f);
                let (r1, st1) = crate::interp::eval_expr_s(*left, st, f);
                if r1 is Ok {
                    lemma_eval_frames(*right, st1, f);
                }
            },
            Expr::Logical { left, operator, right } => {
                lemma_eval_frames(*left, st, f);
                let (r1, st1) = crate::interp::eval_expr_s(*left, st, f);
                if r1 is Ok {
                    lemma_eval_frames(*right, st1, f);
                }
            },
            Expr::Call { callee, paren, arguments } => {
                lemma_eval_frames(*callee, st, f);
                let (r1, st1) = crate::interp::eval_expr_s(*callee, st, f);
                if r1 is Ok {
                    lemma_eval_list_frames(arguments@, st1, f);
                    let (r2, st2) = crate::interp::eval_exprs_s(arguments@, st1, f);
                    if r2 is Ok {
                        lemma_call_frames(r1->Ok_0, r2->Ok_0, paren, st2, f);
                    }
                }
            },
        }
    }
}

/// As `lemma_eval_frames`, for a list of expressions.
pub proof fn lemma_eval_list_frames(es: Seq<Expr>, st: StateV, fuel: nat)
    requires
        0 <= st.cur < st.frames.len(),
    ensures
        ({
            let (r, st2) = crate::interp::eval_exprs_s(es, st, fuel);
            st2.cur == st.cur && doms_preserved_except(st.frames, st2.frames, st.cur)
        }),
    decreases fuel, 0nat, es.len() + 1,
{
    if es.len() > 0 && fuel > 0 {
        lemma_eval_frames(es.first(), st, (fuel - 1) as nat);
        let (r1, st1) = crate::interp::eval_expr_s(es.first(), st, (fuel - 1) as nat);
        if r1 is Ok {
            lemma_eval_list_frames(es.drop_first(), st1, fuel);
        }
    }
}

/// As `lemma_eval_frames`, for calling an evaluated callee.
pub proof fn lemma_call_frames(
    callee: Option<ValueV>,
    args: Seq<Option<ValueV>>,
    paren: Token,
    st: StateV,
    fuel: nat,
)
    requires
        0 <= st.cur < st.frames.len(),
    ensures
        ({
            let (r, st2) = call_s(callee, args, paren, st, fuel);
            st2.cur == st.cur && doms_preserved_except(st.frames, st2.frames, st.cur)
        }),
    decreases fuel, 0nat, 0nat,
{
    if fuel > 0 {
        match callee {
            Some(ValueV::Fun(d, env)) => {
                if args.len() == d.params@.len() {
                    lemma_call_fun_frames(d, env, args, st, (fuel - 1) as nat);
                }
            },
            _ => {},
        }
    }
}

/// As `lemma_eval_frames`, for a call past its arity check.
pub proof fn lemma_call_fun_frames(
    d: FunDecl,
    env: int,
    args: Seq<Option<ValueV>>,
    st: StateV,
    fuel: nat,
)
    requires
        0 <= st.cur < st.frames.len(),
    ensures
        ({
            let (r, st2) = call_fun_s(d, env, args, st, fuel);
            st2.cur == st.cur && doms_preserved_except(st.frames, st2.frames, st.cur)
        }),
    decreases fuel, 2nat, 0nat,
{
    let frame = FrameV { table: crate::interp::bind_params(d.params@, args), enclosing: Some(env) };
    lemma_exec_in_frame_frames(d.body@, frame, st, fuel);
}

/// Executing statements inside a freshly pushed frame preserves the
/// binding set of every frame that existed before, the one that was
/// active included: whatever a block declares lands in its own frame or
/// in frames younger than the block.
pub proof fn lemma_exec_in_frame_frames(ss: Seq<Stmt>, frame: FrameV, st: StateV, fuel: nat)
    requires
        0 <= st.cur < st.frames.len(),
    ensures
        ({
            let (r, st2) = exec_in_frame_s(ss, frame, st, fuel);
            &&& st2.cur == st.cur
            &&& st2.frames.len() > st.frames.len()
            &&& forall|j: int|
                0 <= j < st.frames.len() ==> (#[trigger] st2.frames[j]).table.dom()
                    == st.frames[j].table.dom() && st2.frames[j].enclosing
                    == st.frames[j].enclosing
        }),
    decreases fuel, 1nat, 0nat,
{
    let st1 = StateV {
        frames: st.frames.push(frame),
        cur: st.frames.len() as int,
        out: st.out,
        now: st.now,
    };
    lemma_exec_stmts_frames(ss, st1, fuel);
}

/// As `lemma_eval_frames`, for one statement.
pub proof fn lemma_exec_stmt_frames(s: Stmt, st: StateV, fuel: nat)
    requires
        0 <= st.cur < st.frames.len(),
    ensures
        ({
            let (r, st2) = exec_stmt_s(s, st, fuel);
            st2.cur == st.cur && doms_preserved_except(st.frames, st2.frames, st.cur)
        }),
    decreases fuel, 0nat, 0nat,
{
    if fuel > 0 {
        let f = (fuel - 1) as nat;
        match s {
            Stmt::Expression { expression } => {
                lemma_eval_frames(expression, st, f);
            },
            Stmt::Print { expression } => {
                lemma_eval_frames(expression, st, f);
            },
            Stmt::Var { name, initializer } => {
                lemma_eval_frames(initializer, st, f);
                let (r1, st1) = crate::interp::eval_expr_s(initializer, st, f);
                if r1 is Ok {
                    lemma_doms_define(st1.frames, st1.cur, name.lexeme@, r1->Ok_0);
                    lemma_doms_trans(
                        st.frames,
                        st1.frames,
                        st1.frames.update(
                            st1.cur,
                            FrameV {
                                table: st1.frames[st1.cur].table.insert(name.lexeme@, r1->Ok_0),
                                enclosing: st1.frames[st1.cur].enclosing,
                            },
                        ),
                        st.cur,
                    );
                }
            },
            Stmt::Block { statements } => {
                lemma_exec_in_frame_frames(
                    statements@,
                    FrameV { table: Map::empty(), enclosing: Some(st.cur) },
                    st,
                    f,
                );
            },
            Stmt::If { condition, then_branch, else_branch } => {
                lemma_eval_frames(condition, st, f);
                let (r1, st1) = crate::interp::eval_expr_s(condition, st, f);
                if r1 is Ok {
                    lemma_exec_stmt_frames(*then_branch, st1, f);
                    lemma_doms_trans(
                        st.frames,
                        st1.frames,
                        exec_stmt_s(*then_branch, st1, f).1.frames,
                        st.cur,
                    );
                    match else_branch {
                        Some(b) => {
                            lemma_exec_stmt_frames(*b, st1, f);
                            lemma_doms_trans(
                                st.frames,
                                st1.frames,
                                exec_stmt_s(*b, st1, f).1.frames,
                                st.cur,
                            );
                        },
                        None => {},
                    }
                }
            },
            Stmt::While { condition, body } => {
                lemma_eval_frames(condition, st, f);
                let (r1, st1) = crate::interp::eval_expr_s(condition, st, f);
                if r1 is Ok {
                    lemma_exec_stmt_frames(*body, st1, f);
                    let (r2, st2) = exec_stmt_s(*body, st1, f);
                    lemma_doms_trans(st.frames, st1.frames, st2.frames, st.cur);
                    if r2 is Ok {
                        lemma_exec_stmt_frames(s, st2, f);
                        lemma_doms_trans(st.frames, st2.frames, exec_stmt_s(s, st2, f).1.frames, st.cur);
                    }
                }
            },
            Stmt::Function { declaration } => {
                let (r2, st2) = exec_stmt_s(s, st, fuel);
                assert forall|j: int| 0 <= j < st.frames.len() && j != st.cur implies (#[trigger]
                st2.frames[j]).table.dom() == st.frames[j].table.dom() && st2.frames[j].enclosing
                    == st.frames[j].enclosing by {}
            },
            Stmt::Return { keyword, value } => {
                match value {
                    Some(e) => {
                        lemma_eval_frames(e, st, f);
                    },
                    None => {},
                }
            },
        }
    }
}

/// As `lemma_eval_frames`, for a statement sequence.
pub proof fn lemma_exec_stmts_frames(ss: Seq<Stmt>, st: StateV, fuel: nat)
    requires
        0 <= st.cur < st.frames.len(),
    ensures
        ({
            let (r, st2) = exec_stmts_s(ss, st, fuel);
            st2.cur == st.cur && doms_preserved_except(st.frames, st2.frames, st.cur)
        }),
    decreases fuel, 0nat, ss.len() + 1,
{
    if ss.len() > 0 && fuel > 0 {
        lemma_exec_stmt_frames(ss.first(), st, (fuel - 1) as nat);
        let (r1, st1) = exec_stmt_s(ss.first(), st, (fuel - 1) as nat);
        if r1 matches Ok(FlowV::Normal) {
            lemma_exec_stmts_frames(ss.drop_first(), st1, fuel);
        }
    }
}

} // verus!
