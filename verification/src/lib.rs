//! A tree-walking interpreter for a small dynamically typed scripting
//! language: variable bindings, arithmetic and string expressions,
//! control flow, first-class functions with lexical closures, and textual
//! output.
//!
//! The pipeline is text to tokens to syntax tree to effects: `Scanner`,
//! `Parser`, `Interpreter`, each verified against a specification-level
//! model of its behaviour, and `Lox` drives the three in order. Scan and
//! parse failures are reported as position-and-message records and the
//! program still runs; runtime failures abort the run. The host is
//! expected to render the reports and print the output chunks.

pub mod ast;
pub mod env;
pub mod function;
pub mod interp;
pub mod laws;
pub mod num;
pub mod parser;
pub mod printer;
pub mod scanner;
pub mod text;
pub mod token;
pub mod value;

use crate::ast::Stmt;
use crate::interp::{exec_stmts_s, state_wf, Interpreter, RuntimeError, StateV, DEFAULT_STEPS};
use crate::parser::{p_program, perrs_view, stmts_view, ParseError, Parser};
use crate::scanner::{eof_token, scan_all, serrs_view, tokens_view, ScanError, ScanSt, Scanner};
use crate::token::Token;
use vstd::prelude::*;

verus! {

/// What one run reports: the scan and parse failures, and the runtime
/// error that aborted the run, if one did. The output printed so far
/// stays with the interpreter.
pub struct RunOutcome {
    pub scan_errors: Vec<ScanError>,
    pub parse_errors: Vec<ParseError>,
    pub runtime_error: Option<RuntimeError>,
}

/// The interpreter session: one global environment that lives across
/// runs, pre-seeded with the native functions, and the next identifying
/// number to give a function declaration, so that declarations from
/// different runs never compare equal.
pub struct Lox {
    pub interpreter: Interpreter,
    pub next_fun_id: usize,
}

impl Lox {
    /// A fresh session: one global frame, pre-seeded with the native
    /// `clock`, nothing printed yet.
    pub fn new() -> (r: Self)
        ensures
            state_wf(r.interpreter@),
            r.interpreter@.cur == 0,
            r.interpreter@.frames.len() == 1,
            r.interpreter@.frames[0].enclosing is None,
            r.interpreter@.frames[0].table == Map::<Seq<char>, Option<crate::value::ValueV>>::empty().insert(
                "clock"@,
                Some(crate::value::ValueV::Native),
            ),
            r.interpreter@.out == Seq::<Seq<char>>::empty(),
            r.next_fun_id == 0,
    {
        Lox { interpreter: Interpreter::new(), next_fun_id: 0 }
    }

    /// Run one text: scan it, parse it, and execute the statements
    /// against the session's environment. The tokens of a text with scan
    /// failures are still parsed, and a partially malformed program still
    /// runs with its placeholders; a runtime failure aborts the run.
    ///
    /// Function declarations are numbered from the session's counter, so
    /// declarations from different runs stay distinct until the number
    /// space is exhausted; the host clock is read afresh at the start of
    /// the run, and every `clock` call within it yields that reading.
    ///
    /// The outcome is exactly what the scan, parse and execution models
    /// say of the text: there are a token list and a statement list whose
    /// models are the scan's and the parse's, and the interpreter's state
    /// and result are the execution model's on them, started at the fresh
    /// clock reading.
    pub fn run(&mut self, content: String) -> (r: RunOutcome)
        requires
            state_wf(old(self).interpreter@),
            content@.len() < 0x1000_0000,
        ensures
            state_wf(final(self).interpreter@),
            exists|toks: Seq<Token>, prog: Seq<Stmt>|
                #![trigger tokens_view(toks), stmts_view(prog)]
                {
                    let st0 = ScanSt {
                        pos: 0,
                        line: 1,
                        column: 0,
                        tokens: Seq::empty(),
                        errors: Seq::empty(),
                    };
                    let sst = scan_all(content@, st0);
                    let base: int = if old(self).next_fun_id + toks.len() <= usize::MAX {
                        old(self).next_fun_id as int
                    } else {
                        usize::MAX - toks.len()
                    };
                    let (ss, es) = p_program(toks, 0, Seq::empty(), Seq::empty(), base);
                    let begin = StateV {
                        frames: old(self).interpreter@.frames,
                        cur: old(self).interpreter@.cur,
                        out: old(self).interpreter@.out,
                        now: final(self).interpreter@.now,
                    };
                    let (res, st) = exec_stmts_s(prog, begin, DEFAULT_STEPS as nat);
                    &&& tokens_view(toks) == sst.tokens.push(eof_token(sst))
                    &&& serrs_view(r.scan_errors@) == sst.errors
                    &&& stmts_view(prog) == ss
                    &&& perrs_view(r.parse_errors@) == es
                    &&& final(self).next_fun_id == base + toks.len()
                    &&& final(self).interpreter@ == st
                    &&& match (r.runtime_error, res) {
                        (None, Ok(_)) => true,
                        (Some(a), Err(b)) => a == b,
                        _ => false,
                    }
                },
    {
        let mut scanner = Scanner::new(content);
        let tokens = scanner.scan_tokens();
        let ghost toks = tokens@;
        proof {
            assert(tokens_view(toks).len() == toks.len());
            assert(tokens_view(toks).last() == crate::scanner::token_view(toks.last()));
        }
        let t_len = tokens.len();
        let base: usize = if self.next_fun_id <= usize::MAX - t_len {
            self.next_fun_id
        } else {
            usize::MAX - t_len
        };
        let mut parser = Parser::with_base(tokens, base);
        let statements = parser.parse();
        self.next_fun_id = base + t_len;
        self.interpreter.refresh_clock();
        let runtime_error = match self.interpreter.interpret(&statements) {
            Ok(_) => None,
            Err(e) => Some(e),
        };
        let outcome = RunOutcome {
            scan_errors: scanner.errors,
            parse_errors: parser.errors,
            runtime_error,
        };
        proof {
            assert(serrs_view(Seq::<ScanError>::empty()) =~= Seq::<
                crate::scanner::ScanErrV,
            >::empty());
            assert(perrs_view(Seq::<ParseError>::empty()) =~= Seq::<
                crate::parser::ParseErrV,
            >::empty());
        }
        outcome
    }
}

} // verus!
