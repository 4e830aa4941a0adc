//! An interpreter for a small scripting language: a scanner, a recursive-descent parser
//! and a tree-walking evaluator, each proved to compute what the spec functions of
//! `token`, `grammar` and `semantics` say.
use vstd::prelude::*;

mod text;
pub mod token;
pub mod ast;
pub mod primitive;
pub mod fault;
pub mod frame;
pub mod semantics;
pub mod grammar;
pub mod parser;
pub mod interpreter;
pub mod repl;
pub mod strscan;
pub mod cli;
pub mod laws;

use crate::token::{Tokenizer, lex};
use crate::parser::Parser;
use crate::interpreter::{Interpreter, FUEL, result_text};
use crate::grammar::p_program;
use crate::fault::message_text;
use crate::semantics::{StateV, eval as eval_node};
use crate::frame::empty_frame;

verus! {

/// The state of a fresh interpreter: one empty global frame, nothing printed.
pub open spec fn initial_state() -> StateV {
    StateV { frames: seq![empty_frame()], out: Seq::empty() }
}

/// The text that evaluating `source` in `state` yields: the message of the fault that
/// stopped scanning or parsing, or else the text of the program's value or the
/// message of the fault that stopped its evaluation.
pub open spec fn run_text(source: Seq<char>, state: StateV) -> Seq<char> {
    match p_program(lex(source, 0), 0) {
        Err(f) => message_text(f),
        Ok(tree) => result_text(eval_node(FUEL as nat, tree, state).0),
    }
}

/// Scans, parses and evaluates `source` with a fresh interpreter, and returns the text
/// of the result or of the fault.
pub fn eval(source: String) -> (r: String)
    ensures
        r@ == run_text(source@, initial_state()),
{
    let tokenizer = Tokenizer::new(source);
    let mut parser = Parser::new(tokenizer);
    match parser.parse() {
        Ok(tree) => {
            let mut interpreter = Interpreter::new();
            interpreter.eval(tree)
        },
        Err(f) => f.message(),
    }
}

} // verus!
