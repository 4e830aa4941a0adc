//! A read-eval-print session: one interpreter kept across the lines it is given.
use vstd::prelude::*;
use crate::token::{Tokenizer, lex};
use crate::parser::Parser;
use crate::interpreter::{Interpreter, after_eval};
use crate::grammar::p_program;
use crate::run_text;

verus! {

/// A session: declarations made by one line stay for the next ones.
pub struct Repl {
    interpreter: Interpreter,
}

impl View for Repl {
    type V = crate::semantics::StateV;

    closed spec fn view(&self) -> crate::semantics::StateV {
        self.interpreter@
    }
}

impl Repl {
    pub closed spec fn wf(&self) -> bool {
        self.interpreter.wf()
    }

    pub fn new() -> (r: Self)
        ensures
            r.wf(),
            r@ == crate::initial_state(),
    {
        Repl { interpreter: Interpreter::new() }
    }

    /// Evaluates one line against the session's state; its effects stay, but for the
    /// scopes it had opened when a fault stopped it.
    pub fn eval(&mut self, source: String) -> (r: String)
        requires
            old(self).wf(),
        ensures
            final(self).wf(),
            r@ == run_text(source@, old(self)@),
            final(self)@ == match p_program(lex(source@, 0), 0) {
                Ok(tree) => after_eval(tree, old(self)@),
                Err(_) => old(self)@,
            },
    {
        let tokenizer = Tokenizer::new(source);
        let mut parser = Parser::new(tokenizer);
        match parser.parse() {
            Ok(tree) => self.interpreter.eval(tree),
            Err(f) => f.message(),
        }
    }

    /// The lines printed so far.
    pub fn output(&self) -> (r: &Vec<String>)
        ensures
            r@.map_values(|s: String| s@) == self@.out,
    {
        &self.interpreter.output
    }
}

} // verus!
