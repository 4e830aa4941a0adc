//! Faults: why a source text could not be read or evaluated.
use vstd::prelude::*;
use crate::token::Kind;
use crate::text::{push_str, push_chars, push_digits, chars_of, string_of, decimal};

verus! {

/// The category of a fault.
#[derive(Debug, Clone, Copy, PartialEq, Eq, Structural)]
pub enum FaultKind {
    /// A character that no token starts with.
    LexError,
    /// A token where the grammar allows none of its kind, or an early end of the tokens.
    ParseError,
    /// A name read that no scope declares.
    UnknownName,
    /// A name assigned that no scope declares.
    UndeclaredName,
    /// A name declared twice in one scope.
    AlreadyDefined,
    /// An assignment to an immutable binding.
    ImmutableReassign,
    /// A call of a name that holds no function.
    NotCallable,
    /// An operator applied to values of kinds it does not take.
    TypeMismatch,
    /// A division or remainder by zero.
    DivisionByZero,
    /// An operator that the evaluator does not know (only in trees built by hand).
    InvalidOperator,
    /// A literal or a result outside the range of 32-bit integers.
    Overflow,
    /// The evaluation ran past its step budget.
    StepLimit,
}

/// A fault: its category, the name or token text it concerns, and for the faults
/// of the scanner and the parser the token kind expected and the position reached.
#[derive(Debug, PartialEq)]
pub struct Fault {
    pub kind: FaultKind,
    pub detail: String,
    pub expected: Option<Kind>,
    pub position: usize,
}

/// The model of a fault.
pub struct FaultV {
    pub kind: FaultKind,
    pub detail: Seq<char>,
    pub expected: Option<Kind>,
    pub position: nat,
}

impl View for Fault {
    type V = FaultV;

    open spec fn view(&self) -> FaultV {
        FaultV { kind: self.kind, detail: self.detail@, expected: self.expected, position: self.position as nat }
    }
}

/// A fault of the evaluator about `detail`.
pub open spec fn fault(kind: FaultKind, detail: Seq<char>) -> FaultV {
    FaultV { kind, detail, expected: None, position: 0 }
}

/// The human-readable message of a fault.
pub open spec fn message_text(f: FaultV) -> Seq<char> {
    match f.kind {
        FaultKind::LexError => "Lexer error: invalid character "@ + f.detail + " at position "@ + decimal(
            f.position as int,
        ),
        FaultKind::ParseError => "Sintax error: unexpected "@ + f.detail + " at position "@ + decimal(
            f.position as int,
        ),
        FaultKind::UnknownName => "Variable "@ + f.detail + " doesn't exist in this context"@,
        FaultKind::UndeclaredName => "Value error: variable "@ + f.detail + " used before declared."@,
        FaultKind::AlreadyDefined => "Value error: variable "@ + f.detail + " has already defined."@,
        FaultKind::ImmutableReassign => "Value error: imutable "@ + f.detail + " was reassigned."@,
        FaultKind::NotCallable => "Value error: "@ + f.detail + " is not callable"@,
        FaultKind::TypeMismatch => "Operation error: invalid operands for "@ + f.detail,
        FaultKind::DivisionByZero => "Operation error: division by zero"@,
        FaultKind::InvalidOperator => "Sintax error: invalid operator "@ + f.detail,
        FaultKind::Overflow => "Operation error: integer overflow at "@ + f.detail,
        FaultKind::StepLimit => "Evaluation error: step limit reached"@,
    }
}

impl Fault {
    /// A fault of the evaluator about `detail`.
    pub fn named(kind: FaultKind, detail: &String) -> (r: Fault)
        ensures
            r@ == fault(kind, detail@),
    {
        Fault { kind, detail: detail.clone(), expected: None, position: 0 }
    }

    /// A fault of the scanner or the parser at `position`.
    pub fn at(kind: FaultKind, detail: String, expected: Option<Kind>, position: usize) -> (r: Fault)
        ensures
            r@ == (FaultV { kind, detail: detail@, expected, position: position as nat }),
    {
        Fault { kind, detail, expected, position }
    }

    /// The human-readable message of this fault.
    pub fn message(&self) -> (r: String)
        ensures
            r@ == message_text(self@),
    {
        let d = chars_of(self.detail.as_str());
        let mut out: Vec<char> = Vec::new();
        match self.kind {
            FaultKind::LexError => {
                push_str(&mut out, "Lexer error: invalid character ");
                push_chars(&mut out, &d);
                push_str(&mut out, " at position ");
                push_digits(&mut out, self.position as u64);
                proof { assert(out@ =~= message_text(self@)); }
            },
            FaultKind::ParseError => {
                push_str(&mut out, "Sintax error: unexpected ");
                push_chars(&mut out, &d);
                push_str(&mut out, " at position ");
                push_digits(&mut out, self.position as u64);
                proof { assert(out@ =~= message_text(self@)); }
            },
            FaultKind::UnknownName => {
                push_str(&mut out, "Variable ");
                push_chars(&mut out, &d);
                push_str(&mut out, " doesn't exist in this context");
                proof { assert(out@ =~= message_text(self@)); }
            },
            FaultKind::UndeclaredName => {
                push_str(&mut out, "Value error: variable ");
                push_chars(&mut out, &d);
                push_str(&mut out, " used before declared.");
                proof { assert(out@ =~= message_text(self@)); }
            },
            FaultKind::AlreadyDefined => {
                push_str(&mut out, "Value error: variable ");
                push_chars(&mut out, &d);
                push_str(&mut out, " has already defined.");
                proof { assert(out@ =~= message_text(self@)); }
            },
            FaultKind::ImmutableReassign => {
                push_str(&mut out, "Value error: imutable ");
                push_chars(&mut out, &d);
                push_str(&mut out, " was reassigned.");
                proof { assert(out@ =~= message_text(self@)); }
            },
            FaultKind::NotCallable => {
                push_str(&mut out, "Value error: ");
                push_chars(&mut out, &d);
                push_str(&mut out, " is not callable");
                proof { assert(out@ =~= message_text(self@)); }
            },
            FaultKind::TypeMismatch => {
                push_str(&mut out, "Operation error: invalid operands for ");
                push_chars(&mut out, &d);
                proof { assert(out@ =~= message_text(self@)); }
            },
            FaultKind::DivisionByZero => {
                push_str(&mut out, "Operation error: division by zero");
                proof { assert(out@ =~= message_text(self@)); }
            },
            FaultKind::InvalidOperator => {
                push_str(&mut out, "Sintax error: invalid operator ");
                push_chars(&mut out, &d);
                proof { assert(out@ =~= message_text(self@)); }
            },
            FaultKind::Overflow => {
                push_str(&mut out, "Operation error: integer overflow at ");
                push_chars(&mut out, &d);
                proof { assert(out@ =~= message_text(self@)); }
            },
            FaultKind::StepLimit => {
                push_str(&mut out, "Evaluation error: step limit reached");
                proof { assert(out@ =~= message_text(self@)); }
            },
        }
        string_of(&out)
    }
}

} // verus!
