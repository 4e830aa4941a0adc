//! The meaning of the language: a reference evaluator over the models of trees, values
//! and frames. The executable interpreter is proved to compute exactly this.
use vstd::prelude::*;
use crate::ast::{NodeV, OpV};
use crate::primitive::{ValueV, coerce, truthy, display, in_i32};
use crate::fault::{FaultKind, FaultV, fault};
use crate::frame::{FrameV, resolve, owns, snapshot, pop_frames};

verus! {

/// The model of an interpreter: its frames, the global one first, and the lines printed.
pub struct StateV {
    pub frames: Seq<FrameV>,
    pub out: Seq<Seq<char>>,
}

/// The innermost frame.
pub open spec fn top(s: StateV) -> FrameV {
    s.frames.last()
}

/// `s` with its innermost frame replaced by `f`.
pub open spec fn set_top(s: StateV, f: FrameV) -> StateV {
    StateV { frames: s.frames.update(s.frames.len() - 1, f), ..s }
}

/// `s` with `f` opened as the innermost frame.
pub open spec fn enter(s: StateV, f: FrameV) -> StateV {
    StateV { frames: s.frames.push(f), ..s }
}

/// `s` with its innermost frame closed.
pub open spec fn leave(s: StateV) -> StateV {
    StateV { frames: pop_frames(s.frames), ..s }
}

/// `f` with `k` declared as an own binding, immutable or mutable.
pub open spec fn declare(f: FrameV, k: Seq<char>, v: ValueV, mutable: bool) -> FrameV {
    if mutable {
        FrameV { mutable: f.mutable.insert(k, v), ..f }
    } else {
        FrameV { imm: f.imm.insert(k, v), ..f }
    }
}

/// `f` with the first `n` parameters bound, in order, as own mutable bindings to the
/// first `n` argument values.
pub open spec fn bind_n(f: FrameV, ps: Seq<Seq<char>>, vs: Seq<ValueV>, n: nat) -> FrameV
    decreases n,
{
    if n == 0 {
        f
    } else {
        let g = bind_n(f, ps, vs, (n - 1) as nat);
        FrameV { mutable: g.mutable.insert(ps[n - 1], vs[n - 1]), ..g }
    }
}

/// `f` with each parameter that has an argument bound to it.
pub open spec fn bind_params(f: FrameV, ps: Seq<Seq<char>>, vs: Seq<ValueV>) -> FrameV {
    bind_n(f, ps, vs, if ps.len() <= vs.len() { ps.len() } else { vs.len() })
}

/// The names of a function's parameters.
pub open spec fn param_names(ps: Seq<NodeV>) -> Seq<Seq<char>> {
    ps.map_values(|p: NodeV| p.value)
}

/// Truncating integer division, as machine integers divide.
pub open spec fn trunc_div(a: int, b: int) -> int {
    let q = (if a < 0 { -a } else { a }) / (if b < 0 { -b } else { b });
    if (a < 0) != (b < 0) { -q } else { q }
}

/// Arithmetic: `+ - * / %` on two integers.
pub open spec fn arith(op: Seq<char>, a: ValueV, b: ValueV) -> Result<ValueV, FaultV> {
    if !(op == "+"@ || op == "-"@ || op == "*"@ || op == "/"@ || op == "%"@) {
        Err(fault(FaultKind::InvalidOperator, op))
    } else {
        match (a, b) {
            (ValueV::Int(x), ValueV::Int(y)) => {
                if (op == "/"@ || op == "%"@) && y == 0 {
                    Err(fault(FaultKind::DivisionByZero, op))
                } else {
                    let r = if op == "+"@ {
                        x + y
                    } else if op == "-"@ {
                        x - y
                    } else if op == "*"@ {
                        x * y
                    } else if op == "/"@ {
                        trunc_div(x, y)
                    } else {
                        x - y * trunc_div(x, y)
                    };
                    if in_i32(r) {
                        Ok(ValueV::Int(r))
                    } else {
                        Err(fault(FaultKind::Overflow, op))
                    }
                }
            },
            _ => Err(fault(FaultKind::TypeMismatch, op)),
        }
    }
}

/// Comparisons and connectives: `== != < >` on integers and booleans (booleans as 1
/// and 0), and `and && or ||` on the truthiness of any two values.
pub open spec fn compare(op: Seq<char>, a: ValueV, b: ValueV) -> Result<ValueV, FaultV> {
    if op == "and"@ || op == "&&"@ {
        Ok(ValueV::Bool(truthy(a) && truthy(b)))
    } else if op == "or"@ || op == "||"@ {
        Ok(ValueV::Bool(truthy(a) || truthy(b)))
    } else if op == "=="@ || op == "!="@ || op == "<"@ || op == ">"@ {
        match (coerce(a), coerce(b)) {
            (Some(x), Some(y)) => Ok(
                ValueV::Bool(
                    if op == "=="@ {
                        x == y
                    } else if op == "!="@ {
                        x != y
                    } else if op == "<"@ {
                        x < y
                    } else {
                        x > y
                    },
                ),
            ),
            _ => Err(fault(FaultKind::TypeMismatch, op)),
        }
    } else {
        Err(fault(FaultKind::InvalidOperator, op))
    }
}

/// Unary `+` (identity) and `-` (negation) on an integer.
pub open spec fn negate(op: Seq<char>, v: ValueV) -> Result<ValueV, FaultV> {
    if !(op == "+"@ || op == "-"@) {
        Err(fault(FaultKind::InvalidOperator, op))
    } else {
        match v {
            ValueV::Int(x) => {
                let r = if op == "+"@ { x } else { -x };
                if in_i32(r) {
                    Ok(ValueV::Int(r))
                } else {
                    Err(fault(FaultKind::Overflow, op))
                }
            },
            _ => Err(fault(FaultKind::TypeMismatch, op)),
        }
    }
}

/// Evaluates `n` in `s` within `fuel` steps: the value or the fault, and the state
/// reached. Each step down the tree, each statement's turn and each turn of a loop
/// takes one step; evaluation out of steps faults with `StepLimit`.
pub open spec fn eval(fuel: nat, n: NodeV, s: StateV) -> (Result<ValueV, FaultV>, StateV)
    decreases fuel, 0nat,
{
    if fuel == 0 {
        (Err(fault(FaultKind::StepLimit, n.value)), s)
    } else {
        let g = (fuel - 1) as nat;
        match n.op {
            OpV::Identifier(name) => match resolve(top(s), name) {
                Some(p) => (Ok(p.0), s),
                None => (Err(fault(FaultKind::UnknownName, name)), s),
            },
            OpV::Constant(v) => (Ok(v), s),
            OpV::Binary(l, op, r) => {
                let a = eval(g, *l, s);
                match a.0 {
                    Err(e) => (Err(e), a.1),
                    Ok(x) => {
                        let b = eval(g, *r, a.1);
                        match b.0 {
                            Err(e) => (Err(e), b.1),
                            Ok(y) => (arith(op, x, y), b.1),
                        }
                    },
                }
            },
            OpV::Comparison(l, op, r) => {
                let a = eval(g, *l, s);
                match a.0 {
                    Err(e) => (Err(e), a.1),
                    Ok(x) => {
                        let b = eval(g, *r, a.1);
                        match b.0 {
                            Err(e) => (Err(e), b.1),
                            Ok(y) => (compare(op, x, y), b.1),
                        }
                    },
                }
            },
            OpV::NegUnary(x) => {
                let a = eval(g, *x, s);
                match a.0 {
                    Err(e) => (Err(e), a.1),
                    Ok(v) => (negate(n.value, v), a.1),
                }
            },
            OpV::DefineImut(id, e) => {
                let a = eval(g, *e, s);
                match a.0 {
                    Err(e) => (Err(e), a.1),
                    Ok(v) => if owns(top(a.1), id.value) {
                        (Err(fault(FaultKind::AlreadyDefined, id.value)), a.1)
                    } else {
                        (Ok(ValueV::Nil), set_top(a.1, declare(top(a.1), id.value, v, false)))
                    },
                }
            },
            OpV::DefineVar(id, e) => {
                let a = eval(g, *e, s);
                match a.0 {
                    Err(e) => (Err(e), a.1),
                    Ok(v) => if owns(top(a.1), id.value) {
                        (Err(fault(FaultKind::AlreadyDefined, id.value)), a.1)
                    } else {
                        (Ok(v), set_top(a.1, declare(top(a.1), id.value, v, true)))
                    },
                }
            },
            OpV::ReAssign(id, e) => match resolve(top(s), id.value) {
                None => (Err(fault(FaultKind::UndeclaredName, id.value)), s),
                Some(p) => if !p.1 {
                    (Err(fault(FaultKind::ImmutableReassign, id.value)), s)
                } else {
                    let a = eval(g, *e, s);
                    match a.0 {
                        Err(e) => (Err(e), a.1),
                        Ok(v) => (Ok(ValueV::Nil), set_top(a.1, declare(top(a.1), id.value, v, true))),
                    }
                },
            },
            OpV::IfElse(c, t, e) => {
                let a = eval(g, *c, s);
                match a.0 {
                    Err(e) => (Err(e), a.1),
                    Ok(v) => if truthy(v) {
                        eval(g, *t, a.1)
                    } else {
                        eval(g, *e, a.1)
                    },
                }
            },
            OpV::Loop(c, b) => eval_loop(g, *c, *b, s),
            OpV::Block(stmts) => {
                let a = eval_seq(g, stmts, 0, enter(s, snapshot(top(s))), ValueV::Nil);
                match a.0 {
                    Err(e) => (Err(e), a.1),
                    Ok(v) => (Ok(v), leave(a.1)),
                }
            },
            OpV::Program(stmts) => eval_seq(g, stmts, 0, s, ValueV::Nil),
            OpV::DefineFunc(id, ps, body) => {
                let f = top(s);
                if resolve(f, id.value) is Some || f.funcs.contains_key(id.value) {
                    (Err(fault(FaultKind::AlreadyDefined, id.value)), s)
                } else {
                    let fv = ValueV::Func(param_names(ps), body);
                    (Ok(ValueV::Nil), set_top(s, FrameV { funcs: f.funcs.insert(id.value, fv), ..f }))
                }
            },
            OpV::CallFunc(id, args) => {
                let f = top(s);
                if !f.funcs.contains_key(id.value) {
                    (Err(fault(FaultKind::NotCallable, id.value)), s)
                } else {
                    match f.funcs[id.value] {
                        ValueV::Func(ps, body) => {
                            let a = eval_args(g, args, 0, s, Seq::empty());
                            match a.0 {
                                Err(e) => (Err(e), a.1),
                                Ok(vs) => {
                                    let callee = bind_params(snapshot(top(a.1)), ps, vs);
                                    let b = eval(g, *body, enter(a.1, callee));
                                    match b.0 {
                                        Err(e) => (Err(e), b.1),
                                        Ok(v) => (Ok(v), leave(b.1)),
                                    }
                                },
                            }
                        },
                        _ => (Err(fault(FaultKind::NotCallable, id.value)), s),
                    }
                }
            },
            OpV::Print(x) => {
                let a = eval(g, *x, s);
                match a.0 {
                    Err(e) => (Err(e), a.1),
                    Ok(v) => (Ok(ValueV::Nil), StateV { out: a.1.out.push(display(v)), ..a.1 }),
                }
            },
            OpV::Return(x) => eval(g, *x, s),
            OpV::Empty => (Ok(ValueV::Nil), s),
        }
    }
}

/// Evaluates the statements from the `i`-th on, in order, each in the state the one
/// before left; the value is the last statement's (`last` when none is left).
pub open spec fn eval_seq(fuel: nat, stmts: Seq<NodeV>, i: nat, s: StateV, last: ValueV) -> (
    Result<ValueV, FaultV>,
    StateV,
)
    decreases fuel, stmts.len() - i,
{
    if i >= stmts.len() {
        (Ok(last), s)
    } else {
        let a = eval(fuel, stmts[i as int], s);
        match a.0 {
            Err(e) => (Err(e), a.1),
            Ok(v) => eval_seq(fuel, stmts, i + 1, a.1, v),
        }
    }
}

/// Evaluates the arguments from the `i`-th on, left to right, after the values `acc`.
pub open spec fn eval_args(fuel: nat, args: Seq<NodeV>, i: nat, s: StateV, acc: Seq<ValueV>) -> (
    Result<Seq<ValueV>, FaultV>,
    StateV,
)
    decreases fuel, args.len() - i,
{
    if i >= args.len() {
        (Ok(acc), s)
    } else {
        let a = eval(fuel, args[i as int], s);
        match a.0 {
            Err(e) => (Err(e), a.1),
            Ok(v) => eval_args(fuel, args, i + 1, a.1, acc.push(v)),
        }
    }
}

/// A loop: while the condition is truthy, the body; the value is nil.
pub open spec fn eval_loop(fuel: nat, c: NodeV, b: NodeV, s: StateV) -> (Result<ValueV, FaultV>, StateV)
    decreases fuel, 0nat,
{
    if fuel == 0 {
        (Err(fault(FaultKind::StepLimit, Seq::empty())), s)
    } else {
        let g = (fuel - 1) as nat;
        let a = eval(g, c, s);
        match a.0 {
            Err(e) => (Err(e), a.1),
            Ok(v) => if !truthy(v) {
                (Ok(ValueV::Nil), a.1)
            } else {
                let r = eval(g, b, a.1);
                match r.0 {
                    Err(e) => (Err(e), r.1),
                    Ok(_) => eval_loop(g, c, b, r.1),
                }
            },
        }
    }
}

} // verus!
