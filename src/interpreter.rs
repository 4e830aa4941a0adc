//! The tree-walking interpreter.
use vstd::prelude::*;
use crate::ast::{Node, Operation, OpV, node_view, nodes_view, lemma_nodes_view};
use crate::primitive::{Type, ValueV, names_view};
use crate::primitive::truthy as truthy_value;
use crate::fault::{Fault, FaultKind, FaultV, fault, message_text};
use crate::frame::{Frame, FrameStack};
use crate::semantics::{
    StateV, eval, eval_seq, eval_args, eval_loop, arith, compare, negate, trunc_div, top, set_top,
    declare, bind_n, param_names,
};
use crate::text::same_text;

verus! {

/// The step budget of one evaluation: no program that terminates on a real machine
/// comes near it.
pub const FUEL: u64 = 18446744073709551615;

/// The value or the fault, as models.
pub open spec fn outcome(r: Result<Type, Fault>) -> Result<ValueV, FaultV> {
    match r {
        Ok(v) => Ok(v@),
        Err(f) => Err(f@),
    }
}

/// The models of a sequence of values.
pub open spec fn values_view(s: Seq<Type>) -> Seq<ValueV> {
    s.map_values(|v: Type| v@)
}

/// The text that an evaluation yields: the value's text, or the fault's message.
pub open spec fn result_text(r: Result<ValueV, FaultV>) -> Seq<char> {
    match r {
        Ok(v) => crate::primitive::display(v),
        Err(f) => message_text(f),
    }
}

/// The state after `Interpreter::eval` of `tree` from `s`: the state the evaluation
/// reached, less the frames it had opened when a fault stopped it.
pub open spec fn after_eval(tree: crate::ast::NodeV, s: StateV) -> StateV {
    let t = eval(FUEL as nat, tree, s);
    if t.0 is Ok {
        t.1
    } else {
        StateV {
            frames: if s.frames.len() <= t.1.frames.len() {
                t.1.frames.subrange(0, s.frames.len() as int)
            } else {
                t.1.frames
            },
            out: t.1.out,
        }
    }
}

/// Evaluates trees against a stack of frames that lasts as long as the interpreter.
pub struct Interpreter {
    pub stack: FrameStack,
    pub output: Vec<String>,
}

impl View for Interpreter {
    type V = StateV;

    open spec fn view(&self) -> StateV {
        StateV { frames: self.stack@, out: self.output@.map_values(|s: String| s@) }
    }
}

// unary_operation
// `+x` is `x` and `-x` its negation, on integers.
fn unary_operation(operator: &String, operand: Type) -> (r: Result<Type, Fault>)
    ensures
        outcome(r) == negate(operator@, operand@),
{
    let plus = same_text(operator.as_str(), "+");
    let minus = same_text(operator.as_str(), "-");
    if !plus && !minus {
        return Err(Fault::named(FaultKind::InvalidOperator, operator));
    }
    match operand {
        Type::Int(x) => {
            if plus {
                Ok(Type::Int(x))
            } else if x == i32::MIN {
                Err(Fault::named(FaultKind::Overflow, operator))
            } else {
                Ok(Type::Int(-x))
            }
        },
        _ => Err(Fault::named(FaultKind::TypeMismatch, operator)),
    }
}

fn divide(x: i64, y: i64) -> (q: i64)
    requires
        y != 0,
        -0x8000_0000 <= x <= 0x7fff_ffff,
        -0x8000_0000 <= y <= 0x7fff_ffff,
    ensures
        q == trunc_div(x as int, y as int),
        -0x8000_0000 <= q <= 0x8000_0000,
{
    let ax: u64 = if x < 0 { (-x) as u64 } else { x as u64 };
    let ay: u64 = if y < 0 { (-y) as u64 } else { y as u64 };
    let q: u64 = ax / ay;
    assert(q <= ax) by (nonlinear_arith)
        requires
            ay >= 1,
            q == ax / ay,
    ;
    if (x < 0) != (y < 0) {
        -(q as i64)
    } else {
        q as i64
    }
}

// binary_operation
// Arithmetic on two integers.
fn binary_operation(left: Type, operator: &String, right: Type) -> (r: Result<Type, Fault>)
    ensures
        outcome(r) == arith(operator@, left@, right@),
{
    let op = operator.as_str();
    let add = same_text(op, "+");
    let sub = same_text(op, "-");
    let mul = same_text(op, "*");
    let div = same_text(op, "/");
    let rem = same_text(op, "%");
    if !(add || sub || mul || div || rem) {
        return Err(Fault::named(FaultKind::InvalidOperator, operator));
    }
    match (left, right) {
        (Type::Int(a), Type::Int(b)) => {
            if (div || rem) && b == 0 {
                return Err(Fault::named(FaultKind::DivisionByZero, operator));
            }
            let x = a as i64;
            let y = b as i64;
            let r: i64 = if add {
                x + y
            } else if sub {
                x - y
            } else if mul {
                assert(-0x4000_0000_0000_0000 <= x * y <= 0x4000_0000_0000_0000) by (nonlinear_arith)
                    requires
                        -0x8000_0000 <= x <= 0x7fff_ffff,
                        -0x8000_0000 <= y <= 0x7fff_ffff,
                ;
                x * y
            } else {
                let q = divide(x, y);
                if div {
                    q
                } else {
                    assert(-0x4000_0000_0000_0000 <= y * q <= 0x4000_0000_0000_0000) by (nonlinear_arith)
                        requires
                            -0x8000_0000 <= q <= 0x8000_0000,
                            -0x8000_0000 <= y <= 0x7fff_ffff,
                    ;
                    x - y * q
                }
            };
            if r < i32::MIN as i64 || r > i32::MAX as i64 {
                Err(Fault::named(FaultKind::Overflow, operator))
            } else {
                Ok(Type::Int(r as i32))
            }
        },
        _ => Err(Fault::named(FaultKind::TypeMismatch, operator)),
    }
}

fn coerce(v: &Type) -> (r: Option<i64>)
    ensures
        match r {
            Some(x) => crate::primitive::coerce(v@) == Some(x as int),
            None => crate::primitive::coerce(v@) is None,
        },
{
    match v {
        Type::Int(i) => Some(*i as i64),
        Type::Bool(b) => Some(if *b { 1 } else { 0 }),
        _ => None,
    }
}

// binary_comparison
// Comparisons of integers and booleans, and connectives on truthiness.
fn binary_comparison(left: Type, operator: &String, right: Type) -> (r: Result<Type, Fault>)
    ensures
        outcome(r) == compare(operator@, left@, right@),
{
    let op = operator.as_str();
    if same_text(op, "and") || same_text(op, "&&") {
        return Ok(Type::Bool(truthy(&left) && truthy(&right)));
    }
    if same_text(op, "or") || same_text(op, "||") {
        return Ok(Type::Bool(truthy(&left) || truthy(&right)));
    }
    let eq = same_text(op, "==");
    let ne = same_text(op, "!=");
    let lt = same_text(op, "<");
    let gt = same_text(op, ">");
    if !(eq || ne || lt || gt) {
        return Err(Fault::named(FaultKind::InvalidOperator, operator));
    }
    match (coerce(&left), coerce(&right)) {
        (Some(x), Some(y)) => Ok(
            Type::Bool(
                if eq {
                    x == y
                } else if ne {
                    x != y
                } else if lt {
                    x < y
                } else {
                    x > y
                },
            ),
        ),
        _ => Err(Fault::named(FaultKind::TypeMismatch, operator)),
    }
}

// truthy
// A condition holds when its value is `true` or the integer 1.
fn truthy(condition: &Type) -> (r: bool)
    ensures
        r == truthy_value(condition@),
{
    condition.as_bool()
}


/// The names of a function's parameters.
fn param_list(ps: &Vec<Node>) -> (r: Vec<String>)
    ensures
        names_view(r@) == param_names(nodes_view(ps@)),
{
    proof {
        lemma_nodes_view(ps@);
    }
    let mut names: Vec<String> = Vec::new();
    let mut i: usize = 0;
    while i < ps.len()
        invariant
            i <= ps@.len(),
            names@.len() == i,
            forall|j: int| 0 <= j < i ==> #[trigger] names@[j]@ == ps@[j].value@,
        decreases ps.len() - i,
    {
        names.push(ps[i].value.clone());
        i = i + 1;
    }
    proof {
        lemma_nodes_view(ps@);
        assert(names_view(names@) =~= param_names(nodes_view(ps@)));
    }
    names
}

impl Interpreter {
    pub open spec fn wf(&self) -> bool {
        self.stack.wf()
    }

    /// An interpreter with one empty global frame and nothing printed.
    pub fn new() -> (r: Self)
        ensures
            r.wf(),
            r@ == (StateV { frames: seq![crate::frame::empty_frame()], out: Seq::empty() }),
    {
        let r = Interpreter { stack: FrameStack::new(), output: Vec::new() };
        assert(r@.out =~= Seq::<Seq<char>>::empty());
        r
    }

    /// The innermost frame.
    fn scope(&self) -> (r: &Frame)
        requires
            self.wf(),
        ensures
            r.wf(),
            r@ == top(self@),
    {
        self.stack.top()
    }

    /// Declares `name` in the innermost frame, immutable or mutable.
    fn declare(&mut self, name: &String, v: Type, mutable: bool)
        requires
            old(self).wf(),
        ensures
            final(self).wf(),
            final(self)@ == set_top(old(self)@, declare(top(old(self)@), name@, v@, mutable)),
    {
        let ghost n = self.stack.frames().len();
        let f = self.stack.current();
        if mutable {
            f.locals.insert(name.clone(), v);
        } else {
            f.ilocals.insert(name.clone(), v);
        }
        proof {
            assert(self.stack.frames()[n - 1].wf());
            assert forall|i: int| 0 <= i < self.stack.frames().len() implies (
            #[trigger] self.stack.frames()[i]).wf() by {
                if i != n - 1 {
                    assert(self.stack.frames()[i] == old(self).stack.frames()[i]);
                }
            }
            assert(self@.frames =~= set_top(
                old(self)@,
                declare(top(old(self)@), name@, v@, mutable),
            ).frames);
        }
    }

    /// Registers `v` under `name` in the innermost frame's functions.
    fn register(&mut self, name: &String, v: Type)
        requires
            old(self).wf(),
        ensures
            final(self).wf(),
            final(self)@ == set_top(
                old(self)@,
                crate::frame::FrameV {
                    funcs: top(old(self)@).funcs.insert(name@, v@),
                    ..top(old(self)@)
                },
            ),
    {
        let ghost n = self.stack.frames().len();
        let f = self.stack.current();
        f.functions.insert(name.clone(), v);
        proof {
            assert(self.stack.frames()[n - 1].wf());
            assert forall|i: int| 0 <= i < self.stack.frames().len() implies (
            #[trigger] self.stack.frames()[i]).wf() by {
                if i != n - 1 {
                    assert(self.stack.frames()[i] == old(self).stack.frames()[i]);
                }
            }
            assert(self@.frames =~= set_top(
                old(self)@,
                crate::frame::FrameV {
                    funcs: top(old(self)@).funcs.insert(name@, v@),
                    ..top(old(self)@)
                },
            ).frames);
        }
    }

    /// Evaluates `tree` and returns the text of its value, or the message of the fault
    /// that stopped it; after a fault, the frames opened meanwhile are dropped.
    pub fn eval(&mut self, tree: Node) -> (r: String)
        requires
            old(self).wf(),
        ensures
            final(self).wf(),
            r@ == result_text(eval(FUEL as nat, tree@, old(self)@).0),
            final(self)@ == after_eval(tree@, old(self)@),
    {
        let depth = self.stack.depth();
        match self.eval_tree(&tree, FUEL) {
            Ok(v) => v.to_string(),
            Err(f) => {
                self.stack.truncate(depth);
                f.message()
            },
        }
    }

    /// Evaluates `tree` within `fuel` steps.
    pub fn eval_tree(&mut self, tree: &Node, fuel: u64) -> (r: Result<Type, Fault>)
        requires
            old(self).wf(),
        ensures
            final(self).wf(),
            outcome(r) == eval(fuel as nat, tree@, old(self)@).0,
            final(self)@ == eval(fuel as nat, tree@, old(self)@).1,
            r is Ok ==> final(self)@.frames.len() == old(self)@.frames.len(),
        decreases fuel, 2nat,
    {
        if fuel == 0 {
            return Err(Fault::named(FaultKind::StepLimit, &tree.value));
        }
        let g = fuel - 1;
        match &*tree.operation {
            Operation::Identifier(name) => match self.scope().get(name.as_str()) {
                Some(v) => Ok(v),
                None => Err(Fault::named(FaultKind::UnknownName, name)),
            },
            Operation::Constant(v) => Ok(v.copy()),
            Operation::Binary(_, _, _) | Operation::Comparison(_, _, _) => self.eval_binary(tree, fuel),
            Operation::NegUnary(x) => {
                let v = match self.eval_tree(x, g) {
                    Ok(v) => v,
                    Err(e) => return Err(e),
                };
                unary_operation(&tree.value, v)
            },
            Operation::DefineImut(_, _) | Operation::DefineVar(_, _) => self.eval_define(tree, fuel),
            Operation::ReAssign(_, _) => self.eval_reassign(tree, fuel),
            Operation::IfElse(c, t, e) => {
                let v = match self.eval_tree(c, g) {
                    Ok(v) => v,
                    Err(e) => return Err(e),
                };
                if truthy(&v) {
                    self.eval_tree(t, g)
                } else {
                    self.eval_tree(e, g)
                }
            },
            Operation::Loop(c, b) => self.eval_loop(c, b, g),
            Operation::Block(stmts) => {
                let inner = self.scope().snapshot();
                self.stack.push(inner);
                match self.eval_statements(stmts, g) {
                    Ok(v) => {
                        self.stack.pop();
                        Ok(v)
                    },
                    Err(e) => Err(e),
                }
            },
            Operation::Program(stmts) => self.eval_statements(stmts, g),
            Operation::DefineFunc(_, _, _) => self.eval_define_function(tree, fuel),
            Operation::CallFunc(_, _) => self.eval_call(tree, fuel),
            Operation::Print(x) => {
                let v = match self.eval_tree(x, g) {
                    Ok(v) => v,
                    Err(e) => return Err(e),
                };
                self.print(v);
                Ok(Type::Nil)
            },
            Operation::Return(x) => self.eval_tree(x, g),
            Operation::Empty => Ok(Type::Nil),
        }
    }

    /// Appends the text of `v` to the lines printed.
    fn print(&mut self, v: Type)
        ensures
            final(self).stack == old(self).stack,
            final(self)@ == (StateV { out: old(self)@.out.push(crate::primitive::display(v@)), ..old(self)@ }),
    {
        let ghost shown = crate::primitive::display(v@);
        let text = v.to_string();
        self.output.push(text);
        assert(self@.out =~= old(self)@.out.push(shown));
    }

    /// Arithmetic and comparison nodes.
    fn eval_binary(&mut self, tree: &Node, fuel: u64) -> (r: Result<Type, Fault>)
        requires
            old(self).wf(),
            fuel > 0,
            *tree.operation matches Operation::Binary(_, _, _) || *tree.operation matches Operation::Comparison(_, _, _),
        ensures
            final(self).wf(),
            outcome(r) == eval(fuel as nat, tree@, old(self)@).0,
            final(self)@ == eval(fuel as nat, tree@, old(self)@).1,
            r is Ok ==> final(self)@.frames.len() == old(self)@.frames.len(),
        decreases fuel, 1nat,
    {
        let g = fuel - 1;
        match &*tree.operation {
            Operation::Binary(l, op, r) => {
                let x = match self.eval_tree(l, g) {
                    Ok(x) => x,
                    Err(e) => return Err(e),
                };
                let y = match self.eval_tree(r, g) {
                    Ok(y) => y,
                    Err(e) => return Err(e),
                };
                binary_operation(x, op, y)
            },
            Operation::Comparison(l, op, r) => {
                let x = match self.eval_tree(l, g) {
                    Ok(x) => x,
                    Err(e) => return Err(e),
                };
                let y = match self.eval_tree(r, g) {
                    Ok(y) => y,
                    Err(e) => return Err(e),
                };
                binary_comparison(x, op, y)
            },
            // not reached: the caller dispatched on this operation
            _ => Err(Fault::named(FaultKind::InvalidOperator, &tree.value)),
        }
    }

    /// Declarations of immutable and mutable names.
    fn eval_define(&mut self, tree: &Node, fuel: u64) -> (r: Result<Type, Fault>)
        requires
            old(self).wf(),
            fuel > 0,
            *tree.operation matches Operation::DefineImut(_, _) || *tree.operation matches Operation::DefineVar(_, _),
        ensures
            final(self).wf(),
            outcome(r) == eval(fuel as nat, tree@, old(self)@).0,
            final(self)@ == eval(fuel as nat, tree@, old(self)@).1,
            r is Ok ==> final(self)@.frames.len() == old(self)@.frames.len(),
        decreases fuel, 1nat,
    {
        let g = fuel - 1;
        let (id, e, mutable) = match &*tree.operation {
            Operation::DefineImut(id, e) => (id, e, false),
            Operation::DefineVar(id, e) => (id, e, true),
            // not reached: the caller dispatched on this operation
            _ => return Err(Fault::named(FaultKind::InvalidOperator, &tree.value)),
        };
        assert(mutable ==> tree@.op == OpV::DefineVar(Box::new(id@), Box::new(e@)));
        assert(!mutable ==> tree@.op == OpV::DefineImut(Box::new(id@), Box::new(e@)));
        let v = match self.eval_tree(e, g) {
            Ok(v) => v,
            Err(e) => return Err(e),
        };
        if self.scope().has(id.value.as_str()) {
            return Err(Fault::named(FaultKind::AlreadyDefined, &id.value));
        }
        let w = if mutable { v.copy() } else { Type::Nil };
        self.declare(&id.value, v, mutable);
        Ok(w)
    }

    /// Reassignments.
    fn eval_reassign(&mut self, tree: &Node, fuel: u64) -> (r: Result<Type, Fault>)
        requires
            old(self).wf(),
            fuel > 0,
            *tree.operation matches Operation::ReAssign(_, _),
        ensures
            final(self).wf(),
            outcome(r) == eval(fuel as nat, tree@, old(self)@).0,
            final(self)@ == eval(fuel as nat, tree@, old(self)@).1,
            r is Ok ==> final(self)@.frames.len() == old(self)@.frames.len(),
        decreases fuel, 1nat,
    {
        let g = fuel - 1;
        let (id, e) = match &*tree.operation {
            Operation::ReAssign(id, e) => (id, e),
            // not reached: the caller dispatched on this operation
            _ => return Err(Fault::named(FaultKind::InvalidOperator, &tree.value)),
        };
        assert(tree@.op == OpV::ReAssign(Box::new(id@), Box::new(e@)));
        match self.scope().resolve(id.value.as_str()) {
            None => {
                return Err(Fault::named(FaultKind::UndeclaredName, &id.value));
            },
            Some((_, mutable)) => {
                if !mutable {
                    return Err(Fault::named(FaultKind::ImmutableReassign, &id.value));
                }
            },
        }
        let v = match self.eval_tree(e, g) {
            Ok(v) => v,
            Err(e) => return Err(e),
        };
        self.declare(&id.value, v, true);
        Ok(Type::Nil)
    }

    /// Function definitions.
    fn eval_define_function(&mut self, tree: &Node, fuel: u64) -> (r: Result<Type, Fault>)
        requires
            old(self).wf(),
            fuel > 0,
            *tree.operation matches Operation::DefineFunc(_, _, _),
        ensures
            final(self).wf(),
            outcome(r) == eval(fuel as nat, tree@, old(self)@).0,
            final(self)@ == eval(fuel as nat, tree@, old(self)@).1,
            r is Ok ==> final(self)@.frames.len() == old(self)@.frames.len(),
        decreases fuel, 1nat,
    {
        let (id, ps, body) = match &*tree.operation {
            Operation::DefineFunc(id, ps, body) => (id, ps, body),
            // not reached: the caller dispatched on this operation
            _ => return Err(Fault::named(FaultKind::InvalidOperator, &tree.value)),
        };
        assert(tree@.op == OpV::DefineFunc(Box::new(id@), nodes_view(ps@), Box::new(node_view(**body))));
        let name = &id.value;
        if self.scope().resolve(name.as_str()).is_some() || self.scope().functions.contains(
            name.as_str(),
        ) {
            return Err(Fault::named(FaultKind::AlreadyDefined, name));
        }
        let names = param_list(ps);
        self.register(name, Type::Func(names, body.clone()));
        Ok(Type::Nil)
    }

    /// Function calls.
    fn eval_call(&mut self, tree: &Node, fuel: u64) -> (r: Result<Type, Fault>)
        requires
            old(self).wf(),
            fuel > 0,
            *tree.operation matches Operation::CallFunc(_, _),
        ensures
            final(self).wf(),
            outcome(r) == eval(fuel as nat, tree@, old(self)@).0,
            final(self)@ == eval(fuel as nat, tree@, old(self)@).1,
            r is Ok ==> final(self)@.frames.len() == old(self)@.frames.len(),
        decreases fuel, 1nat,
    {
        let g = fuel - 1;
        let (id, args) = match &*tree.operation {
            Operation::CallFunc(id, args) => (id, args),
            // not reached: the caller dispatched on this operation
            _ => return Err(Fault::named(FaultKind::InvalidOperator, &tree.value)),
        };
        assert(tree@.op == OpV::CallFunc(Box::new(id@), nodes_view(args@)));
        let name = &id.value;
        let (ps, body) = match self.scope().functions.get(name.as_str()) {
            Some(Type::Func(ps, body)) => (ps, body),
            _ => return Err(Fault::named(FaultKind::NotCallable, name)),
        };
        let vals = match self.eval_arguments(args, g) {
            Ok(vs) => vs,
            Err(e) => return Err(e),
        };
        let mut callee = self.scope().snapshot();
        let ghost base = callee@;
        let n = if ps.len() <= vals.len() { ps.len() } else { vals.len() };
        let mut i: usize = 0;
        while i < n
            invariant
                n <= ps@.len(),
                n <= vals@.len(),
                i <= n,
                callee.wf(),
                callee@ == bind_n(base, names_view(ps@), values_view(vals@), i as nat),
            decreases n - i,
        {
            callee.locals.insert(ps[i].clone(), vals[i].copy());
            i = i + 1;
        }
        self.stack.push(callee);
        match self.eval_tree(&*body, g) {
            Ok(v) => {
                self.stack.pop();
                Ok(v)
            },
            Err(e) => Err(e),
        }
    }

    /// Evaluates the statements in order; the value is the last one's (nil for none).
    fn eval_statements(&mut self, stmts: &Vec<Node>, fuel: u64) -> (r: Result<Type, Fault>)
        requires
            old(self).wf(),
        ensures
            final(self).wf(),
            outcome(r) == eval_seq(fuel as nat, nodes_view(stmts@), 0, old(self)@, ValueV::Nil).0,
            final(self)@ == eval_seq(fuel as nat, nodes_view(stmts@), 0, old(self)@, ValueV::Nil).1,
            r is Ok ==> final(self)@.frames.len() == old(self)@.frames.len(),
        decreases fuel, 3nat,
    {
        proof {
            lemma_nodes_view(stmts@);
        }
        let ghost sv = nodes_view(stmts@);
        let mut last = Type::Nil;
        let mut i: usize = 0;
        while i < stmts.len()
            invariant
                self.wf(),
                i <= stmts@.len(),
                sv == nodes_view(stmts@),
                sv.len() == stmts@.len(),
                forall|j: int| 0 <= j < stmts@.len() ==> #[trigger] sv[j] == stmts@[j]@,
                eval_seq(fuel as nat, sv, 0, old(self)@, ValueV::Nil) == eval_seq(
                    fuel as nat,
                    sv,
                    i as nat,
                    self@,
                    last@,
                ),
                self@.frames.len() == old(self)@.frames.len(),
            decreases stmts.len() - i,
        {
            match self.eval_tree(&stmts[i], fuel) {
                Ok(v) => {
                    last = v;
                },
                Err(e) => {
                    return Err(e);
                },
            }
            i = i + 1;
        }
        Ok(last)
    }

    /// Evaluates the arguments left to right.
    fn eval_arguments(&mut self, args: &Vec<Node>, fuel: u64) -> (r: Result<Vec<Type>, Fault>)
        requires
            old(self).wf(),
        ensures
            final(self).wf(),
            match r {
                Ok(vs) => eval_args(fuel as nat, nodes_view(args@), 0, old(self)@, Seq::empty()).0
                    == Ok::<Seq<ValueV>, FaultV>(values_view(vs@)),
                Err(e) => eval_args(fuel as nat, nodes_view(args@), 0, old(self)@, Seq::empty()).0
                    == Err::<Seq<ValueV>, FaultV>(e@),
            },
            final(self)@ == eval_args(fuel as nat, nodes_view(args@), 0, old(self)@, Seq::empty()).1,
            r is Ok ==> final(self)@.frames.len() == old(self)@.frames.len(),
        decreases fuel, 3nat,
    {
        proof {
            lemma_nodes_view(args@);
        }
        let ghost av = nodes_view(args@);
        let mut vals: Vec<Type> = Vec::new();
        let mut i: usize = 0;
        assert(values_view(vals@) =~= Seq::<ValueV>::empty());
        while i < args.len()
            invariant
                self.wf(),
                i <= args@.len(),
                av == nodes_view(args@),
                av.len() == args@.len(),
                forall|j: int| 0 <= j < args@.len() ==> #[trigger] av[j] == args@[j]@,
                eval_args(fuel as nat, av, 0, old(self)@, Seq::empty()) == eval_args(
                    fuel as nat,
                    av,
                    i as nat,
                    self@,
                    values_view(vals@),
                ),
                self@.frames.len() == old(self)@.frames.len(),
            decreases args.len() - i,
        {
            match self.eval_tree(&args[i], fuel) {
                Ok(v) => {
                    proof {
                        assert(values_view(vals@.push(v)) =~= values_view(vals@).push(v@));
                    }
                    vals.push(v);
                },
                Err(e) => {
                    return Err(e);
                },
            }
            i = i + 1;
        }
        Ok(vals)
    }

    /// Runs a loop: while `c` is truthy, `b`.
    fn eval_loop(&mut self, c: &Node, b: &Node, fuel: u64) -> (r: Result<Type, Fault>)
        requires
            old(self).wf(),
        ensures
            final(self).wf(),
            outcome(r) == eval_loop(fuel as nat, c@, b@, old(self)@).0,
            final(self)@ == eval_loop(fuel as nat, c@, b@, old(self)@).1,
            r is Ok ==> final(self)@.frames.len() == old(self)@.frames.len(),
        decreases fuel, 3nat,
    {
        let mut f = fuel;
        while f > 0
            invariant
                self.wf(),
                f <= fuel,
                eval_loop(fuel as nat, c@, b@, old(self)@) == eval_loop(f as nat, c@, b@, self@),
                self@.frames.len() == old(self)@.frames.len(),
            decreases f,
        {
            let v = match self.eval_tree(c, f - 1) {
                Ok(v) => v,
                Err(e) => return Err(e),
            };
            if !truthy(&v) {
                return Ok(Type::Nil);
            }
            match self.eval_tree(b, f - 1) {
                Ok(_) => {},
                Err(e) => return Err(e),
            }
            f = f - 1;
        }
        Err(Fault::at(FaultKind::StepLimit, String::new(), None, 0))
    }
}

} // verus!
