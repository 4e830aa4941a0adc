//! Properties of the language, proved from the reference semantics.
use vstd::prelude::*;
use crate::ast::{NodeV, OpV};
use crate::primitive::ValueV;
use crate::fault::{FaultKind, fault};
use crate::frame::{FrameV, resolve, owns, snapshot, write_back, escaping};
use crate::semantics::{StateV, top, set_top, enter, leave, declare, eval, eval_seq, eval_args, eval_loop, bind_params};

verus! {

/// From `s` to `t` the frames under the innermost one are untouched, the innermost one
/// still sees every name it saw and still owns every name it owned.
pub open spec fn keeps_frames(s: StateV, t: StateV) -> bool {
    &&& t.frames.len() == s.frames.len()
    &&& forall|i: int| 0 <= i < s.frames.len() - 1 ==> t.frames[i] == s.frames[i]
    &&& forall|k: Seq<char>| resolve(top(s), k) is Some ==> resolve(top(t), k) is Some
    &&& forall|k: Seq<char>| owns(top(s), k) ==> owns(top(t), k)
}

proof fn lemma_keeps_trans(a: StateV, b: StateV, c: StateV)
    requires
        keeps_frames(a, b),
        keeps_frames(b, c),
    ensures
        keeps_frames(a, c),
{
}

proof fn lemma_keeps_refl(a: StateV)
    ensures
        keeps_frames(a, a),
{
}

/// Closing a scope opened on the innermost frame of `s`, once it ran to `t`, keeps
/// the frames of `s`, and the names the innermost one sees are the same.
proof fn lemma_leave(s: StateV, f: FrameV, t: StateV)
    requires
        s.frames.len() >= 1,
        keeps_frames(enter(s, f), t),
    ensures
        keeps_frames(s, leave(t)),
        forall|k: Seq<char>| (resolve(top(leave(t)), k) is Some) == (resolve(top(s), k) is Some),
{
    let n = s.frames.len();
    assert(t.frames[n - 1] == s.frames[n - 1]);
    let parent = t.frames[n - 1];
    let l = leave(t);
    assert(l.frames.len() == n);
    assert(top(l) == write_back(parent, t.frames.last()));
    assert forall|i: int| 0 <= i < n - 1 implies l.frames[i] == s.frames[i] by {
        assert(t.frames[i] == enter(s, f).frames[i]);
    }
}

/// Evaluation that ends without a fault keeps the frames (`keeps_frames`).
pub proof fn lemma_eval_keeps(fuel: nat, n: NodeV, s: StateV)
    requires
        s.frames.len() >= 1,
    ensures
        eval(fuel, n, s).0 is Ok ==> keeps_frames(s, eval(fuel, n, s).1),
    decreases fuel, 0nat,
{
    if fuel > 0 {
        let g = (fuel - 1) as nat;
        match n.op {
            OpV::Binary(l, op, r) => {
                lemma_eval_keeps(g, *l, s);
                let a = eval(g, *l, s);
                if a.0 is Ok {
                    lemma_eval_keeps(g, *r, a.1);
                }
            },
            OpV::Comparison(l, op, r) => {
                lemma_eval_keeps(g, *l, s);
                let a = eval(g, *l, s);
                if a.0 is Ok {
                    lemma_eval_keeps(g, *r, a.1);
                }
            },
            OpV::NegUnary(x) => {
                lemma_eval_keeps(g, *x, s);
            },
            OpV::DefineImut(id, e) => {
                lemma_eval_keeps(g, *e, s);
            },
            OpV::DefineVar(id, e) => {
                lemma_eval_keeps(g, *e, s);
            },
            OpV::ReAssign(id, e) => {
                lemma_eval_keeps(g, *e, s);
            },
            OpV::IfElse(c, t, e) => {
                lemma_eval_keeps(g, *c, s);
                let a = eval(g, *c, s);
                if a.0 is Ok {
                    lemma_eval_keeps(g, *t, a.1);
                    lemma_eval_keeps(g, *e, a.1);
                }
            },
            OpV::Loop(c, b) => {
                lemma_loop_keeps(g, *c, *b, s);
            },
            OpV::Block(stmts) => {
                let s1 = enter(s, snapshot(top(s)));
                lemma_seq_keeps(g, stmts, 0, s1, ValueV::Nil);
                let a = eval_seq(g, stmts, 0, s1, ValueV::Nil);
                if a.0 is Ok {
                    lemma_leave(s, snapshot(top(s)), a.1);
                }
            },
            OpV::Program(stmts) => {
                lemma_seq_keeps(g, stmts, 0, s, ValueV::Nil);
            },
            OpV::CallFunc(id, args) => {
                let f = top(s);
                if f.funcs.contains_key(id.value) {
                    match f.funcs[id.value] {
                        ValueV::Func(ps, body) => {
                            lemma_args_keeps(g, args, 0, s, Seq::empty());
                            let a = eval_args(g, args, 0, s, Seq::empty());
                            if a.0 is Ok {
                                let callee = bind_params(snapshot(top(a.1)), ps, a.0->Ok_0);
                                lemma_eval_keeps(g, *body, enter(a.1, callee));
                                let b = eval(g, *body, enter(a.1, callee));
                                if b.0 is Ok {
                                    lemma_leave(a.1, callee, b.1);
                                    lemma_keeps_trans(s, a.1, leave(b.1));
                                }
                            }
                        },
                        _ => {},
                    }
                }
            },
            OpV::Print(x) => {
                lemma_eval_keeps(g, *x, s);
            },
            OpV::Return(x) => {
                lemma_eval_keeps(g, *x, s);
            },
            _ => {},
        }
    }
}

proof fn lemma_seq_keeps(fuel: nat, stmts: Seq<NodeV>, i: nat, s: StateV, last: ValueV)
    requires
        s.frames.len() >= 1,
    ensures
        eval_seq(fuel, stmts, i, s, last).0 is Ok ==> keeps_frames(s, eval_seq(fuel, stmts, i, s, last).1),
    decreases fuel, stmts.len() - i,
{
    if i < stmts.len() {
        lemma_eval_keeps(fuel, stmts[i as int], s);
        let a = eval(fuel, stmts[i as int], s);
        if a.0 is Ok {
            lemma_seq_keeps(fuel, stmts, i + 1, a.1, a.0->Ok_0);
        }
    }
}

proof fn lemma_args_keeps(fuel: nat, args: Seq<NodeV>, i: nat, s: StateV, acc: Seq<ValueV>)
    requires
        s.frames.len() >= 1,
    ensures
        eval_args(fuel, args, i, s, acc).0 is Ok ==> keeps_frames(s, eval_args(fuel, args, i, s, acc).1),
    decreases fuel, args.len() - i,
{
    if i < args.len() {
        lemma_eval_keeps(fuel, args[i as int], s);
        let a = eval(fuel, args[i as int], s);
        if a.0 is Ok {
            lemma_args_keeps(fuel, args, i + 1, a.1, acc.push(a.0->Ok_0));
        }
    }
}

proof fn lemma_loop_keeps(fuel: nat, c: NodeV, b: NodeV, s: StateV)
    requires
        s.frames.len() >= 1,
    ensures
        eval_loop(fuel, c, b, s).0 is Ok ==> keeps_frames(s, eval_loop(fuel, c, b, s).1),
    decreases fuel, 0nat,
{
    if fuel > 0 {
        let g = (fuel - 1) as nat;
        lemma_eval_keeps(g, c, s);
        let a = eval(g, c, s);
        if a.0 is Ok {
            lemma_eval_keeps(g, b, a.1);
            let r = eval(g, b, a.1);
            if r.0 is Ok {
                lemma_loop_keeps(g, c, b, r.1);
            }
        }
    }
}


/// A new scope sees every name exactly as the scope it is opened on does: with the
/// same value and the same mutability.
pub proof fn law_snapshot_resolves_alike(f: FrameV, k: Seq<char>)
    ensures
        resolve(snapshot(f), k) == resolve(f, k),
{
}

/// Declaring a name that the current scope already owns faults with `AlreadyDefined`,
/// for a mutable and for an immutable declaration alike (unless evaluating the
/// declared expression faulted first).
pub proof fn law_redeclaration_faults(fuel: nat, s: StateV, n: NodeV, id: NodeV, e: NodeV)
    requires
        fuel >= 1,
        s.frames.len() >= 1,
        n.op == OpV::DefineVar(Box::new(id), Box::new(e)) || n.op == OpV::DefineImut(
            Box::new(id),
            Box::new(e),
        ),
        owns(top(s), id.value),
    ensures
        eval(fuel, n, s).0 == match eval((fuel - 1) as nat, e, s).0 {
            Err(f) => Err::<ValueV, crate::fault::FaultV>(f),
            Ok(_) => Err::<ValueV, crate::fault::FaultV>(fault(FaultKind::AlreadyDefined, id.value)),
        },
{
    lemma_eval_keeps((fuel - 1) as nat, e, s);
}

/// Assigning to a name that no scope declares faults with `UndeclaredName`; assigning
/// to a name bound immutably faults with `ImmutableReassign`.
pub proof fn law_reassign_faults(fuel: nat, s: StateV, n: NodeV, id: NodeV, e: NodeV)
    requires
        fuel >= 1,
        n.op == OpV::ReAssign(Box::new(id), Box::new(e)),
    ensures
        resolve(top(s), id.value) is None ==> eval(fuel, n, s).0 == Err::<ValueV, _>(
            fault(FaultKind::UndeclaredName, id.value),
        ),
        (resolve(top(s), id.value) matches Some(p) && !p.1) ==> eval(fuel, n, s).0 == Err::<
            ValueV,
            _,
        >(fault(FaultKind::ImmutableReassign, id.value)),
{
}

/// An assignment inside a nested block to a mutable variable of the enclosing scope is
/// visible once the block has ended: the variable then holds the value assigned.
pub proof fn law_block_mutation_escapes(fuel: nat, s: StateV, n: NodeV, r: NodeV, y: NodeV, e: NodeV)
    requires
        s.frames.len() >= 1,
        n.op == OpV::Block(seq![r]),
        r.op == OpV::ReAssign(Box::new(y), Box::new(e)),
        resolve(top(s), y.value) matches Some(p) && p.1,
        eval(fuel, n, s).0 is Ok,
    ensures
        resolve(top(eval(fuel, n, s).1), y.value) == Some(
            (eval((fuel - 2) as nat, e, enter(s, snapshot(top(s)))).0->Ok_0, true),
        ),
{
    let g = (fuel - 1) as nat;
    let s1 = enter(s, snapshot(top(s)));
    let blk = eval_seq(g, seq![r], 0, s1, ValueV::Nil);
    assert(fuel > 0);
    assert(eval(fuel, n, s) == match blk.0 {
        Err(f) => (Err::<ValueV, crate::fault::FaultV>(f), blk.1),
        Ok(v) => (Ok(v), leave(blk.1)),
    });
    let ra = eval(g, r, s1);
    assert(blk == match ra.0 {
        Err(f) => (Err::<ValueV, crate::fault::FaultV>(f), ra.1),
        Ok(v) => eval_seq(g, seq![r], 1, ra.1, v),
    });
    assert(ra.0 is Ok);
    assert(g > 0);
    assert(resolve(top(s1), y.value) == resolve(top(s), y.value));
    let h = (g - 1) as nat;
    lemma_eval_keeps(h, e, s1);
    let a = eval(h, e, s1);
    assert(ra == match a.0 {
        Err(f) => (Err::<ValueV, crate::fault::FaultV>(f), a.1),
        Ok(v) => (Ok(ValueV::Nil), set_top(a.1, declare(top(a.1), y.value, v, true))),
    });
    assert(a.0 is Ok);
    let v = a.0->Ok_0;
    let s3 = set_top(a.1, declare(top(a.1), y.value, v, true));
    assert(ra.1 == s3);
    assert(eval_seq(g, seq![r], 1, s3, ValueV::Nil) == (Ok::<ValueV, crate::fault::FaultV>(ValueV::Nil), s3));
    assert(blk.1 == s3);
    let m = s.frames.len();
    assert(s3.frames[m - 1] == s.frames[m - 1]);
    let after = leave(s3);
    assert(top(after) == write_back(top(s), top(s3)));
    assert(escaping(top(s), top(s3)).contains_key(y.value));
}

/// A name declared inside a nested block is not visible once the block has ended: the
/// names the enclosing scope sees after the block are exactly those it saw before, so
/// reading one declared only inside faults with `UnknownName`.
pub proof fn law_block_declarations_stay_inside(fuel: nat, s: StateV, n: NodeV, stmts: Seq<NodeV>, k: Seq<char>)
    requires
        s.frames.len() >= 1,
        n.op == OpV::Block(stmts),
        eval(fuel, n, s).0 is Ok,
    ensures
        (resolve(top(eval(fuel, n, s).1), k) is Some) == (resolve(top(s), k) is Some),
{
    let g = (fuel - 1) as nat;
    let s1 = enter(s, snapshot(top(s)));
    lemma_seq_keeps(g, stmts, 0, s1, ValueV::Nil);
    lemma_leave(s, snapshot(top(s)), eval_seq(g, stmts, 0, s1, ValueV::Nil).1);
}

/// A call sees the caller's scope as it is at the call, not as it was where the
/// function was defined: a function called without arguments whose body returns `x`
/// yields the value `x` has in the caller's current scope.
pub proof fn law_call_sees_caller_scope(
    fuel: nat,
    s: StateV,
    n: NodeV,
    id: NodeV,
    ps: Seq<Seq<char>>,
    body: NodeV,
    x: NodeV,
    name: Seq<char>,
)
    requires
        fuel >= 3,
        s.frames.len() >= 1,
        n.op == OpV::CallFunc(Box::new(id), Seq::empty()),
        top(s).funcs.contains_key(id.value),
        top(s).funcs[id.value] == ValueV::Func(ps, Box::new(body)),
        body.op == OpV::Return(Box::new(x)),
        x.op == OpV::Identifier(name),
        resolve(top(s), name) is Some,
    ensures
        eval(fuel, n, s).0 == Ok::<ValueV, crate::fault::FaultV>(resolve(top(s), name)->Some_0.0),
{
    let g = (fuel - 1) as nat;
    let v = resolve(top(s), name)->Some_0.0;
    assert(eval_args(g, Seq::empty(), 0, s, Seq::empty()) == (Ok::<Seq<ValueV>, crate::fault::FaultV>(Seq::empty()), s));
    let callee = bind_params(snapshot(top(s)), ps, Seq::empty());
    assert(callee == snapshot(top(s)));
    assert(resolve(callee, name) == resolve(top(s), name));
    let s2 = enter(s, callee);
    assert(top(s2) == callee);
    assert(eval((g - 1) as nat, x, s2).0 == Ok::<ValueV, crate::fault::FaultV>(v));
    assert(eval(g, body, s2).0 == Ok::<ValueV, crate::fault::FaultV>(v));
}

} // verus!
