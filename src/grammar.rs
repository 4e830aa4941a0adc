//! The grammar of the language, as functions from a token sequence and a position to
//! the tree read there and the position after it.
use vstd::prelude::*;
use crate::token::{Kind, TokenV};
use crate::ast::{NodeV, OpV};
use crate::primitive::literal;
use crate::fault::{FaultKind, FaultV};

verus! {

/// What a parse from a position gives: a result and the position after it, or a fault.
pub type ParseV<T> = Result<(T, int), FaultV>;

pub open spec fn kind_at(t: Seq<TokenV>, i: int) -> Option<Kind> {
    if 0 <= i < t.len() { Some(t[i].kind) } else { None }
}

pub open spec fn text_at(t: Seq<TokenV>, i: int) -> Seq<char> {
    if 0 <= i < t.len() { t[i].text } else { "end of file"@ }
}

/// Whether the token at `i` is of kind `k` and reads `w`.
pub open spec fn is_at(t: Seq<TokenV>, i: int, k: Kind, w: Seq<char>) -> bool {
    kind_at(t, i) == Some(k) && t[i].text == w
}

/// The fault of finding at `i` a token that the grammar does not allow there.
pub open spec fn unexpected(t: Seq<TokenV>, i: int, expected: Option<Kind>) -> FaultV {
    FaultV { kind: FaultKind::ParseError, detail: text_at(t, i), expected, position: i as nat }
}

/// A fault unless the token at `i` is of kind `k`.
pub open spec fn expect(t: Seq<TokenV>, i: int, k: Kind) -> Result<(), FaultV> {
    if kind_at(t, i) == Some(k) { Ok(()) } else { Err(unexpected(t, i, Some(k))) }
}

pub open spec fn leaf(op: OpV, value: Seq<char>) -> NodeV {
    NodeV { op, value }
}

pub open spec fn ident(tok: TokenV) -> NodeV {
    NodeV { op: OpV::Identifier(tok.text), value: tok.text }
}

pub open spec fn empty_node() -> NodeV {
    NodeV { op: OpV::Empty, value: Seq::empty() }
}

/// `program := statement_list`, after a check that every character formed a token;
/// what follows the statement list is not read.
pub open spec fn p_program(t: Seq<TokenV>, p: int) -> Result<NodeV, FaultV> {
    if exists|i: int| 0 <= i < t.len() && (#[trigger] t[i]).kind == Kind::Unknown {
        let i = first_unknown(t, 0);
        Err(FaultV { kind: FaultKind::LexError, detail: t[i].text, expected: None, position: i as nat })
    } else {
        match p_list(t, p) {
            Ok((stmts, _)) => Ok(NodeV { op: OpV::Program(stmts), value: Seq::empty() }),
            Err(e) => Err(e),
        }
    }
}

/// The first position from `i` on that holds a token of kind `Unknown`.
pub open spec fn first_unknown(t: Seq<TokenV>, i: int) -> int
    decreases t.len() - i,
{
    if i < 0 || i >= t.len() || t[i].kind == Kind::Unknown {
        i
    } else {
        first_unknown(t, i + 1)
    }
}

/// `statement_list := statement (';' statement_list)?`
pub open spec fn p_list(t: Seq<TokenV>, p: int) -> ParseV<Seq<NodeV>>
    decreases t.len() - p, 20nat,
{
    if p < 0 || p > t.len() {
        Err(unexpected(t, p, None))
    } else {
        match p_statement(t, p) {
            Err(e) => Err(e),
            Ok((s, q)) => if p <= q < t.len() && kind_at(t, q) == Some(Kind::StatementEnd) {
                match p_list(t, q + 1) {
                    Err(e) => Err(e),
                    Ok((rest, r)) => Ok((seq![s] + rest, r)),
                }
            } else {
                Ok((seq![s], q))
            },
        }
    }
}

/// `statement := block | return expr | print expr | conditional | loop | define_stmt
/// | ID '=' expr | expr | empty`, the empty statement standing before `;`, `end`,
/// `else` and the end of the tokens.
pub open spec fn p_statement(t: Seq<TokenV>, p: int) -> ParseV<NodeV>
    decreases t.len() - p, 19nat,
{
    if p < 0 || p > t.len() {
        Err(unexpected(t, p, None))
    } else {
        match kind_at(t, p) {
            Some(Kind::Return) => match p_expr(t, p + 1) {
                Ok((e, q)) => Ok((leaf(OpV::Return(Box::new(e)), Seq::empty()), q)),
                Err(f) => Err(f),
            },
            Some(Kind::StdOut) => match p_expr(t, p + 1) {
                Ok((e, q)) => Ok((leaf(OpV::Print(Box::new(e)), Seq::empty()), q)),
                Err(f) => Err(f),
            },
            Some(Kind::ImmutableDefine) => p_define(t, p),
            Some(Kind::MutableDefine) => p_define(t, p),
            Some(Kind::FunctionDefine) => p_define(t, p),
            Some(Kind::ID) => if kind_at(t, p + 1) == Some(Kind::Assign) {
                match p_expr(t, p + 2) {
                    Ok((e, q)) => Ok(
                        (leaf(OpV::ReAssign(Box::new(ident(t[p])), Box::new(e)), Seq::empty()), q),
                    ),
                    Err(f) => Err(f),
                }
            } else {
                p_expr(t, p)
            },
            Some(Kind::Begin) => p_block(t, p),
            Some(Kind::While) => p_while(t, p),
            Some(Kind::If) => p_if(t, p),
            Some(Kind::End) => Ok((empty_node(), p)),
            Some(Kind::Else) => Ok((empty_node(), p)),
            Some(Kind::StatementEnd) => Ok((empty_node(), p)),
            None => Ok((empty_node(), p)),
            _ => p_expr(t, p),
        }
    }
}

/// `block := BEGIN statement_list END`
pub open spec fn p_block(t: Seq<TokenV>, p: int) -> ParseV<NodeV>
    decreases t.len() - p, 18nat,
{
    if p < 0 || p >= t.len() || kind_at(t, p) != Some(Kind::Begin) {
        Err(unexpected(t, p, Some(Kind::Begin)))
    } else {
        match p_list(t, p + 1) {
            Err(e) => Err(e),
            Ok((stmts, q)) => match expect(t, q, Kind::End) {
                Err(e) => Err(e),
                Ok(_) => Ok((leaf(OpV::Block(stmts), Seq::empty()), q + 1)),
            },
        }
    }
}

/// `loop := WHILE expr block`
pub open spec fn p_while(t: Seq<TokenV>, p: int) -> ParseV<NodeV>
    decreases t.len() - p, 18nat,
{
    if p < 0 || p >= t.len() {
        Err(unexpected(t, p, Some(Kind::While)))
    } else {
        match p_expr(t, p + 1) {
            Err(e) => Err(e),
            Ok((c, q)) => if q <= p || q > t.len() {
                Err(unexpected(t, q, None))
            } else {
                match p_block(t, q) {
                    Err(e) => Err(e),
                    Ok((b, r)) => Ok((leaf(OpV::Loop(Box::new(c), Box::new(b)), Seq::empty()), r)),
                }
            },
        }
    }
}

/// `conditional := IF expr BEGIN statement_list (ELSE statement_list)? END`
pub open spec fn p_if(t: Seq<TokenV>, p: int) -> ParseV<NodeV>
    decreases t.len() - p, 18nat,
{
    if p < 0 || p >= t.len() {
        Err(unexpected(t, p, Some(Kind::If)))
    } else {
        match p_expr(t, p + 1) {
            Err(e) => Err(e),
            Ok((c, q)) => if q <= p {
                Err(unexpected(t, q, None))
            } else {
                match expect(t, q, Kind::Begin) {
                    Err(e) => Err(e),
                    Ok(_) => match p_list(t, q + 1) {
                        Err(e) => Err(e),
                        Ok((ts, r)) => if r <= p {
                            Err(unexpected(t, r, None))
                        } else if kind_at(t, r) == Some(Kind::Else) {
                            match p_list(t, r + 1) {
                                Err(e) => Err(e),
                                Ok((es, u)) => match expect(t, u, Kind::End) {
                                    Err(e) => Err(e),
                                    Ok(_) => Ok(
                                        (
                                            leaf(
                                                OpV::IfElse(
                                                    Box::new(c),
                                                    Box::new(leaf(OpV::Block(ts), Seq::empty())),
                                                    Box::new(leaf(OpV::Block(es), Seq::empty())),
                                                ),
                                                Seq::empty(),
                                            ),
                                            u + 1,
                                        ),
                                    ),
                                },
                            }
                        } else {
                            match expect(t, r, Kind::End) {
                                Err(e) => Err(e),
                                Ok(_) => Ok(
                                    (
                                        leaf(
                                            OpV::IfElse(
                                                Box::new(c),
                                                Box::new(leaf(OpV::Block(ts), Seq::empty())),
                                                Box::new(empty_node()),
                                            ),
                                            Seq::empty(),
                                        ),
                                        r + 1,
                                    ),
                                ),
                            }
                        },
                    },
                }
            },
        }
    }
}

/// `define_stmt := FUNC_DEF ID '=' '[' params ']' block | MUT_DEF ID ('=' expr)?
/// | IMUT_DEF ID '=' expr`
pub open spec fn p_define(t: Seq<TokenV>, p: int) -> ParseV<NodeV>
    decreases t.len() - p, 18nat,
{
    if p < 0 || p >= t.len() {
        Err(unexpected(t, p, None))
    } else if kind_at(t, p + 1) != Some(Kind::ID) {
        Err(unexpected(t, p + 1, Some(Kind::ID)))
    } else {
        let id = ident(t[p + 1]);
        if t[p].kind == Kind::MutableDefine && kind_at(t, p + 2) != Some(Kind::Assign) {
            Ok((leaf(OpV::DefineVar(Box::new(id), Box::new(empty_node())), "="@), p + 2))
        } else if kind_at(t, p + 2) != Some(Kind::Assign) {
            Err(unexpected(t, p + 2, Some(Kind::Assign)))
        } else if t[p].kind == Kind::FunctionDefine {
            match expect(t, p + 3, Kind::FunctionParamBegin) {
                Err(e) => Err(e),
                Ok(_) => match p_params(t, p + 4) {
                    Err(e) => Err(e),
                    Ok((ps, q)) => match expect(t, q, Kind::FunctionParamEnd) {
                        Err(e) => Err(e),
                        Ok(_) => if q + 1 <= p {
                            Err(unexpected(t, q, None))
                        } else {
                            match p_block(t, q + 1) {
                                Err(e) => Err(e),
                                Ok((b, r)) => Ok(
                                    (leaf(OpV::DefineFunc(Box::new(id), ps, Box::new(b)), "="@), r),
                                ),
                            }
                        },
                    },
                },
            }
        } else {
            match p_expr(t, p + 3) {
                Err(e) => Err(e),
                Ok((e, q)) => if t[p].kind == Kind::MutableDefine {
                    Ok((leaf(OpV::DefineVar(Box::new(id), Box::new(e)), "="@), q))
                } else {
                    Ok((leaf(OpV::DefineImut(Box::new(id), Box::new(e)), "="@), q))
                },
            }
        }
    }
}

/// `params := (ID (',' ID)*)?`
pub open spec fn p_params(t: Seq<TokenV>, p: int) -> ParseV<Seq<NodeV>> {
    if kind_at(t, p) == Some(Kind::ID) {
        p_params_rest(t, p + 1, seq![ident(t[p])])
    } else {
        Ok((Seq::empty(), p))
    }
}

pub open spec fn p_params_rest(t: Seq<TokenV>, p: int, acc: Seq<NodeV>) -> ParseV<Seq<NodeV>>
    decreases t.len() - p,
{
    if p < 0 || p >= t.len() || kind_at(t, p) != Some(Kind::Separator) {
        Ok((acc, p))
    } else if kind_at(t, p + 1) != Some(Kind::ID) {
        Err(unexpected(t, p + 1, Some(Kind::ID)))
    } else {
        p_params_rest(t, p + 2, acc.push(ident(t[p + 1])))
    }
}

/// `expr := term ((+|-) term | (and|&&|or|||) term)*`, grouping to the left.
pub open spec fn p_expr(t: Seq<TokenV>, p: int) -> ParseV<NodeV>
    decreases t.len() - p, 15nat,
{
    if p < 0 || p > t.len() {
        Err(unexpected(t, p, None))
    } else {
        match p_term(t, p) {
            Err(e) => Err(e),
            Ok((l, q)) => if q < p || q > t.len() {
                Err(unexpected(t, q, None))
            } else {
                p_expr_rest(t, q, l)
            },
        }
    }
}

pub open spec fn low_op(t: Seq<TokenV>, p: int) -> bool {
    is_at(t, p, Kind::Operator, "+"@) || is_at(t, p, Kind::Operator, "-"@)
}

pub open spec fn connective(t: Seq<TokenV>, p: int) -> bool {
    is_at(t, p, Kind::Comparison, "and"@) || is_at(t, p, Kind::Comparison, "&&"@) || is_at(
        t,
        p,
        Kind::Comparison,
        "or"@,
    ) || is_at(t, p, Kind::Comparison, "||"@)
}

pub open spec fn p_expr_rest(t: Seq<TokenV>, p: int, l: NodeV) -> ParseV<NodeV>
    decreases t.len() - p, 14nat,
{
    if p < 0 || p >= t.len() || !(low_op(t, p) || connective(t, p)) {
        Ok((l, p))
    } else {
        match p_term(t, p + 1) {
            Err(e) => Err(e),
            Ok((r, q)) => if q <= p || q > t.len() {
                Err(unexpected(t, q, None))
            } else {
                let w = t[p].text;
                let n = if low_op(t, p) {
                    leaf(OpV::Binary(Box::new(l), w, Box::new(r)), w)
                } else {
                    leaf(OpV::Comparison(Box::new(l), w, Box::new(r)), w)
                };
                p_expr_rest(t, q, n)
            },
        }
    }
}

/// `term := factor ((*|/|%) factor | (==|!=|>|<) factor)*`, grouping to the left.
pub open spec fn p_term(t: Seq<TokenV>, p: int) -> ParseV<NodeV>
    decreases t.len() - p, 13nat,
{
    if p < 0 || p > t.len() {
        Err(unexpected(t, p, None))
    } else {
        match p_factor(t, p) {
            Err(e) => Err(e),
            Ok((l, q)) => if q < p || q > t.len() {
                Err(unexpected(t, q, None))
            } else {
                p_term_rest(t, q, l)
            },
        }
    }
}

pub open spec fn high_op(t: Seq<TokenV>, p: int) -> bool {
    is_at(t, p, Kind::Operator, "*"@) || is_at(t, p, Kind::Operator, "/"@) || is_at(
        t,
        p,
        Kind::Operator,
        "%"@,
    )
}

pub open spec fn relation(t: Seq<TokenV>, p: int) -> bool {
    is_at(t, p, Kind::Comparison, "=="@) || is_at(t, p, Kind::Comparison, "!="@) || is_at(
        t,
        p,
        Kind::Comparison,
        ">"@,
    ) || is_at(t, p, Kind::Comparison, "<"@)
}

pub open spec fn p_term_rest(t: Seq<TokenV>, p: int, l: NodeV) -> ParseV<NodeV>
    decreases t.len() - p, 12nat,
{
    if p < 0 || p >= t.len() || !(high_op(t, p) || relation(t, p)) {
        Ok((l, p))
    } else {
        match p_factor(t, p + 1) {
            Err(e) => Err(e),
            Ok((r, q)) => if q <= p || q > t.len() {
                Err(unexpected(t, q, None))
            } else {
                let w = t[p].text;
                let n = if high_op(t, p) {
                    leaf(OpV::Binary(Box::new(l), w, Box::new(r)), w)
                } else {
                    leaf(OpV::Comparison(Box::new(l), w, Box::new(r)), w)
                };
                p_term_rest(t, q, n)
            },
        }
    }
}

/// `factor := (+|-) factor | '(' expr ')' | INTEGER | BOOLEAN | ID ('(' args ')')?`
pub open spec fn p_factor(t: Seq<TokenV>, p: int) -> ParseV<NodeV>
    decreases t.len() - p, 11nat,
{
    if p < 0 || p >= t.len() {
        Err(unexpected(t, p, None))
    } else if low_op(t, p) {
        match p_factor(t, p + 1) {
            Err(e) => Err(e),
            Ok((x, q)) => Ok((leaf(OpV::NegUnary(Box::new(x)), t[p].text), q)),
        }
    } else if t[p].kind == Kind::GroupBegin {
        match p_expr(t, p + 1) {
            Err(e) => Err(e),
            Ok((e, q)) => match expect(t, q, Kind::GroupEnd) {
                Err(f) => Err(f),
                Ok(_) => Ok((e, q + 1)),
            },
        }
    } else if t[p].kind == Kind::Integer {
        if literal(t[p]) is Int {
            Ok((leaf(OpV::Constant(literal(t[p])), t[p].text), p + 1))
        } else {
            Err(FaultV { kind: FaultKind::Overflow, detail: t[p].text, expected: None, position: p as nat })
        }
    } else if t[p].kind == Kind::Bolean {
        Ok((leaf(OpV::Constant(literal(t[p])), t[p].text), p + 1))
    } else if t[p].kind == Kind::ID {
        if kind_at(t, p + 1) == Some(Kind::GroupBegin) {
            match p_args(t, p + 2) {
                Err(e) => Err(e),
                Ok((args, q)) => match expect(t, q, Kind::GroupEnd) {
                    Err(f) => Err(f),
                    Ok(_) => Ok((leaf(OpV::CallFunc(Box::new(ident(t[p])), args), "="@), q + 1)),
                },
            }
        } else {
            Ok((ident(t[p]), p + 1))
        }
    } else {
        Err(unexpected(t, p, None))
    }
}

/// `args := (expr (',' expr)*)?`
pub open spec fn p_args(t: Seq<TokenV>, p: int) -> ParseV<Seq<NodeV>>
    decreases t.len() - p, 17nat,
{
    if p < 0 || p > t.len() {
        Err(unexpected(t, p, None))
    } else if kind_at(t, p) == Some(Kind::GroupEnd) {
        Ok((Seq::empty(), p))
    } else {
        match p_expr(t, p) {
            Err(e) => Err(e),
            Ok((e, q)) => if q < p || q > t.len() {
                Err(unexpected(t, q, None))
            } else {
                p_args_rest(t, q, seq![e])
            },
        }
    }
}

pub open spec fn p_args_rest(t: Seq<TokenV>, p: int, acc: Seq<NodeV>) -> ParseV<Seq<NodeV>>
    decreases t.len() - p, 16nat,
{
    if p < 0 || p >= t.len() || kind_at(t, p) != Some(Kind::Separator) {
        Ok((acc, p))
    } else {
        match p_expr(t, p + 1) {
            Err(e) => Err(e),
            Ok((e, q)) => if q <= p || q > t.len() {
                Err(unexpected(t, q, None))
            } else {
                p_args_rest(t, q, acc.push(e))
            },
        }
    }
}

} // verus!
