//! Runtime values.
use vstd::prelude::*;
use std::rc::Rc;
use crate::ast::{Node, NodeV, node_view};
use crate::token::{Kind, Token, TokenV};
use crate::text::{chars_of, string_of, push_str, push_decimal, decimal};

verus! {

/// A runtime value.
#[derive(Debug, PartialEq, PartialOrd)]
pub enum Type {
    Str(String),
    Int(i32),
    Bool(bool),
    Func(Vec<String>, Rc<Node>),
    Nil,
}

/// The model of a runtime value.
pub enum ValueV {
    Str(Seq<char>),
    Int(int),
    Bool(bool),
    Func(Seq<Seq<char>>, Box<NodeV>),
    Nil,
}

pub open spec fn names_view(s: Seq<String>) -> Seq<Seq<char>> {
    s.map_values(|x: String| x@)
}

pub open spec fn value_view(t: Type) -> ValueV
    decreases t,
{
    match t {
        Type::Str(s) => ValueV::Str(s@),
        Type::Int(i) => ValueV::Int(i as int),
        Type::Bool(b) => ValueV::Bool(b),
        Type::Func(ps, b) => ValueV::Func(names_view(ps@), Box::new(node_view(*b))),
        Type::Nil => ValueV::Nil,
    }
}

impl View for Type {
    type V = ValueV;

    open spec fn view(&self) -> ValueV {
        value_view(*self)
    }
}


/// Whether `c` is a decimal digit.
pub open spec fn is_digit(c: char) -> bool {
    '0' <= c && c <= '9'
}

/// The value of a sequence of decimal digits (0 when empty).
pub open spec fn digits_value(s: Seq<char>) -> int
    decreases s.len(),
{
    if s.len() == 0 {
        0
    } else {
        digits_value(s.drop_last()) * 10 + (s.last() as int - '0' as int)
    }
}

/// Whether `n` fits in a 32-bit signed integer.
pub open spec fn in_i32(n: int) -> bool {
    i32::MIN <= n <= i32::MAX
}

/// The value that a literal token denotes: a decimal integer that fits in 32 bits, or a
/// boolean; any other token denotes nil.
pub open spec fn literal(t: TokenV) -> ValueV {
    if t.kind == Kind::Integer && t.text.len() > 0 && (forall|i: int|
        0 <= i < t.text.len() ==> is_digit(#[trigger] t.text[i])) && digits_value(t.text) <= i32::MAX {
        ValueV::Int(digits_value(t.text))
    } else if t.kind == Kind::Bolean {
        ValueV::Bool(t.text == "true"@)
    } else {
        ValueV::Nil
    }
}

/// A value as an integer, for comparisons: booleans count as 1 and 0; other values have none.
pub open spec fn coerce(v: ValueV) -> Option<int> {
    match v {
        ValueV::Int(i) => Some(i),
        ValueV::Bool(b) => Some(if b { 1 } else { 0 }),
        _ => None,
    }
}

/// Truthiness: exactly the values that coerce to 1, `true` and the integer 1.
pub open spec fn truthy(v: ValueV) -> bool {
    coerce(v) == Some(1int)
}

/// The text of a value as `evaluate` returns it.
pub open spec fn display(v: ValueV) -> Seq<char> {
    match v {
        ValueV::Int(i) => decimal(i),
        ValueV::Bool(b) => if b { "true"@ } else { "false"@ },
        ValueV::Str(s) => s,
        ValueV::Func(_, _) => "function"@,
        ValueV::Nil => Seq::empty(),
    }
}

proof fn lemma_digits_prefix(s: Seq<char>, i: int)
    requires
        0 <= i <= s.len(),
        forall|j: int| 0 <= j < s.len() ==> is_digit(#[trigger] s[j]),
    ensures
        digits_value(s.subrange(0, i)) <= digits_value(s),
        0 <= digits_value(s.subrange(0, i)),
    decreases s.len(),
{
    if s.len() > 0 {
        if i == s.len() {
            assert(s.subrange(0, i) =~= s);
            lemma_digits_prefix(s.drop_last(), i - 1);
            assert(s.drop_last().subrange(0, i - 1) =~= s.drop_last());
        } else {
            lemma_digits_prefix(s.drop_last(), i);
            assert(s.drop_last().subrange(0, i) =~= s.subrange(0, i));
            lemma_digits_prefix(s.drop_last(), s.len() - 1);
            assert(s.drop_last().subrange(0, s.len() - 1) =~= s.drop_last());
        }
    }
}

fn copy_names(ps: &Vec<String>) -> (r: Vec<String>)
    ensures
        names_view(r@) == names_view(ps@),
{
    let mut r: Vec<String> = Vec::new();
    let mut i: usize = 0;
    while i < ps.len()
        invariant
            i <= ps.len(),
            r@ == ps@.subrange(0, i as int),
        decreases ps.len() - i,
    {
        r.push(ps[i].clone());
        i = i + 1;
        assert(r@ =~= ps@.subrange(0, i as int));
    }
    assert(ps@.subrange(0, i as int) =~= ps@);
    r
}

impl Type {
    /// The value of a literal token.
    pub fn from(token: &Token) -> (r: Type)
        ensures
            r@ == literal(token@),
    {
        match token.kind {
            Kind::Integer => {
                let cs = chars_of(token.value.as_str());
                if cs.len() == 0 {
                    return Type::Nil;
                }
                let mut acc: i64 = 0;
                let mut i: usize = 0;
                while i < cs.len()
                    invariant
                        token.kind == Kind::Integer,
                        cs@ == token.value@,
                        i <= cs.len(),
                        forall|j: int| 0 <= j < i ==> is_digit(#[trigger] cs@[j]),
                        acc == digits_value(cs@.subrange(0, i as int)),
                        0 <= acc <= i32::MAX,
                    decreases cs.len() - i,
                {
                    let c = cs[i];
                    if !('0' <= c && c <= '9') {
                        assert(!is_digit(token@.text[i as int]));
                        return Type::Nil;
                    }
                    let ghost prev = cs@.subrange(0, i as int);
                    acc = acc * 10 + (c as i64 - '0' as i64);
                    i = i + 1;
                    proof {
                        let cur = cs@.subrange(0, i as int);
                        assert(cur.drop_last() =~= prev);
                        assert(cur.last() == c);
                        assert(digits_value(cur) == digits_value(prev) * 10 + (c as int - '0' as int));
                    }
                    if acc > i32::MAX as i64 {
                        proof {
                            if forall|j: int| 0 <= j < cs@.len() ==> is_digit(#[trigger] cs@[j]) {
                                lemma_digits_prefix(cs@, i as int);
                                assert(digits_value(token@.text) > i32::MAX);
                            }
                        }
                        return Type::Nil;
                    }
                }
                assert(cs@.subrange(0, i as int) =~= cs@);
                Type::Int(acc as i32)
            },
            Kind::Bolean => {
                Type::Bool(crate::text::same_text(token.value.as_str(), "true"))
            },
            _ => Type::Nil,
        }
    }

    /// A copy of this value.
    pub fn copy(&self) -> (r: Type)
        ensures
            r@ == self@,
    {
        match self {
            Type::Str(s) => Type::Str(s.clone()),
            Type::Int(i) => Type::Int(*i),
            Type::Bool(b) => Type::Bool(*b),
            Type::Func(ps, b) => Type::Func(copy_names(ps), b.clone()),
            Type::Nil => Type::Nil,
        }
    }

    /// The text of this value: decimal digits for an integer, `true` or `false`, the
    /// characters of a string, `function` for a function and nothing for nil.
    pub fn to_string(self) -> (r: String)
        ensures
            r@ == display(self@),
    {
        let mut out: Vec<char> = Vec::new();
        match self {
            Type::Int(i) => {
                push_decimal(&mut out, i as i64);
                assert(out@ =~= display(self@));
            },
            Type::Bool(b) => {
                if b {
                    push_str(&mut out, "true");
                } else {
                    push_str(&mut out, "false");
                }
                assert(out@ =~= display(self@));
            },
            Type::Str(s) => {
                return s;
            },
            Type::Func(_, _) => {
                push_str(&mut out, "function");
                assert(out@ =~= display(self@));
            },
            Type::Nil => {
                assert(out@ =~= display(self@));
            },
        }
        string_of(&out)
    }

    /// Whether this value is truthy: `true` or the integer 1.
    pub fn as_bool(&self) -> (r: bool)
        ensures
            r == truthy(self@),
    {
        match self {
            Type::Int(i) => *i == 1,
            Type::Bool(b) => *b,
            _ => false,
        }
    }
}

} // verus!
