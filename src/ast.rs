//! The abstract syntax tree and its mathematical model.
use vstd::prelude::*;
use std::rc::Rc;
use crate::token::Token;
use crate::primitive::{Type, ValueV, value_view, literal};

verus! {

/// What a node does: one variant per construct of the language.
#[derive(Debug, PartialEq, PartialOrd)]
pub enum Operation {
    Identifier(String),
    Constant(Type),
    Binary(Node, String, Node),
    Comparison(Node, String, Node),
    CallFunc(Node, Vec<Node>),
    DefineFunc(Node, Vec<Node>, Rc<Node>),
    DefineImut(Node, Node),
    DefineVar(Node, Node),
    ReAssign(Node, Node),
    NegUnary(Node),
    IfElse(Node, Node, Node),
    Loop(Node, Node),
    Block(Vec<Node>),
    Program(Vec<Node>),
    Print(Node),
    Return(Node),
    Empty,
}

/// A node of the tree: its operation and the text of the token it stands for
/// (an operator, a name, a literal), empty where there is none.
#[derive(Debug, PartialEq, PartialOrd)]
pub struct Node {
    pub operation: Box<Operation>,
    pub value: String,
}

/// The model of an operation.
pub enum OpV {
    Identifier(Seq<char>),
    Constant(ValueV),
    Binary(Box<NodeV>, Seq<char>, Box<NodeV>),
    Comparison(Box<NodeV>, Seq<char>, Box<NodeV>),
    CallFunc(Box<NodeV>, Seq<NodeV>),
    DefineFunc(Box<NodeV>, Seq<NodeV>, Box<NodeV>),
    DefineImut(Box<NodeV>, Box<NodeV>),
    DefineVar(Box<NodeV>, Box<NodeV>),
    ReAssign(Box<NodeV>, Box<NodeV>),
    NegUnary(Box<NodeV>),
    IfElse(Box<NodeV>, Box<NodeV>, Box<NodeV>),
    Loop(Box<NodeV>, Box<NodeV>),
    Block(Seq<NodeV>),
    Program(Seq<NodeV>),
    Print(Box<NodeV>),
    Return(Box<NodeV>),
    Empty,
}

/// The model of a node.
pub struct NodeV {
    pub op: OpV,
    pub value: Seq<char>,
}

pub open spec fn node_view(n: Node) -> NodeV
    decreases n,
{
    let op = match *n.operation {
        Operation::Identifier(s) => OpV::Identifier(s@),
        Operation::Constant(t) => OpV::Constant(value_view(t)),
        Operation::Binary(l, o, r) => OpV::Binary(Box::new(node_view(l)), o@, Box::new(node_view(r))),
        Operation::Comparison(l, o, r) => OpV::Comparison(
            Box::new(node_view(l)),
            o@,
            Box::new(node_view(r)),
        ),
        Operation::CallFunc(id, args) => OpV::CallFunc(Box::new(node_view(id)), nodes_view(args@)),
        Operation::DefineFunc(id, ps, b) => OpV::DefineFunc(
            Box::new(node_view(id)),
            nodes_view(ps@),
            Box::new(node_view(*b)),
        ),
        Operation::DefineImut(l, r) => OpV::DefineImut(Box::new(node_view(l)), Box::new(node_view(r))),
        Operation::DefineVar(l, r) => OpV::DefineVar(Box::new(node_view(l)), Box::new(node_view(r))),
        Operation::ReAssign(l, r) => OpV::ReAssign(Box::new(node_view(l)), Box::new(node_view(r))),
        Operation::NegUnary(x) => OpV::NegUnary(Box::new(node_view(x))),
        Operation::IfElse(c, t, e) => OpV::IfElse(
            Box::new(node_view(c)),
            Box::new(node_view(t)),
            Box::new(node_view(e)),
        ),
        Operation::Loop(c, b) => OpV::Loop(Box::new(node_view(c)), Box::new(node_view(b))),
        Operation::Block(v) => OpV::Block(nodes_view(v@)),
        Operation::Program(v) => OpV::Program(nodes_view(v@)),
        Operation::Print(x) => OpV::Print(Box::new(node_view(x))),
        Operation::Return(x) => OpV::Return(Box::new(node_view(x))),
        Operation::Empty => OpV::Empty,
    };
    NodeV { op, value: n.value@ }
}

pub open spec fn nodes_view(s: Seq<Node>) -> Seq<NodeV>
    decreases s,
{
    if s.len() == 0 {
        Seq::empty()
    } else {
        nodes_view(s.subrange(0, s.len() - 1)).push(node_view(s[s.len() - 1]))
    }
}

impl View for Node {
    type V = NodeV;

    open spec fn view(&self) -> NodeV {
        node_view(*self)
    }
}

pub proof fn lemma_nodes_view(s: Seq<Node>)
    ensures
        nodes_view(s).len() == s.len(),
        forall|i: int| 0 <= i < s.len() ==> #[trigger] nodes_view(s)[i] == node_view(s[i]),
    decreases s.len(),
{
    if s.len() > 0 {
        lemma_nodes_view(s.subrange(0, s.len() - 1));
    }
}


/// A node without children or text of its own beyond `value`.
pub open spec fn node_of(op: OpV, value: Seq<char>) -> NodeV {
    NodeV { op, value }
}

impl Node {
    pub fn binary(left: Node, token: Token, right: Node) -> (r: Self)
        ensures
            r@ == node_of(OpV::Binary(Box::new(left@), token.value@, Box::new(right@)), token.value@),
    {
        let op = token.value.clone();
        Node { operation: Box::new(Operation::Binary(left, op, right)), value: token.value }
    }

    pub fn comparison(left: Node, token: Token, right: Node) -> (r: Self)
        ensures
            r@ == node_of(OpV::Comparison(Box::new(left@), token.value@, Box::new(right@)), token.value@),
    {
        let op = token.value.clone();
        Node { operation: Box::new(Operation::Comparison(left, op, right)), value: token.value }
    }

    pub fn call_function(id: Node, params: Vec<Node>) -> (r: Self)
        ensures
            r@ == node_of(OpV::CallFunc(Box::new(id@), nodes_view(params@)), "="@),
    {
        Node { operation: Box::new(Operation::CallFunc(id, params)), value: "=".to_owned() }
    }

    pub fn define_function(id: Node, params: Vec<Node>, block: Node) -> (r: Self)
        ensures
            r@ == node_of(OpV::DefineFunc(Box::new(id@), nodes_view(params@), Box::new(block@)), "="@),
    {
        Node {
            operation: Box::new(Operation::DefineFunc(id, params, Rc::new(block))),
            value: "=".to_owned(),
        }
    }

    pub fn define_immutable(left: Node, right: Node) -> (r: Self)
        ensures
            r@ == node_of(OpV::DefineImut(Box::new(left@), Box::new(right@)), "="@),
    {
        Node { operation: Box::new(Operation::DefineImut(left, right)), value: "=".to_owned() }
    }

    pub fn define_mutable(left: Node, right: Node) -> (r: Self)
        ensures
            r@ == node_of(OpV::DefineVar(Box::new(left@), Box::new(right@)), "="@),
    {
        Node { operation: Box::new(Operation::DefineVar(left, right)), value: "=".to_owned() }
    }

    pub fn reassign(left: Node, right: Node) -> (r: Self)
        ensures
            r@ == node_of(OpV::ReAssign(Box::new(left@), Box::new(right@)), Seq::empty()),
    {
        Node { operation: Box::new(Operation::ReAssign(left, right)), value: String::new() }
    }

    pub fn indentifier(token: Token) -> (r: Self)
        ensures
            r@ == node_of(OpV::Identifier(token.value@), token.value@),
    {
        let name = token.value.clone();
        Node { operation: Box::new(Operation::Identifier(name)), value: token.value }
    }

    pub fn constant(token: Token) -> (r: Self)
        ensures
            r@ == node_of(OpV::Constant(literal(token@)), token.value@),
    {
        let primitive = Type::from(&token);
        Node { operation: Box::new(Operation::Constant(primitive)), value: token.value }
    }

    pub fn unary(token: Token, node: Node) -> (r: Self)
        ensures
            r@ == node_of(OpV::NegUnary(Box::new(node@)), token.value@),
    {
        Node { operation: Box::new(Operation::NegUnary(node)), value: token.value }
    }

    pub fn _return(node: Node) -> (r: Self)
        ensures
            r@ == node_of(OpV::Return(Box::new(node@)), Seq::empty()),
    {
        Node { operation: Box::new(Operation::Return(node)), value: String::new() }
    }

    pub fn print(node: Node) -> (r: Self)
        ensures
            r@ == node_of(OpV::Print(Box::new(node@)), Seq::empty()),
    {
        Node { operation: Box::new(Operation::Print(node)), value: String::new() }
    }

    pub fn ifelse(condition: Node, if_node: Node, else_node: Node) -> (r: Self)
        ensures
            r@ == node_of(OpV::IfElse(Box::new(condition@), Box::new(if_node@), Box::new(else_node@)), Seq::empty()),
    {
        Node { operation: Box::new(Operation::IfElse(condition, if_node, else_node)), value: String::new() }
    }

    pub fn conditional(node: Node, statements: Node) -> (r: Self)
        ensures
            r@ == node_of(OpV::Loop(Box::new(node@), Box::new(statements@)), Seq::empty()),
    {
        Node { operation: Box::new(Operation::Loop(node, statements)), value: String::new() }
    }

    pub fn block(statements: Vec<Node>) -> (r: Self)
        ensures
            r@ == node_of(OpV::Block(nodes_view(statements@)), Seq::empty()),
    {
        Node { operation: Box::new(Operation::Block(statements)), value: String::new() }
    }

    /// A program: statements run in the scope that evaluates it.
    pub fn main(statements: Vec<Node>) -> (r: Self)
        ensures
            r@ == node_of(OpV::Program(nodes_view(statements@)), Seq::empty()),
    {
        Node { operation: Box::new(Operation::Program(statements)), value: String::new() }
    }

    pub fn empty() -> (r: Self)
        ensures
            r@ == node_of(OpV::Empty, Seq::empty()),
    {
        Node { operation: Box::new(Operation::Empty), value: String::new() }
    }
}

} // verus!
