use rascal::ast::Node;
use rascal::interpreter::Interpreter;
use rascal::parser::Parser;
use rascal::token::{Kind, Token, Tokenizer};

fn run(text: &str) -> String {
    let tokenizer = Tokenizer::new(String::from(text));
    let mut parser = Parser::new(tokenizer);
    Interpreter::new().eval(parser.parse().unwrap())
}

#[test]
fn it_eval_tree_leaf() {
    let token = Token::build(Kind::Integer, String::from("10"));
    let leaf = Node::constant(token);
    assert_eq!("10", Interpreter::new().eval(leaf))
}

#[test]
fn it_eval_the_node_binary_operation() {
    let left = Node::constant(Token::build(Kind::Integer, String::from("3")));
    let operator = Token::build(Kind::Operator, String::from("+"));
    let right = Node::constant(Token::build(Kind::Integer, String::from("5")));
    let node = Node::binary(left, operator, right);
    assert_eq!("8", Interpreter::new().eval(node))
}

#[test]
fn it_eval_complex_tree() {
    let left = Node::constant(Token::build(Kind::Integer, String::from("3")));
    let operator = Token::build(Kind::Operator, String::from("*"));
    let right = Node::constant(Token::build(Kind::Integer, String::from("5")));
    let plusnode = Node::binary(left, operator, right);

    let operator = Token::build(Kind::Operator, String::from("+"));
    let sumright = Node::constant(Token::build(Kind::Integer, String::from("5")));
    let sumnode = Node::binary(plusnode, operator, sumright);

    assert_eq!("20", Interpreter::new().eval(sumnode))
}

#[test]
fn it_eval_unary_operations() {
    let rnode = Node::constant(Token::build(Kind::Integer, String::from("2")));
    let negative_op = Token::build(Kind::Operator, String::from("-"));
    let unarynode = Node::unary(negative_op, rnode);

    let operator = Token::build(Kind::Operator, String::from("-"));
    let left = Node::constant(Token::build(Kind::Integer, String::from("2")));
    let sumnode = Node::binary(left, operator, unarynode);

    assert_eq!("4", Interpreter::new().eval(sumnode))
}

#[test]
fn it_sums() {
    assert_eq!("6", run("5+1"));
}

#[test]
fn it_substract() {
    assert_eq!("4", run("5-1"));
}

#[test]
fn it_multiplies() {
    assert_eq!("10", run("5*2"));
}

#[test]
fn it_divide() {
    assert_eq!("2", run("4/2"));
}

#[test]
fn it_accepts_multiples_operation() {
    assert_eq!("10", run("10+5-4-1"));
}

#[test]
fn it_respect_precedence() {
    assert_eq!("3", run("1+1*2"));
}

#[test]
fn it_respects_grouped_expression() {
    assert_eq!("10", run("4+(1+(1+1)*2)+1"));
}

#[test]
fn it_accept_unary_operations() {
    assert_eq!("5", run("(4+-1)--2"));
}

#[test]
fn it_accept_binary_comparison() {
    assert_eq!("false", run("4 == 2"));
}

#[test]
fn it_accept_composed_binary_comparison() {
    assert_eq!("false", run("1 > 1 or 2 == 2 and 3 != 3"));
}

#[test]
fn it_eval_block_assigning_vars_to_symbol_table() {
    assert_eq!("10", run("begin mut x = 10; return x end"));
}

#[test]
fn it_eval_block_retrieve_vars_from_symbol_table() {
    assert_eq!("15", run("begin imut x = 10; mut y = x + 5; return y end"));
}

#[test]
fn it_eval_functions_without_params() {
    assert_eq!("2", run("{ fun two = [] { return 2 }; two() }"));
}

#[test]
fn it_eval_functions_with_params() {
    assert_eq!("4", run("{ fun add = [x] { return x + 2 }; add(2) }"));
}

#[test]
fn it_eval_functions_with_multiple_params() {
    assert_eq!("5", run("{ fun add = [x,y,z] { return x + y + z }; add(2,1,2) }"));
}

#[test]
fn eval_tree_reports_faults() {
    let mut interpreter = Interpreter::new();
    let name = Node::indentifier(Token::build(Kind::ID, String::from("ghost")));
    let fault = interpreter.eval_tree(&name, 10).unwrap_err();
    assert_eq!(fault.kind, rascal::fault::FaultKind::UnknownName);
    assert_eq!(fault.message(), "Variable ghost doesn't exist in this context");
    let deep = Node::_return(Node::_return(Node::constant(Token::build(Kind::Integer, String::from("1")))));
    assert_eq!(interpreter.eval_tree(&deep, 2).unwrap_err().kind, rascal::fault::FaultKind::StepLimit);
    assert_eq!(interpreter.eval_tree(&deep, 3).unwrap(), rascal::primitive::Type::Int(1));
}

#[test]
fn print_appends_to_output() {
    let mut interpreter = Interpreter::new();
    let tree = Parser::new(Tokenizer::new(String::from("print 6*7; print true; 1"))).parse().unwrap();
    assert_eq!(interpreter.eval(tree), "1");
    assert_eq!(interpreter.output, vec![String::from("42"), String::from("true")]);
}
