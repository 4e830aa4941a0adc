use rascal::ast::Node;
use rascal::fault::FaultKind;
use rascal::parser::Parser;
use rascal::token::{Kind, Token, Tokenizer};

fn test_node_builder(left: String, operator: String, right: String) -> Node {
    let lnode = Node::constant(Token::build(Kind::Integer, left));
    let token = Token::build(Kind::Operator, operator);
    let rnode = Node::constant(Token::build(Kind::Integer, right));
    Node::binary(lnode, token, rnode)
}

fn parse(text: &str) -> Node {
    let tokenizer = Tokenizer::new(String::from(text));
    let mut parser = Parser::new(tokenizer);
    parser.parse().unwrap()
}

#[test]
fn it_parses_sum_as_node() {
    let expected = test_node_builder(String::from("5"), String::from("+"), String::from("1"));
    assert_eq!(Node::main(vec![expected]), parse("5+1"));
}

#[test]
fn it_parses_multiples_operation() {
    let firstsum = test_node_builder(String::from("10"), String::from("+"), String::from("5"));
    let token = Token::build(Kind::Operator, String::from("-"));
    let rnode = Node::constant(Token::build(Kind::Integer, String::from("4")));
    let expected = Node::binary(firstsum, token, rnode);
    assert_eq!(Node::main(vec![expected]), parse("10+5-4"));
}

#[test]
fn it_parses_respecting_precedence() {
    let plusnode = test_node_builder(String::from("5"), String::from("*"), String::from("4"));
    let token = Token::build(Kind::Operator, String::from("+"));
    let rnode = Node::constant(Token::build(Kind::Integer, String::from("10")));
    let expected = Node::binary(rnode, token, plusnode);
    assert_eq!(Node::main(vec![expected]), parse("10+5*4"));
}

#[test]
fn it_parses_respecting_parentesis_precedence() {
    let plusnode = test_node_builder(String::from("10"), String::from("+"), String::from("5"));
    let token = Token::build(Kind::Operator, String::from("*"));
    let rnode = Node::constant(Token::build(Kind::Integer, String::from("4")));
    let expected = Node::binary(plusnode, token, rnode);
    assert_eq!(Node::main(vec![expected]), parse("(10+5)*4"));
}

#[test]
fn it_parses_simple_block() {
    let expr = test_node_builder(String::from("10"), String::from("+"), String::from("5"));
    let var = Node::indentifier(Token { kind: Kind::ID, value: String::from("x") });
    let assign = Node::define_mutable(var, expr);
    let expected = Node::block(vec![assign]);
    assert_eq!(Node::main(vec![expected]), parse("{ var x = 10+5 }"));
}

#[test]
fn it_parses_block_single_expression() {
    let expr = test_node_builder(String::from("10"), String::from("+"), String::from("5"));
    let expected = Node::block(vec![expr]);
    assert_eq!(Node::main(vec![expected]), parse("{ 10 + 5 }"));
}

#[test]
fn it_parses_multiple_statements() {
    let yvar = Node::indentifier(Token { kind: Kind::CONST, value: String::from("y") });
    let yvalue = Node::constant(Token { kind: Kind::Integer, value: String::from("100") });
    let yassign = Node::define_immutable(yvar, yvalue);

    let expr = test_node_builder(String::from("10"), String::from("+"), String::from("5"));
    let xvar = Node::indentifier(Token { kind: Kind::ID, value: String::from("x") });
    let xassign = Node::define_mutable(xvar, expr);

    let expected = Node::main(vec![xassign, yassign]);
    assert_eq!(expected, parse("var x = 10+5; let y = 100"));
}

#[test]
fn it_parses_bolean_comparison() {
    let lcompar = Node::constant(Token::build(Kind::Bolean, String::from("true")));
    let rcompar = Node::constant(Token::build(Kind::Bolean, String::from("false")));
    let tkcompar = Token::build(Kind::Comparison, String::from("=="));
    let statement = Node::comparison(lcompar, tkcompar, rcompar);
    let expected = Node::main(vec![statement]);
    assert_eq!(expected, parse("true == false"));
}

#[test]
fn it_parses_bolean_expression() {
    let lcompar = Node::constant(Token::build(Kind::Bolean, String::from("true")));
    let rcompar = Node::constant(Token::build(Kind::Bolean, String::from("false")));
    let tkcompar = Token::build(Kind::Comparison, String::from("=="));
    let comparison = Node::comparison(lcompar, tkcompar, rcompar);

    let token = Token::build(Kind::Comparison, String::from("and"));
    let rnode = Node::constant(Token::build(Kind::Bolean, String::from("true")));

    let statement = Node::comparison(rnode, token, comparison);
    let expected = Node::main(vec![statement]);
    assert_eq!(expected, parse("true and true == false"));
}

#[test]
fn it_parses_expressions_gt_lt() {
    let lcompar = Node::constant(Token::build(Kind::Integer, String::from("1")));
    let tkcompar = Token::build(Kind::Comparison, String::from(">"));
    let rcompar = Node::constant(Token::build(Kind::Integer, String::from("2")));
    let lnode = Node::comparison(lcompar, tkcompar, rcompar);

    let token = Token::build(Kind::Comparison, String::from("or"));

    let lcompar2 = Node::constant(Token::build(Kind::Integer, String::from("1")));
    let tkcompa2 = Token::build(Kind::Comparison, String::from("<"));
    let rcompar2 = Node::constant(Token::build(Kind::Integer, String::from("2")));
    let rnode = Node::comparison(lcompar2, tkcompa2, rcompar2);

    let expected = Node::comparison(lnode, token, rnode);
    assert_eq!(Node::main(vec![expected]), parse("1 > 2 or 1 < 2"));
}

#[test]
fn it_parses_function_define() {
    let fun = Node::indentifier(Token { kind: Kind::ID, value: String::from("x") });
    let arg = Node::indentifier(Token { kind: Kind::ID, value: String::from("arg") });
    let arg2 = Node::indentifier(Token { kind: Kind::ID, value: String::from("arg2") });
    let params = vec![arg, arg2];

    let arg1 = Node::indentifier(Token { kind: Kind::ID, value: String::from("arg") });
    let plus = Token::build(Kind::Operator, String::from("+"));
    let arg2 = Node::indentifier(Token { kind: Kind::ID, value: String::from("arg2") });
    let expr = Node::binary(arg1, plus, arg2);
    let nreturn = Node::_return(expr);

    let block = Node::block(vec![nreturn]);

    let fundefine = Node::define_function(fun, params, block);
    let program = Node::block(vec![fundefine]);
    assert_eq!(Node::main(vec![program]), parse("{ fn x = [arg, arg2] { return arg + arg2 } }"));
}

#[test]
fn multiplication_binds_tighter_than_addition() {
    let five_times_four = test_node_builder(String::from("5"), String::from("*"), String::from("4"));
    let one = Node::constant(Token::build(Kind::Integer, String::from("1")));
    let expected = Node::binary(one, Token::build(Kind::Operator, String::from("+")), five_times_four);
    assert_eq!(Node::main(vec![expected]), parse("1+5*4"));
}

#[test]
fn parentheses_override_precedence() {
    let one_plus_five = test_node_builder(String::from("1"), String::from("+"), String::from("5"));
    let four = Node::constant(Token::build(Kind::Integer, String::from("4")));
    let expected = Node::binary(one_plus_five, Token::build(Kind::Operator, String::from("*")), four);
    assert_eq!(Node::main(vec![expected]), parse("(1+5)*4"));
}

#[test]
fn products_group_to_the_left() {
    let two_times_three = test_node_builder(String::from("2"), String::from("*"), String::from("3"));
    let four = Node::constant(Token::build(Kind::Integer, String::from("4")));
    let expected = Node::binary(two_times_three, Token::build(Kind::Operator, String::from("*")), four);
    assert_eq!(Node::main(vec![expected]), parse("2*3*4"));
}

#[test]
fn parse_faults() {
    let mut missing = Parser::new(Tokenizer::new(String::from("(1+2")));
    let f = missing.parse().unwrap_err();
    assert_eq!(f.kind, FaultKind::ParseError);
    assert_eq!(f.expected, Some(Kind::GroupEnd));
    assert_eq!(f.position, 4);
    assert_eq!(f.detail, "end of file");

    let mut stray = Parser::new(Tokenizer::new(String::from("1 + ]")));
    let f = stray.parse().unwrap_err();
    assert_eq!(f.kind, FaultKind::ParseError);
    assert_eq!(f.detail, "]");
    assert_eq!(f.position, 2);

    let mut lexical = Parser::new(Tokenizer::new(String::from("1 + $")));
    let f = lexical.parse().unwrap_err();
    assert_eq!(f.kind, FaultKind::LexError);
    assert_eq!(f.detail, "$");

    let mut large = Parser::new(Tokenizer::new(String::from("99999999999")));
    assert_eq!(large.parse().unwrap_err().kind, FaultKind::Overflow);
}

#[test]
fn expr_reads_one_expression() {
    let mut parser = Parser::new(Tokenizer::new(String::from("2*3")));
    let expected = test_node_builder(String::from("2"), String::from("*"), String::from("3"));
    assert_eq!(parser.expr().unwrap(), expected);
}
