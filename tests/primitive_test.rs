use rascal::primitive::Type;
use rascal::token::{Kind, Token};

#[test]
fn primitive_it_is_true() {
    assert_eq!(true, Type::Int(0) < Type::Int(4));
    assert_eq!(true, Type::Int(4) > Type::Int(0));
    assert_eq!(true, Type::Int(1) != Type::Int(0));
    assert_eq!(true, Type::Int(4) == Type::Int(4));
    assert_eq!(true, true && Type::Int(1).as_bool());
    assert_eq!(true, false || Type::Int(1).as_bool());

    assert_eq!(true, Type::Bool(true) != Type::Bool(false));
    assert_eq!(true, Type::Bool(true) == Type::Bool(true));
    assert_eq!(true, true && Type::Bool(true).as_bool());
    assert_eq!(true, false || Type::Bool(true).as_bool());
}

#[test]
fn primitive_it_is_false() {
    assert_eq!(false, Type::Int(4) < Type::Int(0));
    assert_eq!(false, Type::Int(0) > Type::Int(4));
    assert_eq!(false, Type::Int(0) != Type::Int(0));
    assert_eq!(false, Type::Int(1) == Type::Int(4));
    assert_eq!(false, false && Type::Int(1).as_bool());
    assert_eq!(false, false || Type::Int(0).as_bool());

    assert_eq!(false, Type::Bool(false) != Type::Bool(false));
    assert_eq!(false, Type::Bool(false) == Type::Bool(true));
    assert_eq!(false, false && Type::Bool(false).as_bool());
    assert_eq!(false, false || Type::Bool(false).as_bool());
}

#[test]
fn only_true_and_one_are_truthy() {
    assert!(Type::Int(1).as_bool());
    assert!(!Type::Int(2).as_bool());
    assert!(!Type::Int(-1).as_bool());
    assert!(!Type::Nil.as_bool());
    assert!(!Type::Str(String::from("1")).as_bool());
}

#[test]
fn values_from_tokens() {
    assert_eq!(Type::from(&Token::build(Kind::Integer, String::from("1102"))), Type::Int(1102));
    assert_eq!(Type::from(&Token::build(Kind::Integer, String::from("2147483647"))), Type::Int(2147483647));
    assert_eq!(Type::from(&Token::build(Kind::Integer, String::from("2147483648"))), Type::Nil);
    assert_eq!(Type::from(&Token::build(Kind::Bolean, String::from("true"))), Type::Bool(true));
    assert_eq!(Type::from(&Token::build(Kind::Bolean, String::from("false"))), Type::Bool(false));
    assert_eq!(Type::from(&Token::build(Kind::ID, String::from("x"))), Type::Nil);
}

#[test]
fn values_as_text() {
    assert_eq!(Type::Int(-305).to_string(), "-305");
    assert_eq!(Type::Int(0).to_string(), "0");
    assert_eq!(Type::Int(-2147483648).to_string(), "-2147483648");
    assert_eq!(Type::Bool(false).to_string(), "false");
    assert_eq!(Type::Str(String::from("abc")).to_string(), "abc");
    assert_eq!(Type::Nil.to_string(), "");
}
