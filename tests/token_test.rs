use rascal::token::{Kind, Token, Tokenizer};

#[test]
fn it_generate_tokens() {
    let text = "5+1";
    let mut tokens = Tokenizer::new(String::from(text));

    assert_eq!(
        tokens.next(),
        Some(Token { kind: Kind::Integer, value: String::from("5") })
    );
    assert_eq!(
        tokens.next(),
        Some(Token { kind: Kind::Operator, value: String::from("+") })
    );
    assert_eq!(
        tokens.next(),
        Some(Token { kind: Kind::Integer, value: String::from("1") })
    );
    assert_eq!(tokens.next(), None);
}

#[test]
fn it_ignores_empty_spaces() {
    let text = "5 + 1";
    let mut tokens = Tokenizer::new(String::from(text));

    assert_eq!(
        tokens.next().unwrap(),
        Token { kind: Kind::Integer, value: String::from("5") }
    );
    assert_eq!(
        tokens.next().unwrap(),
        Token { kind: Kind::Operator, value: String::from("+") }
    );
    assert_eq!(
        tokens.next().unwrap(),
        Token { kind: Kind::Integer, value: String::from("1") }
    );
}

#[test]
fn it_acepts_high_numbers() {
    let text = "21+1102";
    let mut tokens = Tokenizer::new(String::from(text));

    assert_eq!(
        tokens.next(),
        Some(Token { kind: Kind::Integer, value: String::from("21") })
    );
    assert_eq!(
        tokens.next(),
        Some(Token { kind: Kind::Operator, value: String::from("+") })
    );
    assert_eq!(
        tokens.next(),
        Some(Token { kind: Kind::Integer, value: String::from("1102") })
    );
}

#[test]
fn it_acepts_grouped_expressions() {
    let text = "(1)*1";
    let mut tokens = Tokenizer::new(String::from(text));

    assert_eq!(
        tokens.next(),
        Some(Token { kind: Kind::GroupBegin, value: String::from("(") })
    );
    assert_eq!(
        tokens.next(),
        Some(Token { kind: Kind::Integer, value: String::from("1") })
    );
    assert_eq!(
        tokens.next(),
        Some(Token { kind: Kind::GroupEnd, value: String::from(")") })
    );
}

#[test]
fn it_accepts_statements() {
    let text = "begin x = 1; end";
    let mut tokens = Tokenizer::new(String::from(text));

    assert_eq!(tokens.next(), Some(Token { kind: Kind::Begin, value: String::from("begin") }));
    assert_eq!(tokens.next(), Some(Token { kind: Kind::ID, value: String::from("x") }));
    assert_eq!(tokens.next(), Some(Token { kind: Kind::Assign, value: String::from("=") }));
    assert_eq!(tokens.next(), Some(Token { kind: Kind::Integer, value: String::from("1") }));
    assert_eq!(tokens.next(), Some(Token { kind: Kind::StatementEnd, value: String::from(";") }));
    assert_eq!(tokens.next(), Some(Token { kind: Kind::End, value: String::from("end") }));
}

#[test]
fn it_accepts_comparison_tokens() {
    let text = "true == false";
    let mut tokens = Tokenizer::new(String::from(text));

    assert_eq!(
        tokens.next(),
        Some(Token { kind: Kind::Bolean, value: String::from("true") })
    );
    assert_eq!(
        tokens.next(),
        Some(Token { kind: Kind::Comparison, value: String::from("==") })
    );
    assert_eq!(
        tokens.next(),
        Some(Token { kind: Kind::Bolean, value: String::from("false") })
    );
    assert_eq!(tokens.next(), None);
}

#[test]
fn it_accepts_complex_comparison_tokens() {
    let text = "true == false and true or false != false";
    let mut tokens = Tokenizer::new(String::from(text));

    assert_eq!(tokens.next(), Some(Token { kind: Kind::Bolean, value: String::from("true") }));
    assert_eq!(tokens.next(), Some(Token { kind: Kind::Comparison, value: String::from("==") }));
    assert_eq!(tokens.next(), Some(Token { kind: Kind::Bolean, value: String::from("false") }));
    assert_eq!(tokens.next(), Some(Token { kind: Kind::Comparison, value: String::from("and") }));
    assert_eq!(tokens.next(), Some(Token { kind: Kind::Bolean, value: String::from("true") }));
    assert_eq!(tokens.next(), Some(Token { kind: Kind::Comparison, value: String::from("or") }));
    assert_eq!(tokens.next(), Some(Token { kind: Kind::Bolean, value: String::from("false") }));
    assert_eq!(tokens.next(), Some(Token { kind: Kind::Comparison, value: String::from("!=") }));
    assert_eq!(tokens.next(), Some(Token { kind: Kind::Bolean, value: String::from("false") }));
}

#[test]
fn it_acepts_if_else_statements() {
    let text = "if x == y begin x = 1 else x = 2 end";
    let mut tokens = Tokenizer::new(String::from(text));

    assert_eq!(tokens.next(), Some(Token { kind: Kind::If, value: String::from("if") }));

    tokens.next(); // x
    tokens.next(); // ==
    tokens.next(); // y
    tokens.next(); // begin
    tokens.next(); // x
    tokens.next(); // =
    tokens.next(); // 1

    assert_eq!(tokens.next(), Some(Token { kind: Kind::Else, value: String::from("else") }));
}

#[test]
fn it_acepts_function_definitions() {
    let text = "fn f = [ x, y ] { x * 2 }";
    let mut tokens = Tokenizer::new(String::from(text));
    assert_eq!(tokens.next(), Some(Token { kind: Kind::FunctionDefine, value: String::from("fn") }));
    assert_eq!(tokens.next(), Some(Token { kind: Kind::ID, value: String::from("f") }));
    assert_eq!(tokens.next(), Some(Token { kind: Kind::Assign, value: String::from("=") }));
    assert_eq!(tokens.next(), Some(Token { kind: Kind::FunctionParamBegin, value: String::from("[") }));
    assert_eq!(tokens.next(), Some(Token { kind: Kind::ID, value: String::from("x") }));
    assert_eq!(tokens.next(), Some(Token { kind: Kind::Separator, value: String::from(",") }));
    assert_eq!(tokens.next(), Some(Token { kind: Kind::ID, value: String::from("y") }));
    assert_eq!(tokens.next(), Some(Token { kind: Kind::FunctionParamEnd, value: String::from("]") }));
    assert_eq!(tokens.next(), Some(Token { kind: Kind::Begin, value: String::from("{") }));
}

#[test]
fn it_acepts_function_calls() {
    let text = "foo(x,y);";
    let mut tokens = Tokenizer::new(String::from(text));
    assert_eq!(tokens.next(), Some(Token { kind: Kind::ID, value: String::from("foo") }));
    assert_eq!(tokens.next(), Some(Token { kind: Kind::GroupBegin, value: String::from("(") }));
    assert_eq!(tokens.next(), Some(Token { kind: Kind::ID, value: String::from("x") }));
    assert_eq!(tokens.next(), Some(Token { kind: Kind::Separator, value: String::from(",") }));
    assert_eq!(tokens.next(), Some(Token { kind: Kind::ID, value: String::from("y") }));
    assert_eq!(tokens.next(), Some(Token { kind: Kind::GroupEnd, value: String::from(")") }));
}

#[test]
fn it_accepts_std_output() {
    let text = "print(x+y);";
    let mut tokens = Tokenizer::new(String::from(text));
    assert_eq!(tokens.next(), Some(Token { kind: Kind::StdOut, value: String::from("print") }));
    assert_eq!(tokens.next(), Some(Token { kind: Kind::GroupBegin, value: String::from("(") }));
    assert_eq!(tokens.next(), Some(Token { kind: Kind::ID, value: String::from("x") }));
    assert_eq!(tokens.next(), Some(Token { kind: Kind::Operator, value: String::from("+") }));
    assert_eq!(tokens.next(), Some(Token { kind: Kind::ID, value: String::from("y") }));
    assert_eq!(tokens.next(), Some(Token { kind: Kind::GroupEnd, value: String::from(")") }));
}

#[test]
fn scanner_reads_symbols_and_keywords() {
    let mut tokens = Tokenizer::new(String::from("mut y=x+5;fun g=[]{}"));
    let expected = vec![
        (Kind::MutableDefine, "mut"),
        (Kind::ID, "y"),
        (Kind::Assign, "="),
        (Kind::ID, "x"),
        (Kind::Operator, "+"),
        (Kind::Integer, "5"),
        (Kind::StatementEnd, ";"),
        (Kind::FunctionDefine, "fun"),
        (Kind::ID, "g"),
        (Kind::Assign, "="),
        (Kind::FunctionParamBegin, "["),
        (Kind::FunctionParamEnd, "]"),
        (Kind::Begin, "{"),
        (Kind::End, "}"),
    ];
    for (kind, text) in expected {
        assert_eq!(tokens.next(), Some(Token::build(kind, String::from(text))));
    }
    assert_eq!(tokens.next(), None);
}

#[test]
fn scanner_marks_unknown_characters() {
    let mut tokens = Tokenizer::new(String::from("a $ ! &"));
    assert_eq!(tokens.next(), Some(Token::build(Kind::ID, String::from("a"))));
    assert_eq!(tokens.next(), Some(Token::build(Kind::Unknown, String::from("$"))));
    assert_eq!(tokens.next(), Some(Token::build(Kind::Unknown, String::from("!"))));
    assert_eq!(tokens.next(), Some(Token::build(Kind::Unknown, String::from("&"))));
    assert_eq!(tokens.next(), None);
}

#[test]
fn classify_and_reserved() {
    assert_eq!(Kind::classify(&Some(';')), Kind::StatementEnd);
    assert_eq!(Kind::classify(&Some('7')), Kind::Integer);
    assert_eq!(Kind::classify(&Some('q')), Kind::Alphanum);
    assert_eq!(Kind::classify(&Some(' ')), Kind::Space);
    assert_eq!(Kind::classify(&Some('#')), Kind::Unknown);
    assert_eq!(Kind::classify(&None), Kind::EOF);
    assert_eq!(Kind::reserved(&String::from("while")), Some(Kind::While));
    assert_eq!(Kind::reserved(&String::from("imut")), Some(Kind::ImmutableDefine));
    assert_eq!(Kind::reserved(&String::from("&&")), Some(Kind::Comparison));
    assert_eq!(Kind::reserved(&String::from("whale")), None);
}

#[test]
fn lookahead_operations() {
    let mut tokens = Tokenizer::new(String::from("x y"));
    assert_eq!(tokens.current(), Some('x'));
    assert_eq!(tokens.peek(0), Some(Token::build(Kind::ID, String::from("x"))));
    assert_eq!(tokens.get(), None);
    tokens.advance();
    assert_eq!(tokens.get(), Some(Token::build(Kind::ID, String::from("x"))));
    assert_eq!(tokens.consume(Kind::ID), Ok(Token::build(Kind::ID, String::from("x"))));
    tokens.advance();
    assert!(tokens.consume(Kind::Begin).is_err());
    assert!(tokens.consume(Kind::ID).is_err());
}
