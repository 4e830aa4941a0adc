use rascal::cli::{Args, Command};
use rascal::repl::Repl;

fn eval(source: &str) -> String {
    rascal::eval(String::from(source))
}

#[test]
fn end_to_end_examples() {
    assert_eq!(eval("5+1"), "6");
    assert_eq!(eval("10+5*4"), "30");
    assert_eq!(eval("begin mut x=10; mut y=x+5; return y+5 end"), "20");
    assert_eq!(eval("begin fn add=[x,y]{return x+y}; add(2,3) end"), "5");
    assert_eq!(eval("true == false"), "false");
    assert!(eval("begin let y=0; y=1; return y end").contains("imutable y was reassigned"));
}

#[test]
fn redeclaring_in_one_scope_faults() {
    assert_eq!(eval("mut x = 1; mut x = 2"), "Value error: variable x has already defined.");
    assert_eq!(eval("let x = 1; mut x = 2"), "Value error: variable x has already defined.");
    assert_eq!(eval("mut x = 1; let x = 2"), "Value error: variable x has already defined.");
    assert_eq!(eval("fn f = [] { 1 }; fn f = [] { 2 }"), "Value error: variable f has already defined.");
}

#[test]
fn reassignment_faults() {
    assert_eq!(eval("let x = 1; x = 2"), "Value error: imutable x was reassigned.");
    assert_eq!(eval("x = 2"), "Value error: variable x used before declared.");
}

#[test]
fn nested_block_mutation_is_visible() {
    assert_eq!(eval("mut y=0; begin y=1 end; return y"), "1");
}

#[test]
fn nested_block_declaration_is_not_visible() {
    assert_eq!(eval("begin mut z = 3 end; return z"), "Variable z doesn't exist in this context");
}

#[test]
fn calls_see_the_callers_scope() {
    assert_eq!(eval("mut y = 1; fn f = [] { return y }; y = 2; f()"), "2");
}

#[test]
fn while_counts_up() {
    assert_eq!(eval("mut y = 0; while y<4 begin y=y+1 end; y"), "4");
}

#[test]
fn arithmetic_faults() {
    assert_eq!(eval("1/0"), "Operation error: division by zero");
    assert_eq!(eval("1%0"), "Operation error: division by zero");
    assert_eq!(eval("true + 1"), "Operation error: invalid operands for +");
    assert_eq!(eval("2147483647 + 1"), "Operation error: integer overflow at +");
    assert_eq!(eval("-7 / 2"), "-3");
    assert_eq!(eval("-7 % 2"), "-1");
    assert_eq!(eval("7 % -2"), "1");
}

#[test]
fn comparison_coerces_booleans() {
    assert_eq!(eval("true == 1"), "true");
    assert_eq!(eval("false < true"), "true");
    assert_eq!(eval("2 and true"), "false");
    assert_eq!(eval("1 && true"), "true");
}

#[test]
fn calling_what_is_no_function_faults() {
    assert_eq!(eval("mut f = 1; f()"), "Value error: f is not callable");
}

#[test]
fn scanner_and_parser_faults_are_reported() {
    assert_eq!(eval("1 # 2"), "Lexer error: invalid character # at position 1");
    assert_eq!(eval("(1"), "Sintax error: unexpected end of file at position 2");
}

#[test]
fn empty_program_yields_nothing() {
    assert_eq!(eval(""), "");
    assert_eq!(eval("mut x"), "");
}

#[test]
fn repl_keeps_declarations() {
    let mut repl = Repl::new();
    assert_eq!(repl.eval(String::from("mut x = 2")), "2");
    assert_eq!(repl.eval(String::from("x = x * 21")), "");
    assert_eq!(repl.eval(String::from("print x; x")), "42");
    assert_eq!(repl.eval(String::from("y")), "Variable y doesn't exist in this context");
    assert_eq!(repl.eval(String::from("x")), "42");
    assert_eq!(repl.output(), &vec![String::from("42")]);
}

#[test]
fn command_line_choices() {
    let args = Args { arg_source: vec![String::from("a.rl")], flag_r: false, flag_h: false, flag_v: false };
    assert_eq!(args.command(), Command::Run(String::from("a.rl")));
    let args = Args { arg_source: vec![], flag_r: true, flag_h: false, flag_v: true };
    assert_eq!(args.command(), Command::Version);
    let args = Args { arg_source: vec![], flag_r: true, flag_h: false, flag_v: false };
    assert_eq!(args.command(), Command::Repl);
    let args = Args { arg_source: vec![], flag_r: false, flag_h: false, flag_v: false };
    assert_eq!(args.command(), Command::Help);
}
