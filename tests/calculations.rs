use simple_calculator::lexer::{Lexer, Pos, Reason};
use simple_calculator::parser::{Expected, Parser};
use simple_calculator::statement::{Expression, Factor, Statement, Term};
use simple_calculator::token::{ArithOperator, Bracket, Token};
use simple_calculator::{Error, VM};

fn number(text: &[char]) -> f64 {
    text.iter().collect::<String>().parse::<f64>().unwrap()
}

fn apply(left: f64, op: ArithOperator, right: f64) -> f64 {
    match op {
        ArithOperator::Plus => left + right,
        ArithOperator::Minus => left - right,
        ArithOperator::Multiply => left * right,
        ArithOperator::Division => left / right,
        ArithOperator::Power => left.powf(right),
    }
}

fn eval_expression(e: &Expression) -> f64 {
    let right = eval_term(&e.right) * if e.negative { -1.0 } else { 1.0 };
    match &e.left {
        Some((op, l)) => apply(eval_expression(l), *op, right),
        None => right,
    }
}

fn eval_term(t: &Term) -> f64 {
    match &t.left {
        Some((op, l)) => apply(eval_term(l), *op, eval_factor(&t.right)),
        None => eval_factor(&t.right),
    }
}

fn eval_factor(f: &Factor) -> f64 {
    match f {
        Factor::Number(text) => number(text),
        Factor::Expression(e) => eval_expression(e),
        Factor::Power(b, x) => eval_factor(b).powf(eval_factor(x)),
    }
}

fn run(vm: &mut VM, line: &str) -> Result<f64, Error> {
    vm.exec_line(line).map(|s| match s {
        Statement::Expression(e) => eval_expression(&e),
    })
}

fn rendered(line: &str) -> String {
    let mut vm = VM::new(false);
    match vm.exec_line(line) {
        Ok(s) => s.render().iter().collect(),
        Err(e) => panic!("{:?}", e),
    }
}

fn evaluate(line: &str) -> f64 {
    run(&mut VM::new(false), line).unwrap()
}

fn lex_error(line: &str) -> (Reason, usize, char) {
    match Lexer::read_line(line) {
        Err(e) => (e.reason, e.location.column, e.character),
        Ok(_) => panic!("`{}` was accepted", line),
    }
}

fn parse_error(line: &str) -> Expected {
    let mut vm = VM::new(false);
    match vm.exec_line(line) {
        Err(Error::Parser(e)) => e.exp,
        _ => panic!("`{}` did not fail in the parser", line),
    }
}

#[test]
fn test_calculation() -> Result<(), Error> {
    let mut vm = VM::new(true);

    assert_eq!(run(&mut vm, "1+1")?, 2.0);
    assert_eq!(run(&mut vm, "-1+1")?, 0.0);
    assert_eq!(run(&mut vm, "9/3/3")?, 1.0);
    assert_eq!(run(&mut vm, "2^2^2/5")?, 3.2);
    assert_eq!(run(&mut vm, "(-1)+(-2)*(-3)")?, 5.0);

    Ok(())
}

#[test]
fn precedence_of_products_over_sums() {
    assert_eq!(evaluate("2+3*4"), 14.0);
    assert_eq!(evaluate("(2+3)*4"), 20.0);
    assert_eq!(rendered("2+3*4"), "(2 + (3 * 4))");
    assert_eq!(rendered("(2+3)*4"), "((2 + 3) * 4)");
}

#[test]
fn power_is_right_associative() {
    assert_eq!(evaluate("2^2^2"), 16.0);
    assert_eq!(evaluate("2^2^2/5"), 3.2);
    assert_eq!(evaluate("2^3^2"), 512.0);
    assert_eq!(rendered("2^3^2"), "(2 ^ (3 ^ 2))");
}

#[test]
fn subtraction_and_division_are_left_associative() {
    assert_eq!(evaluate("9/3/3"), 1.0);
    assert_eq!(evaluate("10-3-2"), 5.0);
    assert_eq!(rendered("9/3/3"), "((9 / 3) / 3)");
    assert_eq!(rendered("10-3-2"), "((10 - 3) - 2)");
}

#[test]
fn unary_sign_at_expression_start() {
    assert_eq!(evaluate("-1+1"), 0.0);
    assert_eq!(evaluate("(-1)+(-2)*(-3)"), 5.0);
    assert_eq!(evaluate("+4"), 4.0);
    assert_eq!(rendered("-1+1"), "((-1) + 1)");
    assert_eq!(parse_error("1*-2"), Expected::OpenOrNumber);
}

#[test]
fn malformed_numbers_are_rejected() {
    assert_eq!(lex_error("1.2.3"), (Reason::NumberRepeatPoint, 3, '.'));
    assert_eq!(lex_error("1."), (Reason::NumberEndWithNonNumeric, 1, '.'));
    assert_eq!(lex_error("1.+2"), (Reason::NumberEndWithNonNumeric, 1, '.'));
    assert_eq!(lex_error("007"), (Reason::NumberStartWithZero, 0, '0'));
    assert_eq!(lex_error("1+02"), (Reason::NumberStartWithZero, 2, '0'));
}

#[test]
fn single_zero_and_decimals_are_accepted() {
    assert_eq!(evaluate("0"), 0.0);
    assert_eq!(evaluate("0.5*4"), 2.0);
    assert_eq!(evaluate("19+90"), 109.0);
    assert_eq!(evaluate(" 1 +\t2 "), 3.0);
}

#[test]
fn unknown_characters_are_rejected() {
    assert_eq!(lex_error("1&1"), (Reason::UnexpectedCharacter, 1, '&'));
    assert_eq!(lex_error("x"), (Reason::UnexpectedCharacter, 0, 'x'));
    assert_eq!(lex_error("2(3)"), (Reason::UnexpectedCharacter, 1, '('));
    let e = Lexer::read_line("1&1").err().unwrap();
    assert_eq!(e.location, Pos { column: 1 });
    assert_eq!(e.reason.text(), "unexpected character");
}

#[test]
fn unmatched_brackets_are_rejected() {
    assert_eq!(parse_error("(1+2"), Expected::CloseBracket);
    assert_eq!(parse_error(")"), Expected::OpenOrNumber);
    assert_eq!(parse_error(""), Expected::OpenOrNumber);
    assert_eq!(parse_error("1+"), Expected::OpenOrNumber);
    let mut vm = VM::new(false);
    match vm.exec_line("(1+2") {
        Err(Error::Parser(e)) => assert_eq!(e.expected_text(), "\")\""),
        _ => panic!("unbalanced line accepted"),
    }
    match vm.exec_line(")") {
        Err(Error::Parser(e)) => assert_eq!(e.expected_text(), "\"(\" or \"Number\""),
        _ => panic!("lone bracket accepted"),
    }
}

#[test]
fn trailing_tokens_are_not_looked_at() {
    assert_eq!(evaluate("1+1)"), 2.0);
}

#[test]
fn same_line_gives_same_result() {
    let mut vm = VM::new(false);
    let first = run(&mut vm, "2^0.5*3-1").unwrap();
    let second = run(&mut vm, "2^0.5*3-1").unwrap();
    assert_eq!(first, second);
    assert_eq!(vm.history_len(), 2);
}

#[test]
fn debug_rendering_brackets_every_operation() {
    assert_eq!(rendered("1+2-3"), "((1 + 2) - 3)");
    assert_eq!(rendered("(1)"), "1");
    assert_eq!(rendered("-(2*3)"), "(-(2 * 3))");
}

#[test]
fn history_keeps_accepted_lines_only() {
    let mut vm = VM::new(true);
    assert!(vm.debug());
    vm.set_debug(false);
    assert!(!vm.debug());
    assert!(vm.exec_line("1+1").is_ok());
    assert!(vm.exec_line("1&1").is_err());
    assert!(vm.exec_line("(2").is_err());
    assert!(vm.exec_line("3").is_ok());
    assert_eq!(vm.history_len(), 2);
    assert_eq!(vm.history_line(0), "1+1");
    assert_eq!(vm.history_line(1), "3");
}

#[test]
fn tokens_keep_source_order() {
    let tokens = Lexer::read_line("(12.5 - 3)^2").ok().unwrap();
    assert_eq!(tokens.len(), 7);
    assert!(matches!(tokens[0], Token::Bracket(Bracket::Left)));
    match &tokens[1] {
        Token::Number(text) => assert_eq!(text.iter().collect::<String>(), "12.5"),
        _ => panic!("expected a number"),
    }
    assert!(matches!(tokens[2], Token::ArithOperator(ArithOperator::Minus)));
    assert!(matches!(tokens[4], Token::Bracket(Bracket::Right)));
    assert!(matches!(tokens[5], Token::ArithOperator(ArithOperator::Power)));
    assert!(Parser::read_line(tokens).is_ok());
}

#[test]
fn character_mappings_round_trip() {
    for c in ['+', '-', '*', '/', '^'] {
        assert_eq!(ArithOperator::from_char(c).to_char(), c);
    }
    assert_eq!(Bracket::from_char('(').to_char(), '(');
    assert_eq!(Bracket::from_char(')'), Bracket::Right);
}

fn text(chars: Vec<char>) -> String {
    chars.iter().collect()
}

#[test]
fn error_messages() {
    let mut vm = VM::new(false);
    let e = vm.exec_line("1&1").err().unwrap();
    assert_eq!(text(e.message()), "column 2: unexpected character `&`");
    assert_eq!(text(e.detail()), "lex error: column 2: unexpected character `&`");
    let e = vm.exec_line("12345678901.2.").err().unwrap();
    assert_eq!(text(e.message()), "column 14: repeat point in number `.`");
    let e = vm.exec_line("007").err().unwrap();
    assert_eq!(text(e.message()), "column 1: non-decimal start with zero `0`");
    let e = vm.exec_line("(1+2").err().unwrap();
    assert_eq!(text(e.message()), "expect \")\"");
    assert_eq!(text(e.detail()), "parse error expect \")\"");
    let e = vm.exec_line(")").err().unwrap();
    assert_eq!(text(e.message()), "expect \"(\" or \"Number\"");
}

#[test]
fn leading_sign_marks_only_the_first_term() {
    assert_eq!(rendered("+2*3-1"), rendered("2*3-1"));
    assert_eq!(rendered("-2*3-1"), "((-(2 * 3)) - 1)");
    assert_eq!(evaluate("-2*3-1"), -7.0);
}
