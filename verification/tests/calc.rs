use gosub::calc::{parse, strip_wrapper, tokenize, CalcNode, Token, Unit};
use gosub::css_value::Number;

/// Evaluates a parsed expression against a basis, in `f32` as the layouter does.
fn eval(node: &CalcNode, basis: f32) -> f32 {
    let value = |n: &Number| n.text.parse::<f32>().unwrap();
    match node {
        CalcNode::Length(v, factor) => value(v) * (*factor as f32),
        CalcNode::Percent(v) => (value(v) / 100.0) * basis,
        CalcNode::Number(v) => value(v),
        CalcNode::Add(l, r) => eval(l, basis) + eval(r, basis),
        CalcNode::Sub(l, r) => eval(l, basis) - eval(r, basis),
        CalcNode::Mul(l, r) => eval(l, basis) * eval(r, basis),
        CalcNode::Div(l, r) => {
            let rhs = eval(r, basis);
            if rhs == 0.0 {
                0.0
            } else {
                eval(l, basis) / rhs
            }
        }
    }
}

fn r(input: &str, basis: f32) -> f32 {
    eval(&parse(input).expect("parse failed").0, basis)
}

fn num(t: &str) -> Number {
    Number { text: t.to_string() }
}

#[test]
fn plain_length() {
    assert_eq!(r("calc(10px)", 100.0), 10.0);
}

#[test]
fn addition() {
    assert_eq!(r("calc(10px + 20px)", 0.0), 30.0);
}

#[test]
fn percentage_against_basis() {
    assert_eq!(r("calc(50%)", 200.0), 100.0);
}

#[test]
fn mixed_percentage_and_length() {
    assert_eq!(r("calc(50% - 10px)", 200.0), 90.0);
}

#[test]
fn precedence() {
    // 10px + 2 * 5px = 20px
    assert_eq!(r("calc(10px + 2 * 5px)", 0.0), 20.0);
}

#[test]
fn parentheses() {
    // (10px + 2) * 5px = 12 * 5 = 60
    assert_eq!(r("calc((10px + 2) * 5px)", 0.0), 60.0);
}

#[test]
fn body_without_wrapper() {
    // We accept the body alone as well.
    assert_eq!(r("10px + 20px", 0.0), 30.0);
}

#[test]
fn em_and_rem_are_sixteen_pixels() {
    let e = parse("calc(2em)").unwrap();
    assert_eq!(e.0, CalcNode::Length(num("2"), 16));
    assert_eq!(r("calc(1rem + 1px)", 0.0), 17.0);
}

#[test]
fn unary_minus_is_zero_minus() {
    let e = parse("-3").unwrap();
    assert_eq!(e.0, CalcNode::Sub(Box::new(CalcNode::Number(num("0"))), Box::new(CalcNode::Number(num("3")))));
}

#[test]
fn subtraction_associates_to_the_left() {
    // (10 - 4) - 3, not 10 - (4 - 3)
    assert_eq!(r("10 - 4 - 3", 0.0), 3.0);
    assert_eq!(r("24 / 4 / 2", 0.0), 3.0);
}

#[test]
fn division_by_zero_gives_zero() {
    assert_eq!(r("calc(10px / 0)", 0.0), 0.0);
}

#[test]
fn rejected_expressions() {
    assert!(parse("calc(10px +)").is_none());
    assert!(parse("calc((10px)").is_none());
    assert!(parse("calc(10px 20px)").is_none());
    assert!(parse("").is_none());
    assert!(parse("*").is_none());
}

#[test]
fn a_broken_number_ends_the_tokens() {
    // Everything from the number that does not read as a float on is ignored.
    assert_eq!(r("calc(10px 1.2.3 4)", 0.0), 10.0);
    assert!(parse("calc(1.2.3)").is_none());
}

#[test]
fn wrapper_is_stripped() {
    assert_eq!(strip_wrapper("  calc( 1px )  "), vec!['1', 'p', 'x']);
    assert_eq!(strip_wrapper("CALC(2)"), vec!['2']);
    assert_eq!(strip_wrapper("Calc(2)"), vec!['C', 'a', 'l', 'c', '(', '2', ')']);
    assert_eq!(strip_wrapper("(1 + 2)"), vec!['(', '1', ' ', '+', ' ', '2', ')']);
    assert_eq!(strip_wrapper("calc(1 + 2"), vec!['1', ' ', '+', ' ', '2']);
}

#[test]
fn tokens_of_a_body() {
    let ts = tokenize("1.5px*(2% - .5)x");
    assert_eq!(
        ts,
        vec![
            Token::Number(num("1.5"), Unit::Px),
            Token::Star,
            Token::LParen,
            Token::Number(num("2"), Unit::Percent),
            Token::Minus,
            Token::Number(num(".5"), Unit::Unitless),
            Token::RParen,
        ]
    );
    assert_eq!(tokenize("3PX"), vec![Token::Number(num("3"), Unit::Other)]);
}

#[test]
fn a_parenthesised_body_without_the_wrapper_is_parsed() {
    assert_eq!(r("(10px + 20px)", 0.0), 30.0);
    assert_eq!(r("calc((10px + 20px))", 0.0), 30.0);
}

#[test]
fn an_unknown_unit_is_a_plain_number() {
    assert_eq!(parse("calc(10vw)").unwrap().0, CalcNode::Number(num("10")));
    assert_eq!(r("calc(2vw * 3px)", 0.0), 6.0);
}
