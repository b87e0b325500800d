use fern::error::{ShErr, ShErrKind};
use fern::expand::arithmetic::{
    eval_rpn, expand_arith_string, expand_arith_token, finish_arith_token, shunting_yard,
    tokenize_expr, Calc, ExprToken, Num, Op, RpnEval,
};
use fern::lex::{Tk, TkRule};
use fern::shellenv::ShEnv;

fn apply(op: Op, lhs: f64, rhs: f64) -> f64 {
    match op {
        Op::Add => lhs + rhs,
        Op::Sub => lhs - rhs,
        Op::Mul => lhs * rhs,
        Op::Mod => lhs % rhs,
        Op::Pow => lhs.powf(rhs),
        Op::Div => lhs / rhs,
        Op::IntDiv => (lhs as i64 / rhs as i64) as f64,
    }
}

fn run(mut eval: RpnEval) -> Result<f64, ShErr> {
    let mut answer = None;
    loop {
        match eval_rpn(&mut eval, answer) {
            Calc::Literal { digits } => {
                answer = Some(Num { bits: digits.parse::<f64>().unwrap().to_bits() });
            }
            Calc::Binary { op, lhs, rhs } => {
                let value = apply(op, f64::from_bits(lhs.bits), f64::from_bits(rhs.bits));
                answer = Some(Num { bits: value.to_bits() });
            }
            Calc::Done(Ok(n)) => return Ok(f64::from_bits(n.bits)),
            Calc::Done(Err(e)) => return Err(e),
        }
    }
}

fn evaluate(expr: &str) -> Result<f64, ShErr> {
    let env = ShEnv::new();
    run(expand_arith_string(expr, &env)?)
}

fn kinds(tokens: &[ExprToken]) -> Vec<String> {
    let mut out = Vec::new();
    for t in tokens {
        out.push(match t {
            ExprToken::Number(d) => d.clone(),
            ExprToken::Operator(Op::Add) => "+".to_string(),
            ExprToken::Operator(Op::Sub) => "-".to_string(),
            ExprToken::Operator(Op::Mul) => "*".to_string(),
            ExprToken::Operator(Op::Div) => "/".to_string(),
            ExprToken::Operator(Op::IntDiv) => "//".to_string(),
            ExprToken::Operator(Op::Mod) => "%".to_string(),
            ExprToken::Operator(Op::Pow) => "**".to_string(),
            ExprToken::OpenParen => "(".to_string(),
            ExprToken::CloseParen => ")".to_string(),
        });
    }
    out
}

#[test]
fn precedence_orders_the_operators() {
    assert_eq!(Op::Add.precedence(), 1);
    assert_eq!(Op::Sub.precedence(), 1);
    assert_eq!(Op::Mul.precedence(), 2);
    assert_eq!(Op::Div.precedence(), 2);
    assert_eq!(Op::IntDiv.precedence(), 2);
    assert_eq!(Op::Mod.precedence(), 2);
    assert_eq!(Op::Pow.precedence(), 3);
}

#[test]
fn only_power_groups_from_the_right() {
    assert!(Op::Add.is_left_associative());
    assert!(Op::IntDiv.is_left_associative());
    assert!(!Op::Pow.is_left_associative());
}

#[test]
fn tokenizer_reads_numbers_and_operators() {
    let tokens = tokenize_expr("12+3 ** 4//5\t% (6 / 7) - 8 * 9").unwrap();
    assert_eq!(
        kinds(&tokens),
        vec![
            "12", "+", "3", "**", "4", "//", "5", "%", "(", "6", "/", "7", ")", "-", "8", "*", "9"
        ]
    );
}

#[test]
fn tokenizer_names_the_offending_character() {
    let err = tokenize_expr("1 + x").unwrap_err();
    assert_eq!(err.kind, ShErrKind::ParseErr);
    assert_eq!(err.msg, "Unexpected character in arithmetic expansion: x");
    assert!(err.span.is_none());
}

#[test]
fn tokenizer_of_nothing_gives_nothing() {
    assert!(tokenize_expr("  \t").unwrap().is_empty());
}

#[test]
fn postfix_order_follows_precedence() {
    let sorted = shunting_yard(tokenize_expr("2 + 3 * 4").unwrap()).unwrap();
    assert_eq!(kinds(&sorted), vec!["2", "3", "4", "*", "+"]);
}

#[test]
fn postfix_order_groups_equal_operators_from_the_left() {
    let sorted = shunting_yard(tokenize_expr("8 - 3 - 2").unwrap()).unwrap();
    assert_eq!(kinds(&sorted), vec!["8", "3", "-", "2", "-"]);
}

#[test]
fn postfix_order_groups_powers_from_the_right() {
    let sorted = shunting_yard(tokenize_expr("2 ** 3 ** 2").unwrap()).unwrap();
    assert_eq!(kinds(&sorted), vec!["2", "3", "2", "**", "**"]);
}

#[test]
fn parentheses_bound_the_popping() {
    let sorted = shunting_yard(tokenize_expr("(2 + 3) * 4").unwrap()).unwrap();
    assert_eq!(kinds(&sorted), vec!["2", "3", "+", "4", "*"]);
}

#[test]
fn open_parenthesis_left_at_the_end_is_an_error() {
    let err = shunting_yard(tokenize_expr("(2 + 3").unwrap()).unwrap_err();
    assert_eq!(err.kind, ShErrKind::ParseErr);
    assert_eq!(err.msg, "Mismatched parenthesis in arithmetic expansion");
}

#[test]
fn closing_parenthesis_without_opening_one_is_let_pass() {
    let sorted = shunting_yard(tokenize_expr("2 + 3)").unwrap()).unwrap();
    assert_eq!(kinds(&sorted), vec!["2", "3", "+"]);
}

#[test]
fn sum_and_product_evaluate_to_fourteen() {
    assert_eq!(evaluate("2 + 3 * 4").unwrap(), 14.0);
    assert_eq!(evaluate("2 + 3 * 4").unwrap().to_string(), "14");
}

#[test]
fn integer_division_truncates() {
    assert_eq!(evaluate("7 // 2").unwrap(), 3.0);
}

#[test]
fn division_keeps_the_fraction() {
    assert_eq!(evaluate("7 / 2").unwrap(), 3.5);
}

#[test]
fn power_and_remainder() {
    assert_eq!(evaluate("2 ** 3 ** 2").unwrap(), 512.0);
    assert_eq!(evaluate("7 % 4").unwrap(), 3.0);
}

#[test]
fn division_by_zero_is_an_error() {
    let err = evaluate("5 / 0").unwrap_err();
    assert_eq!(err.kind, ShErrKind::ParseErr);
    assert_eq!(err.msg, "Attempt to divide by zero in arithmetic expansion");
    let err = evaluate("5 // 0").unwrap_err();
    assert_eq!(err.msg, "Attempt to divide by zero in arithmetic expansion");
    let err = evaluate("5 / (0 * 3 - 0)").unwrap_err();
    assert_eq!(err.msg, "Attempt to divide by zero in arithmetic expansion");
}

#[test]
fn remainder_by_zero_is_no_error() {
    assert!(evaluate("5 % 0").unwrap().is_nan());
}

#[test]
fn operator_without_operands_is_an_error() {
    let err = evaluate("2 +").unwrap_err();
    assert_eq!(err.kind, ShErrKind::ParseErr);
    assert_eq!(err.msg, "Not enough operands in arithmetic expansion");
    let err = evaluate("").unwrap_err();
    assert_eq!(err.msg, "Not enough operands in arithmetic expansion");
}

#[test]
fn parenthesis_in_postfix_input_is_an_error() {
    let eval = RpnEval::new(vec![ExprToken::Number("1".to_string()), ExprToken::OpenParen]);
    let err = run(eval).unwrap_err();
    assert_eq!(err.kind, ShErrKind::ParseErr);
}

#[test]
fn zero_is_zero_with_either_sign() {
    assert!(Num { bits: 0.0f64.to_bits() }.is_zero());
    assert!(Num { bits: (-0.0f64).to_bits() }.is_zero());
    assert!(!Num { bits: 1.0f64.to_bits() }.is_zero());
    assert!(!Num { bits: f64::NAN.to_bits() }.is_zero());
}

#[test]
fn variables_are_substituted_before_reading() {
    let mut env = ShEnv::new();
    env.vars.set_var("N", "6");
    let eval = expand_arith_string("$N * 7", &env).unwrap();
    assert_eq!(run(eval).unwrap(), 42.0);
}

#[test]
fn backticks_around_the_expression_are_dropped() {
    let env = ShEnv::new();
    let eval = expand_arith_string("`1 + 2`", &env).unwrap();
    assert_eq!(run(eval).unwrap(), 3.0);
    let token = Tk::new(TkRule::Ident, "``4 * 5`");
    let eval = expand_arith_token(&token, &env).unwrap();
    assert_eq!(run(eval).unwrap(), 20.0);
}

#[test]
fn lone_backtick_is_an_unexpected_character() {
    let env = ShEnv::new();
    let err = expand_arith_string("`", &env).unwrap_err();
    assert_eq!(err.msg, "Unexpected character in arithmetic expansion: `");
}

#[test]
fn result_takes_the_place_of_the_token() {
    let env = ShEnv::new();
    let token = Tk::new(TkRule::Ident, "`2 + 3 * 4`");
    let value = run(expand_arith_token(&token, &env).unwrap()).unwrap();
    let done = finish_arith_token(token, &value.to_string(), &env);
    assert_eq!(done.get_words(), vec!["14".to_string()]);
    assert_eq!(done.span.text, "`2 + 3 * 4`");
}

#[test]
fn empty_result_leaves_the_token() {
    let env = ShEnv::new();
    let token = Tk::new(TkRule::Ident, "`1`");
    let done = finish_arith_token(token, "", &env);
    assert_eq!(done.get_words(), vec!["`1`".to_string()]);
}
