use lsystem::expression::{ArithmeticExpression, BooleanExpression};
use lsystem::environment::Environment;
use lsystem::grammar;
use lsystem::modules::ModuleAnnotation;
use lsystem::value::{Value, SCALE};

#[test]
fn modules_with_values_parse() {
    let ms = grammar::module_string("A(1,2)B").unwrap();
    assert_eq!(ms.len(), 2);
    assert_eq!(ms[0].identifier, 'A');
    assert_eq!(ms[0].parameter_values.len(), 2);
    assert_eq!(ms[0].parameter_values[0].units(), SCALE);
    assert_eq!(ms[0].parameter_values[1].units(), 2 * SCALE);
    assert_eq!(ms[1].identifier, 'B');
    assert!(ms[1].parameter_values.is_empty());
}

#[test]
fn annotated_modules_parse() {
    let m = grammar::module("~P(2)").unwrap();
    assert_eq!(m.identifier, 'P');
    assert!(matches!(m.annotation, Some(ModuleAnnotation::CreatePatch)));
    assert_eq!(m.parameter_values[0].units(), 2 * SCALE);
}

#[test]
fn negative_and_fractional_literals_parse() {
    let m = grammar::module("A(-2,0.25,1.2345678)").unwrap();
    assert!(m.parameter_values[0].is_negative());
    assert_eq!(m.parameter_values[0].units(), 2 * SCALE);
    assert_eq!(m.parameter_values[1].units(), 250_000);
    // Digits past the sixth decimal place are dropped.
    assert_eq!(m.parameter_values[2].units(), 1_234_567);
}

#[test]
fn malformed_module_strings_do_not_parse() {
    assert!(grammar::module_string("A(").is_none());
    assert!(grammar::module_string("A(1").is_none());
    assert!(grammar::module_string(" ").is_none());
    assert!(grammar::module_string("").unwrap().is_empty());
}

#[test]
fn whitespace_separates_modules() {
    let ms = grammar::module_string("F + F").unwrap();
    assert_eq!(ms.len(), 3);
    assert_eq!(ms[0].identifier, 'F');
    assert_eq!(ms[1].identifier, '+');
    assert_eq!(ms[2].identifier, 'F');
}

#[test]
fn plain_rules_are_deterministic() {
    let r = grammar::lsystem_rule("A -> AB").unwrap();
    assert_eq!(r.pattern.match_center.identifier, 'A');
    assert!(r.pattern.match_left.is_none());
    assert!(r.pattern.match_right.is_none());
    assert_eq!(r.right_side.len(), 2);
    assert_eq!(r.right_side[0].identifier, 'A');
    assert_eq!(r.right_side[1].identifier, 'B');
    assert!(r.is_deterministic());
}

#[test]
fn probability_suffix_parses() {
    let r = grammar::lsystem_rule("A : 0.5 -> B").unwrap();
    assert!(!r.is_deterministic());
    assert_eq!(r.probability.units(), 500_000);
    assert!(matches!(r.pattern.condition, BooleanExpression::Const(true)));
}

#[test]
fn condition_and_probability_both_parse() {
    let r = grammar::lsystem_rule("A(x) : x < 5 : 2 -> A(x+1)").unwrap();
    assert!(!r.is_deterministic());
    assert_eq!(r.probability.units(), 2 * SCALE);
    assert!(matches!(r.pattern.condition, BooleanExpression::Lth(_, _)));
    assert_eq!(r.pattern.match_center.parameters, vec!['x']);
    assert_eq!(r.right_side[0].parameter_expressions.len(), 1);
}

#[test]
fn star_condition_keeps_rule_deterministic() {
    let r = grammar::lsystem_rule("A(x) : * -> B(x)").unwrap();
    assert!(r.is_deterministic());
    assert!(matches!(r.pattern.condition, BooleanExpression::Const(true)));
}

#[test]
fn context_patterns_parse() {
    let r = grammar::lsystem_rule("A < B > C -> D").unwrap();
    assert_eq!(r.pattern.match_left.as_ref().unwrap().identifier, 'A');
    assert_eq!(r.pattern.match_center.identifier, 'B');
    assert_eq!(r.pattern.match_right.as_ref().unwrap().identifier, 'C');
}

#[test]
fn rule_lists_split_on_newlines() {
    let rs = grammar::rule_list("A -> B\nB -> A\n").unwrap();
    assert_eq!(rs.len(), 2);
    assert_eq!(rs[0].pattern.match_center.identifier, 'A');
    assert_eq!(rs[1].pattern.match_center.identifier, 'B');

    let empty = grammar::rule_list("").unwrap();
    assert!(empty.is_empty());
}

#[test]
fn two_rules_on_one_line_do_not_parse() {
    assert!(grammar::rule_list("A -> B C -> D").is_none());
}

#[test]
fn boolean_expressions_evaluate() {
    let mut env = Environment::new();
    env.define_parameter('x', Value::from_int(3)).unwrap();

    let guard = grammar::boolean_expr("x < 5 && x >= 2").unwrap();
    assert_eq!(guard.eval(&env), Ok(true));

    let guard2 = grammar::boolean_expr("x == 3 || false").unwrap();
    assert_eq!(guard2.eval(&env), Ok(true));

    let guard3 = grammar::boolean_expr("!(x <= 2)").unwrap();
    assert_eq!(guard3.eval(&env), Ok(true));

    assert!(grammar::boolean_expr("0.5").is_none());
}

#[test]
fn templates_evaluate_arithmetic() {
    let t = grammar::template("A((x+1)*2^3)").unwrap();
    assert_eq!(t.identifier, 'A');
    assert!(matches!(t.parameter_expressions[0], ArithmeticExpression::Mul(_, _)));

    let mut env = Environment::new();
    env.define_parameter('x', Value::from_int(2)).unwrap();
    let m = t.instantiate(&env).unwrap();
    assert_eq!(m.parameter_values[0].units(), 24 * SCALE);
}
