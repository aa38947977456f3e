use lsystem::environment::Environment;
use lsystem::errors::EngineError;
use lsystem::grammar;
use lsystem::iteration::IterationEngine;
use lsystem::modules::{Module, ModuleContext};
use lsystem::value::{Value, SCALE};

fn plain_module(identifier: char, values: &[i64]) -> Module {
    Module {
        identifier,
        parameter_values: values.iter().map(|v| Value::from_int(*v)).collect(),
        annotation: None,
    }
}

#[test]
fn module_accessors_report_shape() {
    let m = plain_module('A', &[1, 2]);
    assert!(m.has_parameters());
    assert_eq!(m.parameter_count(), 2);
    assert!(!m.has_annotation());

    let bare = plain_module('B', &[]);
    assert!(!bare.has_parameters());
    assert_eq!(bare.parameter_count(), 0);

    let copy = m.duplicate();
    assert_eq!(copy.identifier, 'A');
    assert_eq!(copy.parameter_values[1].units(), 2 * SCALE);
}

#[test]
fn signature_and_template_accessors_report_shape() {
    let r = grammar::lsystem_rule("A(x,y) -> B(x+y) C").unwrap();
    assert!(r.pattern.match_center.has_parameters());
    assert_eq!(r.pattern.match_center.parameter_count(), 2);
    assert!(r.right_side[0].has_parameters());
    assert_eq!(r.right_side[0].parameter_count(), 1);
    assert!(!r.right_side[1].has_parameters());
    assert_eq!(r.right_side[1].parameter_count(), 0);
}

#[test]
fn matching_requires_identifier_arity_and_context() {
    let r = grammar::lsystem_rule("A < B(x) > C : x > 1 -> D").unwrap();

    let full = ModuleContext::new_complete(
        plain_module('B', &[2]),
        plain_module('A', &[]),
        plain_module('C', &[]),
    );
    assert_eq!(r.pattern.does_match(&full), Ok(true));

    // The guard can reject an otherwise fitting context.
    let low = ModuleContext::new_complete(
        plain_module('B', &[0]),
        plain_module('A', &[]),
        plain_module('C', &[]),
    );
    assert_eq!(r.pattern.does_match(&low), Ok(false));

    // A missing neighbor is a non-match, not an error.
    let no_left = ModuleContext::new_with_right(plain_module('B', &[2]), plain_module('C', &[]));
    assert_eq!(r.pattern.does_match(&no_left), Ok(false));

    let no_right = ModuleContext::new_with_left(plain_module('B', &[2]), plain_module('A', &[]));
    assert_eq!(r.pattern.does_match(&no_right), Ok(false));

    // An arity mismatch on the center is a non-match as well.
    let wrong_arity = ModuleContext::new_complete(
        plain_module('B', &[2, 3]),
        plain_module('A', &[]),
        plain_module('C', &[]),
    );
    assert_eq!(r.pattern.does_match(&wrong_arity), Ok(false));

    let lone = ModuleContext::new(plain_module('B', &[2]));
    assert_eq!(r.pattern.does_match(&lone), Ok(false));
}

#[test]
fn binding_exposes_matched_values() {
    let r = grammar::lsystem_rule("L(a) < C(b) > R(c) : * -> C(a+b+c)").unwrap();
    let ctx = ModuleContext::new_complete(
        plain_module('C', &[2]),
        plain_module('L', &[1]),
        plain_module('R', &[4]),
    );
    assert_eq!(r.pattern.does_match(&ctx), Ok(true));

    let env = r.pattern.bind(&ctx);
    assert_eq!(env.get_parameter_value('a').units(), SCALE);
    assert_eq!(env.get_parameter_value('b').units(), 2 * SCALE);
    assert_eq!(env.get_parameter_value('c').units(), 4 * SCALE);

    let m = r.right_side[0].instantiate(&env).unwrap();
    assert_eq!(m.identifier, 'C');
    assert_eq!(m.parameter_values[0].units(), 7 * SCALE);
}

#[test]
fn environments_reject_redefinition() {
    let mut env = Environment::new();
    assert!(!env.has_parameter('x'));
    env.define_parameter('x', Value::from_int(1)).unwrap();
    assert!(env.has_parameter('x'));
    assert_eq!(env.get_parameter_value('x').units(), SCALE);
    assert_eq!(
        env.define_parameter('x', Value::from_int(2)),
        Err(EngineError::ParameterRedefinition('x'))
    );
    // The old binding survives the rejected redefinition.
    assert_eq!(env.get_parameter_value('x').units(), SCALE);
}

#[test]
fn engines_accept_rules_one_by_one() {
    let mut engine = IterationEngine::new();
    engine.initial = grammar::module_string("A").unwrap();
    engine.add_rule(grammar::lsystem_rule("A -> AB").unwrap());
    engine.add_rule(grammar::lsystem_rule("B -> A").unwrap());
    engine.set_iteration_depth(4);
    engine.set_seed(9);
    engine.iterate().unwrap();
    let ids: String = engine.module_string.iter().map(|m| m.identifier).collect();
    // One generation at a time: A, AB, ABA, ABAAB, ABAABABA.
    assert_eq!(ids, "ABAABABA");
}
