use lsystem::errors::EngineError;
use lsystem::interpretation::{DrawingCommand, TurtleCommand};
use lsystem::random::RandomSource;
use lsystem::util::{Weighted, WeightedChoice};
use lsystem::value::{Value, SCALE};
use lsystem::LSystem;

fn identifiers(system: &LSystem) -> String {
    system.iteration_engine.module_string.iter().map(|m| m.identifier).collect()
}

#[test]
fn depth_zero_returns_the_initial_string() {
    let mut system = LSystem::new();
    system.parse("A(1)B", "A(x) -> A(x+1)");
    system.set_iteration_depth(0);
    system.iterate().unwrap();
    assert_eq!(identifiers(&system), "AB");
    assert_eq!(
        system.iteration_engine.module_string[0].parameter_values[0].units(),
        SCALE
    );
}

#[test]
fn unmatched_modules_are_copied_unchanged() {
    let mut system = LSystem::new();
    system.parse("X(7)", "A -> B");
    system.set_iteration_depth(4);
    system.iterate().unwrap();
    assert_eq!(identifiers(&system), "X");
    assert_eq!(
        system.iteration_engine.module_string[0].parameter_values[0].units(),
        7 * SCALE
    );
}

#[test]
fn simple_substitution_grows_as_expected() {
    let mut system = LSystem::new();
    system.parse("A", "A -> AB");
    system.set_iteration_depth(1);
    system.iterate().unwrap();
    assert_eq!(identifiers(&system), "AB");

    system.set_iteration_depth(3);
    system.iterate().unwrap();
    assert_eq!(identifiers(&system), "ABBB");
}

#[test]
fn parameters_propagate_through_generations() {
    let mut system = LSystem::new();
    system.parse("A(0)", "A(x) -> A(x+1)");
    system.set_iteration_depth(5);
    system.iterate().unwrap();
    assert_eq!(identifiers(&system), "A");
    assert_eq!(
        system.iteration_engine.module_string[0].parameter_values[0].units(),
        5 * SCALE
    );
}

#[test]
fn guard_conditions_gate_rules() {
    let mut system = LSystem::new();
    system.parse("A(0)", "A(x) : x < 5 -> A(x+1)\nA(x) : * -> B(x)");
    system.set_iteration_depth(8);
    system.iterate().unwrap();
    assert_eq!(identifiers(&system), "B");
    assert_eq!(
        system.iteration_engine.module_string[0].parameter_values[0].units(),
        5 * SCALE
    );
}

#[test]
fn context_sensitive_rules_need_both_neighbors() {
    let mut system = LSystem::new();
    system.parse("ABC", "A < B > C -> D");
    system.set_iteration_depth(1);
    system.iterate().unwrap();
    assert_eq!(identifiers(&system), "ADC");

    let mut other = LSystem::new();
    other.parse("XBC", "A < B > C -> D");
    other.set_iteration_depth(1);
    other.iterate().unwrap();
    assert_eq!(identifiers(&other), "XBC");

    // A boundary never satisfies a context requirement.
    let mut edge = LSystem::new();
    edge.parse("BC", "A < B > C -> D");
    edge.set_iteration_depth(1);
    edge.iterate().unwrap();
    assert_eq!(identifiers(&edge), "BC");
}

#[test]
fn fixed_seeds_reproduce_runs_exactly() {
    let rules = "A : 1 -> AA\nA : 3 -> AB\nB -> A";
    let mut first = LSystem::new();
    first.parse("A", rules);
    first.set_iteration_depth(6);
    first.iteration_engine.set_seed(42);
    first.iterate().unwrap();

    let mut second = LSystem::new();
    second.parse("A", rules);
    second.set_iteration_depth(6);
    second.iteration_engine.set_seed(42);
    second.iterate().unwrap();

    assert_eq!(identifiers(&first), identifiers(&second));
}

#[test]
fn deterministic_rules_beat_probabilistic_ones() {
    for seed in [1u64, 7, 99, 1234, 987654321] {
        let mut system = LSystem::new();
        system.parse("A", "A : 0.5 -> B\nA -> C\nA : 0.5 -> D");
        system.set_iteration_depth(1);
        system.iteration_engine.set_seed(seed);
        system.iterate().unwrap();
        assert_eq!(identifiers(&system), "C");
    }
}

#[test]
fn weighted_sampling_follows_the_weights() {
    let items = vec![
        Weighted { weight: Value::from_int(1), item: 1usize },
        Weighted { weight: Value::from_int(3), item: 2usize },
    ];
    let choice = WeightedChoice::new(items).unwrap();
    let mut source = RandomSource::from_seed(2024);
    let mut second_count: usize = 0;
    for _ in 0..10_000 {
        if *choice.sample(&mut source) == 2 {
            second_count += 1;
        }
    }
    // The second item carries three quarters of the weight.
    assert!(second_count > 7200, "second item drawn {second_count} times");
    assert!(second_count < 7800, "second item drawn {second_count} times");
}

#[test]
fn degenerate_weights_are_rejected() {
    let none: Vec<Weighted<u8>> = Vec::new();
    assert_eq!(
        WeightedChoice::new(none).err(),
        Some(EngineError::NonPositiveTotalWeight)
    );

    let zeros = vec![Weighted { weight: Value::zero(), item: 0u8 }];
    assert_eq!(
        WeightedChoice::new(zeros).err(),
        Some(EngineError::NonPositiveTotalWeight)
    );

    let negative = vec![Weighted { weight: Value::from_int(-1), item: 0u8 }];
    assert_eq!(
        WeightedChoice::new(negative).err(),
        Some(EngineError::NegativeWeight)
    );
}

#[test]
fn seeded_sources_emit_identical_words() {
    let mut a = RandomSource::from_seed(5);
    let mut b = RandomSource::from_seed(5);
    let mut c = RandomSource::from_seed(6);
    let mut all_equal = true;
    let mut any_difference = false;
    for _ in 0..64 {
        let wa = a.next_word();
        let wb = b.next_word();
        let wc = c.next_word();
        if wa != wb {
            all_equal = false;
        }
        if wa != wc {
            any_difference = true;
        }
    }
    assert!(all_equal);
    assert!(any_difference);
}

#[test]
fn zero_total_weight_is_a_fatal_configuration() {
    let mut system = LSystem::new();
    system.parse("A", "A : 0 -> B");
    system.set_iteration_depth(1);
    assert_eq!(system.iterate(), Err(EngineError::NonPositiveTotalWeight));
    // The module string is left as it was.
    assert_eq!(identifiers(&system), "");
}

#[test]
fn unbound_parameters_are_reported() {
    let mut system = LSystem::new();
    system.parse("A", "A -> B(x)");
    system.set_iteration_depth(1);
    assert_eq!(system.iterate(), Err(EngineError::UnboundParameter('x')));
}

#[test]
fn contradictory_bindings_are_reported() {
    let mut system = LSystem::new();
    system.parse("B(1)A(2)", "B(x) < A(x) -> C");
    system.set_iteration_depth(1);
    assert_eq!(system.iterate(), Err(EngineError::ParameterRedefinition('x')));
}

#[test]
fn division_by_zero_is_reported() {
    let mut system = LSystem::new();
    system.parse("A(1)", "A(x) -> A(x/0)");
    system.set_iteration_depth(1);
    assert_eq!(system.iterate(), Err(EngineError::DivisionByZero));
}

#[test]
fn fractional_exponents_are_reported() {
    let mut system = LSystem::new();
    system.parse("A(1)", "A(x) -> A(2^0.5)");
    system.set_iteration_depth(1);
    assert_eq!(system.iterate(), Err(EngineError::FractionalExponent));
}

#[test]
fn arithmetic_overflow_is_reported() {
    let mut system = LSystem::new();
    system.parse("A(1000000)", "A(x) -> A(x*x)");
    system.set_iteration_depth(3);
    assert_eq!(system.iterate(), Err(EngineError::ArithmeticOverflow));
}

#[test]
fn malformed_input_leaves_nothing_to_rewrite() {
    let mut system = LSystem::new();
    system.parse("A(", "junk -> -> junk");
    system.set_iteration_depth(3);
    system.iterate().unwrap();
    assert!(system.iteration_engine.module_string.is_empty());
}

#[test]
fn interpretation_maps_identifiers_to_commands() {
    let mut system = LSystem::new();
    system.parse("F(2) + F ~P(3) Q", "");
    system.set_iteration_depth(0);
    system.iterate().unwrap();
    system.interpretation_engine.associate('F', TurtleCommand::Forward);
    system.interpretation_engine.associate('+', TurtleCommand::TurnLeft);
    system.interpret().unwrap();

    assert_eq!(system.commands.len(), 4);
    match &system.commands[0] {
        DrawingCommand::BasicCommand { operation, parameter } => {
            assert_eq!(*operation, TurtleCommand::Forward);
            assert_eq!(parameter.unwrap().units(), 2 * SCALE);
        },
        _ => panic!("expected a basic command"),
    }
    match &system.commands[1] {
        DrawingCommand::BasicCommand { operation, parameter } => {
            assert_eq!(*operation, TurtleCommand::TurnLeft);
            assert!(parameter.is_none());
        },
        _ => panic!("expected a basic command"),
    }
    match &system.commands[3] {
        DrawingCommand::SpawnPatch { patch_id, scaling } => {
            assert_eq!(*patch_id, 'P');
            assert_eq!(scaling.units(), 3 * SCALE);
        },
        _ => panic!("expected a patch command"),
    }
}

#[test]
fn later_associations_replace_earlier_ones() {
    let mut system = LSystem::new();
    system.parse("F", "");
    system.iterate().unwrap();
    system.interpretation_engine.associate('F', TurtleCommand::Forward);
    system.interpretation_engine.associate('F', TurtleCommand::ForwardNoDraw);
    system.interpret().unwrap();
    match &system.commands[0] {
        DrawingCommand::BasicCommand { operation, .. } => {
            assert_eq!(*operation, TurtleCommand::ForwardNoDraw);
        },
        _ => panic!("expected a basic command"),
    }

    system.interpretation_engine.clear();
    system.interpret().unwrap();
    assert!(system.commands.is_empty());
}

#[test]
fn extra_module_parameters_fail_interpretation() {
    let mut system = LSystem::new();
    system.parse("F(1,2)", "");
    system.iterate().unwrap();
    system.interpretation_engine.associate('F', TurtleCommand::Forward);
    assert_eq!(system.interpret(), Err(EngineError::TooManyParameters('F')));
}
