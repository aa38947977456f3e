pub mod environment;
pub mod errors;
pub mod expression;
pub mod grammar;
pub mod interpretation;
pub mod iteration;
pub mod modules;
pub mod random;
pub mod util;
pub mod value;

use vstd::prelude::*;
use crate::errors::EngineError;
use crate::grammar::{spec_module_string, spec_rule_list};
use crate::interpretation::{spec_interpret, DrawingCommand, InterpretationEngine, TurtleCommand};
use crate::iteration::{spec_derive, IterationEngine, DEFAULT_SEED};
use crate::modules::{ModuleView, RuleView};

verus! {

/// Top level structure providing the means of describing, iterating and
/// interpreting an L-system.
///
/// A caller parses an initial string and a rule set, sets the iteration
/// depth and the interpretation associations, calls `iterate`, and then
/// `interpret` to obtain the drawing commands that a geometry layer can
/// consume.
pub struct LSystem {
    /// The engine used to iterate a module string.
    pub iteration_engine: IterationEngine,
    /// The engine used to interpret a module string as drawing commands.
    pub interpretation_engine: InterpretationEngine,
    /// Drawing commands, the result of the interpretation stage.
    pub commands: Vec<DrawingCommand>,
}

impl LSystem {
    /// Create a new, empty L-system.
    pub fn new() -> (r: LSystem)
        ensures
            r.iteration_engine.initial.deep_view() == Seq::<ModuleView>::empty(),
            r.iteration_engine.module_string.deep_view() == Seq::<ModuleView>::empty(),
            r.iteration_engine.rules.deep_view() == Seq::<RuleView>::empty(),
            r.iteration_engine.iteration_depth == 0,
            r.iteration_engine.seed() == DEFAULT_SEED,
            r.iteration_engine.drawn() == 0,
            r.interpretation_engine@ == Map::<char, TurtleCommand>::empty(),
            r.commands@ == Seq::<DrawingCommand>::empty(),
    {
        LSystem {
            iteration_engine: IterationEngine::new(),
            interpretation_engine: InterpretationEngine::new(),
            commands: Vec::new(),
        }
    }

    /// Parse the given initial string and rule set. Text that does not
    /// parse as a whole yields an empty module sequence or rule set, and
    /// the engine then simply has nothing to rewrite.
    pub fn parse(&mut self, initial: &str, rules: &str)
        ensures
            final(self).iteration_engine.initial.deep_view() == match spec_module_string(
                initial@,
            ) {
                Some(ms) => ms,
                None => Seq::<ModuleView>::empty(),
            },
            final(self).iteration_engine.rules.deep_view() == match spec_rule_list(rules@) {
                Some(rs) => rs,
                None => Seq::<RuleView>::empty(),
            },
            final(self).iteration_engine.module_string.deep_view() == old(self).iteration_engine.module_string.deep_view(),
            final(self).iteration_engine.iteration_depth == old(self).iteration_engine.iteration_depth,
            final(self).iteration_engine.seed() == old(self).iteration_engine.seed(),
            final(self).iteration_engine.drawn() == old(self).iteration_engine.drawn(),
            final(self).interpretation_engine@ == old(self).interpretation_engine@,
            final(self).commands@ == old(self).commands@,
    {
        let parsed_initial: Vec<crate::modules::Module> = match crate::grammar::module_string(
            initial,
        ) {
            Some(v) => v,
            None => {
                let e: Vec<crate::modules::Module> = Vec::new();
                proof {
                    assert(e.deep_view() =~= Seq::<ModuleView>::empty());
                }
                e
            },
        };
        let parsed_rules: Vec<crate::modules::Rule> = match crate::grammar::rule_list(rules) {
            Some(v) => v,
            None => {
                let e: Vec<crate::modules::Rule> = Vec::new();
                proof {
                    assert(e.deep_view() =~= Seq::<RuleView>::empty());
                }
                e
            },
        };
        self.iteration_engine.initial = parsed_initial;
        self.iteration_engine.rules = parsed_rules;
    }

    /// Set the iteration depth.
    pub fn set_iteration_depth(&mut self, depth: u32)
        ensures
            final(self).iteration_engine.iteration_depth == depth,
            final(self).iteration_engine.initial.deep_view() == old(self).iteration_engine.initial.deep_view(),
            final(self).iteration_engine.module_string.deep_view() == old(self).iteration_engine.module_string.deep_view(),
            final(self).iteration_engine.rules.deep_view() == old(self).iteration_engine.rules.deep_view(),
            final(self).iteration_engine.seed() == old(self).iteration_engine.seed(),
            final(self).iteration_engine.drawn() == old(self).iteration_engine.drawn(),
            final(self).interpretation_engine@ == old(self).interpretation_engine@,
            final(self).commands@ == old(self).commands@,
    {
        self.iteration_engine.set_iteration_depth(depth);
    }

    /// Perform the L-system iteration: apply the rule set to the initial
    /// string for the configured number of generations.
    pub fn iterate(&mut self) -> (r: Result<(), EngineError>)
        ensures
            final(self).iteration_engine.initial.deep_view() == old(self).iteration_engine.initial.deep_view(),
            final(self).iteration_engine.rules.deep_view() == old(self).iteration_engine.rules.deep_view(),
            final(self).iteration_engine.iteration_depth == old(self).iteration_engine.iteration_depth,
            final(self).iteration_engine.seed() == old(self).iteration_engine.seed(),
            final(self).interpretation_engine@ == old(self).interpretation_engine@,
            final(self).commands@ == old(self).commands@,
            match spec_derive(
                old(self).iteration_engine.rules.deep_view(),
                old(self).iteration_engine.initial.deep_view(),
                old(self).iteration_engine.iteration_depth as nat,
                old(self).iteration_engine.seed(),
                old(self).iteration_engine.drawn(),
            ) {
                Ok(pair) => r == Ok::<(), EngineError>(())
                    && final(self).iteration_engine.module_string.deep_view() == pair.0 && final(self).iteration_engine.drawn() == pair.1,
                Err(err) => r == Err::<(), EngineError>(err)
                    && final(self).iteration_engine.module_string.deep_view() == old(self).iteration_engine.module_string.deep_view(),
            },
    {
        self.iteration_engine.iterate()
    }

    /// Interpret the iterated module string as a sequence of drawing
    /// commands, which is left in `commands`.
    pub fn interpret(&mut self) -> (r: Result<(), EngineError>)
        ensures
            final(self).iteration_engine.initial.deep_view() == old(self).iteration_engine.initial.deep_view(),
            final(self).iteration_engine.module_string.deep_view() == old(self).iteration_engine.module_string.deep_view(),
            final(self).iteration_engine.rules.deep_view() == old(self).iteration_engine.rules.deep_view(),
            final(self).iteration_engine.iteration_depth == old(self).iteration_engine.iteration_depth,
            final(self).iteration_engine.seed() == old(self).iteration_engine.seed(),
            final(self).iteration_engine.drawn() == old(self).iteration_engine.drawn(),
            final(self).interpretation_engine@ == old(self).interpretation_engine@,
            match spec_interpret(
                old(self).iteration_engine.module_string.deep_view(),
                old(self).interpretation_engine@,
                0,
            ) {
                Ok(cmds) => r == Ok::<(), EngineError>(()) && final(self).commands@ == cmds,
                Err(err) => r == Err::<(), EngineError>(err) && final(self).commands@ == old(self).commands@,
            },
    {
        let slice: &[crate::modules::Module] = self.iteration_engine.module_string.as_slice();
        proof {
            assert(slice.deep_view() =~= self.iteration_engine.module_string.deep_view());
        }
        match self.interpretation_engine.interpret(slice) {
            Ok(cmds) => {
                self.commands = cmds;
                Ok(())
            },
            Err(err) => Err(err),
        }
    }
}

} // verus!
