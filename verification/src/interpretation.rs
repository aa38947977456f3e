use vstd::prelude::*;
use crate::environment::{lemma_map_of_entries, lemma_map_of_entries_last, map_of_entries};
use crate::errors::EngineError;
use crate::modules::{Module, ModuleAnnotation, ModuleView};
use crate::value::Value;

verus! {

/// A basic operation of the drawing turtle that a module identifier can be
/// associated with.
#[derive(Clone, Copy, Debug, PartialEq, Eq, Structural)]
pub enum TurtleCommand {
    Forward,
    ForwardNoDraw,
    TurnRight,
    TurnLeft,
    SaveState,
    LoadState,
    Ignore,
    /// Uses a step size that contracts with the iteration depth.
    ForwardContracting,
    PitchDown,
    PitchUp,
    RollLeft,
    RollRight,
    TurnAround,
    BeginPolygon,
    EndPolygon,
    SubmitVertex,
    IncrementColor,
    DecrementColor,
    IncrementLineWidth,
    DecrementLineWidth,
}

/// A drawing command derived from one module of an iterated module string.
#[derive(Clone, Copy, Debug, PartialEq)]
pub enum DrawingCommand {
    /// A basic turtle command, with an optional argument.
    BasicCommand { operation: TurtleCommand, parameter: Option<Value> },
    /// Spawn a patch at this position.
    SpawnPatch { patch_id: char, scaling: Value },
}

/// The command one module yields under an association map: an annotated
/// module becomes a patch command, a module with a known identifier
/// becomes its associated command, any other module yields nothing; more
/// than one parameter value is an error either way.
pub open spec fn spec_interpret_module(m: ModuleView, assoc: Map<char, TurtleCommand>) -> Result<
    Option<DrawingCommand>,
    EngineError,
> {
    match m.annotation {
        Some(ModuleAnnotation::CreatePatch) => if m.parameter_values.len() == 0 {
            Ok(
                Some(
                    DrawingCommand::SpawnPatch {
                        patch_id: m.identifier,
                        scaling: Value::spec_one(),
                    },
                ),
            )
        } else if m.parameter_values.len() == 1 {
            Ok(
                Some(
                    DrawingCommand::SpawnPatch {
                        patch_id: m.identifier,
                        scaling: m.parameter_values[0],
                    },
                ),
            )
        } else {
            Err(EngineError::TooManyParameters(m.identifier))
        },
        None => if assoc.contains_key(m.identifier) {
            if m.parameter_values.len() == 0 {
                Ok(
                    Some(
                        DrawingCommand::BasicCommand {
                            operation: assoc[m.identifier],
                            parameter: None,
                        },
                    ),
                )
            } else if m.parameter_values.len() == 1 {
                Ok(
                    Some(
                        DrawingCommand::BasicCommand {
                            operation: assoc[m.identifier],
                            parameter: Some(m.parameter_values[0]),
                        },
                    ),
                )
            } else {
                Err(EngineError::TooManyParameters(m.identifier))
            }
        } else {
            Ok(None)
        },
    }
}

/// The commands of the modules from position `i` on, in order, or the
/// first error met.
pub open spec fn spec_interpret(
    s: Seq<ModuleView>,
    assoc: Map<char, TurtleCommand>,
    i: int,
) -> Result<Seq<DrawingCommand>, EngineError>
    decreases s.len() - i,
{
    if i < 0 || i >= s.len() {
        Ok(Seq::empty())
    } else {
        match spec_interpret_module(s[i], assoc) {
            Err(err) => Err(err),
            Ok(opt) => match spec_interpret(s, assoc, i + 1) {
                Err(err) => Err(err),
                Ok(rest) => Ok(
                    match opt {
                        Some(c) => seq![c] + rest,
                        None => rest,
                    },
                ),
            },
        }
    }
}

/// The interpretation of an iterated module string as a series of drawing
/// commands: module identifiers are associated with basic turtle commands,
/// and annotated modules yield patch commands.
///
/// Associations live in an append-only list whose later entries win, so
/// its view is the map from identifiers to their latest command.
pub struct InterpretationEngine {
    entries: Vec<(char, TurtleCommand)>,
}

impl View for InterpretationEngine {
    type V = Map<char, TurtleCommand>;

    closed spec fn view(&self) -> Map<char, TurtleCommand> {
        map_of_entries(self.entries@)
    }
}

impl InterpretationEngine {
    /// Create a new, empty interpretation engine.
    pub fn new() -> (r: InterpretationEngine)
        ensures
            r@ == Map::<char, TurtleCommand>::empty(),
    {
        let r = InterpretationEngine { entries: Vec::new() };
        proof {
            assert(r@ =~= Map::<char, TurtleCommand>::empty());
        }
        r
    }

    /// Associate the given identifier with the given turtle command,
    /// replacing any earlier association.
    pub fn associate(&mut self, character: char, operation: TurtleCommand)
        ensures
            final(self)@ == old(self)@.insert(character, operation),
    {
        let ghost pre = self.entries@;
        self.entries.push((character, operation));
        proof {
            assert(self.entries@.drop_last() =~= pre);
            assert(self@ =~= map_of_entries(pre).insert(character, operation));
        }
    }

    /// Clear all stored associations.
    pub fn clear(&mut self)
        ensures
            final(self)@ == Map::<char, TurtleCommand>::empty(),
    {
        self.entries = Vec::new();
        proof {
            assert(self@ =~= Map::<char, TurtleCommand>::empty());
        }
    }

    /// Check whether an interpretation for the given identifier exists.
    fn has_interpretation(&self, character: char) -> (r: bool)
        ensures
            r == self@.contains_key(character),
    {
        proof {
            lemma_map_of_entries(self.entries@, character);
        }
        let n = self.entries.len();
        let mut i: usize = 0;
        while i < n
            invariant
                i <= n,
                n == self.entries@.len(),
                forall|k: int| 0 <= k < i ==> (#[trigger] self.entries@[k]).0 != character,
                self@.contains_key(character) <==> (exists|k: int|
                    0 <= k < n && (#[trigger] self.entries@[k]).0 == character),
            decreases n - i,
        {
            if self.entries[i].0 == character {
                return true;
            }
            i = i + 1;
        }
        false
    }

    /// Retrieve the associated interpretation for the given identifier:
    /// the latest association wins.
    fn retrieve(&self, character: char) -> (r: TurtleCommand)
        requires
            self@.contains_key(character),
        ensures
            r == self@[character],
    {
        let n = self.entries.len();
        let mut i: usize = n;
        while i > 0
            invariant
                i <= n,
                n == self.entries@.len(),
                self@.contains_key(character),
                forall|k: int| i <= k < n ==> (#[trigger] self.entries@[k]).0 != character,
            decreases i,
        {
            i = i - 1;
            if self.entries[i].0 == character {
                proof {
                    lemma_map_of_entries_last(self.entries@, character, i as int);
                }
                return self.entries[i].1;
            }
        }
        proof {
            lemma_map_of_entries(self.entries@, character);
            assert(false);
        }
        TurtleCommand::Ignore
    }

    /// Interpret the given module string against the stored associations
    /// and derive the sequence of drawing commands.
    pub fn interpret(&self, module_string: &[Module]) -> (r: Result<Vec<DrawingCommand>, EngineError>)
        ensures
            match r {
                Ok(cmds) => spec_interpret(module_string.deep_view(), self@, 0) == Ok::<
                    Seq<DrawingCommand>,
                    EngineError,
                >(cmds@),
                Err(err) => spec_interpret(module_string.deep_view(), self@, 0) == Err::<
                    Seq<DrawingCommand>,
                    EngineError,
                >(err),
            },
    {
        let ghost sv = module_string.deep_view();
        let n = module_string.len();
        let mut commands: Vec<DrawingCommand> = Vec::new();
        let mut i: usize = 0;
        while i < n
            invariant
                i <= n,
                n == module_string@.len(),
                sv == module_string.deep_view(),
                match spec_interpret(sv, self@, i as int) {
                    Ok(rest) => spec_interpret(sv, self@, 0) matches Ok(all) && all == commands@
                        + rest,
                    Err(err) => spec_interpret(sv, self@, 0) == Err::<
                        Seq<DrawingCommand>,
                        EngineError,
                    >(err),
                },
            decreases n - i,
        {
            let ghost pre = commands@;
            let module = &module_string[i];
            let count = module.parameter_count();
            match module.annotation {
                Some(ModuleAnnotation::CreatePatch) => {
                    if count == 0 {
                        commands.push(
                            DrawingCommand::SpawnPatch {
                                patch_id: module.identifier,
                                scaling: Value::one(),
                            },
                        );
                    } else if count == 1 {
                        commands.push(
                            DrawingCommand::SpawnPatch {
                                patch_id: module.identifier,
                                scaling: module.parameter_values[0],
                            },
                        );
                    } else {
                        return Err(EngineError::TooManyParameters(module.identifier));
                    }
                },
                None => {
                    if self.has_interpretation(module.identifier) {
                        let operation = self.retrieve(module.identifier);
                        if count == 0 {
                            commands.push(
                                DrawingCommand::BasicCommand { operation, parameter: None },
                            );
                        } else if count == 1 {
                            commands.push(
                                DrawingCommand::BasicCommand {
                                    operation,
                                    parameter: Some(module.parameter_values[0]),
                                },
                            );
                        } else {
                            return Err(EngineError::TooManyParameters(module.identifier));
                        }
                    }
                },
            }
            proof {
                match spec_interpret_module(sv[i as int], self@) {
                    Ok(opt) => {
                        match opt {
                            Some(c) => {
                                assert(commands@ =~= pre.push(c));
                                match spec_interpret(sv, self@, i + 1) {
                                    Ok(rest2) => {
                                        assert(pre + (seq![c] + rest2) =~= commands@ + rest2);
                                    },
                                    Err(_) => {},
                                }
                            },
                            None => {},
                        }
                    },
                    Err(_) => {},
                }
            }
            i = i + 1;
        }
        proof {
            assert(commands@ + Seq::<DrawingCommand>::empty() =~= commands@);
        }
        Ok(commands)
    }
}

} // verus!
