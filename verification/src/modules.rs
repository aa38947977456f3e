use vstd::prelude::*;
use crate::environment::Environment;
use crate::errors::EngineError;
use crate::expression::{
    spec_eval_arith, spec_eval_bool, ArithmeticExpression, BooleanExpression,
};
use crate::value::Value;

verus! {

/// An annotation that can be part of a module, for example to mark that a
/// geometric patch is to be created at the module's position.
#[derive(Clone, Copy, Debug, PartialEq, Eq, Structural)]
pub enum ModuleAnnotation {
    /// Interpret the module as a command to create a patch at this position.
    CreatePatch,
}

/// The mathematical content of a module: an identifier, the parameter
/// values in order, and the optional annotation.
pub ghost struct ModuleView {
    pub identifier: char,
    pub parameter_values: Seq<Value>,
    pub annotation: Option<ModuleAnnotation>,
}

/// A module as it appears in an iterated module string, such as `A(1,3)`.
#[derive(Debug)]
pub struct Module {
    /// The character used as the identifier of this module.
    pub identifier: char,
    /// The actual parameter values.
    pub parameter_values: Vec<Value>,
    /// A possible module annotation.
    pub annotation: Option<ModuleAnnotation>,
}

impl View for Module {
    type V = ModuleView;

    open spec fn view(&self) -> ModuleView {
        ModuleView {
            identifier: self.identifier,
            parameter_values: self.parameter_values@,
            annotation: self.annotation,
        }
    }
}

impl DeepView for Module {
    type V = ModuleView;

    open spec fn deep_view(&self) -> ModuleView {
        self.view()
    }
}

impl Module {
    /// Whether the module carries any parameter values.
    pub fn has_parameters(&self) -> (r: bool)
        ensures
            r == (self@.parameter_values.len() > 0),
    {
        self.parameter_values.len() > 0
    }

    /// How many parameter values the module carries.
    pub fn parameter_count(&self) -> (r: usize)
        ensures
            r == self@.parameter_values.len(),
    {
        self.parameter_values.len()
    }

    /// Whether the module carries an annotation.
    pub fn has_annotation(&self) -> (r: bool)
        ensures
            r == self@.annotation.is_some(),
    {
        self.annotation.is_some()
    }

    /// An identical copy of the module.
    pub fn duplicate(&self) -> (r: Module)
        ensures
            r@ == self@,
    {
        let n = self.parameter_values.len();
        let mut vals: Vec<Value> = Vec::new();
        let mut i: usize = 0;
        while i < n
            invariant
                i <= n,
                n == self.parameter_values@.len(),
                vals@ == self.parameter_values@.subrange(0, i as int),
            decreases n - i,
        {
            vals.push(self.parameter_values[i]);
            proof {
                assert(vals@ =~= self.parameter_values@.subrange(0, i + 1));
            }
            i = i + 1;
        }
        proof {
            assert(vals@ =~= self.parameter_values@);
        }
        Module { identifier: self.identifier, parameter_values: vals, annotation: self.annotation }
    }
}

/// The shape of a module signature: an identifier and parameter names.
pub ghost struct SignatureView {
    pub identifier: char,
    pub parameters: Seq<char>,
}

/// A description of how a module looks, such as `A(x,y,z)`, used on the
/// left side of rules to bind parameter names.
#[derive(Debug)]
pub struct ModuleSignature {
    pub identifier: char,
    pub parameters: Vec<char>,
}

impl View for ModuleSignature {
    type V = SignatureView;

    open spec fn view(&self) -> SignatureView {
        SignatureView { identifier: self.identifier, parameters: self.parameters@ }
    }
}

impl DeepView for ModuleSignature {
    type V = SignatureView;

    open spec fn deep_view(&self) -> SignatureView {
        self.view()
    }
}

impl ModuleSignature {
    /// Whether the signature declares any parameter names.
    pub fn has_parameters(&self) -> (r: bool)
        ensures
            r == (self@.parameters.len() > 0),
    {
        self.parameters.len() > 0
    }

    /// How many parameter names the signature declares.
    pub fn parameter_count(&self) -> (r: usize)
        ensures
            r == self@.parameters.len(),
    {
        self.parameters.len()
    }
}

/// The shape of a module template: an identifier, one arithmetic
/// expression per parameter, and the optional annotation.
pub ghost struct TemplateView {
    pub identifier: char,
    pub parameter_expressions: Seq<ArithmeticExpression>,
    pub annotation: Option<ModuleAnnotation>,
}

/// A blueprint for a module, used on the right side of a rule, with an
/// expression for each parameter, like `A(x+1, y)`.
#[derive(Debug)]
pub struct ModuleTemplate {
    pub identifier: char,
    pub parameter_expressions: Vec<ArithmeticExpression>,
    pub annotation: Option<ModuleAnnotation>,
}

impl View for ModuleTemplate {
    type V = TemplateView;

    open spec fn view(&self) -> TemplateView {
        TemplateView {
            identifier: self.identifier,
            parameter_expressions: self.parameter_expressions@,
            annotation: self.annotation,
        }
    }
}

impl DeepView for ModuleTemplate {
    type V = TemplateView;

    open spec fn deep_view(&self) -> TemplateView {
        self.view()
    }
}

/// The values of a list of expressions under one binding, left to right,
/// or the first error met.
pub open spec fn spec_eval_exprs_from(
    es: Seq<ArithmeticExpression>,
    env: Map<char, Value>,
    i: int,
) -> Result<Seq<Value>, EngineError>
    decreases es.len() - i,
{
    if i < 0 || i >= es.len() {
        Ok(Seq::empty())
    } else {
        match spec_eval_arith(es[i], env) {
            Err(err) => Err(err),
            Ok(v) => match spec_eval_exprs_from(es, env, i + 1) {
                Err(err) => Err(err),
                Ok(rest) => Ok(seq![v] + rest),
            },
        }
    }
}

/// The module a template produces under one binding, or the first
/// evaluation error.
pub open spec fn spec_instantiate(t: TemplateView, env: Map<char, Value>) -> Result<
    ModuleView,
    EngineError,
> {
    match spec_eval_exprs_from(t.parameter_expressions, env, 0) {
        Err(err) => Err(err),
        Ok(vals) => Ok(
            ModuleView {
                identifier: t.identifier,
                parameter_values: vals,
                annotation: t.annotation,
            },
        ),
    }
}

impl ModuleTemplate {
    /// Whether the template carries any parameter expressions.
    pub fn has_parameters(&self) -> (r: bool)
        ensures
            r == (self@.parameter_expressions.len() > 0),
    {
        self.parameter_expressions.len() > 0
    }

    /// How many parameter expressions the template carries.
    pub fn parameter_count(&self) -> (r: usize)
        ensures
            r == self@.parameter_expressions.len(),
    {
        self.parameter_expressions.len()
    }

    /// Create an actual module instance based on this template, evaluating
    /// every contained expression under the given binding.
    pub fn instantiate(&self, env: &Environment) -> (r: Result<Module, EngineError>)
        requires
            env.well_formed(),
        ensures
            match r {
                Ok(m) => spec_instantiate(self@, env@) == Ok::<ModuleView, EngineError>(m@),
                Err(err) => spec_instantiate(self@, env@) == Err::<ModuleView, EngineError>(err),
            },
    {
        let n = self.parameter_expressions.len();
        let mut vals: Vec<Value> = Vec::new();
        let mut i: usize = 0;
        while i < n
            invariant
                i <= n,
                env.well_formed(),
                n == self.parameter_expressions@.len(),
                match spec_eval_exprs_from(self.parameter_expressions@, env@, i as int) {
                    Ok(rest) => spec_eval_exprs_from(self.parameter_expressions@, env@, 0)
                        == Ok::<Seq<Value>, EngineError>(vals@ + rest),
                    Err(err) => spec_eval_exprs_from(self.parameter_expressions@, env@, 0)
                        == Err::<Seq<Value>, EngineError>(err),
                },
            decreases n - i,
        {
            let ghost pre = vals@;
            match self.parameter_expressions[i].eval(env) {
                Err(err) => {
                    return Err(err);
                },
                Ok(v) => {
                    vals.push(v);
                },
            }
            proof {
                let es = self.parameter_expressions@;
                match spec_eval_exprs_from(es, env@, i + 1) {
                    Ok(rest) => {
                        assert(pre + (seq![vals@.last()] + rest) =~= vals@ + rest);
                    },
                    Err(_) => {},
                }
            }
            i = i + 1;
        }
        proof {
            assert(vals@ + Seq::<Value>::empty() =~= vals@);
        }
        Ok(
            Module {
                identifier: self.identifier,
                parameter_values: vals,
                annotation: self.annotation,
            },
        )
    }
}

/// The shape of a module context: the module under rewriting and its
/// immediate neighbors, which might or might not exist.
pub ghost struct ContextView {
    pub left: Option<ModuleView>,
    pub center: ModuleView,
    pub right: Option<ModuleView>,
}

/// A module and its immediate surrounding modules from the previous
/// generation's sequence.
#[derive(Debug)]
pub struct ModuleContext {
    pub left: Option<Module>,
    pub center: Module,
    pub right: Option<Module>,
}

impl View for ModuleContext {
    type V = ContextView;

    open spec fn view(&self) -> ContextView {
        ContextView {
            left: self.left.deep_view(),
            center: self.center@,
            right: self.right.deep_view(),
        }
    }
}

impl ModuleContext {
    /// A context with no neighbors.
    pub fn new(center: Module) -> (r: ModuleContext)
        ensures
            r@ == (ContextView { left: None, center: center@, right: None }),
    {
        ModuleContext { left: None, center, right: None }
    }

    /// A context with a left neighbor only.
    pub fn new_with_left(center: Module, left: Module) -> (r: ModuleContext)
        ensures
            r@ == (ContextView { left: Some(left@), center: center@, right: None }),
    {
        ModuleContext { left: Some(left), center, right: None }
    }

    /// A context with a right neighbor only.
    pub fn new_with_right(center: Module, right: Module) -> (r: ModuleContext)
        ensures
            r@ == (ContextView { left: None, center: center@, right: Some(right@) }),
    {
        ModuleContext { left: None, center, right: Some(right) }
    }

    /// A context with both neighbors.
    pub fn new_complete(center: Module, left: Module, right: Module) -> (r: ModuleContext)
        ensures
            r@ == (ContextView { left: Some(left@), center: center@, right: Some(right@) }),
    {
        ModuleContext { left: Some(left), center, right: Some(right) }
    }
}

/// Whether a signature fits a module: same identifier, same arity.
pub open spec fn spec_signature_matches(sig: SignatureView, m: ModuleView) -> bool {
    sig.identifier == m.identifier && sig.parameters.len() == m.parameter_values.len()
}

/// Bind the names from position `i` on to the values at the same
/// positions; a name that is already bound is a redefinition error.
pub open spec fn spec_bind_params(
    env: Map<char, Value>,
    names: Seq<char>,
    vals: Seq<Value>,
    i: int,
) -> Result<Map<char, Value>, EngineError>
    recommends
        names.len() == vals.len(),
    decreases names.len() - i,
{
    if i < 0 || i >= names.len() {
        Ok(env)
    } else if env.contains_key(names[i]) {
        Err(EngineError::ParameterRedefinition(names[i]))
    } else {
        spec_bind_params(env.insert(names[i], vals[i]), names, vals, i + 1)
    }
}

/// Bind every parameter name a signature declares to the corresponding
/// value of a module.
pub open spec fn spec_bind_signature(
    env: Map<char, Value>,
    sig: SignatureView,
    m: ModuleView,
) -> Result<Map<char, Value>, EngineError> {
    spec_bind_params(env, sig.parameters, m.parameter_values, 0)
}

/// Binding a name list succeeds exactly when the names are pairwise
/// distinct and none is bound yet, and then the domain grows by the names.
pub proof fn lemma_bind_params(
    env: Map<char, Value>,
    names: Seq<char>,
    vals: Seq<Value>,
    i: int,
)
    requires
        0 <= i <= names.len(),
        names.len() == vals.len(),
    ensures
        spec_bind_params(env, names, vals, i) is Ok <==> ((forall|j: int, k: int|
            #![trigger names[j], names[k]]
            i <= j < k < names.len() ==> names[j] != names[k]) && (forall|j: int|
            i <= j < names.len() ==> !env.contains_key(#[trigger] names[j]))),
        spec_bind_params(env, names, vals, i) matches Ok(m2) ==> (forall|c: char|
            #[trigger] m2.contains_key(c) <==> env.contains_key(c) || (exists|j: int|
                i <= j < names.len() && #[trigger] names[j] == c)),
    decreases names.len() - i,
{
    if i >= names.len() {
    } else if env.contains_key(names[i]) {
    } else {
        let env2 = env.insert(names[i], vals[i]);
        lemma_bind_params(env2, names, vals, i + 1);
        if spec_bind_params(env, names, vals, i) is Ok {
            assert forall|j: int, k: int| #![trigger names[j], names[k]]
                i <= j < k < names.len() implies names[j] != names[k] by {
                if j == i {
                    assert(!env2.contains_key(names[k]));
                }
            }
            assert forall|j: int| i <= j < names.len() implies !env.contains_key(
                #[trigger] names[j],
            ) by {
                if j > i {
                    assert(!env2.contains_key(names[j]));
                }
            }
        }
        if ((forall|j: int, k: int|
            #![trigger names[j], names[k]]
            i <= j < k < names.len() ==> names[j] != names[k]) && (forall|j: int|
            i <= j < names.len() ==> !env.contains_key(#[trigger] names[j]))) {
            assert forall|j: int| i + 1 <= j < names.len() implies !env2.contains_key(
                #[trigger] names[j],
            ) by {
                assert(names[i] != names[j]);
            }
            assert(spec_bind_params(env2, names, vals, i + 1) is Ok);
        }
        match spec_bind_params(env, names, vals, i) {
            Ok(m2) => {
                assert forall|c: char| #[trigger] m2.contains_key(c) <==> env.contains_key(c) || (
                exists|j: int| i <= j < names.len() && #[trigger] names[j] == c) by {
                    if m2.contains_key(c) {
                        if !env.contains_key(c) {
                            if env2.contains_key(c) {
                                assert(names[i] == c);
                            }
                        }
                    }
                    if env.contains_key(c) || (exists|j: int|
                        i <= j < names.len() && #[trigger] names[j] == c) {
                        if !env.contains_key(c) {
                            let j = choose|j: int|
                                i <= j < names.len() && #[trigger] names[j] == c;
                            if j == i {
                                assert(env2.contains_key(c));
                            }
                        }
                    }
                }
            },
            Err(_) => {},
        }
    }
}

/// The shape of a module pattern: optional neighbor signatures, the center
/// signature, and the guard condition.
pub ghost struct PatternView {
    pub match_left: Option<SignatureView>,
    pub match_center: SignatureView,
    pub match_right: Option<SignatureView>,
    pub condition: BooleanExpression,
}

/// The left side of a rule. It can impose conditions on the parameters as
/// well as on the surrounding modules; a successful match binds the
/// pattern's parameter names to the context's values.
#[derive(Debug)]
pub struct ModulePattern {
    pub match_left: Option<ModuleSignature>,
    pub match_center: ModuleSignature,
    pub match_right: Option<ModuleSignature>,
    pub condition: BooleanExpression,
}

impl View for ModulePattern {
    type V = PatternView;

    open spec fn view(&self) -> PatternView {
        PatternView {
            match_left: self.match_left.deep_view(),
            match_center: self.match_center@,
            match_right: self.match_right.deep_view(),
            condition: self.condition,
        }
    }
}

/// The part of a pattern match after the center: the left requirement.
pub open spec fn spec_match_left(p: PatternView, ctx: ContextView, env: Map<char, Value>) -> Result<
    bool,
    EngineError,
> {
    match p.match_left {
        None => spec_match_right(p, ctx, env),
        Some(ls) => match ctx.left {
            None => Ok(false),
            Some(lm) => if !spec_signature_matches(ls, lm) {
                Ok(false)
            } else {
                match spec_bind_signature(env, ls, lm) {
                    Err(err) => Err(err),
                    Ok(env2) => spec_match_right(p, ctx, env2),
                }
            },
        },
    }
}

/// The part of a pattern match after the neighbors: the right requirement
/// and the guard condition.
pub open spec fn spec_match_right(
    p: PatternView,
    ctx: ContextView,
    env: Map<char, Value>,
) -> Result<bool, EngineError> {
    match p.match_right {
        None => spec_eval_bool(p.condition, env),
        Some(rs) => match ctx.right {
            None => Ok(false),
            Some(rm) => if !spec_signature_matches(rs, rm) {
                Ok(false)
            } else {
                match spec_bind_signature(env, rs, rm) {
                    Err(err) => Err(err),
                    Ok(env3) => spec_eval_bool(p.condition, env3),
                }
            },
        },
    }
}

/// Whether a pattern matches a context: the center must fit, a required
/// neighbor must exist and fit, and the guard must hold under the binding
/// of all declared names; a contradictory binding or a guard evaluation
/// failure is an error.
#[verifier::opaque]
pub open spec fn spec_pattern_match(p: PatternView, ctx: ContextView) -> Result<
    bool,
    EngineError,
> {
    if !spec_signature_matches(p.match_center, ctx.center) {
        Ok(false)
    } else {
        match spec_bind_signature(Map::empty(), p.match_center, ctx.center) {
            Err(err) => Err(err),
            Ok(env1) => spec_match_left(p, ctx, env1),
        }
    }
}

/// The binding a successful match establishes, built left neighbor first,
/// then right neighbor, then center.
#[verifier::opaque]
pub open spec fn spec_pattern_bind(p: PatternView, ctx: ContextView) -> Result<
    Map<char, Value>,
    EngineError,
> {
    let after_left = match p.match_left {
        Some(ls) => spec_bind_signature(Map::empty(), ls, ctx.left.unwrap()),
        None => Ok(Map::empty()),
    };
    match after_left {
        Err(err) => Err(err),
        Ok(env1) => {
            let after_right = match p.match_right {
                Some(rs) => spec_bind_signature(env1, rs, ctx.right.unwrap()),
                None => Ok(env1),
            };
            match after_right {
                Err(err) => Err(err),
                Ok(env2) => spec_bind_signature(env2, p.match_center, ctx.center),
            }
        },
    }
}

/// A successful match guarantees that binding the same names in the
/// left-right-center order of `spec_pattern_bind` succeeds as well: whether
/// a name clashes does not depend on the order the signatures are walked.
pub proof fn lemma_match_implies_bind(p: PatternView, ctx: ContextView)
    requires
        spec_pattern_match(p, ctx) == Ok::<bool, EngineError>(true),
    ensures
        spec_pattern_bind(p, ctx) is Ok,
{
    reveal(spec_pattern_match);
    reveal(spec_pattern_bind);
    let centerN = p.match_center.parameters;
    let centerV = ctx.center.parameter_values;
    assert(spec_signature_matches(p.match_center, ctx.center));
    let env_c = spec_bind_signature(Map::empty(), p.match_center, ctx.center).unwrap();
    lemma_bind_params(Map::empty(), centerN, centerV, 0);

    let env_cl = match p.match_left {
        Some(ls) => {
            let lm = ctx.left.unwrap();
            assert(spec_signature_matches(ls, lm));
            lemma_bind_params(env_c, ls.parameters, lm.parameter_values, 0);
            spec_bind_signature(env_c, ls, lm).unwrap()
        },
        None => env_c,
    };
    match p.match_right {
        Some(rs) => {
            let rm = ctx.right.unwrap();
            assert(spec_signature_matches(rs, rm));
            lemma_bind_params(env_cl, rs.parameters, rm.parameter_values, 0);
        },
        None => {},
    }

    // The first stage of the bind order: the left names from an empty map.
    let env_l = match p.match_left {
        Some(ls) => {
            let lm = ctx.left.unwrap();
            lemma_bind_params(Map::empty(), ls.parameters, lm.parameter_values, 0);
            assert(spec_bind_signature(Map::empty(), ls, lm) is Ok);
            spec_bind_signature(Map::empty(), ls, lm).unwrap()
        },
        None => Map::empty(),
    };
    assert(forall|c: char|
        #[trigger] env_l.contains_key(c) ==> env_cl.contains_key(c) && !env_c.contains_key(c));

    // The second stage: the right names on top of the left ones.
    let env_lr = match p.match_right {
        Some(rs) => {
            let rm = ctx.right.unwrap();
            lemma_bind_params(env_l, rs.parameters, rm.parameter_values, 0);
            assert forall|j: int| 0 <= j < rs.parameters.len() implies !env_l.contains_key(
                #[trigger] rs.parameters[j],
            ) by {
                assert(!env_cl.contains_key(rs.parameters[j]));
            }
            assert(spec_bind_signature(env_l, rs, rm) is Ok);
            lemma_bind_params(env_l, rs.parameters, rm.parameter_values, 0);
            spec_bind_signature(env_l, rs, rm).unwrap()
        },
        None => env_l,
    };
    assert forall|c: char| #[trigger] env_lr.contains_key(c) implies !env_c.contains_key(c) by {
        if env_l.contains_key(c) {
        } else {
            match p.match_right {
                Some(rs) => {
                    let rm = ctx.right.unwrap();
                    let j = choose|j: int|
                        0 <= j < rs.parameters.len() && #[trigger] rs.parameters[j] == c;
                    assert(!env_cl.contains_key(rs.parameters[j]));
                },
                None => {},
            }
        }
    }

    // The last stage: the center names never clash with either neighbor's.
    assert forall|j: int| 0 <= j < centerN.len() implies !env_lr.contains_key(
        #[trigger] centerN[j],
    ) by {
        assert(env_c.contains_key(centerN[j]));
    }
    lemma_bind_params(env_lr, centerN, centerV, 0);
    assert(spec_bind_signature(env_lr, p.match_center, ctx.center) is Ok);
}

impl ModulePattern {
    /// Check whether the given module context matches this pattern.
    pub fn does_match(&self, context: &ModuleContext) -> (r: Result<bool, EngineError>)
        ensures
            r == spec_pattern_match(self@, context@),
    {
        proof {
            reveal(spec_pattern_match);
        }
        let mut env = Environment::new();

        if self.match_center.identifier != context.center.identifier {
            return Ok(false);
        }
        if self.match_center.parameter_count() != context.center.parameter_count() {
            return Ok(false);
        }
        match Self::extract_parameters(&self.match_center, &context.center, &mut env) {
            Err(err) => {
                return Err(err);
            },
            Ok(()) => {},
        }

        if self.match_left.is_some() {
            if context.left.is_none() {
                return Ok(false);
            }
            let match_left = self.match_left.as_ref().unwrap();
            let left = context.left.as_ref().unwrap();
            if match_left.identifier != left.identifier {
                return Ok(false);
            }
            if match_left.parameter_count() != left.parameter_count() {
                return Ok(false);
            }
            match Self::extract_parameters(match_left, left, &mut env) {
                Err(err) => {
                    return Err(err);
                },
                Ok(()) => {},
            }
        }

        if self.match_right.is_some() {
            if context.right.is_none() {
                return Ok(false);
            }
            let match_right = self.match_right.as_ref().unwrap();
            let right = context.right.as_ref().unwrap();
            if match_right.identifier != right.identifier {
                return Ok(false);
            }
            if match_right.parameter_count() != right.parameter_count() {
                return Ok(false);
            }
            match Self::extract_parameters(match_right, right, &mut env) {
                Err(err) => {
                    return Err(err);
                },
                Ok(()) => {},
            }
        }

        self.condition.eval(&env)
    }

    /// Create an environment in which the parameter names of this pattern
    /// are bound to the values present in the given context. Only valid
    /// after `does_match` returned true for the same context.
    pub fn bind(&self, context: &ModuleContext) -> (r: Environment)
        requires
            spec_pattern_match(self@, context@) == Ok::<bool, EngineError>(true),
        ensures
            r.well_formed(),
            spec_pattern_bind(self@, context@) == Ok::<Map<char, Value>, EngineError>(r@),
    {
        proof {
            reveal(spec_pattern_match);
            reveal(spec_pattern_bind);
            lemma_match_implies_bind(self@, context@);
        }
        let mut env = Environment::new();

        if self.match_left.is_some() {
            let match_left = self.match_left.as_ref().unwrap();
            let left = context.left.as_ref().unwrap();
            match Self::extract_parameters(match_left, left, &mut env) {
                Err(_) => {
                    proof {
                        assert(false);
                    }
                },
                Ok(()) => {},
            }
        }

        if self.match_right.is_some() {
            let match_right = self.match_right.as_ref().unwrap();
            let right = context.right.as_ref().unwrap();
            match Self::extract_parameters(match_right, right, &mut env) {
                Err(_) => {
                    proof {
                        assert(false);
                    }
                },
                Ok(()) => {},
            }
        }

        match Self::extract_parameters(&self.match_center, &context.center, &mut env) {
            Err(_) => {
                proof {
                    assert(false);
                }
            },
            Ok(()) => {},
        }

        env
    }

    /// Bind the names a signature declares, positionally, to the values of
    /// a module, reporting the first redefinition.
    fn extract_parameters(
        signature: &ModuleSignature,
        module: &Module,
        env: &mut Environment,
    ) -> (r: Result<(), EngineError>)
        requires
            old(env).well_formed(),
            signature.parameters@.len() == module.parameter_values@.len(),
        ensures
            final(env).well_formed(),
            match r {
                Ok(()) => spec_bind_signature(old(env)@, signature@, module@) == Ok::<
                    Map<char, Value>,
                    EngineError,
                >(final(env)@),
                Err(err) => spec_bind_signature(old(env)@, signature@, module@) == Err::<
                    Map<char, Value>,
                    EngineError,
                >(err),
            },
    {
        let n = signature.parameters.len();
        let mut i: usize = 0;
        while i < n
            invariant
                i <= n,
                env.well_formed(),
                n == signature.parameters@.len(),
                n == module.parameter_values@.len(),
                spec_bind_params(old(env)@, signature.parameters@, module.parameter_values@, 0)
                    == spec_bind_params(env@, signature.parameters@, module.parameter_values@,
                i as int),
            decreases n - i,
        {
            let name = signature.parameters[i];
            let value = module.parameter_values[i];
            match env.define_parameter(name, value) {
                Ok(()) => {},
                Err(err) => {
                    return Err(err);
                },
            }
            i = i + 1;
        }
        Ok(())
    }
}

/// The shape of a rule: a pattern, the replacement templates in order, and
/// the probability weight.
pub ghost struct RuleView {
    pub pattern: PatternView,
    pub right_side: Seq<TemplateView>,
    pub probability: Value,
}

/// A rule: a left-side pattern, a right-side sequence of templates, and a
/// probability weight. A negative weight marks the rule as deterministic;
/// a non-negative weight is a relative sampling weight.
#[derive(Debug)]
pub struct Rule {
    pub pattern: ModulePattern,
    pub right_side: Vec<ModuleTemplate>,
    pub probability: Value,
}

impl View for Rule {
    type V = RuleView;

    open spec fn view(&self) -> RuleView {
        RuleView {
            pattern: self.pattern@,
            right_side: self.right_side.deep_view(),
            probability: self.probability,
        }
    }
}

impl DeepView for Rule {
    type V = RuleView;

    open spec fn deep_view(&self) -> RuleView {
        self.view()
    }
}

impl Rule {
    /// Checks whether this rule always applies. Note that this is not the
    /// same as having a probability of one, since the probability is a
    /// relative weight; any negative weight marks the rule deterministic.
    pub fn is_deterministic(&self) -> (r: bool)
        ensures
            r == (self@.probability@ < 0),
    {
        self.probability.is_negative()
    }
}

} // verus!
