use vstd::prelude::*;
use crate::errors::EngineError;
use crate::modules::{
    spec_instantiate, spec_pattern_bind, spec_pattern_match, ContextView, Module, ModuleContext,
    ModuleView, Rule, RuleView, TemplateView,
};
use crate::random::{std_rng_word, RandomSource};
use crate::util::{
    spec_pick, spec_scan_weights, weights_of, Weighted, WeightedChoice,
};
use crate::value::Value;

verus! {

/// The seed a fresh engine uses until one is set explicitly.
pub const DEFAULT_SEED: u64 = 133742;

/// The context of position `i` of a sequence: the module there together
/// with its immediate neighbors, where they exist.
pub open spec fn spec_context_of(s: Seq<ModuleView>, i: int) -> ContextView {
    ContextView {
        left: if i > 0 {
            Some(s[i - 1])
        } else {
            None
        },
        center: s[i],
        right: if i < s.len() - 1 {
            Some(s[i + 1])
        } else {
            None
        },
    }
}

/// The indices, from `j` on and in definition order, of the rules whose
/// patterns match the context, or the first matching error.
pub open spec fn spec_matching_rules(rules: Seq<RuleView>, ctx: ContextView, j: int) -> Result<
    Seq<int>,
    EngineError,
>
    decreases rules.len() - j,
{
    if j < 0 || j >= rules.len() {
        Ok(Seq::empty())
    } else {
        match spec_pattern_match(rules[j].pattern, ctx) {
            Err(err) => Err(err),
            Ok(m) => match spec_matching_rules(rules, ctx, j + 1) {
                Err(err) => Err(err),
                Ok(rest) => if m {
                    Ok(seq![j] + rest)
                } else {
                    Ok(rest)
                },
            },
        }
    }
}

/// The first deterministic rule among the matches, from position `k` on.
pub open spec fn spec_first_deterministic(rules: Seq<RuleView>, idxs: Seq<int>, k: int) -> Option<
    int,
>
    decreases idxs.len() - k,
{
    if k < 0 || k >= idxs.len() {
        None
    } else if rules[idxs[k]].probability@ < 0 {
        Some(idxs[k])
    } else {
        spec_first_deterministic(rules, idxs, k + 1)
    }
}

/// The modules produced by instantiating the templates from `i` on under
/// one binding, or the first evaluation error.
pub open spec fn spec_instantiate_all(
    ts: Seq<TemplateView>,
    env: Map<char, Value>,
    i: int,
) -> Result<Seq<ModuleView>, EngineError>
    decreases ts.len() - i,
{
    if i < 0 || i >= ts.len() {
        Ok(Seq::empty())
    } else {
        match spec_instantiate(ts[i], env) {
            Err(err) => Err(err),
            Ok(m) => match spec_instantiate_all(ts, env, i + 1) {
                Err(err) => Err(err),
                Ok(rest) => Ok(seq![m] + rest),
            },
        }
    }
}

/// The modules one chosen rule produces for a context: bind the pattern's
/// names, instantiate every template of the right side in order.
pub open spec fn spec_apply_rule(rule: RuleView, ctx: ContextView) -> Result<
    Seq<ModuleView>,
    EngineError,
> {
    match spec_pattern_bind(rule.pattern, ctx) {
        Err(err) => Err(err),
        Ok(env) => spec_instantiate_all(rule.right_side, env, 0),
    }
}

/// The probabilities of the rules at the given indices.
pub open spec fn spec_weights_at(rules: Seq<RuleView>, idxs: Seq<int>) -> Seq<Value> {
    idxs.map_values(|j: int| rules[j].probability)
}

/// Rewrite one position of a sequence: collect the matching rules; with no
/// match the module is kept; the first deterministic match wins without
/// consuming randomness; otherwise one probabilistic match is drawn by
/// weight with the next random word. Returns the produced modules and the
/// updated draw count.
#[verifier::opaque]
pub open spec fn spec_rewrite_position(
    rules: Seq<RuleView>,
    s: Seq<ModuleView>,
    i: int,
    seed: u64,
    drawn: nat,
) -> Result<(Seq<ModuleView>, nat), EngineError> {
    let ctx = spec_context_of(s, i);
    match spec_matching_rules(rules, ctx, 0) {
        Err(err) => Err(err),
        Ok(idxs) => if idxs.len() == 0 {
            Ok((seq![s[i]], drawn))
        } else {
            match spec_first_deterministic(rules, idxs, 0) {
                Some(j) => match spec_apply_rule(rules[j], ctx) {
                    Err(err) => Err(err),
                    Ok(mods) => Ok((mods, drawn)),
                },
                None => {
                    let ws = spec_weights_at(rules, idxs);
                    match spec_scan_weights(ws, 0, 0) {
                        Err(err) => Err(err),
                        Ok(total) => if total == 0 {
                            Err(EngineError::NonPositiveTotalWeight)
                        } else {
                            let draw = std_rng_word(seed, drawn) as int % total;
                            let j = idxs[spec_pick(ws, draw)];
                            match spec_apply_rule(rules[j], ctx) {
                                Err(err) => Err(err),
                                Ok(mods) => Ok((mods, drawn + 1)),
                            }
                        },
                    }
                },
            }
        },
    }
}

/// Rewrite the positions before `i`, in order, concatenating what they
/// produce and threading the draw count.
pub open spec fn spec_rewrite_upto(
    rules: Seq<RuleView>,
    s: Seq<ModuleView>,
    i: int,
    seed: u64,
    drawn: nat,
) -> Result<(Seq<ModuleView>, nat), EngineError>
    decreases i,
{
    if i <= 0 {
        Ok((Seq::empty(), drawn))
    } else {
        match spec_rewrite_upto(rules, s, i - 1, seed, drawn) {
            Err(err) => Err(err),
            Ok((acc, d)) => match spec_rewrite_position(rules, s, i - 1, seed, d) {
                Err(err) => Err(err),
                Ok((mods, d2)) => Ok((acc + mods, d2)),
            },
        }
    }
}

/// One full generation: every position of the sequence rewritten against
/// the read-only previous sequence.
pub open spec fn spec_generation(
    rules: Seq<RuleView>,
    s: Seq<ModuleView>,
    seed: u64,
    drawn: nat,
) -> Result<(Seq<ModuleView>, nat), EngineError> {
    spec_rewrite_upto(rules, s, s.len() as int, seed, drawn)
}

/// The sequence after the given number of generations, starting from the
/// initial string, or the first error any generation meets.
pub open spec fn spec_derive(
    rules: Seq<RuleView>,
    s: Seq<ModuleView>,
    depth: nat,
    seed: u64,
    drawn: nat,
) -> Result<(Seq<ModuleView>, nat), EngineError>
    decreases depth,
{
    if depth == 0 {
        Ok((s, drawn))
    } else {
        match spec_generation(rules, s, seed, drawn) {
            Err(err) => Err(err),
            Ok((s2, d2)) => spec_derive(rules, s2, (depth - 1) as nat, seed, d2),
        }
    }
}

/// An error met while rewriting the positions before some index is final:
/// every longer prefix reports the same error.
pub proof fn lemma_rewrite_upto_error(
    rules: Seq<RuleView>,
    s: Seq<ModuleView>,
    i: int,
    k: int,
    seed: u64,
    drawn: nat,
    err: EngineError,
)
    requires
        0 <= i <= k,
        spec_rewrite_upto(rules, s, i, seed, drawn) == Err::<(Seq<ModuleView>, nat), EngineError>(
            err,
        ),
    ensures
        spec_rewrite_upto(rules, s, k, seed, drawn) == Err::<(Seq<ModuleView>, nat), EngineError>(
            err,
        ),
    decreases k - i,
{
    if i < k {
        lemma_rewrite_upto_error(rules, s, i + 1, k, seed, drawn, err);
    }
}

/// Law: the derivation is a function of the initial string, the rule set, the
/// iteration depth, the seed, and the number of words already drawn. Two
/// engines in equal states rewrite to equal sequences, element for
/// element.
pub proof fn lemma_derivation_deterministic(
    rules1: Seq<RuleView>,
    initial1: Seq<ModuleView>,
    depth1: nat,
    seed1: u64,
    drawn1: nat,
    rules2: Seq<RuleView>,
    initial2: Seq<ModuleView>,
    depth2: nat,
    seed2: u64,
    drawn2: nat,
)
    requires
        rules1 == rules2,
        initial1 == initial2,
        depth1 == depth2,
        seed1 == seed2,
        drawn1 == drawn2,
    ensures
        spec_derive(rules1, initial1, depth1, seed1, drawn1) == spec_derive(
            rules2,
            initial2,
            depth2,
            seed2,
            drawn2,
        ),
{
}

/// Law: at depth zero the initial string is returned unchanged, and no randomness
/// is consumed.
pub proof fn lemma_depth_zero_identity(
    rules: Seq<RuleView>,
    s: Seq<ModuleView>,
    seed: u64,
    drawn: nat,
)
    ensures
        spec_derive(rules, s, 0, seed, drawn) == Ok::<(Seq<ModuleView>, nat), EngineError>(
            (s, drawn),
        ),
{
}

/// Law: a module whose identifier no rule's center matches is copied to
/// the next generation unchanged, and no randomness is consumed.
pub proof fn lemma_no_match_identity(
    rules: Seq<RuleView>,
    s: Seq<ModuleView>,
    i: int,
    seed: u64,
    drawn: nat,
)
    requires
        0 <= i < s.len(),
        forall|j: int|
            0 <= j < rules.len() ==> (#[trigger] rules[j]).pattern.match_center.identifier
                != s[i].identifier,
    ensures
        spec_rewrite_position(rules, s, i, seed, drawn) == Ok::<
            (Seq<ModuleView>, nat),
            EngineError,
        >((seq![s[i]], drawn)),
{
    reveal(spec_rewrite_position);
    let ctx = spec_context_of(s, i);
    lemma_all_mismatch_empty(rules, ctx, s[i].identifier, 0);
}

/// No rule whose center identifier differs from the context's center
/// identifier contributes a match.
proof fn lemma_all_mismatch_empty(rules: Seq<RuleView>, ctx: ContextView, id: char, j: int)
    requires
        0 <= j <= rules.len(),
        ctx.center.identifier == id,
        forall|k: int|
            0 <= k < rules.len() ==> (#[trigger] rules[k]).pattern.match_center.identifier != id,
    ensures
        spec_matching_rules(rules, ctx, j) == Ok::<Seq<int>, EngineError>(Seq::empty()),
    decreases rules.len() - j,
{
    reveal(spec_pattern_match);
    if j < rules.len() {
        lemma_all_mismatch_empty(rules, ctx, id, j + 1);
    }
}

/// Law: when a deterministic rule matches, the first deterministic match
/// in rule-definition order is applied, whatever the seed and however much
/// randomness was consumed before; no randomness is consumed.
pub proof fn lemma_deterministic_precedence(
    rules: Seq<RuleView>,
    s: Seq<ModuleView>,
    i: int,
    seed1: u64,
    drawn1: nat,
    seed2: u64,
    drawn2: nat,
)
    requires
        0 <= i < s.len(),
        spec_matching_rules(rules, spec_context_of(s, i), 0) is Ok,
        spec_first_deterministic(
            rules,
            spec_matching_rules(rules, spec_context_of(s, i), 0).unwrap(),
            0,
        ) is Some,
    ensures
        match spec_rewrite_position(rules, s, i, seed1, drawn1) {
            Ok((mods1, d1)) => d1 == drawn1 && spec_rewrite_position(rules, s, i, seed2, drawn2)
                == Ok::<(Seq<ModuleView>, nat), EngineError>((mods1, drawn2)),
            Err(err) => spec_rewrite_position(rules, s, i, seed2, drawn2) == Err::<
                (Seq<ModuleView>, nat),
                EngineError,
            >(err),
        },
{
    reveal(spec_rewrite_position);
}

/// A list of rule indices as mathematical integers.
pub open spec fn ints_of(s: Seq<usize>) -> Seq<int> {
    s.map_values(|u: usize| u as int)
}

/// An identical copy of a module sequence.
fn duplicate_modules(v: &Vec<Module>) -> (r: Vec<Module>)
    ensures
        r.deep_view() == v.deep_view(),
{
    let n = v.len();
    let mut out: Vec<Module> = Vec::new();
    let mut i: usize = 0;
    while i < n
        invariant
            i <= n,
            n == v@.len(),
            out.deep_view() == v.deep_view().subrange(0, i as int),
        decreases n - i,
    {
        let ghost pre = out.deep_view();
        out.push(v[i].duplicate());
        proof {
            assert(out.deep_view() =~= pre.push(v@[i as int]@));
            assert(out.deep_view() =~= v.deep_view().subrange(0, i + 1));
        }
        i = i + 1;
    }
    proof {
        assert(out.deep_view() =~= v.deep_view());
    }
    out
}

/// Apply one rule, already known to match, to a context: bind the
/// pattern's names and append every instantiated template to `out`.
fn apply_rule(rule: &Rule, context: &ModuleContext, out: &mut Vec<Module>) -> (r: Result<
    (),
    EngineError,
>)
    requires
        spec_pattern_match(rule@.pattern, context@) == Ok::<bool, EngineError>(true),
    ensures
        match spec_apply_rule(rule@, context@) {
            Ok(mods) => r == Ok::<(), EngineError>(()) && final(out).deep_view() == old(
                out,
            ).deep_view() + mods,
            Err(err) => r == Err::<(), EngineError>(err),
        },
{
    let env = rule.pattern.bind(context);
    let ghost base = out.deep_view();
    let ghost ts = rule@.right_side;
    let n = rule.right_side.len();
    let mut t: usize = 0;
    while t < n
        invariant
            t <= n,
            n == rule.right_side@.len(),
            ts == rule@.right_side,
            env.well_formed(),
            spec_pattern_bind(rule@.pattern, context@) == Ok::<Map<char, Value>, EngineError>(
                env@,
            ),
            match spec_instantiate_all(ts, env@, t as int) {
                Ok(rest) => spec_instantiate_all(ts, env@, 0) matches Ok(all) && base + all
                    == out.deep_view() + rest,
                Err(err) => spec_instantiate_all(ts, env@, 0) == Err::<Seq<ModuleView>, EngineError>(
                    err,
                ),
            },
        decreases n - t,
    {
        let ghost pre = out.deep_view();
        match rule.right_side[t].instantiate(&env) {
            Err(err) => {
                return Err(err);
            },
            Ok(m) => {
                let ghost mv = m@;
                out.push(m);
                proof {
                    assert(out.deep_view() =~= pre.push(mv));
                    match spec_instantiate_all(ts, env@, t + 1) {
                        Ok(rest2) => {
                            assert(pre + (seq![mv] + rest2) =~= out.deep_view() + rest2);
                        },
                        Err(_) => {},
                    }
                }
            },
        }
        t = t + 1;
    }
    proof {
        match spec_instantiate_all(ts, env@, 0) {
            Ok(all) => {
                assert(base + all =~= out.deep_view() + Seq::<ModuleView>::empty());
                assert(out.deep_view() =~= base + all);
            },
            Err(_) => {},
        }
    }
    Ok(())
}

/// The engine that iterates a module string: it owns the initial string, the rule
/// set, the configured depth, the seeded random source, and the module
/// string the last run produced.
pub struct IterationEngine {
    pub initial: Vec<Module>,
    pub module_string: Vec<Module>,
    pub rules: Vec<Rule>,
    pub iteration_depth: u32,
    /// The engine-owned random source; reseed it through `set_seed`.
    pub source: RandomSource,
}

impl IterationEngine {
    /// The seed of the engine's random source.
    pub open spec fn seed(self) -> u64 {
        self.source.seed()
    }

    /// How many random words the engine has consumed.
    pub open spec fn drawn(self) -> nat {
        self.source.drawn()
    }

    /// A fresh engine: an empty initial string, no rules, depth zero, default seed.
    pub fn new() -> (r: IterationEngine)
        ensures
            r.initial.deep_view() == Seq::<ModuleView>::empty(),
            r.module_string.deep_view() == Seq::<ModuleView>::empty(),
            r.rules.deep_view() == Seq::<RuleView>::empty(),
            r.iteration_depth == 0,
            r.seed() == DEFAULT_SEED,
            r.drawn() == 0,
    {
        let r = IterationEngine {
            initial: Vec::new(),
            module_string: Vec::new(),
            rules: Vec::new(),
            iteration_depth: 0,
            source: RandomSource::from_seed(DEFAULT_SEED),
        };
        proof {
            assert(r.initial.deep_view() =~= Seq::<ModuleView>::empty());
            assert(r.module_string.deep_view() =~= Seq::<ModuleView>::empty());
            assert(r.rules.deep_view() =~= Seq::<RuleView>::empty());
        }
        r
    }

    /// Set how many generations `iterate` computes.
    pub fn set_iteration_depth(&mut self, depth: u32)
        ensures
            final(self).iteration_depth == depth,
            final(self).initial.deep_view() == old(self).initial.deep_view(),
            final(self).module_string.deep_view() == old(self).module_string.deep_view(),
            final(self).rules.deep_view() == old(self).rules.deep_view(),
            final(self).seed() == old(self).seed(),
            final(self).drawn() == old(self).drawn(),
    {
        self.iteration_depth = depth;
    }

    /// Append a rule to the rule set; later rules lose deterministic ties.
    pub fn add_rule(&mut self, rule: Rule)
        ensures
            final(self).rules.deep_view() == old(self).rules.deep_view().push(rule@),
            final(self).initial.deep_view() == old(self).initial.deep_view(),
            final(self).module_string.deep_view() == old(self).module_string.deep_view(),
            final(self).iteration_depth == old(self).iteration_depth,
            final(self).seed() == old(self).seed(),
            final(self).drawn() == old(self).drawn(),
    {
        let ghost pre = self.rules.deep_view();
        let ghost rv = rule@;
        self.rules.push(rule);
        proof {
            assert(self.rules.deep_view() =~= pre.push(rv));
        }
    }

    /// Reseed the engine's random source.
    pub fn set_seed(&mut self, seed: u64)
        ensures
            final(self).seed() == seed,
            final(self).drawn() == 0,
            final(self).initial.deep_view() == old(self).initial.deep_view(),
            final(self).module_string.deep_view() == old(self).module_string.deep_view(),
            final(self).rules.deep_view() == old(self).rules.deep_view(),
            final(self).iteration_depth == old(self).iteration_depth,
    {
        self.source = RandomSource::from_seed(seed);
    }

    /// Rewrite one position of the previous generation's sequence into
    /// `out`, drawing at most one random word.
    #[verifier::rlimit(100)]
    #[verifier::loop_isolation(false)]
    fn rewrite_position(&mut self, current: &Vec<Module>, i: usize, out: &mut Vec<Module>) -> (r:
        Result<(), EngineError>)
        requires
            i < current@.len(),
        ensures
            final(self).initial.deep_view() == old(self).initial.deep_view(),
            final(self).module_string.deep_view() == old(self).module_string.deep_view(),
            final(self).rules.deep_view() == old(self).rules.deep_view(),
            final(self).iteration_depth == old(self).iteration_depth,
            final(self).seed() == old(self).seed(),
            match spec_rewrite_position(
                old(self).rules.deep_view(),
                current.deep_view(),
                i as int,
                old(self).seed(),
                old(self).drawn(),
            ) {
                Ok(pair) => r == Ok::<(), EngineError>(()) && final(out).deep_view() == old(
                    out,
                ).deep_view() + pair.0 && final(self).drawn() == pair.1,
                Err(err) => r == Err::<(), EngineError>(err),
            },
    {
        proof {
            reveal(spec_rewrite_position);
        }
        let ghost rules_v = self.rules.deep_view();
        let ghost cur_v = current.deep_view();

        let mut context = ModuleContext::new(current[i].duplicate());
        if i > 0 {
            context.left = Some(current[i - 1].duplicate());
        }
        if i < current.len() - 1 {
            context.right = Some(current[i + 1].duplicate());
        }
        proof {
            assert(context@ == spec_context_of(cur_v, i as int));
        }
        let ghost ctx_v = context@;

        // Collect every rule whose pattern matches this context.
        let nrules = self.rules.len();
        let mut matching: Vec<usize> = Vec::new();
        let mut j: usize = 0;
        while j < nrules
            invariant
                j <= nrules,
                nrules == self.rules@.len(),
                rules_v == self.rules.deep_view(),
                ctx_v == context@,
                forall|k: int|
                    0 <= k < matching@.len() ==> (#[trigger] matching@[k]) < nrules
                        && spec_pattern_match(rules_v[matching@[k] as int].pattern, ctx_v) == Ok::<
                        bool,
                        EngineError,
                    >(true),
                match spec_matching_rules(rules_v, ctx_v, j as int) {
                    Ok(rest) => spec_matching_rules(rules_v, ctx_v, 0) == Ok::<
                        Seq<int>,
                        EngineError,
                    >(ints_of(matching@) + rest),
                    Err(err) => spec_matching_rules(rules_v, ctx_v, 0) == Err::<
                        Seq<int>,
                        EngineError,
                    >(err),
                },
            decreases nrules - j,
        {
            let ghost pre = matching@;
            match self.rules[j].pattern.does_match(&context) {
                Err(err) => {
                    return Err(err);
                },
                Ok(true) => {
                    matching.push(j);
                    proof {
                        assert(ints_of(matching@) =~= ints_of(pre).push(j as int));
                        match spec_matching_rules(rules_v, ctx_v, j + 1) {
                            Ok(rest2) => {
                                assert(ints_of(pre) + (seq![j as int] + rest2) =~= ints_of(
                                    matching@,
                                ) + rest2);
                            },
                            Err(_) => {},
                        }
                    }
                },
                Ok(false) => {},
            }
            j = j + 1;
        }
        let ghost idxs = ints_of(matching@);
        proof {
            assert(idxs + Seq::<int>::empty() =~= idxs);
            assert(spec_matching_rules(rules_v, ctx_v, 0) == Ok::<Seq<int>, EngineError>(idxs));
        }

        // With no match the module is kept unchanged.
        if matching.len() == 0 {
            let ghost pre = out.deep_view();
            out.push(current[i].duplicate());
            proof {
                assert(out.deep_view() =~= pre + seq![cur_v[i as int]]);
            }
            return Ok(());
        }

        // The first deterministic match, in rule-definition order, wins.
        let m = matching.len();
        let mut k: usize = 0;
        while k < m
            invariant
                k <= m,
                m == matching@.len(),
                rules_v == self.rules.deep_view(),
                nrules == self.rules@.len(),
                idxs == ints_of(matching@),
                forall|q: int|
                    0 <= q < matching@.len() ==> (#[trigger] matching@[q]) < nrules
                        && spec_pattern_match(rules_v[matching@[q] as int].pattern, ctx_v) == Ok::<
                        bool,
                        EngineError,
                    >(true),
                spec_first_deterministic(rules_v, idxs, 0) == spec_first_deterministic(
                    rules_v,
                    idxs,
                    k as int,
                ),
                out.deep_view() == old(out).deep_view(),
                self.drawn() == old(self).drawn(),
            decreases m - k,
        {
            let cand = matching[k];
            if self.rules[cand].is_deterministic() {
                proof {
                    assert(rules_v[cand as int] == self.rules@[cand as int]@);
                    assert(idxs[k as int] == cand as int);
                    assert(spec_first_deterministic(rules_v, idxs, 0) == Some(cand as int));
                }
                return apply_rule(&self.rules[cand], &context, out);
            }
            k = k + 1;
        }
        proof {
            assert(spec_first_deterministic(rules_v, idxs, 0) is None);
        }

        // All matches are probabilistic: draw one by weight.
        let mut items: Vec<Weighted<usize>> = Vec::new();
        let mut k2: usize = 0;
        while k2 < m
            invariant
                k2 <= m,
                m == matching@.len(),
                rules_v == self.rules.deep_view(),
                nrules == self.rules@.len(),
                idxs == ints_of(matching@),
                forall|q: int|
                    0 <= q < matching@.len() ==> (#[trigger] matching@[q]) < nrules
                        && spec_pattern_match(rules_v[matching@[q] as int].pattern, ctx_v) == Ok::<
                        bool,
                        EngineError,
                    >(true),
                items@.len() == k2,
                forall|q: int|
                    0 <= q < k2 ==> (#[trigger] items@[q]).item == matching@[q] && items@[q].weight
                        == rules_v[idxs[q]].probability,
            decreases m - k2,
        {
            let cand = matching[k2];
            items.push(Weighted { weight: self.rules[cand].probability, item: cand });
            k2 = k2 + 1;
        }
        let ghost ws = spec_weights_at(rules_v, idxs);
        proof {
            assert(weights_of(items@) =~= ws);
        }
        let ghost items_v = items@;
        match WeightedChoice::new(items) {
            Err(err) => {
                return Err(err);
            },
            Ok(wc) => {
                let ghost pick = spec_pick(
                    ws,
                    std_rng_word(self.seed(), self.drawn()) as int % wc.spec_total(),
                );
                proof {
                    crate::util::lemma_pick_in_range(ws, std_rng_word(
                        self.seed(),
                        self.drawn(),
                    ) as int % wc.spec_total(), 0);
                }
                let chosen = *wc.sample(&mut self.source);
                proof {
                    assert(chosen == matching@[pick]);
                    assert(idxs[pick] == chosen as int);
                    assert(rules_v[chosen as int] == self.rules@[chosen as int]@);
                }
                apply_rule(&self.rules[chosen], &context, out)
            },
        }
    }

    /// Rewrite every position of the previous generation's sequence, left
    /// to right, into a fresh sequence.
    #[verifier::rlimit(60)]
    #[verifier::loop_isolation(false)]
    fn rewrite_generation(&mut self, current: &Vec<Module>) -> (r: Result<Vec<Module>, EngineError>)
        ensures
            final(self).initial.deep_view() == old(self).initial.deep_view(),
            final(self).module_string.deep_view() == old(self).module_string.deep_view(),
            final(self).rules.deep_view() == old(self).rules.deep_view(),
            final(self).iteration_depth == old(self).iteration_depth,
            final(self).seed() == old(self).seed(),
            match spec_generation(
                old(self).rules.deep_view(),
                current.deep_view(),
                old(self).seed(),
                old(self).drawn(),
            ) {
                Ok(pair) => r matches Ok(v) && v.deep_view() == pair.0 && final(self).drawn()
                    == pair.1,
                Err(err) => r == Err::<Vec<Module>, EngineError>(err),
            },
    {
        let ghost rules_v = self.rules.deep_view();
        let ghost cur_v = current.deep_view();
        let ghost seed = self.seed();
        let ghost drawn0 = self.drawn();

        let n = current.len();
        let mut out: Vec<Module> = Vec::new();
        let mut i: usize = 0;
        proof {
            assert(out.deep_view() =~= Seq::<ModuleView>::empty());
        }
        while i < n
            invariant
                i <= n,
                n == current@.len(),
                cur_v == current.deep_view(),
                rules_v == self.rules.deep_view(),
                seed == self.seed(),
                self.initial.deep_view() == old(self).initial.deep_view(),
                self.module_string.deep_view() == old(self).module_string.deep_view(),
                self.rules.deep_view() == old(self).rules.deep_view(),
                self.iteration_depth == old(self).iteration_depth,
                spec_rewrite_upto(rules_v, cur_v, i as int, seed, drawn0) == Ok::<
                    (Seq<ModuleView>, nat),
                    EngineError,
                >((out.deep_view(), self.drawn())),
            decreases n - i,
        {
            match self.rewrite_position(current, i, &mut out) {
                Ok(()) => {},
                Err(err) => {
                    proof {
                        lemma_rewrite_upto_error(rules_v, cur_v, i + 1, n as int, seed, drawn0, err);
                    }
                    return Err(err);
                },
            }
            i = i + 1;
        }
        Ok(out)
    }

    /// Perform the configured number of generations, starting from the
    /// initial string, and leave the result in `module_string`. An error leaves
    /// `module_string` as it was.
    #[verifier::rlimit(60)]
    #[verifier::loop_isolation(false)]
    pub fn iterate(&mut self) -> (r: Result<(), EngineError>)
        ensures
            final(self).initial.deep_view() == old(self).initial.deep_view(),
            final(self).rules.deep_view() == old(self).rules.deep_view(),
            final(self).iteration_depth == old(self).iteration_depth,
            final(self).seed() == old(self).seed(),
            match spec_derive(
                old(self).rules.deep_view(),
                old(self).initial.deep_view(),
                old(self).iteration_depth as nat,
                old(self).seed(),
                old(self).drawn(),
            ) {
                Ok(pair) => r == Ok::<(), EngineError>(()) && final(self).module_string.deep_view()
                    == pair.0 && final(self).drawn() == pair.1,
                Err(err) => r == Err::<(), EngineError>(err)
                    && final(self).module_string.deep_view() == old(
                    self).module_string.deep_view(),
            },
    {
        let ghost rules_v = self.rules.deep_view();
        let ghost initial_v = self.initial.deep_view();
        let ghost seed = self.seed();
        let ghost drawn0 = self.drawn();

        let depth = self.iteration_depth;
        let mut current = duplicate_modules(&self.initial);
        let mut g: u32 = 0;
        while g < depth
            invariant
                g <= depth,
                rules_v == self.rules.deep_view(),
                initial_v == self.initial.deep_view(),
                seed == self.seed(),
                depth == self.iteration_depth,
                self.initial.deep_view() == old(self).initial.deep_view(),
                self.module_string.deep_view() == old(self).module_string.deep_view(),
                self.rules.deep_view() == old(self).rules.deep_view(),
                self.iteration_depth == old(self).iteration_depth,
                spec_derive(rules_v, initial_v, depth as nat, seed, drawn0) == spec_derive(
                    rules_v,
                    current.deep_view(),
                    (depth - g) as nat,
                    seed,
                    self.drawn(),
                ),
            decreases depth - g,
        {
            match self.rewrite_generation(&current) {
                Ok(next) => {
                    current = next;
                },
                Err(err) => {
                    return Err(err);
                },
            }
            g = g + 1;
        }
        self.module_string = current;
        Ok(())
    }
}

} // verus!
