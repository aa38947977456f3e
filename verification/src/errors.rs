use vstd::prelude::*;

verus! {

/// Every failure the rewriting core can report.
///
/// The engine never panics: conditions that are fatal for an L-system run
/// (an unbound parameter, a contradictory binding, a degenerate sampling
/// configuration) surface as values of this type.
#[derive(Clone, Copy, Debug, PartialEq, Eq, Structural)]
pub enum EngineError {
    /// An expression referred to a parameter name with no binding.
    UnboundParameter(char),
    /// A binding environment saw the same parameter name twice.
    ParameterRedefinition(char),
    /// An arithmetic result fell outside the representable value range.
    ArithmeticOverflow,
    /// A division had a zero divisor.
    DivisionByZero,
    /// An exponent was not a whole number.
    FractionalExponent,
    /// A weighted choice was built whose weights do not sum to a positive total.
    NonPositiveTotalWeight,
    /// A weighted choice was built over a negative weight.
    NegativeWeight,
    /// A module carried more parameter values than its interpretation accepts.
    TooManyParameters(char),
}

} // verus!
