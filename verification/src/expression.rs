use vstd::prelude::*;
use crate::environment::Environment;
use crate::errors::EngineError;
use crate::value::{abs_of, Value, SCALE};

verus! {

/// An expression that evaluates to a number. It creates new parameter values
/// when a module string is rewritten, and supplies the operands of the
/// comparisons inside rule guard conditions.
#[derive(Debug, PartialEq)]
pub enum ArithmeticExpression {
    Add(Box<ArithmeticExpression>, Box<ArithmeticExpression>),
    Sub(Box<ArithmeticExpression>, Box<ArithmeticExpression>),
    Mul(Box<ArithmeticExpression>, Box<ArithmeticExpression>),
    Div(Box<ArithmeticExpression>, Box<ArithmeticExpression>),
    Pow(Box<ArithmeticExpression>, Box<ArithmeticExpression>),
    Neg(Box<ArithmeticExpression>),
    Const(Value),
    Param(char),
}

/// A boolean expression used as the guard condition of a module pattern.
#[derive(Debug, PartialEq)]
pub enum BooleanExpression {
    Not(Box<BooleanExpression>),
    And(Box<BooleanExpression>, Box<BooleanExpression>),
    Or(Box<BooleanExpression>, Box<BooleanExpression>),
    Lth(Box<ArithmeticExpression>, Box<ArithmeticExpression>),
    Leq(Box<ArithmeticExpression>, Box<ArithmeticExpression>),
    Gth(Box<ArithmeticExpression>, Box<ArithmeticExpression>),
    Geq(Box<ArithmeticExpression>, Box<ArithmeticExpression>),
    Eq(Box<ArithmeticExpression>, Box<ArithmeticExpression>),
    Const(bool),
}

/// A statement usable in an execution block of a rule.
#[derive(Debug, PartialEq)]
pub enum Statement {
    IfThenElse(Box<BooleanExpression>, Box<Statement>, Option<Box<Statement>>),
    Assignment(char, Box<ArithmeticExpression>),
}

/// Raising a value to the power another value names: the exponent must be a
/// whole number; a negative exponent divides one by the positive power.
pub open spec fn spec_apply_pow(a: Value, b: Value) -> Result<Value, EngineError> {
    if abs_of(b@) % (SCALE as int) != 0 {
        Err(EngineError::FractionalExponent)
    } else {
        let k = (abs_of(b@) / (SCALE as int)) as nat;
        match Value::spec_pow(a, k) {
            None => Err(EngineError::ArithmeticOverflow),
            Some(p) => if b@ < 0 {
                if p@ == 0 {
                    Err(EngineError::DivisionByZero)
                } else {
                    match Value::spec_div(Value::spec_one(), p) {
                        None => Err(EngineError::ArithmeticOverflow),
                        Some(v) => Ok(v),
                    }
                }
            } else {
                Ok(p)
            },
        }
    }
}

/// The value of an arithmetic expression under a parameter binding, or the
/// first error met when reading the expression left to right.
pub open spec fn spec_eval_arith(e: ArithmeticExpression, env: Map<char, Value>) -> Result<
    Value,
    EngineError,
>
    decreases e,
{
    match e {
        ArithmeticExpression::Const(v) => Ok(v),
        ArithmeticExpression::Param(p) => if env.contains_key(p) {
            Ok(env[p])
        } else {
            Err(EngineError::UnboundParameter(p))
        },
        ArithmeticExpression::Neg(inner) => match spec_eval_arith(*inner, env) {
            Err(err) => Err(err),
            Ok(a) => Ok(Value::spec_neg(a)),
        },
        ArithmeticExpression::Add(l, r) => match spec_eval_arith(*l, env) {
            Err(err) => Err(err),
            Ok(a) => match spec_eval_arith(*r, env) {
                Err(err) => Err(err),
                Ok(b) => match Value::spec_add(a, b) {
                    None => Err(EngineError::ArithmeticOverflow),
                    Some(v) => Ok(v),
                },
            },
        },
        ArithmeticExpression::Sub(l, r) => match spec_eval_arith(*l, env) {
            Err(err) => Err(err),
            Ok(a) => match spec_eval_arith(*r, env) {
                Err(err) => Err(err),
                Ok(b) => match Value::spec_sub(a, b) {
                    None => Err(EngineError::ArithmeticOverflow),
                    Some(v) => Ok(v),
                },
            },
        },
        ArithmeticExpression::Mul(l, r) => match spec_eval_arith(*l, env) {
            Err(err) => Err(err),
            Ok(a) => match spec_eval_arith(*r, env) {
                Err(err) => Err(err),
                Ok(b) => match Value::spec_mul(a, b) {
                    None => Err(EngineError::ArithmeticOverflow),
                    Some(v) => Ok(v),
                },
            },
        },
        ArithmeticExpression::Div(l, r) => match spec_eval_arith(*l, env) {
            Err(err) => Err(err),
            Ok(a) => match spec_eval_arith(*r, env) {
                Err(err) => Err(err),
                Ok(b) => if b@ == 0 {
                    Err(EngineError::DivisionByZero)
                } else {
                    match Value::spec_div(a, b) {
                        None => Err(EngineError::ArithmeticOverflow),
                        Some(v) => Ok(v),
                    }
                },
            },
        },
        ArithmeticExpression::Pow(l, r) => match spec_eval_arith(*l, env) {
            Err(err) => Err(err),
            Ok(a) => match spec_eval_arith(*r, env) {
                Err(err) => Err(err),
                Ok(b) => spec_apply_pow(a, b),
            },
        },
    }
}

/// The truth of a boolean expression under a parameter binding, or the first
/// error met when reading the expression left to right; both operands of a
/// conjunction or disjunction are always evaluated.
pub open spec fn spec_eval_bool(e: BooleanExpression, env: Map<char, Value>) -> Result<
    bool,
    EngineError,
>
    decreases e,
{
    match e {
        BooleanExpression::Const(b) => Ok(b),
        BooleanExpression::Not(inner) => match spec_eval_bool(*inner, env) {
            Err(err) => Err(err),
            Ok(a) => Ok(!a),
        },
        BooleanExpression::And(l, r) => match spec_eval_bool(*l, env) {
            Err(err) => Err(err),
            Ok(a) => match spec_eval_bool(*r, env) {
                Err(err) => Err(err),
                Ok(b) => Ok(a && b),
            },
        },
        BooleanExpression::Or(l, r) => match spec_eval_bool(*l, env) {
            Err(err) => Err(err),
            Ok(a) => match spec_eval_bool(*r, env) {
                Err(err) => Err(err),
                Ok(b) => Ok(a || b),
            },
        },
        BooleanExpression::Lth(l, r) => spec_eval_cmp(*l, *r, env, CompareKind::Lth),
        BooleanExpression::Leq(l, r) => spec_eval_cmp(*l, *r, env, CompareKind::Leq),
        BooleanExpression::Gth(l, r) => spec_eval_cmp(*l, *r, env, CompareKind::Gth),
        BooleanExpression::Geq(l, r) => spec_eval_cmp(*l, *r, env, CompareKind::Geq),
        BooleanExpression::Eq(l, r) => spec_eval_cmp(*l, *r, env, CompareKind::Eq),
    }
}

/// The comparison operators of the guard language.
#[derive(Clone, Copy, Debug, PartialEq, Eq, Structural)]
pub enum CompareKind {
    Lth,
    Leq,
    Gth,
    Geq,
    Eq,
}

/// One relational operator applied to two evaluated operands.
pub open spec fn spec_compare(a: Value, b: Value, kind: CompareKind) -> bool {
    match kind {
        CompareKind::Lth => a@ < b@,
        CompareKind::Leq => a@ <= b@,
        CompareKind::Gth => a@ > b@,
        CompareKind::Geq => a@ >= b@,
        CompareKind::Eq => a@ == b@,
    }
}

/// A comparison node: evaluate both arithmetic operands, left first, and
/// apply the relational operator.
pub open spec fn spec_eval_cmp(
    l: ArithmeticExpression,
    r: ArithmeticExpression,
    env: Map<char, Value>,
    kind: CompareKind,
) -> Result<bool, EngineError> {
    match spec_eval_arith(l, env) {
        Err(err) => Err(err),
        Ok(a) => match spec_eval_arith(r, env) {
            Err(err) => Err(err),
            Ok(b) => Ok(spec_compare(a, b, kind)),
        },
    }
}

impl ArithmeticExpression {
    /// Evaluate the expression under the given binding.
    pub fn eval(&self, env: &Environment) -> (r: Result<Value, EngineError>)
        requires
            env.well_formed(),
        ensures
            r == spec_eval_arith(*self, env@),
        decreases *self,
    {
        match self {
            ArithmeticExpression::Const(v) => Ok(*v),
            ArithmeticExpression::Param(p) => {
                if env.has_parameter(*p) {
                    Ok(env.get_parameter_value(*p))
                } else {
                    Err(EngineError::UnboundParameter(*p))
                }
            },
            ArithmeticExpression::Neg(inner) => {
                match inner.eval(env) {
                    Err(err) => Err(err),
                    Ok(a) => Ok(a.negate()),
                }
            },
            ArithmeticExpression::Add(l, r) => {
                match l.eval(env) {
                    Err(err) => Err(err),
                    Ok(a) => match r.eval(env) {
                        Err(err) => Err(err),
                        Ok(b) => match a.checked_add(&b) {
                            None => Err(EngineError::ArithmeticOverflow),
                            Some(v) => Ok(v),
                        },
                    },
                }
            },
            ArithmeticExpression::Sub(l, r) => {
                match l.eval(env) {
                    Err(err) => Err(err),
                    Ok(a) => match r.eval(env) {
                        Err(err) => Err(err),
                        Ok(b) => match a.checked_sub(&b) {
                            None => Err(EngineError::ArithmeticOverflow),
                            Some(v) => Ok(v),
                        },
                    },
                }
            },
            ArithmeticExpression::Mul(l, r) => {
                match l.eval(env) {
                    Err(err) => Err(err),
                    Ok(a) => match r.eval(env) {
                        Err(err) => Err(err),
                        Ok(b) => match a.checked_mul(&b) {
                            None => Err(EngineError::ArithmeticOverflow),
                            Some(v) => Ok(v),
                        },
                    },
                }
            },
            ArithmeticExpression::Div(l, r) => {
                match l.eval(env) {
                    Err(err) => Err(err),
                    Ok(a) => match r.eval(env) {
                        Err(err) => Err(err),
                        Ok(b) => {
                            let zero = Value::zero();
                            if b.equals(&zero) {
                                Err(EngineError::DivisionByZero)
                            } else {
                                match a.checked_div(&b) {
                                    None => Err(EngineError::ArithmeticOverflow),
                                    Some(v) => Ok(v),
                                }
                            }
                        },
                    },
                }
            },
            ArithmeticExpression::Pow(l, r) => {
                match l.eval(env) {
                    Err(err) => Err(err),
                    Ok(a) => match r.eval(env) {
                        Err(err) => Err(err),
                        Ok(b) => apply_pow(a, b),
                    },
                }
            },
        }
    }
}

/// Evaluate one power node once both operands are known.
fn apply_pow(a: Value, b: Value) -> (r: Result<Value, EngineError>)
    ensures
        r == spec_apply_pow(a, b),
{
    let units = b.units();
    if units % SCALE != 0 {
        Err(EngineError::FractionalExponent)
    } else {
        let k = units / SCALE;
        match a.checked_pow(k) {
            None => Err(EngineError::ArithmeticOverflow),
            Some(p) => {
                if b.is_negative() {
                    let zero = Value::zero();
                    if p.equals(&zero) {
                        Err(EngineError::DivisionByZero)
                    } else {
                        let one = Value::one();
                        match one.checked_div(&p) {
                            None => Err(EngineError::ArithmeticOverflow),
                            Some(v) => Ok(v),
                        }
                    }
                } else {
                    Ok(p)
                }
            },
        }
    }
}

impl BooleanExpression {
    /// Evaluate the guard expression under the given binding.
    pub fn eval(&self, env: &Environment) -> (r: Result<bool, EngineError>)
        requires
            env.well_formed(),
        ensures
            r == spec_eval_bool(*self, env@),
        decreases *self,
    {
        match self {
            BooleanExpression::Const(b) => Ok(*b),
            BooleanExpression::Not(inner) => {
                match inner.eval(env) {
                    Err(err) => Err(err),
                    Ok(a) => Ok(!a),
                }
            },
            BooleanExpression::And(l, r) => {
                match l.eval(env) {
                    Err(err) => Err(err),
                    Ok(a) => match r.eval(env) {
                        Err(err) => Err(err),
                        Ok(b) => Ok(a && b),
                    },
                }
            },
            BooleanExpression::Or(l, r) => {
                match l.eval(env) {
                    Err(err) => Err(err),
                    Ok(a) => match r.eval(env) {
                        Err(err) => Err(err),
                        Ok(b) => Ok(a || b),
                    },
                }
            },
            BooleanExpression::Lth(l, r) => eval_cmp(l, r, env, CompareKind::Lth),
            BooleanExpression::Leq(l, r) => eval_cmp(l, r, env, CompareKind::Leq),
            BooleanExpression::Gth(l, r) => eval_cmp(l, r, env, CompareKind::Gth),
            BooleanExpression::Geq(l, r) => eval_cmp(l, r, env, CompareKind::Geq),
            BooleanExpression::Eq(l, r) => eval_cmp(l, r, env, CompareKind::Eq),
        }
    }
}

/// Evaluate one comparison node.
fn eval_cmp(
    l: &ArithmeticExpression,
    r: &ArithmeticExpression,
    env: &Environment,
    kind: CompareKind,
) -> (res: Result<bool, EngineError>)
    requires
        env.well_formed(),
    ensures
        res == spec_eval_cmp(*l, *r, env@, kind),
{
    match l.eval(env) {
        Err(err) => Err(err),
        Ok(a) => match r.eval(env) {
            Err(err) => Err(err),
            Ok(b) => {
                let c = match kind {
                    CompareKind::Lth => a.lt(&b),
                    CompareKind::Leq => a.le(&b),
                    CompareKind::Gth => b.lt(&a),
                    CompareKind::Geq => b.le(&a),
                    CompareKind::Eq => a.equals(&b),
                };
                Ok(c)
            },
        },
    }
}

} // verus!
