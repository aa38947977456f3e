use vstd::prelude::*;

verus! {

/// Number of fixed-point units in one whole unit: values carry six decimal places.
pub const SCALE: u64 = 1_000_000;

/// Largest magnitude, counted in fixed-point units, that a `Value` may hold.
pub const MAX_MAG: u64 = 1_000_000_000_000_000_000;

/// Whether a fixed-point unit count is representable as a `Value`.
pub open spec fn in_range(x: int) -> bool {
    -(MAX_MAG as int) <= x <= MAX_MAG as int
}

/// Magnitude of a mathematical integer.
pub open spec fn abs_of(x: int) -> int {
    if x < 0 {
        -x
    } else {
        x
    }
}

/// Division that truncates toward zero, the rounding used for products and
/// quotients of fixed-point values.
pub open spec fn tdiv(x: int, d: int) -> int
    recommends
        d != 0,
{
    if x >= 0 {
        if d >= 0 {
            x / d
        } else {
            -(x / (-d))
        }
    } else {
        if d >= 0 {
            -((-x) / d)
        } else {
            (-x) / (-d)
        }
    }
}

/// An exact fixed-point number with six decimal places.
///
/// Module parameters, expression constants and rule weights are values of this
/// type. The view of a `Value` is its count of fixed-point units as a
/// mathematical integer, so a view of 1_500_000 stands for one and a half.
#[derive(Clone, Copy, Debug, PartialEq, Eq, Structural)]
pub struct Value {
    negative: bool,
    magnitude: u64,
}

impl View for Value {
    type V = int;

    closed spec fn view(&self) -> int {
        if self.negative {
            -(self.magnitude as int)
        } else {
            self.magnitude as int
        }
    }
}

impl Value {
    /// Magnitudes stay within range and zero has a single representation.
    #[verifier::type_invariant]
    spec fn inv(self) -> bool {
        &&& self.magnitude <= MAX_MAG
        &&& self.magnitude == 0 ==> !self.negative
    }

    /// The canonical representation of a unit count.
    pub closed spec fn of_int(x: int) -> Value {
        if x < 0 {
            Value { negative: true, magnitude: (-x) as u64 }
        } else {
            Value { negative: false, magnitude: x as u64 }
        }
    }

    /// The value one.
    pub closed spec fn spec_one() -> Value {
        Value::of_int(SCALE as int)
    }

    /// The exact sum, when it is representable.
    pub closed spec fn spec_add(a: Value, b: Value) -> Option<Value> {
        if in_range(a@ + b@) {
            Some(Value::of_int(a@ + b@))
        } else {
            None
        }
    }

    /// The exact difference, when it is representable.
    pub closed spec fn spec_sub(a: Value, b: Value) -> Option<Value> {
        if in_range(a@ - b@) {
            Some(Value::of_int(a@ - b@))
        } else {
            None
        }
    }

    /// The negated value; negation never leaves the range.
    pub closed spec fn spec_neg(a: Value) -> Value {
        Value::of_int(-a@)
    }

    /// The fixed-point product, truncated toward zero, when representable.
    pub closed spec fn spec_mul(a: Value, b: Value) -> Option<Value> {
        let q = tdiv(a@ * b@, SCALE as int);
        if in_range(q) {
            Some(Value::of_int(q))
        } else {
            None
        }
    }

    /// The fixed-point quotient, truncated toward zero, when representable.
    pub closed spec fn spec_div(a: Value, b: Value) -> Option<Value>
        recommends
            b@ != 0,
    {
        let q = tdiv(a@ * SCALE as int, b@);
        if in_range(q) {
            Some(Value::of_int(q))
        } else {
            None
        }
    }

    /// The value raised to a whole-number power, by repeated truncated
    /// multiplication, when every intermediate product is representable.
    pub closed spec fn spec_pow(base: Value, k: nat) -> Option<Value>
        decreases k,
    {
        if k == 0 {
            Some(Value::spec_one())
        } else {
            match Value::spec_pow(base, (k - 1) as nat) {
                None => None,
                Some(p) => Value::spec_mul(p, base),
            }
        }
    }

    /// The value zero.
    pub fn zero() -> (r: Value)
        ensures
            r@ == 0,
            r == Value::of_int(0),
    {
        Value { negative: false, magnitude: 0 }
    }

    /// The value one.
    pub fn one() -> (r: Value)
        ensures
            r@ == SCALE as int,
            r == Value::spec_one(),
    {
        Value { negative: false, magnitude: SCALE }
    }

    /// The value of a whole number.
    pub fn from_int(i: i64) -> (r: Value)
        requires
            -1_000_000_000_000 <= i <= 1_000_000_000_000,
        ensures
            r@ == i * SCALE as int,
            r == Value::of_int(i * SCALE as int),
    {
        if i >= 0 {
            Value { negative: false, magnitude: (i as u64) * SCALE }
        } else {
            let mag: u64 = ((-(i as i128)) as u64) * SCALE;
            Value { negative: true, magnitude: mag }
        }
    }

    /// The value holding the given count of fixed-point units, when the count
    /// is representable.
    pub fn from_units(negative: bool, units: u64) -> (r: Option<Value>)
        ensures
            r is Some <==> units <= MAX_MAG,
            r matches Some(v) ==> v@ == if negative {
                -(units as int)
            } else {
                units as int
            },
            r matches Some(v) ==> v == Value::of_int(
                if negative {
                    -(units as int)
                } else {
                    units as int
                },
            ),
    {
        if units > MAX_MAG {
            None
        } else if units == 0 {
            Some(Value { negative: false, magnitude: 0 })
        } else {
            Some(Value { negative, magnitude: units })
        }
    }

    /// Whether the value is strictly below zero.
    pub fn is_negative(&self) -> (r: bool)
        ensures
            r == (self@ < 0),
    {
        proof {
            use_type_invariant(*self);
        }
        self.negative
    }

    /// The count of fixed-point units in the value's magnitude.
    pub fn units(&self) -> (r: u64)
        ensures
            r == abs_of(self@),
            r <= MAX_MAG,
    {
        proof {
            use_type_invariant(*self);
        }
        self.magnitude
    }

    /// Whether two values are equal.
    pub fn equals(&self, other: &Value) -> (r: bool)
        ensures
            r == (self@ == other@),
    {
        proof {
            use_type_invariant(*self);
            use_type_invariant(*other);
        }
        self.negative == other.negative && self.magnitude == other.magnitude
    }

    /// Whether this value is strictly below the other.
    pub fn lt(&self, other: &Value) -> (r: bool)
        ensures
            r == (self@ < other@),
    {
        proof {
            use_type_invariant(*self);
            use_type_invariant(*other);
        }
        if self.negative {
            if other.negative {
                other.magnitude < self.magnitude
            } else {
                true
            }
        } else {
            if other.negative {
                false
            } else {
                self.magnitude < other.magnitude
            }
        }
    }

    /// Whether this value is at or below the other.
    pub fn le(&self, other: &Value) -> (r: bool)
        ensures
            r == (self@ <= other@),
    {
        !other.lt(self)
    }

    /// The negated value.
    pub fn negate(&self) -> (r: Value)
        ensures
            r == Value::spec_neg(*self),
            r@ == -self@,
    {
        proof {
            use_type_invariant(*self);
        }
        if self.magnitude == 0 {
            Value { negative: false, magnitude: 0 }
        } else {
            Value { negative: !self.negative, magnitude: self.magnitude }
        }
    }

    /// The sum, or `None` when it leaves the representable range.
    pub fn checked_add(&self, other: &Value) -> (r: Option<Value>)
        ensures
            r == Value::spec_add(*self, *other),
            r is Some <==> in_range(self@ + other@),
            r matches Some(v) ==> v@ == self@ + other@,
    {
        proof {
            use_type_invariant(*self);
            use_type_invariant(*other);
        }
        if self.negative == other.negative {
            let m: u64 = self.magnitude + other.magnitude;
            if m > MAX_MAG {
                None
            } else if m == 0 {
                Some(Value { negative: false, magnitude: 0 })
            } else {
                Some(Value { negative: self.negative, magnitude: m })
            }
        } else {
            if self.magnitude >= other.magnitude {
                let m: u64 = self.magnitude - other.magnitude;
                if m == 0 {
                    Some(Value { negative: false, magnitude: 0 })
                } else {
                    Some(Value { negative: self.negative, magnitude: m })
                }
            } else {
                let m: u64 = other.magnitude - self.magnitude;
                Some(Value { negative: other.negative, magnitude: m })
            }
        }
    }

    /// The difference, or `None` when it leaves the representable range.
    pub fn checked_sub(&self, other: &Value) -> (r: Option<Value>)
        ensures
            r == Value::spec_sub(*self, *other),
            r is Some <==> in_range(self@ - other@),
            r matches Some(v) ==> v@ == self@ - other@,
    {
        self.checked_add(&other.negate())
    }

    /// The truncated fixed-point product, or `None` when it leaves the range.
    pub fn checked_mul(&self, other: &Value) -> (r: Option<Value>)
        ensures
            r == Value::spec_mul(*self, *other),
            r is Some <==> in_range(tdiv(self@ * other@, SCALE as int)),
            r matches Some(v) ==> v@ == tdiv(self@ * other@, SCALE as int),
    {
        proof {
            use_type_invariant(*self);
            use_type_invariant(*other);
            assert((self.magnitude as int) * (other.magnitude as int) <= (MAX_MAG as int) * (
            MAX_MAG as int)) by (nonlinear_arith)
                requires
                    self.magnitude <= MAX_MAG,
                    other.magnitude <= MAX_MAG,
            ;
        }
        let p: u128 = (self.magnitude as u128) * (other.magnitude as u128);
        let q: u128 = p / (SCALE as u128);
        proof {
            assert(self@ * other@ == if self.negative != other.negative {
                -(p as int)
            } else {
                p as int
            }) by (nonlinear_arith)
                requires
                    p == (self.magnitude as int) * (other.magnitude as int),
                    self@ == if self.negative {
                        -(self.magnitude as int)
                    } else {
                        self.magnitude as int
                    },
                    other@ == if other.negative {
                        -(other.magnitude as int)
                    } else {
                        other.magnitude as int
                    },
            ;
            assert(tdiv(self@ * other@, SCALE as int) == if self.negative != other.negative {
                -(q as int)
            } else {
                q as int
            });
        }
        if q > MAX_MAG as u128 {
            None
        } else if q == 0 {
            Some(Value { negative: false, magnitude: 0 })
        } else {
            Some(Value { negative: self.negative != other.negative, magnitude: q as u64 })
        }
    }

    /// The truncated fixed-point quotient, or `None` when it leaves the range.
    pub fn checked_div(&self, other: &Value) -> (r: Option<Value>)
        requires
            other@ != 0,
        ensures
            r == Value::spec_div(*self, *other),
            r is Some <==> in_range(tdiv(self@ * SCALE as int, other@)),
            r matches Some(v) ==> v@ == tdiv(self@ * SCALE as int, other@),
    {
        proof {
            use_type_invariant(*self);
            use_type_invariant(*other);
        }
        let n: u128 = (self.magnitude as u128) * (SCALE as u128);
        let q: u128 = n / (other.magnitude as u128);
        proof {
            assert(abs_of(self@ * SCALE as int) == (self.magnitude as int) * (SCALE as int));
            assert(q == abs_of(self@ * SCALE as int) / (other.magnitude as int));
            assert(tdiv(self@ * SCALE as int, other@) == if (self@ * SCALE as int >= 0)
                == (other@ >= 0) {
                q as int
            } else {
                -(q as int)
            });
        }
        if q > MAX_MAG as u128 {
            None
        } else if q == 0 {
            Some(Value { negative: false, magnitude: 0 })
        } else {
            Some(Value { negative: self.negative != other.negative, magnitude: q as u64 })
        }
    }

    /// The whole-number power, or `None` when an intermediate product leaves
    /// the range.
    pub fn checked_pow(&self, k: u64) -> (r: Option<Value>)
        ensures
            r == Value::spec_pow(*self, k as nat),
    {
        let mut acc: Value = Value::one();
        let mut j: u64 = 0;
        while j < k
            invariant
                j <= k,
                Value::spec_pow(*self, j as nat) == Some(acc),
            decreases k - j,
        {
            match acc.checked_mul(self) {
                Some(next) => {
                    acc = next;
                },
                None => {
                    proof {
                        lemma_pow_none_propagates(*self, (j + 1) as nat, k as nat);
                    }
                    return None;
                },
            }
            j = j + 1;
        }
        Some(acc)
    }
}

/// Once an intermediate power overflows, every later power overflows too.
proof fn lemma_pow_none_propagates(base: Value, j: nat, k: nat)
    requires
        j <= k,
        Value::spec_pow(base, j) is None,
    ensures
        Value::spec_pow(base, k) is None,
    decreases k - j,
{
    if j < k {
        lemma_pow_none_propagates(base, j + 1, k);
    }
}

} // verus!
