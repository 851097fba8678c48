//! Integer arithmetic that is wide enough for `Nat` and `Int` together and
//! never overflows unnoticed.

use vstd::prelude::*;

verus! {

/// An integer between `-(2^128 - 1)` and `2^128 - 1`, held as a sign and a
/// magnitude: wide enough for every `Nat` and every `Int`.
#[derive(Debug, Clone, Copy, PartialEq, Eq)]
pub struct Wide {
    pub negative: bool,
    pub magnitude: u128,
}

impl Wide {
    /// The integer that this stands for.
    pub open spec fn value(&self) -> int {
        if self.negative {
            -(self.magnitude as int)
        } else {
            self.magnitude as int
        }
    }

    /// The wide form of an unsigned integer.
    pub fn of_nat(x: u128) -> (r: Wide)
        ensures
            r.value() == x,
    {
        Wide { negative: false, magnitude: x }
    }

    /// The wide form of a signed integer.
    pub fn of_int(x: i128) -> (r: Wide)
        ensures
            r.value() == x,
    {
        if x >= 0 {
            Wide { negative: false, magnitude: x as u128 }
        } else if x == i128::MIN {
            Wide { negative: true, magnitude: 0x8000_0000_0000_0000_0000_0000_0000_0000u128 }
        } else {
            Wide { negative: true, magnitude: (-x) as u128 }
        }
    }

    /// The unsigned integer that this stands for, where it is one.
    pub fn to_nat(&self) -> (r: Option<u128>)
        ensures
            match r {
                Some(x) => x == self.value(),
                None => self.value() < 0,
            },
    {
        if self.negative && self.magnitude > 0 {
            None
        } else {
            Some(self.magnitude)
        }
    }

    /// The signed integer that this stands for, where it fits one.
    pub fn to_int(&self) -> (r: Option<i128>)
        ensures
            match r {
                Some(x) => x == self.value(),
                None => self.value() < i128::MIN || self.value() > i128::MAX,
            },
    {
        if self.negative {
            if self.magnitude <= 0x7fff_ffff_ffff_ffff_ffff_ffff_ffff_ffffu128 {
                Some(-(self.magnitude as i128))
            } else if self.magnitude == 0x8000_0000_0000_0000_0000_0000_0000_0000u128 {
                Some(i128::MIN)
            } else {
                None
            }
        } else {
            if self.magnitude <= 0x7fff_ffff_ffff_ffff_ffff_ffff_ffff_ffffu128 {
                Some(self.magnitude as i128)
            } else {
                None
            }
        }
    }

    /// The sum, where it is within the wide range.
    pub fn plus(&self, other: &Wide) -> (r: Option<Wide>)
        ensures
            match r {
                Some(w) => w.value() == self.value() + other.value(),
                None => out_of_range(self.value() + other.value()),
            },
    {
        if self.negative == other.negative {
            match self.magnitude.checked_add(other.magnitude) {
                Some(m) => Some(Wide { negative: self.negative, magnitude: m }),
                None => None,
            }
        } else if self.magnitude >= other.magnitude {
            Some(Wide { negative: self.negative, magnitude: self.magnitude - other.magnitude })
        } else {
            Some(Wide { negative: other.negative, magnitude: other.magnitude - self.magnitude })
        }
    }

    /// The difference, where it is within the wide range.
    pub fn minus(&self, other: &Wide) -> (r: Option<Wide>)
        ensures
            match r {
                Some(w) => w.value() == self.value() - other.value(),
                None => out_of_range(self.value() - other.value()),
            },
    {
        let opposite = Wide { negative: !other.negative, magnitude: other.magnitude };
        self.plus(&opposite)
    }

    /// The product, where it is within the wide range.
    pub fn times(&self, other: &Wide) -> (r: Option<Wide>)
        ensures
            match r {
                Some(w) => w.value() == self.value() * other.value(),
                None => out_of_range(self.value() * other.value()),
            },
    {
        let ghost a = self.magnitude as int;
        let ghost b = other.magnitude as int;
        proof {
            assert((-a) * b == -(a * b)) by (nonlinear_arith);
            assert(a * (-b) == -(a * b)) by (nonlinear_arith);
            assert((-a) * (-b) == a * b) by (nonlinear_arith);
        }
        match self.magnitude.checked_mul(other.magnitude) {
            Some(m) => Some(Wide { negative: self.negative != other.negative, magnitude: m }),
            None => None,
        }
    }

    /// The quotient, cut off toward zero; none where the divisor is zero.
    pub fn quotient(&self, other: &Wide) -> (r: Option<Wide>)
        ensures
            match r {
                Some(w) => other.value() != 0 && w.value() == truncated_quotient(
                    self.value(),
                    other.value(),
                ),
                None => other.value() == 0,
            },
    {
        if other.magnitude == 0 {
            return None;
        }
        let m = self.magnitude / other.magnitude;
        proof {
            let a = self.magnitude as int;
            let b = other.magnitude as int;
            assert(a == 0 ==> a / b == 0) by (nonlinear_arith)
                requires
                    b > 0,
            ;
        }
        Some(Wide { negative: self.negative != other.negative, magnitude: m })
    }

    /// The remainder of the division that is cut off toward zero: it has
    /// the sign of the dividend; none where the divisor is zero.
    pub fn remainder(&self, other: &Wide) -> (r: Option<Wide>)
        ensures
            match r {
                Some(w) => other.value() != 0 && w.value() == truncated_remainder(
                    self.value(),
                    other.value(),
                ),
                None => other.value() == 0,
            },
    {
        if other.magnitude == 0 {
            return None;
        }
        let m = self.magnitude % other.magnitude;
        proof {
            let a = self.magnitude as int;
            let b = other.magnitude as int;
            assert(a == 0 ==> a % b == 0) by (nonlinear_arith)
                requires
                    b > 0,
            ;
        }
        Some(Wide { negative: self.negative, magnitude: m })
    }

    /// The power with an unsigned exponent, where it is within the wide range.
    #[verifier::loop_isolation(false)]
    pub fn raised(&self, exponent: u128) -> (r: Option<Wide>)
        ensures
            match r {
                Some(w) => w.value() == power(self.value(), exponent as nat),
                None => out_of_range(power(self.value(), exponent as nat)),
            },
    {
        let ghost m = self.magnitude as int;
        let ghost e = exponent as nat;
        let odd = exponent % 2 == 1;
        let negative = self.negative && odd;
        proof {
            lemma_power_sign(m, e);
        }
        if exponent == 0 {
            return Some(Wide { negative: false, magnitude: 1 });
        }
        if self.magnitude == 0 {
            proof {
                lemma_power_of_zero(e);
            }
            return Some(Wide { negative: false, magnitude: 0 });
        }
        if self.magnitude == 1 {
            proof {
                lemma_power_of_one(e);
            }
            return Some(Wide { negative, magnitude: 1 });
        }
        let mut acc: u128 = self.magnitude;
        let mut k: u128 = 1;
        assert(power(m, 1) == m) by {
            assert(power(m, 0) == 1);
            assert(power(m, 1) == m * power(m, 0));
        }
        while k < exponent
            invariant
                1 <= k <= exponent,
                m >= 2,
                m == self.magnitude,
                e == exponent,
                acc == power(m, k as nat),
                acc >= 1,
            decreases exponent - k,
        {
            proof {
                lemma_power_grows(m, (k + 1) as nat, e);
            }
            match acc.checked_mul(self.magnitude) {
                Some(next) => {
                    assert(next == power(m, (k + 1) as nat)) by (nonlinear_arith)
                        requires
                            next == acc * m,
                            acc == power(m, k as nat),
                            power(m, (k + 1) as nat) == m * power(m, k as nat),
                    ;
                    acc = next;
                },
                None => {
                    assert(power(m, (k + 1) as nat) > u128::MAX) by (nonlinear_arith)
                        requires
                            acc * m > u128::MAX,
                            acc == power(m, k as nat),
                            power(m, (k + 1) as nat) == m * power(m, k as nat),
                    ;
                    assert(power(m, e) > u128::MAX);
                    return None;
                },
            }
            k += 1;
        }
        Some(Wide { negative, magnitude: acc })
    }
}

/// Whether an integer is outside the wide range, and so neither a `Nat`
/// nor an `Int`.
pub open spec fn out_of_range(x: int) -> bool {
    x > u128::MAX || x < -(u128::MAX as int)
}

/// The absolute value of an integer.
pub open spec fn magnitude_of(x: int) -> int {
    if x < 0 {
        -x
    } else {
        x
    }
}

/// The quotient of the division that is cut off toward zero.
pub open spec fn truncated_quotient(x: int, y: int) -> int {
    if (x >= 0) == (y > 0) {
        magnitude_of(x) / magnitude_of(y)
    } else {
        -(magnitude_of(x) / magnitude_of(y))
    }
}

/// The remainder of the division that is cut off toward zero.
pub open spec fn truncated_remainder(x: int, y: int) -> int {
    if x >= 0 {
        magnitude_of(x) % magnitude_of(y)
    } else {
        -(magnitude_of(x) % magnitude_of(y))
    }
}

/// The power of an integer with a natural exponent.
pub open spec fn power(base: int, exponent: nat) -> int
    decreases exponent,
{
    if exponent == 0 {
        1
    } else {
        base * power(base, (exponent - 1) as nat)
    }
}

/// The power of a negative base is the power of its magnitude, negative
/// where the exponent is odd.
pub proof fn lemma_power_sign(m: int, e: nat)
    ensures
        power(-m, e) == if e % 2 == 0 {
            power(m, e)
        } else {
            -power(m, e)
        },
    decreases e,
{
    if e > 0 {
        lemma_power_sign(m, (e - 1) as nat);
        let p = power(m, (e - 1) as nat);
        assert((-m) * p == -(m * p)) by (nonlinear_arith);
        assert((-m) * (-p) == m * p) by (nonlinear_arith);
    }
}

/// The powers of zero with a positive exponent are zero.
pub proof fn lemma_power_of_zero(e: nat)
    requires
        e > 0,
    ensures
        power(0, e) == 0,
{
    assert(0 * power(0, (e - 1) as nat) == 0) by (nonlinear_arith);
}

/// The powers of one are one.
pub proof fn lemma_power_of_one(e: nat)
    ensures
        power(1, e) == 1,
    decreases e,
{
    if e > 0 {
        lemma_power_of_one((e - 1) as nat);
    }
}

/// The powers of a base of at least one do not shrink as the exponent grows.
pub proof fn lemma_power_grows(m: int, j: nat, e: nat)
    requires
        m >= 1,
        j <= e,
    ensures
        1 <= power(m, j) <= power(m, e),
    decreases e,
{
    if e == 0 {
    } else if j == e {
        lemma_power_grows(m, (j - 1) as nat, (e - 1) as nat);
        assert(m * power(m, (e - 1) as nat) >= 1) by (nonlinear_arith)
            requires
                m >= 1,
                power(m, (e - 1) as nat) >= 1,
        ;
    } else {
        lemma_power_grows(m, j, (e - 1) as nat);
        assert(m * power(m, (e - 1) as nat) >= power(m, (e - 1) as nat)) by (nonlinear_arith)
            requires
                m >= 1,
                power(m, (e - 1) as nat) >= 1,
        ;
    }
}

} // verus!
