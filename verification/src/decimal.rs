//! Decimal numbers: the language's "float" values.
//!
//! A `Decimal` is a fixed-point number holding `scaled / 1_000_000`, so a
//! literal like `2.222` is stored exactly as `2_222_000`.  Arithmetic is
//! exact where the result fits and saturates at the representable range
//! otherwise; division truncates toward zero.

use vstd::prelude::*;

verus! {

/// How many scaled units make one whole unit: six decimal digits of
/// fraction are kept.
pub const DECIMAL_SCALE: i64 = 1_000_000;

/// A fixed-point decimal number worth `scaled / 1_000_000`.
#[derive(Debug, Clone, Copy, PartialEq, Eq, Structural)]
pub struct Decimal {
    /// The number multiplied by `1_000_000`.
    pub scaled: i64,
}

/// Clamp a mathematical integer into the range of the scaled
/// representation.
pub open spec fn dec_saturate(x: int) -> int {
    if x > i64::MAX {
        i64::MAX as int
    } else if x < i64::MIN {
        i64::MIN as int
    } else {
        x
    }
}

/// Division truncated toward zero, as machine division performs it, for a
/// positive divisor.
pub open spec fn div_trunc(a: int, b: int) -> int {
    if a >= 0 {
        a / b
    } else {
        -((-a) / b)
    }
}

/// The scaled value of the sum of two decimals.
pub open spec fn spec_dec_add(a: int, b: int) -> int {
    dec_saturate(a + b)
}

/// The scaled value of the difference of two decimals.
pub open spec fn spec_dec_sub(a: int, b: int) -> int {
    dec_saturate(a - b)
}

/// The scaled value of the product of two decimals.
pub open spec fn spec_dec_mul(a: int, b: int) -> int {
    dec_saturate(div_trunc(a * b, DECIMAL_SCALE as int))
}

/// The scaled value of the quotient of two decimals (divisor nonzero).
pub open spec fn spec_dec_div(a: int, b: int) -> int {
    dec_saturate(
        if b >= 0 {
            div_trunc(a * (DECIMAL_SCALE as int), b)
        } else {
            -div_trunc(a * (DECIMAL_SCALE as int), -b)
        },
    )
}

/// The scaled value of the negation of a decimal.
pub open spec fn spec_dec_neg(a: int) -> int {
    dec_saturate(-a)
}

/// Truncated division of a product-sized intermediate by a positive
/// divisor.
fn div_trunc_i128(p: i128, d: i128) -> (r: i128)
    requires
        d > 0,
        p > i128::MIN,
    ensures
        r == div_trunc(p as int, d as int),
{
    if p >= 0 {
        let q = p / d;
        proof {
            assert(q == p as int / d as int) by (nonlinear_arith)
                requires
                    p >= 0,
                    d > 0,
                    q == p as int / d as int,
            ;
        }
        q
    } else {
        let q = (-p) / d;
        -q
    }
}

impl Decimal {
    /// Wrap a scaled value.
    pub fn from_scaled(scaled: i64) -> (r: Decimal)
        ensures
            r.scaled == scaled,
    {
        Decimal { scaled }
    }

    /// The sum of two decimals, saturating at the representable range.
    pub fn add(self, other: Decimal) -> (r: Decimal)
        ensures
            r.scaled as int == spec_dec_add(self.scaled as int, other.scaled as int),
    {
        match self.scaled.checked_add(other.scaled) {
            Some(s) => Decimal { scaled: s },
            None => {
                if self.scaled > 0 {
                    Decimal { scaled: i64::MAX }
                } else {
                    Decimal { scaled: i64::MIN }
                }
            },
        }
    }

    /// The difference of two decimals, saturating at the representable
    /// range.
    pub fn sub(self, other: Decimal) -> (r: Decimal)
        ensures
            r.scaled as int == spec_dec_sub(self.scaled as int, other.scaled as int),
    {
        match self.scaled.checked_sub(other.scaled) {
            Some(s) => Decimal { scaled: s },
            None => {
                if other.scaled < 0 {
                    Decimal { scaled: i64::MAX }
                } else {
                    Decimal { scaled: i64::MIN }
                }
            },
        }
    }

    /// The product of two decimals, truncated toward zero at the sixth
    /// fractional digit and saturating at the representable range.
    pub fn mul(self, other: Decimal) -> (r: Decimal)
        ensures
            r.scaled as int == spec_dec_mul(self.scaled as int, other.scaled as int),
    {
        proof {
            assert((self.scaled as int) * (other.scaled as int) < i128::MAX && (self.scaled
                as int) * (other.scaled as int) > i128::MIN) by (nonlinear_arith)
                requires
                    i64::MIN <= self.scaled <= i64::MAX,
                    i64::MIN <= other.scaled <= i64::MAX,
            ;
        }
        let p: i128 = (self.scaled as i128) * (other.scaled as i128);
        let q = div_trunc_i128(p, DECIMAL_SCALE as i128);
        if q > i64::MAX as i128 {
            Decimal { scaled: i64::MAX }
        } else if q < i64::MIN as i128 {
            Decimal { scaled: i64::MIN }
        } else {
            Decimal { scaled: q as i64 }
        }
    }

    /// The quotient of two decimals, truncated toward zero at the sixth
    /// fractional digit and saturating at the representable range.  The
    /// divisor must not be zero; the caller reports division by zero.
    pub fn div(self, other: Decimal) -> (r: Decimal)
        requires
            other.scaled != 0,
        ensures
            r.scaled as int == spec_dec_div(self.scaled as int, other.scaled as int),
    {
        proof {
            assert((self.scaled as int) * (DECIMAL_SCALE as int) < i128::MAX && (self.scaled
                as int) * (DECIMAL_SCALE as int) > i128::MIN) by (nonlinear_arith)
                requires
                    i64::MIN <= self.scaled <= i64::MAX,
            ;
        }
        let p: i128 = (self.scaled as i128) * (DECIMAL_SCALE as i128);
        let neg_divisor = other.scaled < 0;
        let d: i128 = if neg_divisor {
            -(other.scaled as i128)
        } else {
            other.scaled as i128
        };
        let q0 = div_trunc_i128(p, d);
        let q = if neg_divisor {
            -q0
        } else {
            q0
        };
        if q > i64::MAX as i128 {
            Decimal { scaled: i64::MAX }
        } else if q < i64::MIN as i128 {
            Decimal { scaled: i64::MIN }
        } else {
            Decimal { scaled: q as i64 }
        }
    }

    /// The negation of a decimal, saturating at the representable range.
    pub fn neg(self) -> (r: Decimal)
        ensures
            r.scaled as int == spec_dec_neg(self.scaled as int),
    {
        if self.scaled == i64::MIN {
            Decimal { scaled: i64::MAX }
        } else {
            Decimal { scaled: -self.scaled }
        }
    }

    /// Whether this decimal is strictly less than another.  Decimal order
    /// is the order of the scaled values.
    pub fn lt(self, other: Decimal) -> (r: bool)
        ensures
            r == (self.scaled < other.scaled),
    {
        self.scaled < other.scaled
    }

    /// Whether this decimal is zero.
    pub fn is_zero(self) -> (r: bool)
        ensures
            r == (self.scaled == 0),
    {
        self.scaled == 0
    }
}

} // verus!
