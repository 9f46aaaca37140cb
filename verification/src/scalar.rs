//! Fixed-point scalars.
//!
//! A `Scalar` stores a world-space quantity as an `i64` count of billionths
//! (`SCALE` raw units per world unit).  Every operation rounds half away from
//! zero and saturates at the `i64` range instead of overflowing, and each
//! executable operation's contract states the exact raw value it returns via
//! the spec functions in this module (`add_v`, `mul_v`, `div_v`, ...), so the
//! rest of the crate can reason about geometry without any floating point.

use vstd::arithmetic::div_mod::{
    lemma_div_is_ordered, lemma_div_multiples_vanish, lemma_fundamental_div_mod,
};
use vstd::math::abs;
use vstd::prelude::*;

verus! {

/// Raw units per world unit: a `Scalar` holding `SCALE` is the number one.
pub const SCALE: i64 = 1_000_000_000;

/// Clamp an unbounded integer into the `i64` range.
pub open spec fn sat(x: int) -> int {
    if x > i64::MAX as int {
        i64::MAX as int
    } else if x < i64::MIN as int {
        i64::MIN as int
    } else {
        x
    }
}

/// Division of magnitudes rounding half up; `d` must be positive.
pub open spec fn mag_div(n: int, d: int) -> int {
    (n + d / 2) / d
}

/// Division rounding half away from zero, written over magnitudes so that it
/// matches the unsigned arithmetic the executable operations perform.
pub open spec fn round_div(n: int, d: int) -> int {
    if (n >= 0) == (d >= 0) {
        mag_div(abs(n) as int, abs(d) as int)
    } else {
        -mag_div(abs(n) as int, abs(d) as int)
    }
}

/// Raw value of a sum.
pub open spec fn add_v(a: int, b: int) -> int {
    sat(a + b)
}

/// Raw value of a difference.
pub open spec fn sub_v(a: int, b: int) -> int {
    sat(a - b)
}

/// Raw value of a negation.
pub open spec fn neg_v(a: int) -> int {
    sat(-a)
}

/// Raw value of a product: the double-width product is rescaled by `SCALE`,
/// rounding half away from zero.
pub open spec fn mul_v(a: int, b: int) -> int {
    sat(round_div(a * b, SCALE as int))
}

/// Raw value of a quotient (`b != 0`): `a` is prescaled by `SCALE` so the
/// result stays in raw units, rounding half away from zero.
pub open spec fn div_v(a: int, b: int) -> int {
    sat(round_div(a * (SCALE as int), b))
}

/// `r` is the integer square root of `n`.
pub open spec fn is_sqrt(n: int, r: int) -> bool {
    0 <= r && r * r <= n && n < (r + 1) * (r + 1)
}

/// The integer square root of a nonnegative integer.
pub open spec fn sqrt_nat(n: int) -> int {
    choose|r: int| is_sqrt(n, r)
}

/// Raw value of a square root: prescaling by `SCALE` keeps the result in raw
/// units, and the result is the floor of the exact root.
pub open spec fn sqrt_v(a: int) -> int {
    sqrt_nat(a * (SCALE as int))
}

/// Raw value of the floor: the greatest whole multiple of `SCALE` not above
/// `a`, saturated into the `i64` range.
pub open spec fn floor_v(a: int) -> int {
    sat((a / (SCALE as int)) * (SCALE as int))
}

/// The floor of `a` as a whole number of world units.
pub open spec fn floor_units(a: int) -> int {
    a / (SCALE as int)
}

/// Raw value of `b` raised to the exponent `e`, as the executable power loop
/// computes it: a left fold of `mul_v` starting from one.
pub open spec fn pow_v(b: int, e: nat) -> int
    decreases e,
{
    if e == 0 {
        SCALE as int
    } else {
        mul_v(pow_v(b, (e - 1) as nat), b)
    }
}

/// A fixed-point number: `v` raw units, each worth one billionth.
#[derive(Clone, Copy, Debug, PartialEq, Eq, Structural)]
pub struct Scalar {
    pub v: i64,
}

/// Sign and magnitude of an `i64`, exact even for `i64::MIN`.
fn abs_parts(x: i64) -> (r: (bool, u64))
    ensures
        r.1 == abs(x as int),
        r.0 == (x < 0),
{
    if x >= 0 {
        (false, x as u64)
    } else {
        let wide: i128 = -(x as i128);
        (true, wide as u64)
    }
}

/// Rebuild a scalar from a sign and an unsigned magnitude, saturating.
fn sat_signed(neg: bool, q: u128) -> (r: Scalar)
    ensures
        r.v == sat(
            if neg {
                -(q as int)
            } else {
                q as int
            },
        ),
{
    if neg {
        if q >= 9223372036854775808u128 {
            Scalar { v: i64::MIN }
        } else {
            Scalar { v: -(q as i64) }
        }
    } else {
        if q > i64::MAX as u128 {
            Scalar { v: i64::MAX }
        } else {
            Scalar { v: q as i64 }
        }
    }
}

impl Scalar {
    /// A scalar from its raw count of billionths.
    pub fn from_raw(v: i64) -> (r: Scalar)
        ensures
            r.v == v,
    {
        Scalar { v }
    }

    /// A scalar holding the whole number `n`, saturating at the range edge.
    pub fn from_int(n: i64) -> (r: Scalar)
        ensures
            r.v == sat(n * (SCALE as int)),
    {
        proof {
            assert((n as int) * (SCALE as int) <= 9223372036854775807int * 1000000000int && (
            n as int) * (SCALE as int) >= (-9223372036854775808int) * 1000000000int)
                by (nonlinear_arith)
                requires
                    -9223372036854775808int <= n as int <= 9223372036854775807int,
            ;
        }
        let wide: i128 = (n as i128) * (SCALE as i128);
        if wide > i64::MAX as i128 {
            Scalar { v: i64::MAX }
        } else if wide < i64::MIN as i128 {
            Scalar { v: i64::MIN }
        } else {
            Scalar { v: wide as i64 }
        }
    }

    /// Saturating sum.
    pub fn plus(self, other: Scalar) -> (r: Scalar)
        ensures
            r.v == add_v(self.v as int, other.v as int),
    {
        let s: i128 = self.v as i128 + other.v as i128;
        if s > i64::MAX as i128 {
            Scalar { v: i64::MAX }
        } else if s < i64::MIN as i128 {
            Scalar { v: i64::MIN }
        } else {
            Scalar { v: s as i64 }
        }
    }

    /// Saturating difference.
    pub fn minus(self, other: Scalar) -> (r: Scalar)
        ensures
            r.v == sub_v(self.v as int, other.v as int),
    {
        let s: i128 = self.v as i128 - other.v as i128;
        if s > i64::MAX as i128 {
            Scalar { v: i64::MAX }
        } else if s < i64::MIN as i128 {
            Scalar { v: i64::MIN }
        } else {
            Scalar { v: s as i64 }
        }
    }

    /// Saturating negation.
    pub fn negated(self) -> (r: Scalar)
        ensures
            r.v == neg_v(self.v as int),
    {
        if self.v == i64::MIN {
            Scalar { v: i64::MAX }
        } else {
            Scalar { v: -self.v }
        }
    }

    /// Saturating product, rescaled by `SCALE` with rounding half away from
    /// zero.
    pub fn times(self, other: Scalar) -> (r: Scalar)
        ensures
            r.v == mul_v(self.v as int, other.v as int),
    {
        let (na, ma) = abs_parts(self.v);
        let (nb, mb) = abs_parts(other.v);
        proof {
            assert((ma as int) * (mb as int) <= 9223372036854775808int * 9223372036854775808int)
                by (nonlinear_arith)
                requires
                    0 <= ma as int <= 9223372036854775808int,
                    0 <= mb as int <= 9223372036854775808int,
            ;
        }
        let p: u128 = (ma as u128) * (mb as u128);
        let q: u128 = (p + (SCALE as u128) / 2) / (SCALE as u128);
        proof {
            lemma_abs_mul(self.v as int, other.v as int);
            assert(q == mag_div(abs(self.v as int * other.v as int) as int, SCALE as int));
        }
        sat_signed(na != nb, q)
    }

    /// Saturating quotient (`other` must be nonzero), prescaled by `SCALE`
    /// with rounding half away from zero.
    pub fn over(self, other: Scalar) -> (r: Scalar)
        requires
            other.v != 0,
        ensures
            r.v == div_v(self.v as int, other.v as int),
    {
        let (na, ma) = abs_parts(self.v);
        let (nb, mb) = abs_parts(other.v);
        proof {
            assert((ma as int) * (SCALE as int) <= 9223372036854775808int * 1000000000int)
                by (nonlinear_arith)
                requires
                    0 <= ma as int <= 9223372036854775808int,
            ;
        }
        let num: u128 = (ma as u128) * (SCALE as u128);
        let q: u128 = (num + (mb as u128) / 2) / (mb as u128);
        proof {
            lemma_abs_mul(self.v as int, SCALE as int);
            assert(abs(self.v as int * (SCALE as int)) == abs(self.v as int) * (SCALE as int));
            assert(((self.v as int * (SCALE as int)) >= 0) == (self.v >= 0)) by {
                lemma_sign_mul_pos(self.v as int, SCALE as int);
            }
        }
        sat_signed(na != nb, q)
    }

    /// Floor of the exact square root, in raw units; the argument must be
    /// nonnegative.
    pub fn sqrt(self) -> (r: Scalar)
        requires
            self.v >= 0,
        ensures
            r.v == sqrt_v(self.v as int),
            is_sqrt(self.v * (SCALE as int), r.v as int),
    {
        let n: u128 = (self.v as u128) * (SCALE as u128);
        proof {
            assert((self.v as u128) * (SCALE as u128) < 19807040628566084398385987584u128)
                by (nonlinear_arith)
                requires
                    self.v as u128 <= 9223372036854775807u128,
                    SCALE as u128 == 1000000000u128,
            ;
        }
        let root: u128 = isqrt_u128(n);
        proof {
            assert(root * root <= n);
            assert(root < 140737488355328u128) by (nonlinear_arith)
                requires
                    root * root <= n,
                    n < 19807040628566084398385987584u128,
            ;
            lemma_sqrt_nat_unique(n as int, root as int);
        }
        Scalar { v: root as i64 }
    }

    /// Floor to a whole number of world units, as a scalar.
    pub fn floor(self) -> (r: Scalar)
        ensures
            r.v == floor_v(self.v as int),
    {
        if self.v >= 0 {
            let units: u64 = (self.v as u64) / (SCALE as u64);
            proof {
                lemma_fundamental_div_mod(self.v as int, SCALE as int);
                assert(units * (SCALE as u64) <= self.v as u64) by (nonlinear_arith)
                    requires
                        units == (self.v as u64) / (SCALE as u64),
                        SCALE as u64 == 1000000000u64,
                ;
            }
            Scalar { v: (units * (SCALE as u64)) as i64 }
        } else {
            let m: u128 = (-(self.v as i128)) as u128;
            let q: u128 = m / (SCALE as u128);
            let rem: u128 = m % (SCALE as u128);
            proof {
                lemma_floor_negative(self.v as int, q as int, rem as int);
            }
            if rem == 0 {
                Scalar { v: -((q * (SCALE as u128)) as i64) }
            } else {
                let mag: u128 = (q + 1) * (SCALE as u128);
                if mag >= 9223372036854775808u128 {
                    Scalar { v: i64::MIN }
                } else {
                    Scalar { v: -(mag as i64) }
                }
            }
        }
    }

    /// The floor as a plain count of world units, clamped to `i64`.
    pub fn floor_whole(self) -> (r: i64)
        ensures
            r == floor_units(self.v as int),
    {
        if self.v >= 0 {
            let units: u64 = (self.v as u64) / (SCALE as u64);
            units as i64
        } else {
            let m: u128 = (-(self.v as i128)) as u128;
            let q: u128 = m / (SCALE as u128);
            let rem: u128 = m % (SCALE as u128);
            proof {
                lemma_floor_negative(self.v as int, q as int, rem as int);
            }
            if rem == 0 {
                -(q as i64)
            } else {
                -((q + 1) as i64)
            }
        }
    }

    /// Whether the floor of this scalar is an even number of world units.
    pub fn floor_whole_even(self) -> (r: bool)
        ensures
            r == (floor_units(self.v as int) % 2 == 0),
    {
        let u: i64 = self.floor_whole();
        if u >= 0 {
            (u as u64) % 2 == 0
        } else {
            let m: u128 = (-(u as i128)) as u128;
            proof {
                lemma_neg_mod_two(u as int);
            }
            m % 2 == 0
        }
    }

    /// Left-fold power with a whole exponent: `self` multiplied into one,
    /// `e` times.
    pub fn powi(self, e: u32) -> (r: Scalar)
        ensures
            r.v == pow_v(self.v as int, e as nat),
    {
        let mut acc = Scalar { v: SCALE };
        let mut i: u32 = 0;
        while i < e
            invariant
                i <= e,
                acc.v == pow_v(self.v as int, i as nat),
            decreases e - i,
        {
            acc = acc.times(self);
            i = i + 1;
        }
        acc
    }
}

/// The magnitude of a product is the product of the magnitudes, and the
/// product is nonnegative exactly when the signs agree (or a factor is zero).
proof fn lemma_abs_mul(a: int, b: int)
    ensures
        abs(a * b) == abs(a) * abs(b),
        (a * b >= 0) == ((a >= 0) == (b >= 0)) || a == 0 || b == 0,
        (a == 0 || b == 0) ==> a * b == 0,
{
    assert(abs(a * b) == abs(a) * abs(b) && ((a * b >= 0) == ((a >= 0) == (b >= 0)) || a == 0 || b
        == 0) && ((a == 0 || b == 0) ==> a * b == 0)) by (nonlinear_arith);
}

/// A product with a positive right factor keeps the sign of the left factor.
proof fn lemma_sign_mul_pos(a: int, b: int)
    requires
        b > 0,
    ensures
        (a * b >= 0) == (a >= 0),
        abs(a * b) == abs(a) * b,
{
    lemma_abs_mul(a, b);
    assert(abs(b) == b);
    if a == 0 {
        assert(a * b == 0);
    } else if a > 0 {
        assert(a * b > 0) by (nonlinear_arith)
            requires
                a > 0,
                b > 0,
        ;
    } else {
        assert(a * b < 0) by (nonlinear_arith)
            requires
                a < 0,
                b > 0,
        ;
    }
}

/// Integer square roots are unique, so any witness equals `sqrt_nat`.
pub proof fn lemma_sqrt_nat_unique(n: int, r: int)
    requires
        is_sqrt(n, r),
    ensures
        sqrt_nat(n) == r,
{
    assert(is_sqrt(n, sqrt_nat(n))) by {
        assert(exists|x: int| is_sqrt(n, x)) by {
            assert(is_sqrt(n, r));
        }
    }
    let s = sqrt_nat(n);
    assert(s == r) by (nonlinear_arith)
        requires
            0 <= s,
            s * s <= n,
            n < (s + 1) * (s + 1),
            0 <= r,
            r * r <= n,
            n < (r + 1) * (r + 1),
    ;
}

/// Relates truncating division of the magnitude of a negative number to the
/// Euclidean floor division its spec uses.
proof fn lemma_floor_negative(a: int, q: int, rem: int)
    requires
        a < 0,
        q == (-a) / (SCALE as int),
        rem == (-a) % (SCALE as int),
    ensures
        rem == 0 ==> a / (SCALE as int) == -q,
        rem != 0 ==> a / (SCALE as int) == -(q + 1),
{
    let s = SCALE as int;
    lemma_fundamental_div_mod(-a, s);
    assert(-a == s * q + rem);
    assert(a == s * (-q) + (-rem)) by (nonlinear_arith)
        requires
            -a == s * q + rem,
    ;
    if rem == 0 {
        assert(a == s * (-q));
        lemma_div_multiples_vanish(-q, s);
    } else {
        assert(a == s * (-(q + 1)) + (s - rem)) by (nonlinear_arith)
            requires
                a == s * (-q) + (-rem),
        ;
        assert(a / s == -(q + 1)) by {
            lemma_fundamental_div_mod(a, s);
            lemma_div_mod_unique(a, s, -(q + 1), s - rem);
        }
    }
}

/// Euclidean quotient and remainder are unique.
proof fn lemma_div_mod_unique(a: int, d: int, q: int, r: int)
    requires
        d > 0,
        a == d * q + r,
        0 <= r < d,
    ensures
        a / d == q,
        a % d == r,
{
    lemma_fundamental_div_mod(a, d);
    assert(a / d == q && a % d == r) by (nonlinear_arith)
        requires
            d > 0,
            a == d * q + r,
            0 <= r < d,
            a == d * (a / d) + (a % d),
            0 <= a % d < d,
    ;
}

/// Binary-search integer square root of a 128-bit value below `2^94`.
fn isqrt_u128(n: u128) -> (r: u128)
    requires
        n < 19807040628566084398385987584u128,
    ensures
        r * r <= n,
        n < (r + 1) * (r + 1),
{
    let mut lo: u128 = 0;
    let mut hi: u128 = 140737488355328u128;
    proof {
        assert((140737488355328u128 as int) * (140737488355328u128 as int)
            == 19807040628566084398385987584) by (nonlinear_arith);
    }
    while lo + 1 < hi
        invariant
            lo < hi,
            hi <= 140737488355328u128,
            lo * lo <= n,
            n < hi * hi,
        decreases hi - lo,
    {
        let mid: u128 = lo + (hi - lo) / 2;
        proof {
            assert(lo < mid < hi);
            assert(mid * mid < 19807040628566084398385987584u128 + 1) by (nonlinear_arith)
                requires
                    mid <= 140737488355328u128,
            ;
        }
        if mid * mid <= n {
            lo = mid;
        } else {
            hi = mid;
        }
    }
    lo
}

/// One raw unit of slack: values this close count as the same number.  This
/// mirrors the crate-level tolerance so specs in this module stay
/// self-contained.
pub open spec fn within(a: int, b: int, tol: int) -> bool {
    abs(a - b) < tol
}

/// A number and its negation agree on evenness under Euclidean remainder.
proof fn lemma_neg_mod_two(u: int)
    ensures
        (u % 2 == 0) == ((-u) % 2 == 0),
{
    assert((u % 2 == 0) == ((-u) % 2 == 0)) by (nonlinear_arith);
}

/// Multiplying by one is the identity: rescaling `SCALE * x` by `SCALE`
/// gives back exactly `x`.
pub proof fn lemma_mul_one(x: int)
    requires
        i64::MIN <= x <= i64::MAX,
    ensures
        mul_v(SCALE as int, x) == x,
        mul_v(x, SCALE as int) == x,
{
    let s = SCALE as int;
    lemma_abs_mul(s, x);
    lemma_abs_mul(x, s);
    assert((s * abs(x) + s / 2) / s == abs(x)) by {
        vstd::arithmetic::div_mod::lemma_div_multiples_vanish_fancy(abs(x) as int, s / 2, s);
    }
    assert(s * x == x * s) by (nonlinear_arith);
    if x >= 0 {
        assert(mag_div(abs(s * x) as int, s) == x);
    } else {
        assert(-(mag_div(abs(s * x) as int, s)) == x);
    }
}

/// Multiplying by zero gives zero.
pub proof fn lemma_mul_zero(x: int)
    ensures
        mul_v(0, x) == 0,
        mul_v(x, 0) == 0,
{
    let s = SCALE as int;
    assert(0 * x == 0) by (nonlinear_arith);
    assert(x * 0 == 0) by (nonlinear_arith);
    assert((0 + s / 2) / s == 0) by {
        vstd::arithmetic::div_mod::lemma_basic_div(s / 2, s);
    }
}

/// A rescaled square is never negative.
pub proof fn lemma_square_nonneg(x: int)
    ensures
        mul_v(x, x) >= 0,
{
    assert(x * x >= 0) by (nonlinear_arith);
    let n = x * x;
    let s = SCALE as int;
    assert(mag_div(n, s) >= 0) by {
        lemma_div_is_ordered(0, n + s / 2, s);
    }
}

} // verus!
