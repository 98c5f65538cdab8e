//! Signed 16.16 fixed-point numbers with saturating arithmetic.
//!
//! A `Fixed` holds `raw`, and stands for the rational `raw / 65536`. Every
//! operation computes its exact result over the integers, rounds toward
//! negative infinity where it has to, and saturates at the ends of `i32`.

use vstd::prelude::*;
use vstd::arithmetic::div_mod::lemma_fundamental_div_mod_converse;
use vstd::arithmetic::div_mod::lemma_fundamental_div_mod;

verus! {

/// The raw value of `1.0`.
pub const ONE_RAW: i32 = 65536;

/// The raw value that stands for a quarter turn (π/2).
pub const QUARTER_TURN_RAW: i32 = 102944;

/// The raw value that stands for a half turn (π).
pub const HALF_TURN_RAW: i32 = 205888;

/// The raw value that stands for a full turn (2π).
pub const FULL_TURN_RAW: i32 = 411776;

/// `v` brought into the range of `i32`.
pub open spec fn saturate(v: int) -> int {
    if v < i32::MIN as int {
        i32::MIN as int
    } else if v > i32::MAX as int {
        i32::MAX as int
    } else {
        v
    }
}

/// The greatest integer `q` with `q * d <= n` for `d > 0`, and the same
/// quotient of `-n` by `-d` for `d < 0`.
pub open spec fn floor_div(n: int, d: int) -> int
    recommends
        d != 0,
{
    if d > 0 {
        n / d
    } else {
        (-n) / (-d)
    }
}

/// The raw quotient of two raw values. A zero divisor saturates by the sign
/// of the dividend, and zero by zero is zero.
pub open spec fn div_raw(a: int, b: int) -> int {
    if b == 0 {
        if a > 0 {
            i32::MAX as int
        } else if a < 0 {
            i32::MIN as int
        } else {
            0
        }
    } else {
        saturate(floor_div(a * 65536, b))
    }
}

/// `r` is the integer square root of `n`.
pub open spec fn is_isqrt(n: int, r: int) -> bool {
    &&& 0 <= r
    &&& r * r <= n
    &&& n < (r + 1) * (r + 1)
}

/// The sine of a half-turn phase `u`, `0 <= u <= HALF_TURN_RAW`, as a raw
/// value: the rational approximation `16u(π-u) / (5π² - 4u(π-u))`.
pub open spec fn half_wave_raw(u: int) -> int {
    let p = u * (HALF_TURN_RAW as int - u);
    (16 * p * 65536) / (5 * (HALF_TURN_RAW as int) * (HALF_TURN_RAW as int) - 4 * p)
}

/// The raw sine of the raw angle `x`, in radians.
pub open spec fn sin_raw(x: int) -> int {
    let t = x % (FULL_TURN_RAW as int);
    if t < HALF_TURN_RAW as int {
        half_wave_raw(t)
    } else {
        -half_wave_raw(t - HALF_TURN_RAW as int)
    }
}

/// The raw cosine of the raw angle `x`: the sine a quarter turn later.
pub open spec fn cos_raw(x: int) -> int {
    sin_raw(x + QUARTER_TURN_RAW as int)
}

/// Euclidean division of any `n` by a positive `d`, from the truncating
/// division of the machine.
pub fn div_floor(n: i128, d: i128) -> (q: i128)
    requires
        d > 0,
        n > i128::MIN,
    ensures
        q == floor_div(n as int, d as int),
        q == (n as int) / (d as int),
        n >= 0 ==> 0 <= q <= n,
        n < 0 ==> n <= q < 0,
{
    if n >= 0 {
        proof {
            vstd::arithmetic::div_mod::lemma_div_pos_is_pos(n as int, d as int);
            vstd::arithmetic::div_mod::lemma_div_is_ordered_by_denominator(n as int, 1, d as int);
            vstd::arithmetic::div_mod::lemma_div_basics(n as int);
        }
        n / d
    } else {
        let m: i128 = -(n + 1);
        let q1: i128 = m / d;
        proof {
            let r1 = (m as int) % (d as int);
            lemma_fundamental_div_mod(m as int, d as int);
            assert(m as int == (d as int) * (q1 as int) + r1);
            assert(0 <= r1 < d) by {
                vstd::arithmetic::div_mod::lemma_mod_bound(m as int, d as int);
            }
            assert(0 <= q1 <= m) by {
                vstd::arithmetic::div_mod::lemma_div_pos_is_pos(m as int, d as int);
                vstd::arithmetic::div_mod::lemma_div_is_ordered_by_denominator(m as int, 1, d as int);
                vstd::arithmetic::div_mod::lemma_div_basics(m as int);
            }
            let q = -(q1 as int) - 1;
            let r = (d as int) - r1 - 1;
            assert(n as int == q * (d as int) + r) by (nonlinear_arith)
                requires
                    m as int == (d as int) * (q1 as int) + r1,
                    n as int == -(m as int) - 1,
                    q == -(q1 as int) - 1,
                    r == (d as int) - r1 - 1,
            ;
            lemma_fundamental_div_mod_converse(n as int, d as int, q, r);
        }
        -q1 - 1
    }
}

/// Floor division by a divisor of either sign.
pub fn div_floor_signed(n: i128, d: i128) -> (q: i128)
    requires
        d != 0,
        n > i128::MIN,
        d > i128::MIN,
    ensures
        q == floor_div(n as int, d as int),
{
    if d > 0 {
        div_floor(n, d)
    } else {
        div_floor(-n, -d)
    }
}

/// Brings a wide integer into the range of `i32`.
pub fn saturate_i128(v: i128) -> (r: i32)
    ensures
        r == saturate(v as int),
{
    if v < i32::MIN as i128 {
        i32::MIN
    } else if v > i32::MAX as i128 {
        i32::MAX
    } else {
        v as i32
    }
}

/// The integer square root of `n`: the one `r` with `is_isqrt(n, r)`.
pub open spec fn sqrt_floor(n: int) -> int {
    choose|r: int| is_isqrt(n, r)
}

/// No number has two integer square roots.
pub proof fn lemma_isqrt_unique(n: int, r1: int, r2: int)
    requires
        is_isqrt(n, r1),
        is_isqrt(n, r2),
    ensures
        r1 == r2,
{
    if r1 < r2 {
        assert((r1 + 1) * (r1 + 1) <= r2 * r2) by (nonlinear_arith)
            requires
                0 <= r1,
                r1 + 1 <= r2,
        ;
    } else if r2 < r1 {
        assert((r2 + 1) * (r2 + 1) <= r1 * r1) by (nonlinear_arith)
            requires
                0 <= r2,
                r2 + 1 <= r1,
        ;
    }
}

/// The integer square root of `n`, found by bisection.
pub fn isqrt(n: u64) -> (r: u64)
    ensures
        is_isqrt(n as int, r as int),
        r == sqrt_floor(n as int),
        r < 0x1_0000_0000,
{
    let mut lo: u64 = 0;
    let mut hi: u64 = 0x1_0000_0000;
    assert((hi as int) * (hi as int) > n) by (nonlinear_arith)
        requires
            hi == 0x1_0000_0000u64,
            n <= u64::MAX,
    ;
    while hi - lo > 1
        invariant
            lo < hi <= 0x1_0000_0000,
            (lo as int) * (lo as int) <= n,
            (hi as int) * (hi as int) > n,
        decreases hi - lo,
    {
        let mid: u64 = lo + (hi - lo) / 2;
        assert((mid as int) * (mid as int) < 0x1_0000_0000_0000_0000) by (nonlinear_arith)
            requires
                mid < 0x1_0000_0000u64,
        ;
        let sq: u128 = (mid as u128) * (mid as u128);
        if sq <= n as u128 {
            lo = mid;
        } else {
            hi = mid;
        }
    }
    proof {
        lemma_isqrt_unique(n as int, lo as int, sqrt_floor(n as int));
    }
    lo
}

/// A signed 16.16 fixed-point number.
#[derive(Clone, Copy, Debug, PartialEq, Eq, Structural)]
pub struct Fixed {
    pub raw: i32,
}

impl Fixed {
    pub open spec fn spec_from_int(n: i32) -> Fixed {
        Fixed { raw: saturate(n * 65536) as i32 }
    }

    pub open spec fn spec_add(self, other: Fixed) -> Fixed {
        Fixed { raw: saturate(self.raw + other.raw) as i32 }
    }

    pub open spec fn spec_sub(self, other: Fixed) -> Fixed {
        Fixed { raw: saturate(self.raw - other.raw) as i32 }
    }

    pub open spec fn spec_neg(self) -> Fixed {
        Fixed { raw: saturate(-self.raw) as i32 }
    }

    pub open spec fn spec_abs(self) -> Fixed {
        if self.raw < 0 {
            self.spec_neg()
        } else {
            self
        }
    }

    pub open spec fn spec_mul(self, other: Fixed) -> Fixed {
        Fixed { raw: saturate((self.raw * other.raw) / 65536) as i32 }
    }

    pub open spec fn spec_div(self, other: Fixed) -> Fixed {
        Fixed { raw: div_raw(self.raw as int, other.raw as int) as i32 }
    }

    pub open spec fn spec_min(self, other: Fixed) -> Fixed {
        if self.raw <= other.raw {
            self
        } else {
            other
        }
    }

    pub open spec fn spec_max(self, other: Fixed) -> Fixed {
        if self.raw >= other.raw {
            self
        } else {
            other
        }
    }

    pub open spec fn spec_floor(self) -> int {
        self.raw as int / 65536
    }

    pub open spec fn spec_ceil(self) -> int {
        (self.raw + 65535) / 65536
    }

    pub open spec fn spec_sqrt(self) -> Fixed {
        if self.raw < 0 {
            Fixed { raw: 0 }
        } else {
            Fixed { raw: sqrt_floor(self.raw * 65536) as i32 }
        }
    }

    pub open spec fn spec_sin(self) -> Fixed {
        Fixed { raw: sin_raw(self.raw as int) as i32 }
    }

    pub open spec fn spec_cos(self) -> Fixed {
        Fixed { raw: cos_raw(self.raw as int) as i32 }
    }

    /// The number whose raw value is `raw`.
    pub fn from_raw(raw: i32) -> (r: Fixed)
        ensures
            r.raw == raw,
    {
        Fixed { raw }
    }

    /// The whole number `n`, saturated.
    #[verifier::when_used_as_spec(spec_from_int)]
    pub fn from_int(n: i32) -> (r: Fixed)
        ensures
            r == Fixed::spec_from_int(n),
    {
        Fixed { raw: saturate_i128((n as i128) * 65536) }
    }

    /// The quotient `num / den` of two whole numbers.
    pub fn from_ratio(num: i32, den: i32) -> (r: Fixed)
        ensures
            r == Fixed::spec_from_int(num).spec_div(Fixed::spec_from_int(den)),
    {
        Fixed::from_int(num).div(Fixed::from_int(den))
    }

    /// Zero.
    pub fn zero() -> (r: Fixed)
        ensures
            r.raw == 0,
    {
        Fixed { raw: 0 }
    }

    /// One.
    pub fn one() -> (r: Fixed)
        ensures
            r.raw == 65536,
    {
        Fixed { raw: ONE_RAW }
    }

    /// The greatest value, which also stands for "farthest" as a depth.
    pub fn max_value() -> (r: Fixed)
        ensures
            r.raw == i32::MAX,
    {
        Fixed { raw: i32::MAX }
    }

    /// The sum, saturated.
    #[verifier::when_used_as_spec(spec_add)]
    pub fn add(self, other: Fixed) -> (r: Fixed)
        ensures
            r == self.spec_add(other),
    {
        Fixed { raw: saturate_i128(self.raw as i128 + other.raw as i128) }
    }

    /// The difference, saturated.
    #[verifier::when_used_as_spec(spec_sub)]
    pub fn sub(self, other: Fixed) -> (r: Fixed)
        ensures
            r == self.spec_sub(other),
    {
        Fixed { raw: saturate_i128(self.raw as i128 - other.raw as i128) }
    }

    /// The negation, saturated.
    #[verifier::when_used_as_spec(spec_neg)]
    pub fn neg(self) -> (r: Fixed)
        ensures
            r == self.spec_neg(),
    {
        Fixed { raw: saturate_i128(-(self.raw as i128)) }
    }

    /// The absolute value, saturated.
    #[verifier::when_used_as_spec(spec_abs)]
    pub fn abs(self) -> (r: Fixed)
        ensures
            r == self.spec_abs(),
    {
        if self.raw < 0 {
            self.neg()
        } else {
            self
        }
    }

    /// The product, rounded down to a multiple of 1/65536.
    #[verifier::when_used_as_spec(spec_mul)]
    pub fn mul(self, other: Fixed) -> (r: Fixed)
        ensures
            r == self.spec_mul(other),
    {
        let p: i128 = wide_product(self.raw, other.raw);
        Fixed { raw: saturate_i128(div_floor(p, 65536)) }
    }

    /// The quotient, rounded down. Division by zero saturates by the sign of
    /// `self`, as an infinity would, and zero by zero is zero.
    #[verifier::when_used_as_spec(spec_div)]
    pub fn div(self, other: Fixed) -> (r: Fixed)
        ensures
            r == self.spec_div(other),
    {
        if other.raw == 0 {
            if self.raw > 0 {
                Fixed { raw: i32::MAX }
            } else if self.raw < 0 {
                Fixed { raw: i32::MIN }
            } else {
                Fixed { raw: 0 }
            }
        } else {
            let n: i128 = (self.raw as i128) * 65536;
            Fixed { raw: saturate_i128(div_floor_signed(n, other.raw as i128)) }
        }
    }

    /// The lesser of two numbers.
    #[verifier::when_used_as_spec(spec_min)]
    pub fn min(self, other: Fixed) -> (r: Fixed)
        ensures
            r == self.spec_min(other),
    {
        if self.raw <= other.raw {
            self
        } else {
            other
        }
    }

    /// The greater of two numbers.
    #[verifier::when_used_as_spec(spec_max)]
    pub fn max(self, other: Fixed) -> (r: Fixed)
        ensures
            r == self.spec_max(other),
    {
        if self.raw >= other.raw {
            self
        } else {
            other
        }
    }

    /// The greatest whole number not above `self`.
    pub fn floor(self) -> (r: i32)
        ensures
            r == self.spec_floor(),
            -32768 <= r <= 32767,
    {
        let q: i128 = div_floor(self.raw as i128, 65536);
        q as i32
    }

    /// The least whole number not below `self`.
    pub fn ceil(self) -> (r: i32)
        ensures
            r == self.spec_ceil(),
            -32768 <= r <= 32768,
    {
        let q: i128 = div_floor(self.raw as i128 + 65535, 65536);
        q as i32
    }

    /// The square root, rounded down; zero for a negative number.
    #[verifier::when_used_as_spec(spec_sqrt)]
    pub fn sqrt(self) -> (r: Fixed)
        ensures
            r == self.spec_sqrt(),
            0 <= r.raw,
    {
        if self.raw < 0 {
            Fixed { raw: 0 }
        } else {
            let n: u64 = (self.raw as u64) * 65536;
            let s: u64 = isqrt(n);
            assert(s < 0x8000_0000) by (nonlinear_arith)
                requires
                    (s as int) * (s as int) <= n,
                    n < 0x8000_0000 * 65536,
            ;
            Fixed { raw: s as i32 }
        }
    }

    /// The sine of `self` radians.
    #[verifier::when_used_as_spec(spec_sin)]
    pub fn sin(self) -> (r: Fixed)
        ensures
            r == self.spec_sin(),
            -65536 <= r.raw <= 65536,
    {
        Fixed { raw: sin_of_raw(self.raw as i64) }
    }

    /// The cosine of `self` radians.
    #[verifier::when_used_as_spec(spec_cos)]
    pub fn cos(self) -> (r: Fixed)
        ensures
            r == self.spec_cos(),
            -65536 <= r.raw <= 65536,
    {
        proof {
            lemma_sin_bounds(self.raw + QUARTER_TURN_RAW as int);
        }
        Fixed { raw: sin_of_raw(self.raw as i64 + QUARTER_TURN_RAW as i64) }
    }
}

/// The exact product of two raw values.
pub fn wide_product(a: i32, b: i32) -> (p: i128)
    ensures
        p == a * b,
        -0x4000_0000_0000_0000 <= p <= 0x4000_0000_0000_0000,
{
    assert(-0x4000_0000_0000_0000 <= a * b <= 0x4000_0000_0000_0000) by (nonlinear_arith)
        requires
            -0x8000_0000 <= a <= 0x7fff_ffff,
            -0x8000_0000 <= b <= 0x7fff_ffff,
    ;
    (a as i128) * (b as i128)
}

/// The half wave stays between zero and one.
pub proof fn lemma_half_wave_bounds(u: int)
    requires
        0 <= u <= HALF_TURN_RAW,
    ensures
        0 <= half_wave_raw(u) <= 65536,
{
    let pi = HALF_TURN_RAW as int;
    let p = u * (pi - u);
    let den = 5 * pi * pi - 4 * p;
    let num = 16 * p * 65536;
    assert(0 <= p) by (nonlinear_arith)
        requires
            0 <= u <= pi,
            p == u * (pi - u),
    ;
    assert(4 * p <= pi * pi) by (nonlinear_arith)
        requires
            p == u * (pi - u),
    ;
    assert(pi * pi == 42389868544) by (nonlinear_arith)
        requires
            pi == 205888,
    ;
    assert(den > 0);
    assert(num <= 65536 * den);
    assert(0 <= num);
    vstd::arithmetic::div_mod::lemma_div_pos_is_pos(num, den);
    vstd::arithmetic::div_mod::lemma_div_is_ordered(num, 65536 * den, den);
    vstd::arithmetic::div_mod::lemma_div_multiples_vanish(65536, den);
    assert((65536 * den) / den == 65536) by {
        vstd::arithmetic::mul::lemma_mul_is_commutative(65536, den);
    }
}

/// The sine stays between minus one and one.
pub proof fn lemma_sin_bounds(x: int)
    ensures
        -65536 <= sin_raw(x) <= 65536,
{
    let t = x % (FULL_TURN_RAW as int);
    vstd::arithmetic::div_mod::lemma_mod_bound(x, FULL_TURN_RAW as int);
    if t < HALF_TURN_RAW as int {
        lemma_half_wave_bounds(t);
    } else {
        lemma_half_wave_bounds(t - HALF_TURN_RAW as int);
    }
}

/// The sine repeats after a full turn.
pub proof fn lemma_sin_periodic(x: int)
    ensures
        sin_raw(x + FULL_TURN_RAW as int) == sin_raw(x),
        cos_raw(x + FULL_TURN_RAW as int) == cos_raw(x),
{
    vstd::arithmetic::div_mod::lemma_mod_add_multiples_vanish(x, FULL_TURN_RAW as int);
    vstd::arithmetic::div_mod::lemma_mod_add_multiples_vanish(
        x + QUARTER_TURN_RAW as int,
        FULL_TURN_RAW as int,
    );
    assert(x + FULL_TURN_RAW as int + QUARTER_TURN_RAW as int == FULL_TURN_RAW as int + (x
        + QUARTER_TURN_RAW as int));
}

/// The half wave is the same from both of its ends.
pub proof fn lemma_half_wave_symmetric(u: int)
    ensures
        half_wave_raw(HALF_TURN_RAW as int - u) == half_wave_raw(u),
{
    let pi = HALF_TURN_RAW as int;
    assert((pi - u) * (pi - (pi - u)) == u * (pi - u)) by (nonlinear_arith);
}

/// The sine is odd: `sin(-x) = -sin(x)`, exactly.
pub proof fn lemma_sin_odd(x: int)
    ensures
        sin_raw(-x) == -sin_raw(x),
{
    let full = FULL_TURN_RAW as int;
    let pi = HALF_TURN_RAW as int;
    let t = x % full;
    let s = (-x) % full;
    vstd::arithmetic::div_mod::lemma_fundamental_div_mod(x, full);
    vstd::arithmetic::div_mod::lemma_mod_bound(x, full);
    vstd::arithmetic::div_mod::lemma_mod_bound(-x, full);
    if t == 0 {
        let q = x / full;
        assert(-x == full * (-q) + 0) by (nonlinear_arith)
            requires
                x == full * q + 0,
        ;
        lemma_fundamental_div_mod_converse(-x, full, -q, 0);
        assert(half_wave_raw(0) == 0);
    } else {
        let q = x / full;
        assert(-x == full * (-q - 1) + (full - t)) by (nonlinear_arith)
            requires
                x == full * q + t,
        ;
        lemma_fundamental_div_mod_converse(-x, full, -q - 1, full - t);
        assert(s == full - t);
        if t < pi {
            lemma_half_wave_symmetric(t);
            assert(s - pi == pi - t);
        } else if t == pi {
            assert(s == pi);
            assert(half_wave_raw(0) == 0);
        } else {
            lemma_half_wave_symmetric(t - pi);
            assert(s == pi - (t - pi));
        }
    }
}

/// The raw sine of a raw angle held in a wide integer.
fn sin_of_raw(x: i64) -> (r: i32)
    requires
        -0x1_0000_0000 <= x <= 0x1_0000_0000,
    ensures
        r == sin_raw(x as int),
        -65536 <= r <= 65536,
{
    let t: i128 = x as i128 - div_floor(x as i128, FULL_TURN_RAW as i128) * (FULL_TURN_RAW as i128);
    proof {
        lemma_fundamental_div_mod(x as int, FULL_TURN_RAW as int);
        vstd::arithmetic::div_mod::lemma_mod_bound(x as int, FULL_TURN_RAW as int);
        lemma_sin_bounds(x as int);
    }
    if t < HALF_TURN_RAW as i128 {
        half_wave(t) as i32
    } else {
        (-half_wave(t - HALF_TURN_RAW as i128)) as i32
    }
}

/// The half wave at phase `u`.
fn half_wave(u: i128) -> (r: i128)
    requires
        0 <= u <= HALF_TURN_RAW,
    ensures
        r == half_wave_raw(u as int),
        0 <= r <= 65536,
{
    let pi: i128 = HALF_TURN_RAW as i128;
    assert(0 <= u * (pi - u) <= 42389868544) by (nonlinear_arith)
        requires
            0 <= u <= pi,
            pi == 205888,
    ;
    let p: i128 = u * (pi - u);
    let den: i128 = 5 * pi * pi - 4 * p;
    proof {
        lemma_half_wave_bounds(u as int);
    }
    (16 * p * 65536) / den
}

} // verus!
