//! IEEE-754 binary64 values carried as their 64-bit patterns.
//!
//! Sample values, sample rates and axis values are held by the library as
//! the bit patterns of binary64 numbers: the library moves them, compares
//! them and checks them, and leaves arithmetic on them to its callers. This
//! module states the IEEE-754 comparison of two patterns and computes it.
use vstd::prelude::*;
use vstd::arithmetic::power2::{pow2, lemma_pow2_unfold, lemma_pow2_strictly_increases, lemma2_to64, lemma2_to64_rest};

verus! {

/// The sign bit of a binary64 pattern.
pub const SIGN_BIT: u64 = 0x8000_0000_0000_0000;

/// The pattern of positive infinity; patterns of larger magnitude are NaNs.
pub const POSITIVE_INFINITY: u64 = 0x7FF0_0000_0000_0000;

/// The magnitude part of a pattern: everything but the sign bit.
pub open spec fn magnitude(b: u64) -> int {
    if b >= SIGN_BIT { b - SIGN_BIT } else { b as int }
}

/// Whether the sign bit is set.
pub open spec fn is_negative_pattern(b: u64) -> bool {
    b >= SIGN_BIT
}

/// Whether the pattern is a NaN.
pub open spec fn is_nan(b: u64) -> bool {
    magnitude(b) > POSITIVE_INFINITY
}

/// Whether the pattern is +0 or -0.
pub open spec fn is_zero(b: u64) -> bool {
    magnitude(b) == 0
}

/// A key that orders the non-NaN patterns as their values are ordered, with
/// -0 just below +0.
pub open spec fn order_key(b: u64) -> int {
    if is_negative_pattern(b) {
        SIGN_BIT - 1 - magnitude(b)
    } else {
        SIGN_BIT + magnitude(b)
    }
}

/// IEEE-754 `a < b`: false when either is a NaN; -0 and +0 are equal.
pub open spec fn lt(a: u64, b: u64) -> bool {
    &&& !is_nan(a)
    &&& !is_nan(b)
    &&& !(is_zero(a) && is_zero(b))
    &&& order_key(a) < order_key(b)
}

/// A key under which the non-NaN patterns compare as their values do, the
/// two zeros being equal.
pub open spec fn value_key(b: u64) -> int {
    if is_zero(b) { SIGN_BIT as int } else { order_key(b) }
}

/// For patterns that are not NaNs, `<` is the order of their value keys.
pub proof fn lemma_lt_is_key_order(a: u64, b: u64)
    requires
        !is_nan(a),
        !is_nan(b),
    ensures
        lt(a, b) <==> value_key(a) < value_key(b),
        eq(a, b) <==> value_key(a) == value_key(b),
{
}

/// IEEE-754 `a > b`.
pub open spec fn gt(a: u64, b: u64) -> bool {
    lt(b, a)
}

/// IEEE-754 `a <= b`.
pub open spec fn le(a: u64, b: u64) -> bool {
    lt(a, b) || eq(a, b)
}

/// IEEE-754 `a == b`: false when either is a NaN; -0 and +0 are equal.
pub open spec fn eq(a: u64, b: u64) -> bool {
    &&& !is_nan(a)
    &&& !is_nan(b)
    &&& (a == b || (is_zero(a) && is_zero(b)))
}

/// The pattern of `|x|`: the sign bit cleared.
pub open spec fn abs(b: u64) -> u64 {
    magnitude(b) as u64
}

/// The exponent field of a pattern.
pub open spec fn exponent_field(b: u64) -> int {
    magnitude(b) / 0x10_0000_0000_0000
}

/// The pattern of `x / 2.0` under round-to-nearest-even, for a pattern that
/// is not a NaN: infinities stay; a normal value with an exponent field above
/// one loses one from it; otherwise the value is a subnormal or the smallest
/// normal, and its magnitude pattern is halved with ties to even. The sign is kept.
pub open spec fn half(b: u64) -> u64 {
    let m = magnitude(b);
    let sign = if is_negative_pattern(b) { SIGN_BIT as int } else { 0 };
    let hm = if m >= POSITIVE_INFINITY {
        m
    } else if exponent_field(b) >= 2 {
        m - 0x10_0000_0000_0000
    } else if m % 2 == 1 && (m / 2) % 2 == 1 {
        m / 2 + 1
    } else {
        m / 2
    };
    (sign + hm) as u64
}

/// Computes the pattern of `x / 2.0` for a pattern that is not a NaN; a NaN
/// is returned unchanged (its comparisons are false either way).
pub fn halve(b: u64) -> (r: u64)
    ensures
        r == half(b),
{
    let m = if b >= SIGN_BIT { b - SIGN_BIT } else { b };
    let sign: u64 = if b >= SIGN_BIT { SIGN_BIT } else { 0 };
    let hm = if m >= POSITIVE_INFINITY {
        m
    } else if m / 0x10_0000_0000_0000 >= 2 {
        m - 0x10_0000_0000_0000
    } else if m % 2 == 1 && (m / 2) % 2 == 1 {
        m / 2 + 1
    } else {
        m / 2
    };
    sign + hm
}

/// `floor(log2(n))` for `n >= 1` (0 for 0 and 1).
pub open spec fn floor_log2(n: nat) -> nat
    decreases n,
{
    if n <= 1 { 0 } else { 1 + floor_log2(n / 2) }
}

/// The 53-bit significand of `n` whose top bit is bit `e`: exact when
/// `e <= 52`, else rounded to nearest with ties to even.
pub open spec fn significand53(n: nat, e: nat) -> nat {
    if e <= 52 {
        n * pow2((52 - e) as nat)
    } else {
        let unit = pow2((e - 52) as nat);
        let q = n / unit;
        let rem = n % unit;
        let h = unit / 2;
        if rem > h || (rem == h && q % 2 == 1) { q + 1 } else { q }
    }
}

/// The pattern of the binary64 value nearest to the integer `n` (ties to
/// even), as `n as f64` gives it. A rounding carry into bit 53 moves into
/// the exponent by itself.
pub open spec fn of_integer(n: nat) -> u64 {
    if n == 0 {
        0
    } else {
        let e = floor_log2(n);
        ((1023 + e) * 0x10_0000_0000_0000 + significand53(n, e) - 0x10_0000_0000_0000) as u64
    }
}

/// `2^e <= n < 2^(e + 1)` for `e = floor_log2(n)`.
pub proof fn lemma_floor_log2_bounds(n: nat)
    requires
        n >= 1,
    ensures
        pow2(floor_log2(n)) <= n < pow2(floor_log2(n) + 1),
    decreases n,
{
    lemma2_to64();
    if n > 1 {
        lemma_floor_log2_bounds(n / 2);
        lemma_pow2_unfold(floor_log2(n));
        lemma_pow2_unfold(floor_log2(n) + 1);
    }
}

/// Computes `2^k` for `k <= 63`.
fn power_of_two(k: u64) -> (p: u64)
    requires
        k <= 63,
    ensures
        p == pow2(k as nat),
{
    let mut p: u64 = 1;
    let mut i: u64 = 0;
    proof { lemma2_to64(); lemma2_to64_rest(); }
    while i < k
        invariant
            i <= k <= 63,
            p == pow2(i as nat),
            pow2(63) == 0x8000_0000_0000_0000,
        decreases k - i,
    {
        proof {
            lemma_pow2_unfold((i + 1) as nat);
            if i + 1 < 63 { lemma_pow2_strictly_increases((i + 1) as nat, 63); }
        }
        p = p * 2;
        i = i + 1;
    }
    p
}

/// The pattern of the binary64 value nearest to `n`, as `n as f64` gives it.
pub fn from_integer(n: u64) -> (b: u64)
    ensures
        b == of_integer(n as nat),
{
    if n == 0 {
        return 0;
    }
    let mut m = n;
    let mut e: u64 = 0;
    proof { lemma2_to64(); }
    while m > 1
        invariant
            m >= 1,
            e <= 64,
            floor_log2(n as nat) == e + floor_log2(m as nat),
            (m as nat) * pow2(e as nat) <= n,
        decreases m,
    {
        proof {
            lemma_pow2_unfold((e + 1) as nat);
            assert((m / 2) as nat * pow2((e + 1) as nat) == (m / 2) as nat * 2 * pow2(e as nat)) by (nonlinear_arith)
                requires pow2((e + 1) as nat) == 2 * pow2(e as nat);
            assert((m / 2) as nat * 2 * pow2(e as nat) <= (m as nat) * pow2(e as nat)) by (nonlinear_arith);
            lemma_floor_log2_bounds(n as nat);
            lemma2_to64();
            if e + 1 >= 64 {
                lemma_pow2_strictly_increases(63, (e + 1) as nat);
                assert(false) by (nonlinear_arith)
                    requires (m / 2) as nat * pow2((e + 1) as nat) <= n, m >= 2,
                        pow2((e + 1) as nat) >= 0x10000000000000000nat, n < 0x10000000000000000nat;
            }
        }
        m = m / 2;
        e = e + 1;
    }
    proof {
        lemma_floor_log2_bounds(n as nat);
        lemma2_to64();
        lemma2_to64_rest();
        if e >= 64 {
            lemma_pow2_strictly_increases(63, e as nat);
        }
    }
    assert(e <= 63);
    let sig: u64 = if e <= 52 {
        let scale = power_of_two(52 - e);
        proof {
            vstd::arithmetic::power2::lemma_pow2_adds((52 - e) as nat, (e + 1) as nat);
            assert(((52 - e) as nat + (e + 1) as nat) as nat == 53);
            assert(pow2(53) == pow2((52 - e) as nat) * pow2((e + 1) as nat));
            vstd::arithmetic::power2::lemma_pow2_pos((52 - e) as nat);
            assert(n * pow2((52 - e) as nat) < pow2((52 - e) as nat) * pow2((e + 1) as nat)) by (nonlinear_arith)
                requires n < pow2((e + 1) as nat), pow2((52 - e) as nat) > 0;
        }
        n * scale
    } else {
        let unit = power_of_two(e - 52);
        let q = n / unit;
        let rem = n % unit;
        let h = unit / 2;
        proof {
            vstd::arithmetic::power2::lemma_pow2_adds((e - 52) as nat, 53);
            assert(((e - 52) as nat + 53nat) as nat == e + 1);
            vstd::arithmetic::power2::lemma_pow2_pos((e - 52) as nat);
            assert(q < pow2(53)) by (nonlinear_arith)
                requires n < pow2((e + 1) as nat), pow2((e + 1) as nat) == pow2((e - 52) as nat) * pow2(53),
                    unit == pow2((e - 52) as nat), unit > 0, q == n / unit;
        }
        if rem > h || (rem == h && q % 2 == 1) { q + 1 } else { q }
    };
    proof {
        assert(sig <= 0x20_0000_0000_0000);
    }
    (1023 + e) * 0x10_0000_0000_0000 + sig - 0x10_0000_0000_0000
}

/// Computes IEEE-754 `a < b` on two bit patterns.
pub fn less_than(a: u64, b: u64) -> (r: bool)
    ensures
        r == lt(a, b),
{
    let ma = if a >= SIGN_BIT { a - SIGN_BIT } else { a };
    let mb = if b >= SIGN_BIT { b - SIGN_BIT } else { b };
    if ma > POSITIVE_INFINITY || mb > POSITIVE_INFINITY {
        return false;
    }
    if ma == 0 && mb == 0 {
        return false;
    }
    let a_negative = a >= SIGN_BIT;
    let b_negative = b >= SIGN_BIT;
    if a_negative && b_negative {
        ma > mb
    } else if a_negative {
        true
    } else if b_negative {
        false
    } else {
        ma < mb
    }
}

/// Computes IEEE-754 `a > b` on two bit patterns.
pub fn greater_than(a: u64, b: u64) -> (r: bool)
    ensures
        r == gt(a, b),
{
    less_than(b, a)
}

/// Computes IEEE-754 `a == b` on two bit patterns.
pub fn equal(a: u64, b: u64) -> (r: bool)
    ensures
        r == eq(a, b),
{
    let ma = if a >= SIGN_BIT { a - SIGN_BIT } else { a };
    let mb = if b >= SIGN_BIT { b - SIGN_BIT } else { b };
    if ma > POSITIVE_INFINITY || mb > POSITIVE_INFINITY {
        return false;
    }
    a == b || (ma == 0 && mb == 0)
}

/// Computes IEEE-754 `a <= b` on two bit patterns.
pub fn less_or_equal(a: u64, b: u64) -> (r: bool)
    ensures
        r == le(a, b),
{
    less_than(a, b) || equal(a, b)
}

/// Computes the pattern of `|x|`.
pub fn absolute(b: u64) -> (r: u64)
    ensures
        r == abs(b),
{
    if b >= SIGN_BIT { b - SIGN_BIT } else { b }
}

/// The key of `b` in the total order of `f64::total_cmp`: negative patterns
/// from the largest magnitude up, then positive ones from +0 up (NaNs at
/// both ends).
pub fn total_key(b: u64) -> (k: u64)
    ensures
        k == order_key(b),
{
    if b >= SIGN_BIT {
        SIGN_BIT - 1 - (b - SIGN_BIT)
    } else {
        SIGN_BIT + b
    }
}

} // verus!
