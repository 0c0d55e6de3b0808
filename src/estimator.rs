//! The cardinality estimator of a register array.
//!
//! Everything is integer arithmetic. The raw harmonic-mean estimate and the
//! regime thresholds are exact fractions, rounded once at the end. Natural
//! logarithms, which the linear-counting and large-range regimes need, are
//! computed in fixed point with 60 fractional bits.
use vstd::arithmetic::div_mod::lemma_fundamental_div_mod_converse;
use vstd::arithmetic::power2::{
    lemma2_to64, lemma2_to64_rest, lemma_pow2_adds, lemma_pow2_pos, lemma_pow2_strictly_increases,
    pow2,
};
use crate::wide::{half_base, lemma_value_bounds, mul_wide, wide_bound, U256};
use vstd::prelude::*;

verus! {

/// The fixed-point scale of the estimator's logarithms: one is `2^60`.
pub const ONE: u128 = 0x1000_0000_0000_0000;

/// `ln 2` in the fixed-point scale, rounded to nearest.
pub const LN2: u128 = 799_144_290_325_165_979;

/// Number of terms of the series that gives `ln` on `[1, 2)`.
pub const SERIES_TERMS: u128 = 22;

/// `2^254`, one past the largest numerator that `ln_ratio_wide` accepts, is a
/// quarter of `2^256`.
proof fn lemma_pow2_254()
    ensures
        pow2(254) * 4 == wide_bound(),
        pow2(64) == 0x1_0000_0000_0000_0000,
{
    lemma2_to64();
    lemma2_to64_rest();
    lemma_pow2_adds(64, 64);
    lemma_pow2_adds(128, 128);
    lemma_pow2_adds(254, 2);
}

/// `x * 2^k / d` together with its remainder, by binary long division.
pub fn div_scaled(x: U256, k: u32, d: U256) -> (r: (u128, U256))
    requires
        x.value() < d.value(),
        2 * d.value() < wide_bound(),
        k <= 64,
    ensures
        r.0 == x.value() * pow2(k as nat) / d.value(),
        r.1.value() == x.value() * pow2(k as nat) % d.value(),
        r.0 < pow2(k as nat),
        r.0 * d.value() + r.1.value() == x.value() * pow2(k as nat),
        r.1.value() < d.value(),
{
    let mut q: u128 = 0;
    let mut rem: U256 = x;
    let mut i: u32 = 0;
    proof {
        lemma2_to64();
        lemma_value_bounds(x);
    }
    while i < k
        invariant
            i <= k <= 64,
            0 <= x.value() < d.value(),
            2 * d.value() < wide_bound(),
            q * d.value() + rem.value() == x.value() * pow2(i as nat),
            0 <= rem.value() < d.value(),
            q < pow2(i as nat),
        decreases k - i,
    {
        proof {
            lemma_pow2_adds(i as nat, 1);
            lemma2_to64();
            lemma2_to64_rest();
            if i < 63 {
                lemma_pow2_strictly_increases(i as nat, 63);
            }
            assert(x.value() * pow2((i + 1) as nat) == 2 * (x.value() * pow2(i as nat)))
                by (nonlinear_arith)
                requires
                    pow2((i + 1) as nat) == pow2(i as nat) * 2,
            ;
            assert((2 * q) * d.value() + 2 * rem.value() == 2 * (q * d.value() + rem.value()))
                by (nonlinear_arith);
        }
        let twice = rem.add(rem);
        q = 2 * q;
        if d.le(twice) {
            rem = twice.sub(d);
            q = q + 1;
            assert(q * d.value() == (q - 1) * d.value() + d.value()) by (nonlinear_arith);
        } else {
            rem = twice;
        }
        i = i + 1;
    }
    proof {
        lemma_fundamental_div_mod_converse(
            x.value() * pow2(k as nat),
            d.value(),
            q as int,
            rem.value(),
        );
    }
    (q, rem)
}

/// Number of times `c` can be doubled while staying at most `a`.
pub open spec fn octaves(a: int, c: int) -> nat
    decreases a - c,
{
    if 0 < c && 2 * c <= a {
        1 + octaves(a, 2 * c)
    } else {
        0
    }
}

/// `c` doubled `octaves(a, c)` times: the largest `c * 2^k` that is at most `a`.
pub open spec fn octave_base(a: int, c: int) -> int
    decreases a - c,
{
    if 0 < c && 2 * c <= a {
        octave_base(a, 2 * c)
    } else {
        c
    }
}

/// Fixed-point sum of the terms `j..SERIES_TERMS` of `t + t^3/3 + t^5/5 + ...`,
/// where `pw` is the power `t^(2j+1)` and `t2` is `t^2`, both in the fixed-point scale.
pub open spec fn atanh_tail(pw: int, t2: int, j: int) -> int
    decreases SERIES_TERMS - j,
{
    if j < SERIES_TERMS {
        pw / (2 * j + 1) + atanh_tail(pw * t2 / (ONE as int), t2, j + 1)
    } else {
        0
    }
}

/// `ln(a / b)` in the fixed-point scale, for `0 < b <= a`.
///
/// With `c = b * 2^k` the largest such multiple at most `a`, the ratio is
/// `2^k * (a / c)` with `a / c` in `[1, 2)`, and `ln(a / c) = 2 * atanh(t)` with
/// `t = (a - c) / (a + c)` in `[0, 1/3)`. The series for `atanh` is cut after
/// `SERIES_TERMS` terms, each truncated to the scale.
pub open spec fn ln_fixed(a: int, b: int) -> int {
    let c = octave_base(a, b);
    let t = (a - c) * (ONE as int) / (a + c);
    octaves(a, b) * LN2 + 2 * atanh_tail(t, t * t / (ONE as int), 0)
}

/// `ln(a / b)` in the fixed-point scale.
pub fn ln_ratio_wide(a: U256, b: U256) -> (r: u128)
    requires
        0 < b.value() <= a.value(),
        4 * a.value() < wide_bound(),
    ensures
        r == ln_fixed(a.value(), b.value()),
        r <= 300 * ONE,
{
    let mut c: U256 = b;
    let mut k: u128 = 0;
    proof {
        lemma_pow2_254();
        lemma2_to64();
    }
    let mut more = c.add(c).le(a);
    while more
        invariant
            0 < b.value() <= c.value() <= a.value(),
            4 * a.value() < wide_bound(),
            pow2(254) * 4 == wide_bound(),
            more == (2 * c.value() <= a.value()),
            c.value() >= pow2(k as nat),
            k < 254,
            octaves(a.value(), b.value()) == k + octaves(a.value(), c.value()),
            octave_base(a.value(), b.value()) == octave_base(a.value(), c.value()),
        decreases a.value() - c.value(),
    {
        proof {
            lemma_pow2_adds(k as nat, 1);
            lemma2_to64();
            if k + 1 > 254 {
                lemma_pow2_strictly_increases(254, (k + 1) as nat);
            }
        }
        c = c.add(c);
        k = k + 1;
        more = c.add(c).le(a);
    }
    proof {
        lemma2_to64_rest();
    }
    let (t, _) = div_scaled(a.sub(c), 60, a.add(c));
    assert(t * t < ONE * ONE) by (nonlinear_arith)
        requires
            t < ONE,
    ;
    let t2: u128 = t * t / ONE;
    let mut pw: u128 = t;
    let mut acc: u128 = 0;
    let mut j: u128 = 0;
    while j < SERIES_TERMS
        invariant
            j <= SERIES_TERMS,
            pw < ONE,
            t2 < ONE,
            acc <= j * ONE,
            acc + atanh_tail(pw as int, t2 as int, j as int) == atanh_tail(
                t as int,
                t2 as int,
                0,
            ),
        decreases SERIES_TERMS - j,
    {
        assert(pw * t2 < ONE * ONE) by (nonlinear_arith)
            requires
                pw < ONE,
                t2 < ONE,
        ;
        acc = acc + pw / (2 * j + 1);
        pw = pw * t2 / ONE;
        j = j + 1;
    }
    k * LN2 + 2 * acc
}

/// `ln(a / b)` in the fixed-point scale, for arguments of 128 bits.
pub fn ln_ratio(a: u128, b: u128) -> (r: u128)
    requires
        0 < b <= a,
    ensures
        r == ln_fixed(a as int, b as int),
        r <= 300 * ONE,
{
    proof {
        assert(4 * a < wide_bound()) by (nonlinear_arith)
            requires
                a < half_base(),
                half_base() > 0,
        ;
    }
    ln_ratio_wide(U256::from_u128(a), U256::from_u128(b))
}

/// Largest number of registers: `2^63`, as many as a 64-bit index can count.
pub const MAX_REGISTERS: u128 = 0x8000_0000_0000_0000;

/// `2^64 * 2^-r`: the weight of a register holding rank `r`, scaled by `2^64`.
pub open spec fn weight(r: u8) -> int {
    pow2((64 - r) as nat) as int
}

/// `2^64` times the sum of `2^-r` over the registers.
pub open spec fn weight_sum(regs: Seq<u8>) -> int
    decreases regs.len(),
{
    if regs.len() == 0 {
        0
    } else {
        weight_sum(regs.drop_last()) + weight(regs.last())
    }
}

/// Number of registers still at zero.
pub open spec fn zero_count(regs: Seq<u8>) -> int
    decreases regs.len(),
{
    if regs.len() == 0 {
        0
    } else {
        zero_count(regs.drop_last()) + if regs.last() == 0 {
            1int
        } else {
            0int
        }
    }
}

/// Numerator of the bias-correction constant for `m` registers.
pub open spec fn alpha_num(m: int) -> int {
    if m == 16 {
        673
    } else if m == 32 {
        697
    } else if m == 64 {
        709
    } else {
        7213 * m
    }
}

/// Denominator of the bias-correction constant for `m` registers: with
/// `alpha_num`, `0.673`, `0.697`, `0.709`, or `0.7213 / (1 + 1.079 / m)`.
pub open spec fn alpha_den(m: int) -> int {
    if m == 16 || m == 32 || m == 64 {
        1000
    } else {
        10000 * m + 10790
    }
}

/// `n / d` rounded to the nearest integer, halves away from zero (`n >= 0`).
pub open spec fn round_div(n: int, d: int) -> int {
    n / d + if 2 * (n % d) >= d {
        1int
    } else {
        0int
    }
}

/// `v`, or `u64::MAX` where `v` is larger.
pub open spec fn saturated(v: int) -> int {
    if v > u64::MAX {
        u64::MAX as int
    } else {
        v
    }
}

/// The cardinality estimate of a register array.
///
/// The raw harmonic-mean estimate is `alpha * m^2 / sum(2^-r)`, the exact
/// fraction `x * 2^64 / d` below. With every register at zero the estimate is
/// zero. With some at zero and the linear-counting estimate `m * ln(m / zeros)`
/// at most `2.5 * m`, that estimate is taken, saturated to `u64::MAX`. Otherwise the raw estimate is taken
/// when it is at most `2^32 / 30`; above that it is replaced by
/// `-2^32 * ln(1 - raw / 2^32) = 2^32 * ln(d / (d - x * 2^32))`. Where that
/// logarithm is undefined, a raw estimate of exactly `2^32` saturates to
/// `u64::MAX` and a larger one gives zero.
pub open spec fn cardinality_of(regs: Seq<u8>) -> int {
    let m = regs.len() as int;
    let zeros = zero_count(regs);
    let x = alpha_num(m) * m * m;
    let d = alpha_den(m) * weight_sum(regs);
    let linear = ln_fixed(m, zeros);
    if zeros == m {
        0
    } else if zeros > 0 && linear <= 5 * (ONE as int) / 2 {
        saturated(round_div(m * linear, ONE as int))
    } else if 30 * x * pow2(32) <= d {
        round_div(x * pow2(64), d)
    } else if x * pow2(32) < d {
        round_div(ln_fixed(d, d - x * pow2(32)), pow2(28) as int)
    } else if x * pow2(32) == d {
        u64::MAX as int
    } else {
        0
    }
}

/// A register array that the estimator accepts: between 16 and `MAX_REGISTERS`
/// registers, each holding a rank of at most 64.
pub open spec fn estimable(regs: Seq<u8>) -> bool {
    &&& 16 <= regs.len() <= MAX_REGISTERS
    &&& forall|i: int| 0 <= i < regs.len() ==> regs[i] <= 64
}

proof fn lemma_weight_bounds(r: u8)
    requires
        r <= 64,
    ensures
        1 <= weight(r) <= pow2(64),
{
    lemma_pow2_pos((64 - r) as nat);
    if r > 0 {
        lemma_pow2_strictly_increases((64 - r) as nat, 64);
    }
}

/// The weight of one register, `2^(64 - r)`.
fn register_weight(r: u8) -> (w: u128)
    requires
        r <= 64,
    ensures
        w == weight(r),
{
    proof {
        lemma2_to64();
        lemma2_to64_rest();
    }
    if r == 0 {
        0x1_0000_0000_0000_0000
    } else {
        let shift: u64 = (64 - r) as u64;
        proof {
            lemma_pow2_strictly_increases(shift as nat, 64);
            vstd::bits::lemma_u64_shl_is_mul(1, shift);
        }
        (1u64 << shift) as u128
    }
}

/// Computes `cardinality_of` on a register array.
pub fn estimate(regs: &Vec<u8>) -> (r: u64)
    requires
        estimable(regs@),
    ensures
        r as int == cardinality_of(regs@),
{
    let n = regs.len();
    let mut sum: u128 = 0;
    let mut zeros: u128 = 0;
    let mut i: usize = 0;
    proof {
        lemma2_to64();
        lemma2_to64_rest();
    }
    while i < n
        invariant
            n == regs@.len(),
            estimable(regs@),
            i <= n,
            sum == weight_sum(regs@.subrange(0, i as int)),
            zeros == zero_count(regs@.subrange(0, i as int)),
            sum <= i * pow2(64),
            zeros <= i,
            pow2(64) == 0x1_0000_0000_0000_0000,
        decreases n - i,
    {
        let r = regs[i];
        let w = register_weight(r);
        proof {
            lemma_weight_bounds(r);
            assert(regs@.subrange(0, i + 1).drop_last() =~= regs@.subrange(0, i as int));
            assert((i + 1) * 0x1_0000_0000_0000_0000 <= MAX_REGISTERS * 0x1_0000_0000_0000_0000)
                by (nonlinear_arith)
                requires
                    i + 1 <= MAX_REGISTERS,
            ;
        }
        sum = sum + w;
        if r == 0 {
            zeros = zeros + 1;
        }
        i = i + 1;
    }
    proof {
        assert(regs@.subrange(0, n as int) =~= regs@);
        lemma_pow2_254();
    }
    let m = n as u128;
    if zeros == m {
        return 0;
    }
    let (an, ad): (u128, u128) = if m == 16 {
        (673, 1000)
    } else if m == 32 {
        (697, 1000)
    } else if m == 64 {
        (709, 1000)
    } else {
        (7213 * m, 10000 * m + 10790)
    };
    if zeros > 0 {
        let linear = ln_ratio(m, zeros);
        if linear <= 5 * ONE / 2 {
            assert(m * linear <= MAX_REGISTERS * (5 * ONE / 2)) by (nonlinear_arith)
                requires
                    m <= MAX_REGISTERS,
                    linear <= 5 * ONE / 2,
            ;
            let n = m * linear;
            let rounded = n / ONE + if 2 * (n % ONE) >= ONE {
                1u128
            } else {
                0u128
            };
            if rounded > u64::MAX as u128 {
                return u64::MAX;
            }
            return rounded as u64;
        }
    }
    assert(an * m <= 7213 * 0x8000_0000_0000_0000int * 0x8000_0000_0000_0000int) by (nonlinear_arith)
        requires
            an <= 7213 * m,
            m <= 0x8000_0000_0000_0000int,
    ;
    assert(an * m * m <= 7213 * 0x8000_0000_0000_0000int * 0x8000_0000_0000_0000int
        * 0x8000_0000_0000_0000int) by (nonlinear_arith)
        requires
            an * m <= 7213 * 0x8000_0000_0000_0000int * 0x8000_0000_0000_0000int,
            m <= 0x8000_0000_0000_0000int,
            an >= 0,
    ;
    assert(ad * sum <= (10000 * 0x8000_0000_0000_0000int + 10790) * (0x8000_0000_0000_0000int
        * 0x1_0000_0000_0000_0000int)) by (nonlinear_arith)
        requires
            ad <= 10000 * m + 10790,
            m <= 0x8000_0000_0000_0000int,
            sum <= m * 0x1_0000_0000_0000_0000,
    ;
    assert(7213 * 0x8000_0000_0000_0000int * 0x8000_0000_0000_0000int * 0x8000_0000_0000_0000int
        * 0x1_0000_0000 * 30 < wide_bound()) by (nonlinear_arith);
    let x = U256::from_u128(an).mul_small(m).mul_small(m);
    let x32 = x.mul_small(0x1_0000_0000);
    let thirty = x32.mul_small(30);
    let d = mul_wide(ad, sum);
    assert(x.value() > 0) by (nonlinear_arith)
        requires
            x.value() == an * m * m,
            an > 0,
            m > 0,
    ;
    if thirty.le(d) {
        let (q, rem) = div_scaled(x, 64, d);
        assert(q * 30 <= 0x1_0000_0000) by (nonlinear_arith)
            requires
                q * d.value() + rem.value() == x.value() * 0x1_0000_0000_0000_0000,
                30 * x.value() * 0x1_0000_0000 <= d.value(),
                x.value() > 0,
                rem.value() >= 0,
        ;
        let up = d.le(rem.add(rem));
        let rounded = q + if up {
            1u128
        } else {
            0u128
        };
        return rounded as u64;
    }
    if !d.le(x32) {
        let corrected = ln_ratio_wide(d, d.sub(x32));
        let unit: u128 = 0x1000_0000;
        let rounded = corrected / unit + if 2 * (corrected % unit) >= unit {
            1u128
        } else {
            0u128
        };
        return rounded as u64;
    }
    if x32.le(d) {
        u64::MAX
    } else {
        0
    }
}

} // verus!
