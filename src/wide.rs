//! Unsigned integers of 256 bits, as much of them as the estimator needs.
use vstd::arithmetic::div_mod::lemma_fundamental_div_mod;
use vstd::prelude::*;

verus! {

/// `2^128`, the base of the two halves of a `U256`.
pub open spec fn half_base() -> int {
    0x1_0000_0000_0000_0000int * 0x1_0000_0000_0000_0000int
}

/// `2^256`, one past the largest `U256`.
pub open spec fn wide_bound() -> int {
    half_base() * half_base()
}

/// An unsigned integer of 256 bits: `hi * 2^128 + lo`.
#[derive(Clone, Copy, Debug)]
pub struct U256 {
    pub hi: u128,
    pub lo: u128,
}

proof fn lemma_halves_order(h1: int, l1: int, h2: int, l2: int)
    requires
        0 <= l1 < half_base(),
        0 <= l2 < half_base(),
        h1 < h2,
    ensures
        h1 * half_base() + l1 < h2 * half_base() + l2,
{
    assert(h1 * half_base() + half_base() <= h2 * half_base()) by (nonlinear_arith)
        requires
            h1 < h2,
            half_base() > 0,
    ;
}

/// A `U256` stands for a number in `[0, 2^256)`.
pub proof fn lemma_value_bounds(a: U256)
    ensures
        0 <= a.value() < wide_bound(),
{
    assert(0 <= a.hi * half_base()) by (nonlinear_arith)
        requires
            a.hi >= 0,
    ;
    assert(a.hi * half_base() + a.lo < half_base() * half_base()) by (nonlinear_arith)
        requires
            a.hi < half_base(),
            a.lo < half_base(),
    ;
}

impl U256 {
    /// The number this stands for.
    pub open spec fn value(self) -> int {
        self.hi * half_base() + self.lo
    }

    /// `x` as a `U256`.
    pub fn from_u128(x: u128) -> (r: U256)
        ensures
            r.value() == x,
    {
        U256 { hi: 0, lo: x }
    }

    /// The sum, which must stay below `2^256`.
    pub fn add(self, o: U256) -> (r: U256)
        requires
            self.value() + o.value() < wide_bound(),
        ensures
            r.value() == self.value() + o.value(),
    {
        if o.lo <= u128::MAX - self.lo {
            proof {
                if self.hi + o.hi >= half_base() {
                    assert((self.hi + o.hi) * half_base() >= half_base() * half_base())
                        by (nonlinear_arith)
                        requires
                            self.hi + o.hi >= half_base(),
                    ;
                }
            }
            U256 { hi: self.hi + o.hi, lo: self.lo + o.lo }
        } else {
            proof {
                if self.hi + o.hi + 1 >= half_base() {
                    assert((self.hi + o.hi + 1) * half_base() >= half_base() * half_base())
                        by (nonlinear_arith)
                        requires
                            self.hi + o.hi + 1 >= half_base(),
                    ;
                }
            }
            U256 { hi: self.hi + o.hi + 1, lo: o.lo - (u128::MAX - self.lo) - 1 }
        }
    }

    /// The difference, for `o <= self`.
    pub fn sub(self, o: U256) -> (r: U256)
        requires
            o.value() <= self.value(),
        ensures
            r.value() == self.value() - o.value(),
    {
        if self.lo >= o.lo {
            proof {
                if self.hi < o.hi {
                    lemma_halves_order(self.hi as int, self.lo as int, o.hi as int, o.lo as int);
                }
            }
            assert((self.hi - o.hi) * half_base() == self.hi * half_base() - o.hi * half_base())
                by (nonlinear_arith);
            U256 { hi: self.hi - o.hi, lo: self.lo - o.lo }
        } else {
            proof {
                if self.hi <= o.hi {
                    if self.hi < o.hi {
                        lemma_halves_order(self.hi as int, self.lo as int, o.hi as int, o.lo as int);
                    }
                }
            }
            assert((self.hi - o.hi - 1) * half_base() == self.hi * half_base() - o.hi * half_base()
                - half_base()) by (nonlinear_arith);
            U256 { hi: self.hi - o.hi - 1, lo: u128::MAX - (o.lo - self.lo) + 1 }
        }
    }

    /// Whether `self <= o`.
    pub fn le(self, o: U256) -> (r: bool)
        ensures
            r == (self.value() <= o.value()),
    {
        proof {
            if self.hi < o.hi {
                lemma_halves_order(self.hi as int, self.lo as int, o.hi as int, o.lo as int);
            }
            if o.hi < self.hi {
                lemma_halves_order(o.hi as int, o.lo as int, self.hi as int, self.lo as int);
            }
        }
        self.hi < o.hi || (self.hi == o.hi && self.lo <= o.lo)
    }

    /// The product with `b`, which must stay below `2^256`.
    pub fn mul_small(self, b: u128) -> (r: U256)
        requires
            self.value() * b < wide_bound(),
        ensures
            r.value() == self.value() * b,
    {
        let low = mul_wide(self.lo, b);
        proof {
            assert(self.value() * b == self.hi * b * half_base() + self.lo * b) by (nonlinear_arith);
            assert(self.lo * b >= 0) by (nonlinear_arith);
            if self.hi * b >= half_base() {
                assert(self.hi * b * half_base() >= half_base() * half_base()) by (nonlinear_arith)
                    requires
                        self.hi * b >= half_base(),
                ;
            }
        }
        let high = U256 { hi: self.hi * b, lo: 0 };
        low.add(high)
    }
}

/// `a * b` in full.
pub fn mul_wide(a: u128, b: u128) -> (r: U256)
    ensures
        r.value() == a * b,
{
    let limb: u128 = 0x1_0000_0000_0000_0000;
    let a0 = a % limb;
    let a1 = a / limb;
    let b0 = b % limb;
    let b1 = b / limb;
    proof {
        lemma_fundamental_div_mod(a as int, limb as int);
        lemma_fundamental_div_mod(b as int, limb as int);
    }
    assert(a0 * b0 < limb * limb && a0 * b1 < limb * limb && a1 * b0 < limb * limb && a1 * b1
        < limb * limb) by (nonlinear_arith)
        requires
            a0 < limb,
            a1 < limb,
            b0 < limb,
            b1 < limb,
    ;
    let p00 = a0 * b0;
    let p01 = a0 * b1;
    let p10 = a1 * b0;
    let p11 = a1 * b1;
    proof {
        lemma_fundamental_div_mod(p01 as int, limb as int);
        lemma_fundamental_div_mod(p10 as int, limb as int);
    }
    assert((p01 % limb) * limb < limb * limb && (p10 % limb) * limb < limb * limb)
        by (nonlinear_arith)
        requires
            p01 % limb < limb,
            p10 % limb < limb,
            limb > 0,
    ;
    let s01 = U256 { hi: p01 / limb, lo: (p01 % limb) * limb };
    let s10 = U256 { hi: p10 / limb, lo: (p10 % limb) * limb };
    let s11 = U256 { hi: p11, lo: 0 };
    assert(s01.value() == p01 * limb) by (nonlinear_arith)
        requires
            s01.value() == (p01 / limb) * (limb * limb) + (p01 % limb) * limb,
            p01 == limb * (p01 / limb) + p01 % limb,
            half_base() == limb * limb,
    ;
    assert(s10.value() == p10 * limb) by (nonlinear_arith)
        requires
            s10.value() == (p10 / limb) * (limb * limb) + (p10 % limb) * limb,
            p10 == limb * (p10 / limb) + p10 % limb,
            half_base() == limb * limb,
    ;
    assert(a * b == p11 * (limb * limb) + p01 * limb + p10 * limb + p00) by (nonlinear_arith)
        requires
            a == limb * a1 + a0,
            b == limb * b1 + b0,
            p00 == a0 * b0,
            p01 == a0 * b1,
            p10 == a1 * b0,
            p11 == a1 * b1,
    ;
    assert(a * b < wide_bound() && p01 * limb >= 0 && p10 * limb >= 0 && p11 * (limb * limb) >= 0)
        by (nonlinear_arith)
        requires
            a < half_base(),
            b < half_base(),
            p01 >= 0,
            p10 >= 0,
            p11 >= 0,
            limb > 0,
    ;
    let r = U256::from_u128(p00).add(s01);
    let r = r.add(s10);
    r.add(s11)
}

} // verus!
