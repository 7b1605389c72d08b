//! Single-precision numbers (IEEE 754 binary32), held as their bit patterns.
//!
//! Every finite single is a whole multiple of 2^-149, so its value is modelled by
//! an integer: [`Single::scaled`] counts in units of 2^-149. An infinity is
//! modelled by the next power of two above the finite values, which keeps every
//! comparison with a finite number right. The comparisons and the conversion to
//! a whole number below are then exact statements about these integers.

use vstd::arithmetic::div_mod::{
    lemma_basic_div, lemma_div_denominator, lemma_div_is_ordered, lemma_div_multiples_vanish,
    lemma_fundamental_div_mod,
};
use vstd::arithmetic::power2::*;
use vstd::bits::{lemma_u32_shl_is_mul, lemma_u32_shr_is_div};
use vstd::prelude::*;

verus! {

/// A single-precision number, given by its bit pattern.
#[derive(Clone, Copy, Debug, PartialEq, Eq, Structural)]
pub struct Single {
    pub bits: u32,
}

/// The integer that stands for the number one: 2^149.
pub open spec fn one() -> nat {
    pow2(149)
}

/// The value of a magnitude pattern (sign bit clear) in units of 2^-149.
pub open spec fn magnitude_of(pattern: u32) -> nat {
    let exponent = pattern / 0x80_0000;
    let fraction = pattern % 0x80_0000;
    if exponent == 0 {
        fraction as nat
    } else {
        (0x80_0000 + fraction) as nat * pow2((exponent - 1) as nat)
    }
}

impl Single {
    /// Whether the sign bit is set.
    pub open spec fn negative(self) -> bool {
        self.bits >= 0x8000_0000
    }

    /// The bit pattern without the sign.
    pub open spec fn pattern(self) -> u32 {
        self.bits % 0x8000_0000
    }

    /// Whether this is not a number.
    pub open spec fn nan(self) -> bool {
        self.pattern() > 0x7f80_0000
    }

    /// Whether this is a number and not an infinity.
    pub open spec fn finite(self) -> bool {
        self.pattern() < 0x7f80_0000
    }

    /// The value in units of 2^-149.
    pub open spec fn scaled(self) -> int {
        if self.negative() {
            -(magnitude_of(self.pattern()) as int)
        } else {
            magnitude_of(self.pattern()) as int
        }
    }

    /// Whether the number lies strictly between zero and `high`.
    pub open spec fn inside(self, high: int) -> bool {
        !self.nan() && 0 < self.scaled() < high * one()
    }

    /// Whether the number lies in the closed range from zero to `high`.
    pub open spec fn within(self, high: int) -> bool {
        !self.nan() && 0 <= self.scaled() <= high * one()
    }

    /// The number without its fraction, cut off at the bounds of `u32`; zero for
    /// what is not a number.
    pub open spec fn whole_part(self) -> u32 {
        if self.nan() || self.scaled() < 0 {
            0
        } else if self.scaled() / one() as int > u32::MAX {
            u32::MAX
        } else {
            (self.scaled() / one() as int) as u32
        }
    }

    /// The single equal to `n`.
    pub fn of(n: u32) -> (r: Single)
        requires
            n < 0x100_0000,
        ensures
            !r.negative(),
            r.finite(),
            r.scaled() == n * one(),
    {
        if n == 0 {
            return Single { bits: 0 };
        }
        let mut significand: u32 = n;
        let mut exponent: u32 = 150;
        proof {
            lemma2_to64();
        }
        while significand < 0x80_0000
            invariant
                0 < significand < 0x100_0000,
                127 <= exponent <= 150,
                significand >= pow2((150 - exponent) as nat),
                significand * pow2((exponent - 1) as nat) == n * one(),
            decreases exponent,
        {
            proof {
                lemma2_to64();
                lemma_pow2_unfold((exponent - 1) as nat);
                lemma_pow2_unfold((151 - exponent) as nat);
                if exponent == 127 {
                    assert(pow2(23) == 0x80_0000);
                }
                let p = pow2((exponent - 2) as nat);
                assert((2 * significand) * p == significand * (2 * p)) by (nonlinear_arith);
            }
            significand = significand * 2;
            exponent = exponent - 1;
        }
        let bits: u32 = exponent * 0x80_0000 + (significand - 0x80_0000);
        assert(bits / 0x80_0000 == exponent && bits % 0x80_0000 == significand - 0x80_0000);
        Single { bits }
    }

    /// Whether this is a finite number.
    pub fn is_finite(self) -> (b: bool)
        ensures
            b == self.finite(),
    {
        self.bits % 0x8000_0000 < 0x7f80_0000
    }

    /// Whether this number is smaller than `other`; false where either is not a number.
    pub fn less(self, other: Single) -> (b: bool)
        ensures
            b == (!self.nan() && !other.nan() && self.scaled() < other.scaled()),
    {
        let p: u32 = self.bits % 0x8000_0000;
        let q: u32 = other.bits % 0x8000_0000;
        if p > 0x7f80_0000 || q > 0x7f80_0000 {
            return false;
        }
        proof {
            lemma_magnitude_order(p, q);
            lemma_magnitude_order(q, p);
            lemma_magnitude_order(0, p);
            lemma_magnitude_order(0, q);
        }
        if self.bits >= 0x8000_0000 {
            if other.bits >= 0x8000_0000 {
                q < p
            } else {
                p > 0 || q > 0
            }
        } else {
            if other.bits >= 0x8000_0000 {
                false
            } else {
                p < q
            }
        }
    }

    /// Whether this number lies strictly between zero and `high`.
    pub fn is_inside(self, high: u32) -> (b: bool)
        requires
            high < 0x100_0000,
        ensures
            b == self.inside(high as int),
    {
        Single::of(0).less(self) && self.less(Single::of(high))
    }

    /// Whether this number lies in the closed range from zero to `high`.
    pub fn is_within(self, high: u32) -> (b: bool)
        requires
            high < 0x100_0000,
        ensures
            b == self.within(high as int),
    {
        self.bits % 0x8000_0000 <= 0x7f80_0000 && !self.less(Single::of(0)) && !Single::of(
            high,
        ).less(self)
    }

    /// This number without its fraction, cut off at the bounds of `u32`; zero for
    /// what is not a number.
    pub fn whole(self) -> (w: u32)
        ensures
            w == self.whole_part(),
    {
        let pattern: u32 = self.bits % 0x8000_0000;
        if pattern > 0x7f80_0000 {
            return 0;
        }
        if self.bits >= 0x8000_0000 {
            proof {
                lemma_magnitude_order(0, pattern);
                if pattern == 0 {
                    lemma_pow2_pos(149);
                    assert(0int / one() as int == 0) by (nonlinear_arith)
                        requires
                            one() > 0,
                    ;
                }
            }
            return 0;
        }
        let exponent: u32 = pattern / 0x80_0000;
        let significand: u32 = 0x80_0000 + pattern % 0x80_0000;
        proof {
            lemma_whole(pattern);
        }
        if exponent < 127 {
            0
        } else if exponent <= 150 {
            proof {
                lemma_u32_shr_is_div(significand, (150 - exponent) as u32);
            }
            significand >> (150 - exponent)
        } else if exponent < 159 {
            proof {
                lemma2_to64();
                lemma_u32_shl_is_mul(significand, (exponent - 150) as u32);
            }
            significand << (exponent - 150)
        } else {
            u32::MAX
        }
    }
}

/// A greater magnitude pattern stands for a greater number.
pub proof fn lemma_magnitude_order(p: u32, q: u32)
    ensures
        p < q ==> magnitude_of(p) < magnitude_of(q),
{
    let e = p / 0x80_0000;
    let f = p % 0x80_0000;
    let g = q / 0x80_0000;
    let h = q % 0x80_0000;
    if e == g {
        if e > 0 {
            let u = pow2((e - 1) as nat);
            lemma_pow2_pos((e - 1) as nat);
            assert(f < h ==> (0x80_0000 + f) * u < (0x80_0000 + h) * u) by (nonlinear_arith)
                requires
                    u > 0,
            ;
        }
    } else if e < g {
        let u = pow2((g - 1) as nat);
        lemma_pow2_pos((g - 1) as nat);
        assert((0x80_0000 + h) * u >= 0x80_0000 * u) by (nonlinear_arith)
            requires
                u > 0,
                h >= 0,
        ;
        if e > 0 {
            let v = pow2((e - 1) as nat);
            lemma_pow2_unfold(e as nat);
            lemma_pow2_pos((e - 1) as nat);
            if e < g - 1 {
                lemma_pow2_strictly_increases(e as nat, (g - 1) as nat);
            }
            assert((0x80_0000 + f) * v < 0x80_0000 * (2 * v)) by (nonlinear_arith)
                requires
                    v > 0,
                    f < 0x80_0000,
            ;
        }
    }
}

/// How the whole part of a positive number comes out of its exponent and significand.
proof fn lemma_whole(pattern: u32)
    ensures
        ({
            let e = pattern / 0x80_0000;
            let m = 0x80_0000 + pattern % 0x80_0000;
            let w = magnitude_of(pattern) as int / one() as int;
            &&& e < 127 ==> w == 0
            &&& 127 <= e <= 150 ==> w == m / pow2((150 - e) as nat) as int
            &&& 150 < e < 159 ==> w == m * pow2((e - 150) as nat) && w <= u32::MAX
            &&& e >= 159 ==> w > u32::MAX
        }),
{
    let e = pattern / 0x80_0000;
    let m = 0x80_0000 + pattern % 0x80_0000;
    lemma2_to64();
    lemma_pow2_pos(149);
    if e < 127 {
        lemma_magnitude_order(pattern, 0x3f80_0000u32);
        assert(magnitude_of(0x3f80_0000u32) == 0x80_0000 * pow2(126));
        lemma_pow2_adds(23, 126);
        lemma_basic_div(magnitude_of(pattern) as int, one() as int);
    } else if e <= 150 {
        let low = pow2((e - 1) as nat) as int;
        let high = pow2((150 - e) as nat) as int;
        lemma_pow2_pos((e - 1) as nat);
        lemma_pow2_pos((150 - e) as nat);
        lemma_pow2_adds((e - 1) as nat, (150 - e) as nat);
        lemma_div_denominator(m * low, low, high);
        lemma_div_multiples_vanish(m, low);
        assert(m * low == low * m) by (nonlinear_arith);
    } else {
        let low = pow2((e - 150) as nat) as int;
        lemma_pow2_pos((e - 150) as nat);
        lemma_pow2_adds((e - 150) as nat, 149);
        assert(m * (low * one()) == one() * (m * low)) by (nonlinear_arith);
        lemma_div_multiples_vanish(m * low, one() as int);
        if e < 159 {
            assert(low <= 0x100);
            assert(m * low <= 0xff_ffff * 0x100) by (nonlinear_arith)
                requires
                    0 <= m <= 0xff_ffff,
                    0 < low <= 0x100,
            ;
        } else {
            if e > 159 {
                lemma_pow2_strictly_increases(9, (e - 150) as nat);
            }
            assert(m * low >= 0x80_0000 * 0x200) by (nonlinear_arith)
                requires
                    m >= 0x80_0000,
                    low >= 0x200,
            ;
        }
    }
}

/// The whole part of a greater number is not smaller, and that of a whole number is the
/// number.
pub proof fn law_whole_part(a: Single, b: Single, n: u32)
    requires
        !a.nan(),
        !b.nan(),
    ensures
        a.scaled() <= b.scaled() ==> a.whole_part() <= b.whole_part(),
        a.scaled() == n * one() ==> a.whole_part() == n,
{
    lemma_pow2_pos(149);
    if 0 <= a.scaled() <= b.scaled() {
        lemma_div_is_ordered(a.scaled(), b.scaled(), one() as int);
    }
    if a.scaled() == n * one() {
        assert(n * one() == one() * n) by (nonlinear_arith);
        lemma_div_multiples_vanish(n as int, one() as int);
        assert(n * one() >= 0) by (nonlinear_arith)
            requires
                n >= 0,
                one() >= 0,
        ;
    }
}

/// What is strictly between zero and a bound, what is between them or equal to one, and
/// what is finite: by the value in units of 2^-149, by which the number one is 2^149. A
/// pattern that is not a number lies nowhere.
pub proof fn law_ranges(x: Single, high: int)
    ensures
        x.inside(high) <==> x.pattern() <= 0x7f80_0000 && 0 < x.scaled() && x.scaled() < high
            * pow2(149),
        x.within(high) <==> x.pattern() <= 0x7f80_0000 && 0 <= x.scaled() && x.scaled() <= high
            * pow2(149),
        x.finite() <==> x.bits % 0x8000_0000 < 0x7f80_0000,
        x.nan() <==> x.bits % 0x8000_0000 > 0x7f80_0000,
{
}

/// The value of a pattern: without a fraction bit to spare it is a power of two, and each
/// fraction bit adds its share; the sign bit turns it round. Zero and negative zero are
/// zero.
pub proof fn law_values(exponent: u32, fraction: u32)
    requires
        exponent <= 255,
        fraction < 0x80_0000,
    ensures
        ({
            let bits = (exponent * 0x80_0000 + fraction) as u32;
            let positive = Single { bits };
            let negative = Single { bits: (bits + 0x8000_0000) as u32 };
            &&& negative.scaled() == -positive.scaled()
            &&& exponent == 0 ==> positive.scaled() == fraction
            &&& exponent > 0 ==> positive.scaled() == (0x80_0000 + fraction) * pow2(
                (exponent - 1) as nat,
            )
        }),
{
}

/// The whole part of a number from zero to below 2^32 is the greatest whole number that is
/// not above it; below zero, and of what is not a number, it is zero, and from 2^32 on the
/// greatest `u32`.
pub proof fn law_whole_part_bounds(x: Single)
    ensures
        x.pattern() > 0x7f80_0000 ==> x.whole_part() == 0,
        x.pattern() <= 0x7f80_0000 && x.scaled() < 0 ==> x.whole_part() == 0,
        x.pattern() <= 0x7f80_0000 && 0 <= x.scaled() < 0x1_0000_0000 * pow2(149)
            ==> x.whole_part() * pow2(149) <= x.scaled() < (x.whole_part() + 1) * pow2(149),
        x.pattern() <= 0x7f80_0000 && x.scaled() >= 0x1_0000_0000 * pow2(149) ==> x.whole_part()
            == u32::MAX,
{
    lemma_pow2_pos(149);
    let one = pow2(149) as int;
    let v = x.scaled();
    if 0 <= v {
        let w = v / one;
        lemma_fundamental_div_mod(v, one);
        assert(w * one <= v < (w + 1) * one) by (nonlinear_arith)
            requires
                v == one * w + v % one,
                0 <= v % one < one,
        ;
        assert(v < 0x1_0000_0000 * one ==> w < 0x1_0000_0000) by (nonlinear_arith)
            requires
                w * one <= v,
                one > 0,
        ;
        assert(v >= 0x1_0000_0000 * one ==> w >= 0x1_0000_0000) by (nonlinear_arith)
            requires
                v < (w + 1) * one,
                one > 0,
        ;
    }
}

} // verus!
