//! Signed fixed-point scalars with 16 fractional bits.
//!
//! A value `v` is stored as `v * SCALE` rounded toward zero in an `i64`;
//! every operation saturates at the `i64` range instead of overflowing, so
//! all operations are total.  The spec functions below are the exact
//! mathematical model of the executable operations.

use vstd::prelude::*;

verus! {

/// Number of representable steps per unit: a scalar holds `bits / SCALE`.
pub const SCALE: i64 = 65536;

/// A fixed-point scalar; its mathematical value is `bits / SCALE`.
#[derive(Clone, Copy, Debug, PartialEq, Eq, Structural)]
pub struct Fx {
    pub bits: i64,
}

impl View for Fx {
    type V = int;

    open spec fn view(&self) -> int {
        self.bits as int
    }
}

/// Magnitude of an integer.
pub open spec fn mag(x: int) -> int {
    if x < 0 {
        -x
    } else {
        x
    }
}

/// Saturate an integer into the `i64` range.
pub open spec fn sat(x: int) -> int {
    if x > i64::MAX as int {
        i64::MAX as int
    } else if x < i64::MIN as int {
        i64::MIN as int
    } else {
        x
    }
}

/// Quotient rounded toward zero; zero when the divisor is zero.
pub open spec fn quot(n: int, d: int) -> int {
    if d == 0 {
        0
    } else if (n < 0) != (d < 0) {
        -(mag(n) / mag(d))
    } else {
        mag(n) / mag(d)
    }
}

pub open spec fn fx_add(a: int, b: int) -> int {
    sat(a + b)
}

pub open spec fn fx_sub(a: int, b: int) -> int {
    sat(a - b)
}

pub open spec fn fx_neg(a: int) -> int {
    sat(-a)
}

pub open spec fn fx_mul(a: int, b: int) -> int {
    sat(quot(a * b, SCALE as int))
}

pub open spec fn fx_div(a: int, b: int) -> int {
    sat(quot(a * (SCALE as int), b))
}

pub open spec fn fx_max0(a: int) -> int {
    if a < 0 {
        0
    } else {
        a
    }
}

pub open spec fn fx_clamp01(a: int) -> int {
    if a < 0 {
        0
    } else if a > SCALE as int {
        SCALE as int
    } else {
        a
    }
}

/// Largest `r` with `r * r <= n`.
pub open spec fn isqrt(n: nat) -> nat
    decreases n,
{
    if n == 0 {
        0
    } else {
        let r = isqrt((n - 1) as nat);
        if (r + 1) * (r + 1) <= n {
            r + 1
        } else {
            r
        }
    }
}

/// Square root of a fixed-point scalar, rounded down to the nearest
/// representable step; zero on non-positive input.
pub open spec fn fx_sqrt(a: int) -> int {
    if a <= 0 {
        0
    } else {
        isqrt((a * (SCALE as int)) as nat) as int
    }
}

pub proof fn lemma_isqrt_bounds(n: nat)
    ensures
        isqrt(n) * isqrt(n) <= n,
        n < (isqrt(n) + 1) * (isqrt(n) + 1),
    decreases n,
{
    if n == 0 {
        assert(isqrt(0) == 0);
        assert(isqrt(n) * isqrt(n) <= n);
        assert(n < (isqrt(n) + 1) * (isqrt(n) + 1)) by (nonlinear_arith)
            requires
                n == 0,
                isqrt(n) == 0,
        ;
    } else {
        lemma_isqrt_bounds((n - 1) as nat);
        let r = isqrt((n - 1) as nat);
        if (r + 1) * (r + 1) <= n {
            assert(isqrt(n) == r + 1);
            assert(n <= (r + 1) * (r + 1)) by {
                assert((n - 1) < (r + 1) * (r + 1));
            };
            assert((r + 1) * (r + 1) < (r + 2) * (r + 2)) by (nonlinear_arith);
            assert(isqrt(n) * isqrt(n) <= n);
            assert(n < (isqrt(n) + 1) * (isqrt(n) + 1));
        } else {
            assert(isqrt(n) == r);
            assert(r * r <= n - 1);
            assert(isqrt(n) * isqrt(n) <= n);
            assert(n < (isqrt(n) + 1) * (isqrt(n) + 1));
        }
    }
}

pub proof fn lemma_isqrt_unique(n: nat, r: nat)
    requires
        r * r <= n,
        n < (r + 1) * (r + 1),
    ensures
        r == isqrt(n),
{
    lemma_isqrt_bounds(n);
    let s = isqrt(n);
    if r < s {
        assert((r + 1) * (r + 1) <= s * s) by (nonlinear_arith)
            requires
                r + 1 <= s,
        ;
    }
    if s < r {
        assert((s + 1) * (s + 1) <= r * r) by (nonlinear_arith)
            requires
                s + 1 <= r,
        ;
    }
}

pub proof fn lemma_isqrt_square(k: nat)
    ensures
        isqrt(k * k) == k,
{
    assert(k * k < (k + 1) * (k + 1)) by (nonlinear_arith);
    lemma_isqrt_unique(k * k, k);
}

/// Truncating division undoes multiplication by `SCALE` exactly.
pub proof fn lemma_quot_multiple(n: int)
    ensures
        quot(n * SCALE as int, SCALE as int) == n,
{
    vstd::arithmetic::div_mod::lemma_div_multiples_vanish(mag(n), SCALE as int);
    assert(mag(n * 65536) == mag(n) * 65536) by (nonlinear_arith);
    assert(mag(n) * 65536 == 65536 * mag(n)) by (nonlinear_arith);
}

/// A product of two whole-valued scalars is computed exactly, up to saturation.
pub proof fn lemma_fx_mul_exact(a: int, b: int)
    ensures
        fx_mul(a * SCALE as int, b * SCALE as int) == sat(a * b * SCALE as int),
{
    assert((a * 65536) * (b * 65536) == (a * b * 65536) * 65536) by (nonlinear_arith);
    lemma_quot_multiple(a * b * SCALE as int);
}

/// Division by one (the unit scalar) is the identity, up to saturation.
pub proof fn lemma_fx_div_by_one(a: int)
    ensures
        fx_div(a, SCALE as int) == sat(a),
{
    lemma_quot_multiple(a);
}

/// The square root of the square of a whole-valued scalar is exact.
pub proof fn lemma_fx_sqrt_square(u: int)
    requires
        0 <= u,
    ensures
        fx_sqrt(u * u * SCALE as int) == u * SCALE as int,
{
    if u == 0 {
        assert(u * u * SCALE as int == 0) by (nonlinear_arith)
            requires
                u == 0,
        ;
    } else {
        assert(u * u * 65536 > 0) by (nonlinear_arith)
            requires
                u >= 1,
        ;
        assert((u * u * 65536) * 65536 == (u * 65536) * (u * 65536)) by (nonlinear_arith);
        lemma_isqrt_square((u * 65536) as nat);
        assert(((u * 65536) * (u * 65536)) as nat == ((u * 65536) as nat) * ((u * 65536) as nat));
    }
}

proof fn lemma_i64_prod_bounds(a: int, b: int)
    by (nonlinear_arith)
    requires
        -0x8000_0000_0000_0000 <= a <= 0x7fff_ffff_ffff_ffff,
        -0x8000_0000_0000_0000 <= b <= 0x7fff_ffff_ffff_ffff,
    ensures
        -0x4000_0000_0000_0000_0000_0000_0000_0000 <= a * b,
        a * b <= 0x4000_0000_0000_0000_0000_0000_0000_0000,
{
}

impl Fx {
    pub fn add(self, oth: Fx) -> (r: Fx)
        ensures
            r@ == fx_add(self@, oth@),
    {
        let s: i128 = self.bits as i128 + oth.bits as i128;
        if s > i64::MAX as i128 {
            Fx { bits: i64::MAX }
        } else if s < i64::MIN as i128 {
            Fx { bits: i64::MIN }
        } else {
            Fx { bits: s as i64 }
        }
    }

    pub fn sub(self, oth: Fx) -> (r: Fx)
        ensures
            r@ == fx_sub(self@, oth@),
    {
        let s: i128 = self.bits as i128 - oth.bits as i128;
        if s > i64::MAX as i128 {
            Fx { bits: i64::MAX }
        } else if s < i64::MIN as i128 {
            Fx { bits: i64::MIN }
        } else {
            Fx { bits: s as i64 }
        }
    }

    pub fn neg(self) -> (r: Fx)
        ensures
            r@ == fx_neg(self@),
    {
        if self.bits == i64::MIN {
            Fx { bits: i64::MAX }
        } else {
            Fx { bits: -self.bits }
        }
    }

    pub fn mul(self, oth: Fx) -> (r: Fx)
        ensures
            r@ == fx_mul(self@, oth@),
    {
        proof {
            lemma_i64_prod_bounds(self.bits as int, oth.bits as int);
        }
        let p: i128 = (self.bits as i128) * (oth.bits as i128);
        let neg: bool = p < 0;
        let m: u128 = if neg {
            (-p) as u128
        } else {
            p as u128
        };
        let q: u128 = m / 65536;
        if neg {
            if q > 0x8000_0000_0000_0000u128 {
                Fx { bits: i64::MIN }
            } else {
                let v: i128 = -(q as i128);
                Fx { bits: v as i64 }
            }
        } else {
            if q > 0x7fff_ffff_ffff_ffffu128 {
                Fx { bits: i64::MAX }
            } else {
                Fx { bits: q as i64 }
            }
        }
    }

    pub fn div(self, oth: Fx) -> (r: Fx)
        ensures
            r@ == fx_div(self@, oth@),
    {
        if oth.bits == 0 {
            return Fx { bits: 0 };
        }
        let n: i128 = (self.bits as i128) * 65536;
        let nneg: bool = n < 0;
        let nm: u128 = if nneg {
            (-n) as u128
        } else {
            n as u128
        };
        let dneg: bool = oth.bits < 0;
        let dm: u128 = if dneg {
            (-(oth.bits as i128)) as u128
        } else {
            oth.bits as u128
        };
        let q: u128 = nm / dm;
        if nneg != dneg {
            if q > 0x8000_0000_0000_0000u128 {
                Fx { bits: i64::MIN }
            } else {
                let v: i128 = -(q as i128);
                Fx { bits: v as i64 }
            }
        } else {
            if q > 0x7fff_ffff_ffff_ffffu128 {
                Fx { bits: i64::MAX }
            } else {
                Fx { bits: q as i64 }
            }
        }
    }

    pub fn sqrt(self) -> (r: Fx)
        ensures
            r@ == fx_sqrt(self@),
    {
        if self.bits <= 0 {
            return Fx { bits: 0 };
        }
        let n: u128 = (self.bits as u128) * 65536;
        let mut lo: u128 = 0;
        let mut hi: u128 = 0x100_0000_0000;
        while lo + 1 < hi
            invariant
                lo < hi <= 0x100_0000_0000,
                lo * lo <= n,
                n < hi * hi,
            decreases hi - lo,
        {
            let mid: u128 = lo + (hi - lo) / 2;
            proof {
                assert(mid * mid < 0x1_0000_0000_0000_0000_0000) by (nonlinear_arith)
                    requires
                        mid < 0x100_0000_0000,
                ;
            }
            let sq: u128 = mid * mid;
            if sq <= n {
                lo = mid;
            } else {
                hi = mid;
            }
        }
        proof {
            lemma_isqrt_unique(n as nat, lo as nat);
        }
        Fx { bits: lo as i64 }
    }

    pub fn max0(self) -> (r: Fx)
        ensures
            r@ == fx_max0(self@),
    {
        if self.bits < 0 {
            Fx { bits: 0 }
        } else {
            self
        }
    }

    pub fn clamp01(self) -> (r: Fx)
        ensures
            r@ == fx_clamp01(self@),
    {
        if self.bits < 0 {
            Fx { bits: 0 }
        } else if self.bits > SCALE {
            Fx { bits: SCALE }
        } else {
            self
        }
    }

    /// The fixed-point scalar with the given whole-number value.
    pub fn of_i32(n: i32) -> (r: Fx)
        ensures
            r@ == n as int * SCALE as int,
    {
        Fx { bits: (n as i64) * SCALE }
    }

    /// The fixed-point scalar with the given whole-number value.
    pub fn of_u32(n: u32) -> (r: Fx)
        ensures
            r@ == n as int * SCALE as int,
    {
        Fx { bits: (n as i64) * SCALE }
    }
}

} // verus!
