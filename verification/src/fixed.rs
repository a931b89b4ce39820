//! Fixed-point scalars: a real number is held as an `i64` count of
//! 1/65536 steps. All operations state their result exactly, as an
//! integer function of the operands' raw counts.

use vstd::prelude::*;

verus! {

/// Raw count that stands for the real number one.
pub const FX_ONE: i64 = 65536;

/// Largest magnitude a component may have before entering a product.
pub const MAX_COMP: i64 = 0x8000_0000;

/// Largest magnitude a screen-space coordinate may have.
pub const SCREEN_MAX: i64 = 0x4000_0000;

/// Division that truncates toward zero, for a positive divisor.
pub open spec fn tz(n: int, d: int) -> int
    recommends
        d > 0,
{
    if n >= 0 {
        n / d
    } else {
        -((-n) / d)
    }
}

/// Division that truncates toward zero, for any nonzero divisor.
pub open spec fn sdiv(n: int, d: int) -> int
    recommends
        d != 0,
{
    if d > 0 {
        tz(n, d)
    } else {
        tz(-n, -d)
    }
}

/// The product of two fixed-point numbers, as a raw count.
pub open spec fn fxm(a: int, b: int) -> int {
    tz(a * b, FX_ONE as int)
}

/// The quotient of two fixed-point numbers, as a raw count.
pub open spec fn fxd(a: int, b: int) -> int
    recommends
        b != 0,
{
    sdiv(a * FX_ONE, b)
}

/// Multiplies two fixed-point numbers.
pub fn fx_mul(a: i64, b: i64) -> (r: i64)
    requires
        -MAX_COMP <= a <= MAX_COMP,
        -MAX_COMP <= b <= MAX_COMP,
    ensures
        r == fxm(a as int, b as int),
        -0x4000_0000_0000 <= r <= 0x4000_0000_0000,
{
    proof {
        assert((a as int) * (b as int) <= 0x4000_0000_0000_0000 && (a as int) * (b as int)
            >= -0x4000_0000_0000_0000) by (nonlinear_arith)
            requires
                -MAX_COMP <= a <= MAX_COMP,
                -MAX_COMP <= b <= MAX_COMP,
        ;
    }
    let p: i128 = (a as i128) * (b as i128);
    if p >= 0 {
        let q: u128 = (p as u128) / 65536;
        q as i64
    } else {
        let m: u128 = (-p) as u128;
        let q: u128 = m / 65536;
        -(q as i64)
    }
}

/// Divides two fixed-point numbers; `None` when the quotient leaves
/// the component range.
pub fn fx_div(a: i64, b: i64) -> (r: Option<i64>)
    requires
        b != 0,
    ensures
        r is Some <==> -MAX_COMP <= fxd(a as int, b as int) <= MAX_COMP,
        r is Some ==> r->0 == fxd(a as int, b as int),
{
    let am: i128 = a as i128;
    let bm: i128 = b as i128;
    let na: u128 = (if am >= 0 { am } else { -am }) as u128;
    let nb: u128 = (if bm >= 0 { bm } else { -bm }) as u128;
    let q: u128 = (na * 65536) / nb;
    let neg: bool = (a < 0) != (b < 0);
    proof {
        lemma_sdiv_signs(a as int, b as int);
        assert(na * 65536 == na as int * 65536);
    }
    if q > MAX_COMP as u128 {
        None
    } else {
        if neg {
            Some(-(q as i64))
        } else {
            Some(q as i64)
        }
    }
}

/// The truncating quotient of signed numbers is the quotient of their
/// magnitudes, negated when the signs differ.
proof fn lemma_sdiv_signs(a: int, b: int)
    requires
        b != 0,
    ensures
        sdiv(a * FX_ONE, b) == if (a < 0) != (b < 0) {
            -(((if a >= 0 { a } else { -a }) * FX_ONE) / (if b >= 0 { b } else { -b }))
        } else {
            ((if a >= 0 { a } else { -a }) * FX_ONE) / (if b >= 0 { b } else { -b })
        },
{
    if b > 0 {
        if a >= 0 {
        } else {
            assert(-(a * FX_ONE) == (-a) * FX_ONE) by (nonlinear_arith);
        }
    } else {
        if a >= 0 {
            assert(-(a * FX_ONE) == (-a) * FX_ONE) by (nonlinear_arith);
        } else {
            assert(-(-(a * FX_ONE)) == a * FX_ONE);
        }
    }
}

/// A truncating quotient of a bounded numerator is bounded.
pub proof fn lemma_tz_bound(n: int, d: int, b: int)
    requires
        d > 0,
        b >= 0,
        -(b * d) <= n <= b * d,
    ensures
        -b <= tz(n, d) <= b,
{
    if n >= 0 {
        vstd::arithmetic::div_mod::lemma_div_is_ordered(n, b * d, d);
        vstd::arithmetic::div_mod::lemma_div_by_multiple(b, d);
        vstd::arithmetic::div_mod::lemma_div_pos_is_pos(n, d);
        assert(b * d == d * b) by (nonlinear_arith);
    } else {
        vstd::arithmetic::div_mod::lemma_div_is_ordered(-n, b * d, d);
        vstd::arithmetic::div_mod::lemma_div_by_multiple(b, d);
        vstd::arithmetic::div_mod::lemma_div_pos_is_pos(-n, d);
        assert(b * d == d * b) by (nonlinear_arith);
    }
}

/// A product of bounded factors is bounded.
pub proof fn lemma_mul_bound(a: int, b: int, ba: int, bb: int)
    requires
        -ba <= a <= ba,
        -bb <= b <= bb,
        ba >= 0,
        bb >= 0,
    ensures
        -(ba * bb) <= a * b <= ba * bb,
{
    assert(-(ba * bb) <= a * b <= ba * bb) by (nonlinear_arith)
        requires
            -ba <= a <= ba,
            -bb <= b <= bb,
            ba >= 0,
            bb >= 0,
    ;
}

/// A fixed-point product of bounded factors is bounded.
pub proof fn lemma_fxm_bound(a: int, b: int, ba: int, bb: int, c: int)
    requires
        -ba <= a <= ba,
        -bb <= b <= bb,
        ba >= 0,
        bb >= 0,
        c >= 0,
        ba * bb <= c * FX_ONE,
    ensures
        -c <= fxm(a, b) <= c,
{
    lemma_mul_bound(a, b, ba, bb);
    lemma_tz_bound(a * b, FX_ONE as int, c);
}

/// Multiplying a whole number by one in fixed point returns it.
pub proof fn lemma_fxm_one(a: int)
    requires
        a >= 0,
    ensures
        fxm(a, FX_ONE as int) == a,
{
    vstd::arithmetic::div_mod::lemma_div_by_multiple(a, FX_ONE as int);
    assert(a * FX_ONE == FX_ONE * a) by (nonlinear_arith);
}

/// Zero annihilates a fixed-point product.
pub proof fn lemma_fxm_zero(b: int)
    ensures
        fxm(0, b) == 0,
        fxm(b, 0) == 0,
{
    assert(0 * b == 0) by (nonlinear_arith);
    assert(b * 0 == 0) by (nonlinear_arith);
}

/// The integer square root, defined by counting up.
pub open spec fn sqrt_floor(n: nat) -> nat
    decreases n,
{
    if n == 0 {
        0
    } else {
        let r = sqrt_floor((n - 1) as nat);
        if (r + 1) * (r + 1) <= n {
            r + 1
        } else {
            r
        }
    }
}

/// `sqrt_floor` is the greatest integer whose square is at most `n`.
pub proof fn lemma_sqrt_floor_bounds(n: nat)
    ensures
        sqrt_floor(n) * sqrt_floor(n) <= n,
        n < (sqrt_floor(n) + 1) * (sqrt_floor(n) + 1),
    decreases n,
{
    if n > 0 {
        lemma_sqrt_floor_bounds((n - 1) as nat);
        let r = sqrt_floor((n - 1) as nat);
        if (r + 1) * (r + 1) <= n {
            assert(sqrt_floor(n) == r + 1);
            assert(n < (r + 1 + 1) * (r + 1 + 1)) by (nonlinear_arith)
                requires
                    n - 1 < (r + 1) * (r + 1),
            ;
            assert(n < (sqrt_floor(n) + 1) * (sqrt_floor(n) + 1)) by (nonlinear_arith)
                requires
                    sqrt_floor(n) == r + 1,
                    n < (r + 1 + 1) * (r + 1 + 1),
            ;
        } else {
            assert(sqrt_floor(n) == r);
            assert(r * r <= n - 1 <= n);
            assert(n < (sqrt_floor(n) + 1) * (sqrt_floor(n) + 1)) by (nonlinear_arith)
                requires
                    sqrt_floor(n) == r,
                    n < (r + 1) * (r + 1),
            ;
        }
    } else {
        assert(sqrt_floor(0) == 0);
        assert(n < (sqrt_floor(n) + 1) * (sqrt_floor(n) + 1)) by (nonlinear_arith)
            requires
                n == 0,
                sqrt_floor(n) == 0,
        ;
    }
}

/// Any integer bracketed by consecutive squares is the square root.
pub proof fn lemma_sqrt_floor_unique(n: nat, r: nat)
    requires
        r * r <= n,
        n < (r + 1) * (r + 1),
    ensures
        r == sqrt_floor(n),
{
    lemma_sqrt_floor_bounds(n);
    let s = sqrt_floor(n);
    if r < s {
        assert(s * s > n) by (nonlinear_arith)
            requires
                r < s,
                n < (r + 1) * (r + 1),
        ;
    }
    if s < r {
        assert(r * r > n) by (nonlinear_arith)
            requires
                s < r,
                n < (s + 1) * (s + 1),
        ;
    }
}

/// Computes the integer square root by bisection.
pub fn isqrt(n: u128) -> (r: u64)
    ensures
        r as nat == sqrt_floor(n as nat),
{
    let mut lo: u128 = 0;
    let mut hi: u128 = 0x1_0000_0000_0000_0000;
    proof {
        assert((n as int) < (hi as int) * (hi as int)) by (nonlinear_arith)
            requires
                hi == 0x1_0000_0000_0000_0000,
                n <= u128::MAX,
        ;
    }
    while lo + 1 < hi
        invariant
            lo < hi,
            hi <= 0x1_0000_0000_0000_0000,
            (lo as int) * (lo as int) <= n as int,
            (n as int) < (hi as int) * (hi as int),
        decreases hi - lo,
    {
        let mid: u128 = lo + (hi - lo) / 2;
        proof {
            assert((mid as int) * (mid as int) < 0x1_0000_0000_0000_0000_0000_0000_0000_0000)
                by (nonlinear_arith)
                requires
                    mid < 0x1_0000_0000_0000_0000,
            ;
        }
        let sq: u128 = mid * mid;
        if sq <= n {
            lo = mid;
        } else {
            hi = mid;
        }
    }
    proof {
        lemma_sqrt_floor_unique(n as nat, lo as nat);
    }
    lo as u64
}

} // verus!
