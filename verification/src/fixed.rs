//! 32.32 signed fixed-point arithmetic.
//!
//! A value `v` stands for the real number `v / 2^32`.  Products and quotients
//! are rounded toward zero, as Rust's primitive integer division rounds.  The
//! spec-level model (`trunc_div`, `fp_mul`, `fp_div`) is exact integer
//! arithmetic; the executable functions compute it on sign and magnitude so
//! that only unsigned machine division is ever performed.

use vstd::prelude::*;

verus! {

use vstd::arithmetic::div_mod::lemma_div_is_ordered;
use vstd::arithmetic::div_mod::lemma_div_is_ordered_by_denominator;
use vstd::arithmetic::div_mod::lemma_div_pos_is_pos;

/// The number one in 32.32 fixed point.
pub const FP_ONE: i64 = 0x1_0000_0000;

/// The number two in 32.32 fixed point.
pub const FP_TWO: i64 = 0x2_0000_0000;

/// The number four in 32.32 fixed point.
pub const FP_FOUR: i64 = 0x4_0000_0000;

/// Magnitude bound (2^46) accepted by `fp_mul_exec`: products of two such
/// factors fit in `u128` and their scaled result fits in `i64`.
pub const FP_MUL_ARG_MAX: i64 = 0x4000_0000_0000;

/// Absolute value.
pub open spec fn int_abs(a: int) -> int {
    if a >= 0 {
        a
    } else {
        -a
    }
}

/// Quotient of `p` by a positive `q`, rounded toward zero (the rounding of
/// Rust's `/` on signed integers), written with Euclidean `/` on magnitudes.
pub open spec fn trunc_div(p: int, q: int) -> int {
    if p >= 0 {
        p / q
    } else {
        -((-p) / q)
    }
}

/// Product of two fixed-point values.
pub open spec fn fp_mul(a: int, b: int) -> int {
    trunc_div(a * b, FP_ONE as int)
}

/// Quotient of two fixed-point values.
pub open spec fn fp_div(a: int, b: int) -> int {
    trunc_div(a * (FP_ONE as int), b)
}

/// The magnitude of a quotient is at most the quotient of the magnitudes.
pub proof fn lemma_trunc_div_bound(p: int, q: int, m: int)
    requires
        q > 0,
        0 <= m,
        -m <= p <= m,
    ensures
        -(m / q) <= trunc_div(p, q) <= m / q,
{
    if p >= 0 {
        lemma_div_pos_is_pos(p, q);
        lemma_div_is_ordered(p, m, q);
    } else {
        lemma_div_pos_is_pos(-p, q);
        lemma_div_is_ordered(-p, m, q);
    }
}

/// A fixed-point square is never negative.
pub proof fn lemma_fp_square_nonneg(a: int)
    ensures
        0 <= fp_mul(a, a),
{
    assert(a * a >= 0) by (nonlinear_arith);
    lemma_div_pos_is_pos(a * a, FP_ONE as int);
}

/// A factor of magnitude at most two gives a square of at most four.
pub proof fn lemma_fp_square_le_four(a: int)
    requires
        int_abs(a) <= FP_TWO as int,
    ensures
        0 <= fp_mul(a, a) <= FP_FOUR as int,
{
    lemma_fp_square_nonneg(a);
    assert(a * a <= (FP_TWO as int) * (FP_TWO as int)) by (nonlinear_arith)
        requires
            -(FP_TWO as int) <= a <= FP_TWO as int,
    ;
    lemma_div_is_ordered(a * a, (FP_TWO as int) * (FP_TWO as int), FP_ONE as int);
    assert((FP_TWO as int) * (FP_TWO as int) == 0x4_0000_0000_0000_0000int);
    assert(0x4_0000_0000_0000_0000int / (FP_ONE as int) == FP_FOUR as int);
}

/// A square of at most four comes from a factor of magnitude at most two.
pub proof fn lemma_fp_square_component_bound(a: int)
    requires
        fp_mul(a, a) <= FP_FOUR as int,
    ensures
        int_abs(a) <= FP_TWO as int,
{
    if int_abs(a) > FP_TWO as int {
        let t: int = (FP_TWO as int) + 1;
        assert(a * a >= t * t) by (nonlinear_arith)
            requires
                t >= 0,
                a >= t || a <= -t,
        ;
        lemma_div_is_ordered(t * t, a * a, FP_ONE as int);
        assert(t * t == 0x4_0000_0004_0000_0001int);
        assert(0x4_0000_0004_0000_0001int / (FP_ONE as int) > FP_FOUR as int);
    }
}

/// Factors of magnitude at most two give a product of magnitude at most four.
pub proof fn lemma_fp_mul_two_bound(a: int, b: int)
    requires
        int_abs(a) <= FP_TWO as int,
        int_abs(b) <= FP_TWO as int,
    ensures
        -(FP_FOUR as int) <= fp_mul(a, b) <= FP_FOUR as int,
{
    let m: int = (FP_TWO as int) * (FP_TWO as int);
    assert(-m <= a * b <= m) by (nonlinear_arith)
        requires
            -(FP_TWO as int) <= a <= FP_TWO as int,
            -(FP_TWO as int) <= b <= FP_TWO as int,
            m == (FP_TWO as int) * (FP_TWO as int),
    ;
    lemma_trunc_div_bound(a * b, FP_ONE as int, m);
    assert(m == 0x4_0000_0000_0000_0000int);
    assert(0x4_0000_0000_0000_0000int / (FP_ONE as int) == FP_FOUR as int);
}

/// A fixed-point quotient shrinks as its divisor grows.
pub proof fn lemma_fp_div_bound(a: int, b: int, m: int, bmin: int)
    requires
        0 < bmin <= b,
        0 <= m,
        -m <= a <= m,
    ensures
        -(m * (FP_ONE as int) / bmin) <= fp_div(a, b) <= m * (FP_ONE as int) / bmin,
{
    let s: int = FP_ONE as int;
    assert(-(m * s) <= a * s <= m * s);
    lemma_trunc_div_bound(a * s, b, m * s);
    lemma_div_is_ordered_by_denominator(m * s, bmin, b);
}

/// The magnitude of an `i64`, as a `u64`.
fn abs_to_u64(a: i64) -> (r: u64)
    requires
        a != i64::MIN,
    ensures
        r == int_abs(a as int),
{
    if a < 0 {
        (-a) as u64
    } else {
        a as u64
    }
}

/// Fixed-point multiplication, exact over the spec-level model.
pub fn fp_mul_exec(a: i64, b: i64) -> (r: i64)
    requires
        -FP_MUL_ARG_MAX <= a <= FP_MUL_ARG_MAX,
        -FP_MUL_ARG_MAX <= b <= FP_MUL_ARG_MAX,
    ensures
        r == fp_mul(a as int, b as int),
{
    let ma: u64 = abs_to_u64(a);
    let mb: u64 = abs_to_u64(b);
    proof {
        assert((ma as int) * (mb as int) <= (FP_MUL_ARG_MAX as int) * (FP_MUL_ARG_MAX as int))
            by (nonlinear_arith)
            requires
                0 <= ma <= FP_MUL_ARG_MAX as int,
                0 <= mb <= FP_MUL_ARG_MAX as int,
        ;
    }
    let p: u128 = (ma as u128) * (mb as u128);
    proof {
        assert((ma as int) * (mb as int) == int_abs((a as int) * (b as int))) by (nonlinear_arith)
            requires
                ma == int_abs(a as int),
                mb == int_abs(b as int),
        ;
    }
    let q: u128 = p / (FP_ONE as u128);
    proof {
        lemma_div_is_ordered(
            p as int,
            (FP_MUL_ARG_MAX as int) * (FP_MUL_ARG_MAX as int),
            FP_ONE as int,
        );
        assert((FP_MUL_ARG_MAX as int) * (FP_MUL_ARG_MAX as int)
            == 0x1000_0000_0000_0000_0000_0000int);
        assert(0x1000_0000_0000_0000_0000_0000int / (FP_ONE as int) < i64::MAX as int);
        lemma_div_pos_is_pos(p as int, FP_ONE as int);
    }
    let qi: i64 = q as i64;
    if (a < 0) != (b < 0) {
        proof {
            if (a as int) * (b as int) > 0 {
                assert(false) by (nonlinear_arith)
                    requires
                        (a as int) * (b as int) > 0,
                        (a < 0) != (b < 0),
                ;
            }
        }
        -qi
    } else {
        proof {
            if (a as int) * (b as int) < 0 {
                assert(false) by (nonlinear_arith)
                    requires
                        (a as int) * (b as int) < 0,
                        (a < 0) == (b < 0),
                ;
            }
        }
        qi
    }
}

/// Truncating division of an `i64` by a positive `i64`.
pub fn trunc_div_exec(a: i64, b: i64) -> (r: i64)
    requires
        a != i64::MIN,
        b > 0,
    ensures
        r == trunc_div(a as int, b as int),
{
    let ma: u64 = abs_to_u64(a);
    let q: u64 = ma / (b as u64);
    proof {
        lemma_div_pos_is_pos(ma as int, b as int);
        vstd::arithmetic::div_mod::lemma_div_nonincreasing(ma as int, b as int);
    }
    if a < 0 {
        -(q as i64)
    } else {
        q as i64
    }
}

/// Fixed-point division by a positive divisor.  The quotient must fit in an
/// `i64`; callers establish that from their own bounds with
/// `lemma_fp_div_bound`.
pub fn fp_div_exec(a: i64, b: i64) -> (r: i64)
    requires
        b > 0,
        -(i64::MAX as int) <= fp_div(a as int, b as int) <= i64::MAX as int,
    ensures
        r == fp_div(a as int, b as int),
{
    let neg: bool = a < 0;
    let ma: u128 = if a < 0 {
        (-(a as i128)) as u128
    } else {
        a as u128
    };
    let p: u128 = ma * (FP_ONE as u128);
    proof {
        assert(ma as int == int_abs(a as int));
        assert(p as int == int_abs((a as int) * (FP_ONE as int)));
    }
    let q: u128 = p / (b as u128);
    proof {
        if a >= 0 {
            assert(q == fp_div(a as int, b as int));
        } else {
            assert(q == -fp_div(a as int, b as int));
        }
    }
    if neg {
        -(q as i64)
    } else {
        q as i64
    }
}

} // verus!
