//! The color mapper.
//!
//! An iteration count n with cap N is mapped through three polynomial response
//! curves of t = n/N, one per channel, each scaled by 255 and truncated into a
//! byte: red follows 9(1-t)t^3, green 15(1-t)^2 t^2, blue 8.5(1-t)^3 t.  The
//! curves are evaluated as exact integer fractions over a common denominator
//! N^4 (2 N^4 for blue), so the mapping is a pure function of (n, N).

use vstd::prelude::*;

verus! {

use vstd::arithmetic::div_mod::lemma_div_of0;
use vstd::arithmetic::div_mod::lemma_div_pos_is_pos;

use crate::fixed::trunc_div;

/// Numerator of the red response, 255 * 9 * (1-t) * t^3 over denominator N^4.
pub open spec fn red_num(n: int, m: int) -> int {
    2295 * (m - n) * n * n * n
}

/// Numerator of the green response, 255 * 15 * (1-t)^2 * t^2 over N^4.
pub open spec fn green_num(n: int, m: int) -> int {
    3825 * (m - n) * (m - n) * n * n
}

/// Numerator of the blue response, 255 * 17 * (1-t)^3 * t over 2 N^4.
pub open spec fn blue_num(n: int, m: int) -> int {
    4335 * (m - n) * (m - n) * (m - n) * n
}

/// The common denominator N^4.
pub open spec fn curve_den(m: int) -> int {
    m * m * m * m
}

/// A scaled response truncated into a byte, saturating at both ends.
pub open spec fn clamp_channel(v: int) -> u8 {
    if v < 0 {
        0u8
    } else if v > 255 {
        255u8
    } else {
        v as u8
    }
}

/// The red byte for iteration count n and cap m.
pub open spec fn red_level(n: int, m: int) -> u8 {
    clamp_channel(trunc_div(red_num(n, m), curve_den(m)))
}

/// The green byte for iteration count n and cap m.
pub open spec fn green_level(n: int, m: int) -> u8 {
    clamp_channel(trunc_div(green_num(n, m), curve_den(m)))
}

/// The blue byte for iteration count n and cap m.
pub open spec fn blue_level(n: int, m: int) -> u8 {
    clamp_channel(trunc_div(blue_num(n, m), 2 * curve_den(m)))
}

/// The mapper's output as one triple.
pub open spec fn color_of(n: int, m: int) -> (u8, u8, u8) {
    (red_level(n, m), green_level(n, m), blue_level(n, m))
}

/// At the saturation endpoint t = 1 every curve vanishes: a point that
/// reaches the cap is painted black under every cap, so raising the cap
/// leaves such pixels' color unchanged.
pub proof fn lemma_saturation_endpoint_stable(m1: int, m2: int)
    requires
        m1 >= 1,
        m2 >= 1,
    ensures
        color_of(m1, m1) == color_of(m2, m2),
        color_of(m1, m1) == (0u8, 0u8, 0u8),
{
    lemma_cap_is_black(m1);
    lemma_cap_is_black(m2);
}

/// A count equal to the cap maps to black.
pub proof fn lemma_cap_is_black(m: int)
    requires
        m >= 1,
    ensures
        color_of(m, m) == (0u8, 0u8, 0u8),
{
    assert(2295 * (m - m) * m * m * m == 0) by (nonlinear_arith);
    assert(3825 * (m - m) * (m - m) * m * m == 0) by (nonlinear_arith);
    assert(4335 * (m - m) * (m - m) * (m - m) * m == 0) by (nonlinear_arith);
    assert(m * m * m * m >= 1) by (nonlinear_arith)
        requires
            m >= 1,
    ;
    lemma_div_of0(curve_den(m));
    lemma_div_of0(2 * curve_den(m));
    assert(trunc_div(0, curve_den(m)) == 0);
    assert(trunc_div(0, 2 * curve_den(m)) == 0);
}

/// The mapper is a pure function of the pair (n, m): two byte triples that
/// both satisfy its defining equations are identical.
pub proof fn lemma_color_mapper_deterministic(n: int, m: int, c1: (u8, u8, u8), c2: (u8, u8, u8))
    requires
        c1 == color_of(n, m),
        c2 == color_of(n, m),
    ensures
        c1 == c2,
{
}

/// A negative numerator over a positive denominator maps to the zero byte.
proof fn lemma_negative_channel_is_zero(p: int, q: int)
    requires
        p < 0,
        q >= 1,
    ensures
        clamp_channel(trunc_div(p, q)) == 0,
{
    lemma_div_pos_is_pos(-p, q);
}

/// A product of a bounded factor and a factor below 2^16 stays bounded.
proof fn lemma_small_product(x: int, y: int, xbound: int)
    requires
        0 <= x <= xbound,
        0 <= y <= 0xffff,
    ensures
        0 <= x * y <= xbound * 0x10000,
{
    assert(x * y <= xbound * 0x10000) by (nonlinear_arith)
        requires
            0 <= x <= xbound,
            0 <= y <= 0x10000,
    ;
    assert(x * y >= 0) by (nonlinear_arith)
        requires
            0 <= x,
            0 <= y,
    ;
}

/// The numerators, evaluated with the magnitude of m - n.
fn abs_diff(n: u16, m: u16) -> (d: u64)
    ensures
        d == if n <= m {
            (m - n) as int
        } else {
            (n - m) as int
        },
{
    if n <= m {
        (m - n) as u64
    } else {
        (n - m) as u64
    }
}

/// A nonnegative fraction truncated into a byte, saturating above.
fn scaled_quotient(num: u128, den: u128) -> (q: u8)
    requires
        den >= 1,
    ensures
        q == clamp_channel((num as int) / (den as int)),
{
    proof {
        lemma_div_pos_is_pos(num as int, den as int);
    }
    let q0: u128 = num / den;
    if q0 > 255 {
        255
    } else {
        q0 as u8
    }
}

/// The three channel bytes for iteration count `iter` under cap `max_iter`.
pub fn color_channels(iter: u16, max_iter: u16) -> (rgb: (u8, u8, u8))
    requires
        max_iter >= 1,
    ensures
        rgb == color_of(iter as int, max_iter as int),
{
    let n: u128 = iter as u128;
    let d: u128 = abs_diff(iter, max_iter) as u128;
    let m: u128 = max_iter as u128;
    proof {
        assert(1 <= (m as int) * (m as int) <= 0x1_0000_0000int) by (nonlinear_arith)
            requires
                1 <= m <= 0xffff,
        ;
    }
    let m2: u128 = m * m;
    proof {
        assert(1 <= (m2 as int) * (m2 as int) <= 0x1_0000_0000_0000_0000int) by (nonlinear_arith)
            requires
                1 <= m2 <= 0x1_0000_0000int,
        ;
    }
    let den: u128 = m2 * m2;
    proof {
        assert(den as int == curve_den(max_iter as int)) by (nonlinear_arith)
            requires
                m2 == (m as int) * (m as int),
                den == (m2 as int) * (m2 as int),
                m == max_iter as int,
        ;
    }
    let red: u8 = if iter > max_iter {
        proof {
            assert(2295 * (max_iter as int - iter as int) * (iter as int) * (iter as int) * (
            iter as int) < 0) by (nonlinear_arith)
                requires
                    iter > max_iter >= 1,
            ;
            lemma_negative_channel_is_zero(red_num(iter as int, max_iter as int), den as int);
        }
        0
    } else {
        let t1: u128 = 2295 * d;
        proof {
            lemma_small_product(t1 as int, n as int, 0x1000_0000int);
        }
        let t2: u128 = t1 * n;
        proof {
            lemma_small_product(t2 as int, n as int, 0x1000_0000_0000int);
        }
        let t3: u128 = t2 * n;
        proof {
            lemma_small_product(t3 as int, n as int, 0x1000_0000_0000_0000int);
        }
        let numr: u128 = t3 * n;
        proof {
            assert(numr as int == red_num(iter as int, max_iter as int));
        }
        scaled_quotient(numr, den)
    };
    let g: u8 = {
        let t1: u128 = 3825 * d;
        proof {
            lemma_small_product(t1 as int, d as int, 0x1000_0000int);
        }
        let t2: u128 = t1 * d;
        proof {
            lemma_small_product(t2 as int, n as int, 0x1000_0000_0000int);
        }
        let t3: u128 = t2 * n;
        proof {
            lemma_small_product(t3 as int, n as int, 0x1000_0000_0000_0000int);
        }
        let numg: u128 = t3 * n;
        proof {
            assert(3825 * (d as int) * (d as int) * (iter as int) * (iter as int) == 3825 * (
            max_iter as int - iter as int) * (max_iter as int - iter as int) * (iter as int) * (
            iter as int)) by (nonlinear_arith)
                requires
                    d == max_iter as int - iter as int || d == iter as int - max_iter as int,
            ;
        }
        scaled_quotient(numg, den)
    };
    let blue: u8 = if iter > max_iter {
        proof {
            assert(4335 * (max_iter as int - iter as int) * (max_iter as int - iter as int) * (
            max_iter as int - iter as int) * (iter as int) < 0) by (nonlinear_arith)
                requires
                    iter > max_iter >= 1,
            ;
            lemma_negative_channel_is_zero(
                blue_num(iter as int, max_iter as int),
                2 * (den as int),
            );
        }
        0
    } else {
        let t1: u128 = 4335 * d;
        proof {
            lemma_small_product(t1 as int, d as int, 0x2000_0000int);
        }
        let t2: u128 = t1 * d;
        proof {
            lemma_small_product(t2 as int, d as int, 0x2000_0000_0000int);
        }
        let t3: u128 = t2 * d;
        proof {
            lemma_small_product(t3 as int, n as int, 0x2000_0000_0000_0000int);
        }
        let numb: u128 = t3 * n;
        proof {
            assert(numb as int == blue_num(iter as int, max_iter as int));
        }
        scaled_quotient(numb, 2 * den)
    };
    (red, g, blue)
}

/// Writes the three channel bytes for `iter` under `max_iter` into the first
/// three bytes of `color`; every other byte is left as it was.
pub fn get_color(iter: u16, max_iter: u16, color: &mut Vec<u8>)
    requires
        max_iter >= 1,
        old(color).len() >= 3,
    ensures
        final(color).len() == old(color).len(),
        final(color)@[0] == red_level(iter as int, max_iter as int),
        final(color)@[1] == green_level(iter as int, max_iter as int),
        final(color)@[2] == blue_level(iter as int, max_iter as int),
        forall|i: int| 3 <= i < old(color).len() ==> final(color)@[i] == old(color)@[i],
{
    let (r, g, b) = color_channels(iter, max_iter);
    color[0] = r;
    color[1] = g;
    color[2] = b;
}

} // verus!
