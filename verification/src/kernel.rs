//! The escape-time kernel.
//!
//! For a point c of the complex plane, the kernel iterates z := z^2 + c from
//! z = 0 and counts the applications of the recurrence until |z|^2 exceeds
//! four, or until the iteration cap is reached.  The returned count always
//! lies in [0, cap].

use vstd::prelude::*;

verus! {

use crate::fixed::FP_FOUR;
use crate::fixed::FP_TWO;
use crate::fixed::fp_mul;
use crate::fixed::fp_mul_exec;
use crate::fixed::int_abs;
use crate::fixed::lemma_fp_mul_two_bound;
use crate::fixed::lemma_fp_square_component_bound;
use crate::fixed::lemma_fp_square_le_four;
use crate::fixed::lemma_fp_square_nonneg;

/// Magnitude bound (2^59) on the coordinates the kernel accepts; generous
/// enough for every coordinate a viewport can produce, and small enough that
/// one application of the recurrence stays inside `i64`.
pub const FP_COORD_LIMIT: i64 = 0x800_0000_0000_0000;

/// Magnitude bound on z after one application of the recurrence from a
/// non-escaped point: |z^2| is at most eight and |c| at most `FP_COORD_LIMIT`.
pub const FP_Z_LIMIT: i64 = FP_FOUR + FP_FOUR + FP_COORD_LIMIT;

/// The real part of z^2 + c.
pub open spec fn step_re(zx: int, zy: int, cx: int) -> int {
    fp_mul(zx, zx) - fp_mul(zy, zy) + cx
}

/// The imaginary part of z^2 + c.
pub open spec fn step_im(zx: int, zy: int, cy: int) -> int {
    2 * fp_mul(zx, zy) + cy
}

/// |z|^2 in fixed point.
pub open spec fn norm_sq(zx: int, zy: int) -> int {
    fp_mul(zx, zx) + fp_mul(zy, zy)
}

/// How many applications of the recurrence the escape loop spends when it
/// starts at z with `fuel` applications left: each application counts one,
/// and the loop stops after the first application that takes |z|^2 beyond
/// four, or when the fuel is gone.
pub open spec fn escape_steps_from(zx: int, zy: int, cx: int, cy: int, fuel: nat) -> nat
    decreases fuel,
{
    if fuel == 0 {
        0
    } else {
        let nx = step_re(zx, zy, cx);
        let ny = step_im(zx, zy, cy);
        if norm_sq(nx, ny) > FP_FOUR as int {
            1
        } else {
            (1 + escape_steps_from(nx, ny, cx, cy, (fuel - 1) as nat)) as nat
        }
    }
}

/// The iteration count of the escape-time algorithm for the point c.
pub open spec fn mandel_iterations(cx: int, cy: int, max_iter: nat) -> nat {
    escape_steps_from(0, 0, cx, cy, max_iter)
}

/// The escape loop never spends more applications than it has fuel.
pub proof fn lemma_escape_steps_le_fuel(zx: int, zy: int, cx: int, cy: int, fuel: nat)
    ensures
        escape_steps_from(zx, zy, cx, cy, fuel) <= fuel,
    decreases fuel,
{
    if fuel > 0 {
        let nx = step_re(zx, zy, cx);
        let ny = step_im(zx, zy, cy);
        lemma_escape_steps_le_fuel(nx, ny, cx, cy, (fuel - 1) as nat);
    }
}

/// The iteration count lies in [0, max_iter], for every point and cap.
pub proof fn lemma_iterations_within_cap(cx: int, cy: int, max_iter: nat)
    ensures
        0 <= mandel_iterations(cx, cy, max_iter) <= max_iter,
{
    lemma_escape_steps_le_fuel(0, 0, cx, cy, max_iter);
}

/// From the origin with c = 0 the orbit stays at zero, so the escape test
/// never fires and all the fuel is spent.
pub proof fn lemma_origin_never_escapes(fuel: nat)
    ensures
        escape_steps_from(0, 0, 0, 0, fuel) == fuel,
    decreases fuel,
{
    if fuel > 0 {
        assert(fp_mul(0, 0) == 0);
        assert(step_re(0, 0, 0) == 0);
        assert(step_im(0, 0, 0) == 0);
        lemma_origin_never_escapes((fuel - 1) as nat);
    }
}

/// c = 0 always iterates to the cap: the point belongs to the set.
pub proof fn lemma_origin_reaches_cap(max_iter: nat)
    ensures
        mandel_iterations(0, 0, max_iter) == max_iter,
{
    lemma_origin_never_escapes(max_iter);
}

/// c = 2 + 2i escapes after a single application of the recurrence:
/// |c|^2 = 8 > 4 already.
pub proof fn lemma_two_two_escapes_immediately(max_iter: nat)
    requires
        max_iter >= 1,
    ensures
        mandel_iterations(FP_TWO as int, FP_TWO as int, max_iter) == 1,
{
    let two: int = FP_TWO as int;
    assert(fp_mul(0, 0) == 0);
    assert(fp_mul(0, two) == 0);
    assert(step_re(0, 0, two) == two);
    assert(step_im(0, 0, two) == two);
    assert(two * two == 0x4_0000_0000_0000_0000int);
    assert(fp_mul(two, two) == FP_FOUR as int);
    assert(norm_sq(two, two) > FP_FOUR as int);
}

/// Whether |z|^2 has grown beyond four.  A component of magnitude beyond two
/// settles the test by itself; otherwise both squares are small enough to
/// compute.
fn escaped(zx: i64, zy: i64) -> (r: bool)
    requires
        -FP_Z_LIMIT <= zx <= FP_Z_LIMIT,
        -FP_Z_LIMIT <= zy <= FP_Z_LIMIT,
    ensures
        r == (norm_sq(zx as int, zy as int) > FP_FOUR as int),
{
    if zx > FP_TWO || zx < -FP_TWO || zy > FP_TWO || zy < -FP_TWO {
        proof {
            lemma_fp_square_nonneg(zx as int);
            lemma_fp_square_nonneg(zy as int);
            if int_abs(zx as int) > FP_TWO as int {
                if fp_mul(zx as int, zx as int) <= FP_FOUR as int {
                    lemma_fp_square_component_bound(zx as int);
                }
            } else {
                if fp_mul(zy as int, zy as int) <= FP_FOUR as int {
                    lemma_fp_square_component_bound(zy as int);
                }
            }
        }
        true
    } else {
        proof {
            lemma_fp_square_le_four(zx as int);
            lemma_fp_square_le_four(zy as int);
        }
        let s: i64 = fp_mul_exec(zx, zx) + fp_mul_exec(zy, zy);
        s > FP_FOUR
    }
}

/// The escape-time kernel: the number of applications of z := z^2 + c, from
/// z = 0, before the orbit of c is proven unbounded, capped at `max_iter`.
pub fn mandelbrot(cx: i64, cy: i64, max_iter: u16) -> (n: u16)
    requires
        -FP_COORD_LIMIT <= cx <= FP_COORD_LIMIT,
        -FP_COORD_LIMIT <= cy <= FP_COORD_LIMIT,
    ensures
        n == mandel_iterations(cx as int, cy as int, max_iter as nat),
        n <= max_iter,
{
    let mut zx: i64 = 0;
    let mut zy: i64 = 0;
    let mut n: u16 = 0;
    let mut esc: bool = false;
    proof {
        lemma_iterations_within_cap(cx as int, cy as int, max_iter as nat);
    }
    while n < max_iter && !esc
        invariant
            n <= max_iter,
            -FP_COORD_LIMIT <= cx <= FP_COORD_LIMIT,
            -FP_COORD_LIMIT <= cy <= FP_COORD_LIMIT,
            !esc ==> int_abs(zx as int) <= FP_TWO as int,
            !esc ==> int_abs(zy as int) <= FP_TWO as int,
            mandel_iterations(cx as int, cy as int, max_iter as nat) == if esc {
                n as nat
            } else {
                (n + escape_steps_from(
                    zx as int,
                    zy as int,
                    cx as int,
                    cy as int,
                    (max_iter - n) as nat,
                )) as nat
            },
        decreases max_iter - n,
    {
        proof {
            lemma_fp_square_nonneg(zx as int);
            lemma_fp_square_nonneg(zy as int);
            lemma_fp_square_le_four(zx as int);
            lemma_fp_square_le_four(zy as int);
            lemma_fp_mul_two_bound(zx as int, zy as int);
        }
        let zx2: i64 = fp_mul_exec(zx, zx);
        let zy2: i64 = fp_mul_exec(zy, zy);
        let zxy: i64 = fp_mul_exec(zx, zy);
        let nx: i64 = zx2 - zy2 + cx;
        let ny: i64 = 2 * zxy + cy;
        proof {
            assert(nx as int == step_re(zx as int, zy as int, cx as int));
            assert(ny as int == step_im(zx as int, zy as int, cy as int));
        }
        let ghost old_zx: int = zx as int;
        let ghost old_zy: int = zy as int;
        let ghost old_n: u16 = n;
        zx = nx;
        zy = ny;
        n = n + 1;
        esc = escaped(zx, zy);
        proof {
            let fuel: nat = (max_iter - old_n) as nat;
            assert(escape_steps_from(old_zx, old_zy, cx as int, cy as int, fuel) == if norm_sq(
                zx as int,
                zy as int,
            ) > FP_FOUR as int {
                1nat
            } else {
                (1 + escape_steps_from(
                    zx as int,
                    zy as int,
                    cx as int,
                    cy as int,
                    (fuel - 1) as nat,
                )) as nat
            });
            if !esc {
                lemma_fp_square_nonneg(zx as int);
                lemma_fp_square_nonneg(zy as int);
                lemma_fp_square_component_bound(zx as int);
                lemma_fp_square_component_bound(zy as int);
            }
        }
    }
    n
}

} // verus!
