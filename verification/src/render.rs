//! The raster fill.
//!
//! Every pixel of the output buffer is an independent unit of work: its
//! complex coordinate is interpolated from the viewport, handed to the
//! escape-time kernel, the count is mapped to a color, and the four bytes
//! R, G, B, 255 are written into the pixel's own disjoint chunk.  The bytes
//! of the finished image are a pure function of the parameters, so the
//! distribution of the chunks over rayon's workers cannot show in the output.

use vstd::prelude::*;

use rayon::iter::IndexedParallelIterator;
use rayon::iter::ParallelIterator;
use rayon::slice::ParallelSliceMut;

verus! {

use vstd::arithmetic::div_mod::lemma_div_multiples_vanish;
use vstd::arithmetic::div_mod::lemma_fundamental_div_mod_converse;
use vstd::arithmetic::div_mod::lemma_mod_division_less_than_divisor;
use vstd::arithmetic::div_mod::lemma_multiply_divide_lt;

use crate::color::blue_level;
use crate::color::color_channels;
use crate::color::green_level;
use crate::color::red_level;
use crate::fixed::fp_div;
use crate::fixed::fp_div_exec;
use crate::fixed::lemma_fp_div_bound;
use crate::fixed::lemma_trunc_div_bound;
use crate::fixed::trunc_div;
use crate::fixed::trunc_div_exec;
use crate::kernel::FP_COORD_LIMIT;
use crate::kernel::mandel_iterations;
use crate::kernel::mandelbrot;
use crate::params::FP_COORD_MAX;
use crate::params::FP_ZOOM_MAX;
use crate::params::FP_ZOOM_MIN;
use crate::params::MandelbrotRenderParams;

/// The one failure of the renderer: the buffer does not hold exactly
/// width * height * 4 bytes.
#[derive(Clone, Copy, Debug, PartialEq, Eq, Structural)]
pub enum RenderError {
    SizeMismatch,
}

/// The real coordinate of pixel column x: the left window bound plus the
/// interpolated share of the span, zoomed and panned.
pub open spec fn pixel_cx(p: MandelbrotRenderParams, x: int) -> int {
    p.offset_x + fp_div(
        p.min_x_coord + trunc_div(x * (p.max_x_coord - p.min_x_coord), p.width as int),
        p.zoom as int,
    )
}

/// The imaginary coordinate of pixel row y.
pub open spec fn pixel_cy(p: MandelbrotRenderParams, y: int) -> int {
    p.offset_y + fp_div(
        p.min_y_coord + trunc_div(y * (p.max_y_coord - p.min_y_coord), p.height as int),
        p.zoom as int,
    )
}

/// The kernel's count for the pixel with row-major index `pi`.
pub open spec fn pixel_iterations(p: MandelbrotRenderParams, pi: int) -> nat {
    mandel_iterations(
        pixel_cx(p, pi % (p.width as int)),
        pixel_cy(p, pi / (p.width as int)),
        p.max_iter as nat,
    )
}

/// Byte i of the rendered image: four bytes per pixel, red, green, blue, and
/// a constant alpha of 255.
pub open spec fn pixel_byte(p: MandelbrotRenderParams, i: int) -> u8 {
    let pi = i / 4;
    let k = i % 4;
    if k == 0 {
        red_level(pixel_iterations(p, pi) as int, p.max_iter as int)
    } else if k == 1 {
        green_level(pixel_iterations(p, pi) as int, p.max_iter as int)
    } else if k == 2 {
        blue_level(pixel_iterations(p, pi) as int, p.max_iter as int)
    } else {
        255u8
    }
}

/// The full image as a byte sequence of length width * height * 4.
pub open spec fn rendered_image(p: MandelbrotRenderParams) -> Seq<u8> {
    Seq::new((p.width as nat) * (p.height as nat) * 4, |i: int| pixel_byte(p, i))
}

/// An interpolated span offset never leaves the span's own bounds.
proof fn lemma_interp_bound(x: int, span: int, w: int, m: int)
    requires
        0 <= x < w,
        -m <= span <= m,
        0 <= m,
    ensures
        -m <= trunc_div(x * span, w) <= m,
{
    assert(-(w * m) <= x * span <= w * m) by (nonlinear_arith)
        requires
            0 <= x < w,
            -m <= span <= m,
            0 <= m,
    ;
    lemma_trunc_div_bound(x * span, w, w * m);
    lemma_div_multiples_vanish(m, w);
}

/// The coordinate of pixel position `pos` of `extent` along one axis, between
/// the window bounds `low` and `high`, panned by `offset` and zoomed.
fn axis_coordinate(low: i64, high: i64, pos: u16, extent: u16, offset: i64, zoom: i64) -> (c: i64)
    requires
        -FP_COORD_MAX <= low <= FP_COORD_MAX,
        -FP_COORD_MAX <= high <= FP_COORD_MAX,
        -FP_COORD_MAX <= offset <= FP_COORD_MAX,
        FP_ZOOM_MIN <= zoom <= FP_ZOOM_MAX,
        pos < extent,
    ensures
        c as int == offset + fp_div(
            low + trunc_div((pos as int) * (high - low), extent as int),
            zoom as int,
        ),
        -FP_COORD_LIMIT <= c <= FP_COORD_LIMIT,
{
    let span: i64 = high - low;
    proof {
        assert(-0x200_0000_0000_0000int <= (pos as int) * (span as int)
            <= 0x200_0000_0000_0000int) by (nonlinear_arith)
            requires
                0 <= pos <= 0xffff,
                -0x200_0000_0000int <= span <= 0x200_0000_0000int,
        ;
    }
    let num: i64 = (pos as i64) * span;
    proof {
        lemma_interp_bound(pos as int, span as int, extent as int, 0x200_0000_0000int);
    }
    let t: i64 = trunc_div_exec(num, extent as i64);
    let base: i64 = low + t;
    proof {
        lemma_fp_div_bound(base as int, zoom as int, 0x300_0000_0000int, FP_ZOOM_MIN as int);
        assert(0x300_0000_0000int * (crate::fixed::FP_ONE as int) / (FP_ZOOM_MIN as int)
            == 0x300_0000_0000_0000int);
    }
    let q: i64 = fp_div_exec(base, zoom);
    offset + q
}

/// The four bytes of the pixel with row-major index `idx`.
fn render_pixel(params: &MandelbrotRenderParams, idx: usize) -> (px: [u8; 4])
    requires
        params.wf(),
        idx < (params.width as int) * (params.height as int),
    ensures
        forall|k: int| 0 <= k < 4 ==> px@[k] == pixel_byte(*params, 4 * idx + k),
{
    let w: usize = params.width as usize;
    let x: usize = idx % w;
    let y: usize = idx / w;
    proof {
        lemma_mod_division_less_than_divisor(idx as int, w as int);
        lemma_multiply_divide_lt(idx as int, w as int, params.height as int);
    }
    let cx: i64 = axis_coordinate(
        params.min_x_coord,
        params.max_x_coord,
        x as u16,
        params.width,
        params.offset_x,
        params.zoom,
    );
    let cy: i64 = axis_coordinate(
        params.min_y_coord,
        params.max_y_coord,
        y as u16,
        params.height,
        params.offset_y,
        params.zoom,
    );
    let n: u16 = mandelbrot(cx, cy, params.max_iter);
    let (red, green, blue) = color_channels(n, params.max_iter);
    let px: [u8; 4] = [red, green, blue, 255];
    proof {
        assert(n == pixel_iterations(*params, idx as int));
        assert forall|k: int| 0 <= k < 4 implies px@[k] == pixel_byte(*params, 4 * idx + k) by {
            lemma_fundamental_div_mod_converse(4 * idx + k, 4, idx as int, k);
        }
    }
    px
}

/// Relies on rayon's `par_chunks_mut`, `enumerate` and `for_each`: the buffer
/// is split into disjoint, non-overlapping consecutive chunks of four bytes
/// (the length is a multiple of four), chunk `i` covering bytes 4i..4i+4;
/// the closure runs exactly once for every chunk, with that chunk's index;
/// the call returns only after all of them ran.  The closure itself only
/// stores the four bytes that the verified `render_pixel` returns.
#[verifier::external_body]
fn fill_pixels_parallel(params: &MandelbrotRenderParams, buffer: &mut Vec<u8>)
    requires
        params.wf(),
        old(buffer).len() == (params.width as int) * (params.height as int) * 4,
    ensures
        final(buffer).len() == old(buffer).len(),
        forall|i: int|
            0 <= i < final(buffer).len() ==> #[trigger] final(buffer)@[i] == pixel_byte(
                *params,
                i,
            ),
{
    buffer.as_mut_slice().par_chunks_mut(4).enumerate().for_each(|(idx, chunk)| {
        let px = render_pixel(params, idx);
        chunk[0] = px[0];
        chunk[1] = px[1];
        chunk[2] = px[2];
        chunk[3] = px[3];
    });
}

/// Renders the full image: for every pixel of the buffer, the escape count of
/// its complex coordinate, mapped to a color, with alpha 255.  A buffer that
/// does not hold exactly width * height * 4 bytes is refused untouched.
pub fn render_to_buffer(params: &MandelbrotRenderParams, buffer: &mut Vec<u8>) -> (r: Result<
    (),
    RenderError,
>)
    requires
        params.wf(),
    ensures
        r is Ok <==> old(buffer).len() == (params.width as int) * (params.height as int) * 4,
        r is Ok ==> final(buffer)@ == rendered_image(*params),
        r is Err ==> final(buffer)@ == old(buffer)@ && r == Err::<(), RenderError>(
            RenderError::SizeMismatch,
        ),
{
    proof {
        assert((params.width as int) * (params.height as int) <= 0x1_0000_0000int)
            by (nonlinear_arith)
            requires
                params.width <= 0x10000,
                params.height <= 0x10000,
        ;
    }
    let pixels: u64 = (params.width as u64) * (params.height as u64);
    let expected: u64 = pixels * 4;
    if (buffer.len() as u64) != expected {
        return Err(RenderError::SizeMismatch);
    }
    fill_pixels_parallel(params, buffer);
    proof {
        assert(buffer@ =~= rendered_image(*params));
    }
    Ok(())
}

/// The image holds width * height * 4 bytes, and every fourth byte, the alpha
/// channel, is 255: the output is fully opaque.
pub proof fn lemma_rendered_image_shape(p: MandelbrotRenderParams)
    ensures
        rendered_image(p).len() == (p.width as int) * (p.height as int) * 4,
        forall|pi: int|
            0 <= pi < (p.width as int) * (p.height as int) ==> #[trigger] rendered_image(p)[4 * pi
                + 3] == 255u8,
{
    assert forall|pi: int| 0 <= pi < (p.width as int) * (p.height as int) implies #[trigger]
    rendered_image(p)[4 * pi + 3] == 255u8 by {
        lemma_fundamental_div_mod_converse(4 * pi + 3, 4, pi, 3);
    }
}

/// The rendered bytes are a pure function of the parameters: two buffers that
/// both hold a rendering of the same parameters are byte-identical, whatever
/// partition granularity or worker count produced each of them.
pub proof fn lemma_render_order_independent(
    p: MandelbrotRenderParams,
    b1: Seq<u8>,
    b2: Seq<u8>,
)
    requires
        b1 == rendered_image(p),
        b2 == rendered_image(p),
    ensures
        b1 == b2,
{
}

} // verus!
