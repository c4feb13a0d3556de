use mandelbrot::color::color_channels;
use mandelbrot::color::get_color;
use mandelbrot::fixed::FP_ONE;
use mandelbrot::kernel::mandelbrot;
use mandelbrot::params::MandelbrotRenderParams;
use mandelbrot::params::DEFAULT_ITER;
use mandelbrot::params::FP_DT_MAX;
use mandelbrot::params::FP_ZOOM_MIN;
use mandelbrot::params::MAX_ITER;
use mandelbrot::params::MIN_ITER;
use mandelbrot::render::render_to_buffer;
use mandelbrot::render::RenderError;

#[test]
fn kernel_count_within_cap() {
    let samples: [(i64, i64); 6] = [
        (0, 0),
        (2 * FP_ONE, 2 * FP_ONE),
        (-2 * FP_ONE, -FP_ONE),
        (FP_ONE / 4, FP_ONE / 4),
        (-FP_ONE, 0),
        (FP_ONE / 2, -FP_ONE / 2),
    ];
    for (cx, cy) in samples {
        for cap in [16u16, 256, 8192] {
            let n = mandelbrot(cx, cy, cap);
            assert!(n <= cap);
        }
    }
}

#[test]
fn origin_reaches_cap() {
    assert_eq!(mandelbrot(0, 0, 16), 16);
    assert_eq!(mandelbrot(0, 0, 256), 256);
    assert_eq!(mandelbrot(0, 0, 8192), 8192);
}

#[test]
fn two_two_escapes_first_iteration() {
    assert_eq!(mandelbrot(2 * FP_ONE, 2 * FP_ONE, 256), 1);
    assert_eq!(mandelbrot(2 * FP_ONE, 2 * FP_ONE, 16), 1);
}

#[test]
fn top_left_pixel_matches_mapper() {
    let params = MandelbrotRenderParams::new(800, 600);
    let mut buf = vec![0u8; 800 * 600 * 4];
    assert!(render_to_buffer(&params, &mut buf).is_ok());

    // Pixel (0, 0) maps to the coordinate (-2, -1), far outside the set.
    let n = mandelbrot(-2 * FP_ONE, -FP_ONE, 256);
    assert!(1 <= n && n <= 4);
    let (r, g, b) = color_channels(n, 256);
    assert_eq!(&buf[0..4], &[r, g, b, 255]);
    // The mapper paints such an early escape a faint blue, not the buffer's
    // initial zeros.
    assert_eq!((r, g, b), (0, 0, 8));
}

#[test]
fn raising_cap_keeps_interior_pixels_black() {
    // An interior point reaches whatever cap is set, and a count equal to the
    // cap sits at the gradient's saturation endpoint, which is black under
    // every cap.
    let n256 = mandelbrot(0, 0, 256);
    let n512 = mandelbrot(0, 0, 512);
    assert_eq!(n256, 256);
    assert_eq!(n512, 512);
    assert_eq!(color_channels(n256, 256), (0, 0, 0));
    assert_eq!(color_channels(n512, 512), color_channels(n256, 256));
}

#[test]
fn buffer_shape_and_alpha() {
    let params = MandelbrotRenderParams::new(32, 16);
    let mut buf = vec![0u8; 32 * 16 * 4];
    assert!(render_to_buffer(&params, &mut buf).is_ok());
    assert_eq!(buf.len(), 32 * 16 * 4);
    for pixel in buf.chunks(4) {
        assert_eq!(pixel[3], 255);
    }
}

#[test]
fn mapper_is_deterministic() {
    for n in [0u16, 1, 7, 64, 255, 256, 300] {
        assert_eq!(color_channels(n, 256), color_channels(n, 256));
        let mut a = vec![0u8; 4];
        let mut b = vec![9u8; 4];
        get_color(n, 256, &mut a);
        get_color(n, 256, &mut b);
        assert_eq!(&a[0..3], &b[0..3]);
    }
}

#[test]
fn mapper_exact_values() {
    assert_eq!(color_channels(64, 256), (26, 134, 228));
    assert_eq!(color_channels(1, 256), (0, 0, 8));
    assert_eq!(color_channels(128, 256), (143, 239, 135));
    assert_eq!(color_channels(255, 256), (8, 0, 0));
    assert_eq!(color_channels(0, 256), (0, 0, 0));
    // A count above the cap saturates: red and blue vanish, green clamps.
    assert_eq!(color_channels(300, 256), (0, 155, 0));
}

#[test]
fn rendering_is_order_independent() {
    let params = MandelbrotRenderParams::new(64, 48);
    let mut first = vec![0u8; 64 * 48 * 4];
    let mut second = vec![7u8; 64 * 48 * 4];
    assert!(render_to_buffer(&params, &mut first).is_ok());
    assert!(render_to_buffer(&params, &mut second).is_ok());
    assert_eq!(first, second);
}

#[test]
fn wrong_buffer_size_is_refused_untouched() {
    let params = MandelbrotRenderParams::new(32, 16);
    let mut buf = vec![7u8; 32 * 16 * 4 - 1];
    assert_eq!(
        render_to_buffer(&params, &mut buf),
        Err(RenderError::SizeMismatch)
    );
    assert!(buf.iter().all(|&byte| byte == 7));
}

#[test]
fn new_params_hold_the_default_view() {
    let p = MandelbrotRenderParams::new(800, 600);
    assert_eq!(p.min_x_coord, -2 * FP_ONE);
    assert_eq!(p.max_x_coord, FP_ONE);
    assert_eq!(p.min_y_coord, -FP_ONE);
    assert_eq!(p.max_y_coord, FP_ONE);
    assert_eq!(p.offset_x, 0);
    assert_eq!(p.offset_y, 0);
    assert_eq!(p.zoom, FP_ONE);
    assert_eq!(p.max_iter, DEFAULT_ITER);
    assert_eq!(p.width, 800);
    assert_eq!(p.height, 600);
}

#[test]
fn panning_moves_the_offset_by_speed_over_zoom() {
    let mut p = MandelbrotRenderParams::new(800, 600);
    p.pan_left(FP_ONE);
    // One second at speed 0.6 under unit zoom.
    assert_eq!(p.offset_x, -2576980377);
    p.pan_right(FP_ONE);
    assert_eq!(p.offset_x, 0);
    p.pan_up(FP_ONE);
    assert_eq!(p.offset_y, -2576980377);
    p.pan_down(FP_ONE);
    assert_eq!(p.offset_y, 0);

    // A doubled zoom halves the step.
    p.zoom = 2 * FP_ONE;
    p.pan_right(FP_ONE);
    assert_eq!(p.offset_x, 2576980377 / 2);
}

#[test]
fn zooming_scales_the_factor() {
    let mut p = MandelbrotRenderParams::new(800, 600);
    p.zoom_in(FP_ONE);
    // One second at growth 0.4 from unit zoom.
    assert_eq!(p.zoom, FP_ONE + 1717986918);
    p.zoom = FP_ONE;
    p.zoom_out(FP_DT_MAX);
    // 16 seconds of shrinking overshoots and clamps at the minimum.
    assert_eq!(p.zoom, FP_ZOOM_MIN);
}

#[test]
fn iteration_cap_doubles_halves_and_clamps() {
    let mut p = MandelbrotRenderParams::new(800, 600);
    p.increase_iterations();
    assert_eq!(p.max_iter, 512);
    p.decrease_iterations();
    assert_eq!(p.max_iter, 256);
    p.max_iter = MAX_ITER;
    p.increase_iterations();
    assert_eq!(p.max_iter, MAX_ITER);
    p.max_iter = MIN_ITER;
    p.decrease_iterations();
    assert_eq!(p.max_iter, MIN_ITER);
}

#[test]
fn reset_restores_camera_defaults() {
    let mut p = MandelbrotRenderParams::new(800, 600);
    p.pan_left(FP_ONE);
    p.zoom_in(FP_ONE);
    p.increase_iterations();
    p.reset();
    assert_eq!(p.offset_x, 0);
    assert_eq!(p.offset_y, 0);
    assert_eq!(p.zoom, FP_ONE);
    assert_eq!(p.max_iter, DEFAULT_ITER);
    assert_eq!(p.width, 800);
    assert_eq!(p.height, 600);
}
