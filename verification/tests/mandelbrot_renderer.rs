use std::time::Instant;

use mandelbrot::color::get_color;
use mandelbrot::params::MandelbrotRenderParams;
use mandelbrot::render::render_to_buffer;

#[test]
fn test_bench_1920_1080_with_8096_iters() {
    let width = 1920;
    let height = 1080;
    let mut params = MandelbrotRenderParams::new(width, height);
    params.max_iter = 8096;
    let mut buf = vec![0; width * height * 4];
    let start = Instant::now();
    let rendered = render_to_buffer(&params, &mut buf);
    let duration = start.elapsed();
    assert!(rendered.is_ok());
    println!(
        "Rendering {:?}x{:?} with {:?} mandelbrot iterations took {:?}",
        &width, &height, &params.max_iter, &duration,
    );
}

#[test]
fn test_bench_1920_1080_get_color() {
    let mut buf = vec![0; 4];
    let iter: u32 = 1920 * 1080;
    let start = Instant::now();
    for i in 0..iter {
        get_color(i as u16, iter as u16, &mut buf);
    }

    let duration = start.elapsed();
    println!("get_color() x{:?} times took {:?}", &iter, &duration,);
}
