//! Tests for banding, raster assembly, intensity, and PNG framing.

use mandelbrot::bands::make_bands;
use mandelbrot::bands::Band;
use mandelbrot::encode::encode_raster;
use mandelbrot::escape::intensity;
use mandelbrot::escape::EscapeResult;
use mandelbrot::raster::Raster;
use mandelbrot::render::fill_bands;
use num::Complex;

/// The plane point of a pixel's upper-left corner, as the renderer
/// computes it.
fn pixel_to_point(
    bounds: (u32, u32),
    pixel: (u32, u32),
    upper_left: (f64, f64),
    lower_right: (f64, f64),
) -> (f64, f64) {
    let (width, height) = (lower_right.0 - upper_left.0, upper_left.1 - lower_right.1);
    (
        upper_left.0 + pixel.0 as f64 * width / bounds.0 as f64,
        upper_left.1 - pixel.1 as f64 * height / bounds.1 as f64,
    )
}

/// The escape-time test over the complex plane.
fn escapes(c: Complex<f64>, limit: u32) -> EscapeResult {
    let mut z = Complex { re: 0.0, im: 0.0 };
    for i in 0..limit {
        z = z * z + c;
        if z.norm_sqr() > 4.0 {
            return EscapeResult::Escaped(i);
        }
    }
    EscapeResult::Bounded
}

/// One band's samples, row-major, for a fixed test region.
fn band_values(
    bounds: (u32, u32),
    band: &Band,
    upper_left: (f64, f64),
    lower_right: (f64, f64),
) -> Vec<u8> {
    let mut vals = Vec::new();
    for row in band.start..band.end {
        for col in 0..bounds.0 {
            let point = pixel_to_point(bounds, (col, row), upper_left, lower_right);
            let e = escapes(Complex { re: point.0, im: point.1 }, 255);
            vals.push(intensity(e));
        }
    }
    vals
}

/// Render a whole raster with the given band granularity.
fn render_with_granularity(
    bounds: (u32, u32),
    rows_per_band: u32,
    upper_left: (f64, f64),
    lower_right: (f64, f64),
) -> Vec<u8> {
    let bands = make_bands(bounds.1, rows_per_band);
    let values: Vec<Vec<u8>> = bands
        .iter()
        .map(|b| band_values(bounds, b, upper_left, lower_right))
        .collect();
    let mut raster = Raster::new(bounds.0, bounds.1);
    fill_bands(&mut raster, &bands, &values);
    raster.into_bytes()
}

#[test]
fn test_pixel_to_point() {
    // The affine mapping used by the rendering tests below: a pixel a
    // quarter of the way across and three quarters down a symmetric
    // [-1, 1] region lands exactly on (-0.5, -0.5).
    assert_eq!(
        pixel_to_point((100, 100), (25, 75), (-1.0, 1.0), (1.0, -1.0)),
        (-0.5, -0.5)
    );
}

#[test]
fn bands_one_row_each() {
    let bands = make_bands(10, 1);
    assert_eq!(bands.len(), 10);
    for (i, b) in bands.iter().enumerate() {
        assert_eq!(b.start, i as u32);
        assert_eq!(b.end, i as u32 + 1);
    }
}

#[test]
fn bands_coarser_policy_covers_exactly() {
    let bands = make_bands(10, 3);
    let expected = [(0, 3), (3, 6), (6, 9), (9, 10)];
    assert_eq!(bands.len(), expected.len());
    for (b, (s, e)) in bands.iter().zip(expected.iter()) {
        assert_eq!((b.start, b.end), (*s, *e));
    }
}

#[test]
fn bands_degenerate_heights() {
    assert_eq!(make_bands(0, 1).len(), 0);
    let whole = make_bands(5, 100);
    assert_eq!(whole.len(), 1);
    assert_eq!((whole[0].start, whole[0].end), (0, 5));
}

#[test]
fn intensity_policy() {
    assert_eq!(intensity(EscapeResult::Bounded), 0);
    assert_eq!(intensity(EscapeResult::Escaped(0)), 255);
    assert_eq!(intensity(EscapeResult::Escaped(1)), 254);
    assert_eq!(intensity(EscapeResult::Escaped(254)), 1);
}

#[test]
fn evaluator_origin_is_bounded_and_far_points_escape_fast() {
    assert_eq!(escapes(Complex { re: 0.0, im: 0.0 }, 255), EscapeResult::Bounded);
    match escapes(Complex { re: 3.0, im: 3.0 }, 255) {
        EscapeResult::Escaped(i) => assert!(i < 3),
        EscapeResult::Bounded => panic!("a point far outside the disk must escape"),
    }
    assert_eq!(
        escapes(Complex { re: 3.0, im: 3.0 }, 255),
        escapes(Complex { re: 3.0, im: 3.0 }, 255)
    );
}

#[test]
fn raster_starts_black_and_band_writes_land_in_their_rows() {
    let raster = Raster::new(3, 2);
    assert_eq!(raster.into_bytes(), vec![0u8; 6]);

    let mut raster = Raster::new(3, 3);
    let bands = make_bands(3, 1);
    let vals = vec![7u8, 8, 9];
    raster.set_band(bands[1], &vals);
    assert_eq!(raster.as_bytes(), &vec![0, 0, 0, 7, 8, 9, 0, 0, 0]);
}

#[test]
fn banding_granularity_never_affects_output() {
    let bounds = (24, 16);
    let ul = (-2.0, 1.2);
    let lr = (0.8, -1.2);
    let per_row = render_with_granularity(bounds, 1, ul, lr);
    let in_one = render_with_granularity(bounds, bounds.1, ul, lr);
    let by_five = render_with_granularity(bounds, 5, ul, lr);
    assert_eq!(per_row, in_one);
    assert_eq!(per_row, by_five);
}

#[test]
fn png_round_trips_the_samples() {
    let mut raster = Raster::new(4, 2);
    let bands = make_bands(2, 2);
    let vals = vec![vec![10u8, 20, 30, 40, 50, 60, 70, 80]];
    fill_bands(&mut raster, &bands, &vals);
    let samples = raster.as_bytes().clone();
    let png = encode_raster(&raster).unwrap();
    let decoded = image::load_from_memory(&png).unwrap().to_luma8();
    assert_eq!(decoded.width(), 4);
    assert_eq!(decoded.height(), 2);
    assert_eq!(decoded.into_raw(), samples);
}
