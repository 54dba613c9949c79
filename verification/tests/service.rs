//! End-to-end exercises of the request-to-PNG pipeline, short of the
//! socket transport.

use mandelbrot::bands::make_bands;
use mandelbrot::encode::encode_raster;
use mandelbrot::escape::intensity;
use mandelbrot::escape::EscapeResult;
use mandelbrot::parse::parse_pair;
use mandelbrot::raster::Raster;
use mandelbrot::render::fill_bands;
use mandelbrot::request::parse_request;
use mandelbrot::request::RequestError;
use num::Complex;

/// The compute side of one exchange: parse the request text, render
/// per-row bands, and encode; `None` mirrors the closed, empty
/// response of a failed exchange.
fn respond(input: &str) -> Option<Vec<u8>> {
    let req = parse_request(input).ok()?;
    let (width, height) = (req.bounds.width, req.bounds.height);
    let upper_left = parse_pair::<f64>(&req.upper_left, ',')?;
    let lower_right = parse_pair::<f64>(&req.lower_right, ',')?;
    let bands = make_bands(height, 1);
    let mut values: Vec<Vec<u8>> = Vec::new();
    for band in bands.iter() {
        let mut vals = Vec::new();
        for row in band.start..band.end {
            for col in 0..width {
                let (sw, sh) = (
                    lower_right.0 - upper_left.0,
                    upper_left.1 - lower_right.1,
                );
                let re = upper_left.0 + col as f64 * sw / width as f64;
                let im = upper_left.1 - row as f64 * sh / height as f64;
                let e = {
                    let mut z = Complex { re: 0.0, im: 0.0 };
                    let c = Complex { re, im };
                    let mut out = EscapeResult::Bounded;
                    for i in 0..255u32 {
                        z = z * z + c;
                        if z.norm_sqr() > 4.0 {
                            out = EscapeResult::Escaped(i);
                            break;
                        }
                    }
                    out
                };
                vals.push(intensity(e));
            }
        }
        values.push(vals);
    }
    let mut raster = Raster::new(width, height);
    fill_bands(&mut raster, &bands, &values);
    encode_raster(&raster)
}

#[test]
fn well_formed_request_yields_decodable_png_of_the_stated_size() {
    let response = respond("64x48 -1.0,1.0 1.0,-1.0").unwrap();
    let decoded = image::load_from_memory(&response).unwrap().to_luma8();
    assert_eq!(decoded.width(), 64);
    assert_eq!(decoded.height(), 48);
}

#[test]
fn same_request_twice_yields_byte_identical_responses() {
    let first = respond("64x48 -1.0,1.0 1.0,-1.0").unwrap();
    let second = respond("64x48 -1.0,1.0 1.0,-1.0").unwrap();
    assert_eq!(first, second);
}

#[test]
fn malformed_request_yields_no_response_bytes() {
    assert_eq!(respond("100x100 -1.0,1.0"), None);
    assert_eq!(parse_request("100x100 -1.0,1.0").unwrap_err(), RequestError::FieldCount);
    assert_eq!(respond("64x48 -1.0;1.0 1.0,-1.0"), None);
    assert_eq!(respond("64x48 abc,1.0 1.0,-1.0"), None);
}
