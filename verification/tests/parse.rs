//! Tests for pair and request parsing.

use mandelbrot::parse::parse_pair;
use mandelbrot::parse::parse_u32;
use mandelbrot::parse::parse_u32_pair;
use mandelbrot::request::parse_request;
use mandelbrot::request::split_fields;
use mandelbrot::request::RequestError;

#[test]
fn test_parse_pair() {
    assert_eq!(parse_pair::<i32>("", ','), None);
    assert_eq!(parse_pair::<i32>("10,", ','), None);
    assert_eq!(parse_pair::<i32>(",10", ','), None);
    assert_eq!(parse_pair::<i32>("10,20", ','), Some((10, 20)));
    assert_eq!(parse_pair::<i32>("10,20xy", ','), None);
    assert_eq!(parse_pair::<f64>("0.5x", 'x'), None);
    assert_eq!(parse_pair::<f64>("0.5x1.5", 'x'), Some((0.5, 1.5)));
}

#[test]
fn parse_u32_accepts_plain_numerals() {
    assert_eq!(parse_u32("0"), Some(0));
    assert_eq!(parse_u32("10"), Some(10));
    assert_eq!(parse_u32("+10"), Some(10));
    assert_eq!(parse_u32("007"), Some(7));
    assert_eq!(parse_u32("4294967295"), Some(u32::MAX));
}

#[test]
fn parse_u32_rejects_everything_else() {
    assert_eq!(parse_u32(""), None);
    assert_eq!(parse_u32("+"), None);
    assert_eq!(parse_u32("-1"), None);
    assert_eq!(parse_u32("10 "), None);
    assert_eq!(parse_u32(" 10"), None);
    assert_eq!(parse_u32("20xy"), None);
    assert_eq!(parse_u32("1.5"), None);
    assert_eq!(parse_u32("4294967296"), None);
    assert_eq!(parse_u32("99999999999999999999"), None);
}

#[test]
fn parse_u32_pair_splits_at_first_separator() {
    assert_eq!(parse_u32_pair("400x600", 'x'), Some((400, 600)));
    assert_eq!(parse_u32_pair("10,20", ','), Some((10, 20)));
    assert_eq!(parse_u32_pair("", 'x'), None);
    assert_eq!(parse_u32_pair("10x", 'x'), None);
    assert_eq!(parse_u32_pair("x10", 'x'), None);
    assert_eq!(parse_u32_pair("10x20x30", 'x'), None);
    assert_eq!(parse_u32_pair("10x20xy", 'x'), None);
}

#[test]
fn split_fields_on_ascii_whitespace() {
    assert_eq!(split_fields("a b c"), vec!["a", "b", "c"]);
    assert_eq!(split_fields("  a\t\tb \n c  "), vec!["a", "b", "c"]);
    assert_eq!(split_fields(""), Vec::<String>::new());
    assert_eq!(split_fields("   \t "), Vec::<String>::new());
    assert_eq!(split_fields("one"), vec!["one"]);
}

#[test]
fn parse_request_accepts_three_well_formed_fields() {
    let req = parse_request("1000x750 -1.20,0.35 -1,0.20").unwrap();
    assert_eq!(req.bounds.width, 1000);
    assert_eq!(req.bounds.height, 750);
    assert_eq!(req.upper_left, "-1.20,0.35");
    assert_eq!(req.lower_right, "-1,0.20");
}

#[test]
fn parse_request_rejects_wrong_field_count() {
    assert_eq!(parse_request("100x100 -1.0,1.0").unwrap_err(), RequestError::FieldCount);
    assert_eq!(parse_request("").unwrap_err(), RequestError::FieldCount);
    assert_eq!(
        parse_request("100x100 -1.0,1.0 1.0,-1.0 extra").unwrap_err(),
        RequestError::FieldCount
    );
}

#[test]
fn parse_request_rejects_malformed_bounds() {
    assert_eq!(parse_request("axb -1.0,1.0 1.0,-1.0").unwrap_err(), RequestError::Bounds);
    assert_eq!(parse_request("100y100 -1.0,1.0 1.0,-1.0").unwrap_err(), RequestError::Bounds);
    assert_eq!(parse_request("100x100z -1.0,1.0 1.0,-1.0").unwrap_err(), RequestError::Bounds);
}

#[test]
fn parse_request_rejects_zero_dimensions() {
    assert_eq!(parse_request("0x100 -1.0,1.0 1.0,-1.0").unwrap_err(), RequestError::Geometry);
    assert_eq!(parse_request("100x0 -1.0,1.0 1.0,-1.0").unwrap_err(), RequestError::Geometry);
}
