//! Framing a filled raster for the PNG codec.
//!
//! The codec itself is an external collaborator with a fixed contract:
//! it turns a `width * height` single-channel 8-bit raster into a
//! compressed byte stream, deterministically.  The raster type's
//! invariant guarantees the codec's buffer-length precondition, so a
//! mismatched buffer can never reach it.

use vstd::prelude::*;
use crate::raster::Raster;

verus! {

/// image's error type, carried through the library untouched.
#[verifier::external_type_specification]
#[verifier::external_body]
pub struct ExImageError(image::ImageError);

/// The PNG encoding of a `width * height` single-channel 8-bit raster,
/// as the codec produces it: a pure function of the samples and the
/// dimensions.
pub uninterp spec fn png_bytes(pixels: Seq<u8>, width: int, height: int) -> Seq<u8>;

/// Relies on `image::codecs::png::PngEncoder` through
/// `image::ImageEncoder::write_image`: encodes an `L8` raster into PNG
/// bytes, a deterministic function of the samples and dimensions.
/// `write_image` panics unless the buffer holds exactly
/// `width * height` bytes, so that is required here.  With that length
/// and nonzero dimensions the call succeeds: the png writer rejects
/// only a zero width, a zero height, or a color/depth combination
/// other than the fixed grayscale 8-bit one, and the output sink is an
/// in-memory vector, whose writes cannot fail.
#[verifier::external_body]
fn png_encode(pixels: &Vec<u8>, width: u32, height: u32) -> (r: Result<Vec<u8>, image::ImageError>)
    requires
        pixels@.len() == width * height,
    ensures
        width > 0 && height > 0 ==> r is Ok,
        r matches Ok(v) ==> v@ == png_bytes(pixels@, width as int, height as int),
{
    let mut out: Vec<u8> = Vec::new();
    let encoder = image::codecs::png::PngEncoder::new(&mut out);
    match image::ImageEncoder::write_image(
        encoder,
        pixels.as_slice(),
        width,
        height,
        image::ColorType::L8,
    ) {
        Ok(()) => Ok(out),
        Err(e) => Err(e),
    }
}

/// Encode a filled raster as a PNG byte stream.  The raster's
/// invariant supplies the codec's buffer-length precondition, so for a
/// raster of positive dimensions success is owed: a response is always
/// produced, and it is exactly the codec's encoding.  `None` can arise
/// only for a degenerate zero-sized raster, which the request parser
/// never lets through; on it the caller aborts the exchange and sends
/// nothing.
pub fn encode_raster(raster: &Raster) -> (r: Option<Vec<u8>>)
    requires
        raster.wf(),
    ensures
        raster.spec_width() > 0 && raster.spec_height() > 0 ==> r is Some,
        r matches Some(v) ==> v@ == png_bytes(
            raster@,
            raster.spec_width() as int,
            raster.spec_height() as int,
        ),
{
    match png_encode(raster.as_bytes(), raster.width(), raster.height()) {
        Ok(v) => Some(v),
        Err(_) => None,
    }
}

} // verus!
