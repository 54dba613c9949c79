//! The raster buffer and its band-wise assembly.
//!
//! A raster owns `width * height` one-byte grayscale samples in
//! row-major order; that length is an invariant of the type, so a
//! mismatched buffer can never reach the encoder.  Band tasks deliver
//! their rows as plain byte vectors, and the writes land in disjoint
//! regions of the buffer.

use vstd::prelude::*;
use vstd::pervasive::VecAdditionalExecFns;
use crate::bands::Band;

verus! {

/// The buffer `buf` with the row range `[row_start, row_start + k)`
/// overwritten by `vals`, where `vals` covers `k` whole rows of
/// `width` samples.
pub open spec fn write_rows(buf: Seq<u8>, width: int, row_start: int, vals: Seq<u8>) -> Seq<u8> {
    buf.subrange(0, row_start * width) + vals + buf.subrange(
        row_start * width + vals.len(),
        buf.len() as int,
    )
}

/// A `width * height` buffer of one-byte grayscale samples, row-major.
pub struct Raster {
    width: u32,
    height: u32,
    buf: Vec<u8>,
}

impl View for Raster {
    type V = Seq<u8>;

    closed spec fn view(&self) -> Seq<u8> {
        self.buf@
    }
}

impl Raster {
    /// Raster width in pixels.
    pub closed spec fn spec_width(self) -> u32 {
        self.width
    }

    /// Raster height in pixels.
    pub closed spec fn spec_height(self) -> u32 {
        self.height
    }

    /// The type's invariant: the buffer holds exactly one sample per
    /// pixel.
    pub open spec fn wf(self) -> bool {
        self@.len() == self.spec_width() * self.spec_height()
    }

    /// Allocate an all-black raster of the given dimensions.
    pub fn new(width: u32, height: u32) -> (r: Raster)
        requires
            width * height <= usize::MAX,
        ensures
            r.wf(),
            r.spec_width() == width,
            r.spec_height() == height,
            r@ == Seq::<u8>::new((width * height) as nat, |k: int| 0u8),
    {
        proof {
            assert((width as u64) * (height as u64) == (width * height) as u64) by (nonlinear_arith);
        }
        let total: usize = ((width as u64) * (height as u64)) as usize;
        let mut buf: Vec<u8> = Vec::new();
        let mut k: usize = 0;
        while k < total
            invariant
                k <= total,
                buf@ =~= Seq::<u8>::new(k as nat, |j: int| 0u8),
            decreases total - k,
        {
            buf.push(0);
            proof {
                assert(buf@ =~= Seq::<u8>::new((k + 1) as nat, |j: int| 0u8));
            }
            k = k + 1;
        }
        proof {
            assert(buf@ =~= Seq::<u8>::new((width * height) as nat, |j: int| 0u8));
        }
        Raster { width, height, buf }
    }

    /// Raster width in pixels.
    pub fn width(&self) -> (w: u32)
        ensures
            w == self.spec_width(),
    {
        self.width
    }

    /// Raster height in pixels.
    pub fn height(&self) -> (h: u32)
        ensures
            h == self.spec_height(),
    {
        self.height
    }

    /// Write one band's samples into the band's own rows.  The rest of
    /// the buffer is untouched, so writes for disjoint bands land in
    /// disjoint regions whatever their order.
    pub fn set_band(&mut self, band: Band, vals: &Vec<u8>)
        requires
            old(self).wf(),
            band.start <= band.end <= old(self).spec_height(),
            vals@.len() == (band.end - band.start) * old(self).spec_width(),
        ensures
            final(self).wf(),
            final(self).spec_width() == old(self).spec_width(),
            final(self).spec_height() == old(self).spec_height(),
            final(self)@ == write_rows(
                old(self)@,
                old(self).spec_width() as int,
                band.start as int,
                vals@,
            ),
    {
        let w = self.width;
        let h = self.height;
        let buf_len: usize = self.buf.len();
        proof {
            assert(band.start * w <= band.end * w && band.end * w <= h * w && (band.end
                - band.start) * w + band.start * w == band.end * w) by (nonlinear_arith)
                requires
                    band.start <= band.end <= h,
            ;
            assert(h * w == w * h) by (nonlinear_arith);
            assert(buf_len == w * h);
        }
        let base: usize = (band.start as usize) * (w as usize);
        let count: usize = vals.len();
        let ghost orig = self.buf@;
        let mut k: usize = 0;
        while k < count
            invariant
                k <= count,
                count == vals@.len(),
                self.width == w,
                self.height == h,
                buf_len == orig.len(),
                base + count <= buf_len,
                self.buf@.len() == orig.len(),
                forall|j: int| 0 <= j < k ==> self.buf@[base + j] == vals@[j],
                forall|j: int| 0 <= j < orig.len() && !(base <= j < base + k) ==> self.buf@[j]
                    == orig[j],
            decreases count - k,
        {
            self.buf.set(base + k, vals[k]);
            k = k + 1;
        }
        proof {
            assert(self.buf@ =~= write_rows(orig, w as int, band.start as int, vals@));
        }
    }

    /// Hand the filled buffer to the caller, for the encoder.
    pub fn into_bytes(self) -> (r: Vec<u8>)
        ensures
            r@ == self@,
    {
        self.buf
    }

    /// Borrow the sample buffer.
    pub fn as_bytes(&self) -> (r: &Vec<u8>)
        ensures
            r@ == self@,
    {
        &self.buf
    }
}

} // verus!
