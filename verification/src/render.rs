//! Assembling band results into a raster, and its banding-independence.
//!
//! Each band task reports its rows as one byte vector; `fill_bands`
//! writes them into the raster.  When every band's bytes agree with a
//! single per-pixel function, the assembled raster is that function's
//! raster, whatever the banding — concurrency fan-out never affects
//! the output.

use vstd::prelude::*;
use vstd::arithmetic::div_mod::lemma_fundamental_div_mod;
use vstd::arithmetic::div_mod::lemma_fundamental_div_mod_converse;
use vstd::arithmetic::div_mod::lemma_mod_bound;
use crate::bands::Band;
use crate::bands::is_banding;
use crate::bands::lemma_banding_partitions;
use crate::raster::Raster;
use crate::raster::write_rows;

verus! {

/// The samples of one band of a raster of width `width` under the
/// per-pixel function `f`: rows `[band.start, band.end)`, row-major.
pub open spec fn band_pixels(f: spec_fn(int, int) -> u8, width: int, band: Band) -> Seq<u8> {
    Seq::new(
        ((band.end - band.start) * width) as nat,
        |k: int| f(band.start + k / width, k % width),
    )
}

/// The full raster under the per-pixel function `f`, row-major.
pub open spec fn raster_pixels(f: spec_fn(int, int) -> u8, width: int, height: int) -> Seq<u8> {
    Seq::new((height * width) as nat, |k: int| f(k / width, k % width))
}

/// The views of a sequence of byte vectors.
pub open spec fn byte_views(vs: Seq<Vec<u8>>) -> Seq<Seq<u8>> {
    vs.map_values(|v: Vec<u8>| v@)
}

/// The buffer `buf` after the first `n` bands' values have been
/// written into their rows, in order.
pub open spec fn fill_state(
    buf: Seq<u8>,
    width: int,
    bands: Seq<Band>,
    vals: Seq<Seq<u8>>,
    n: int,
) -> Seq<u8>
    decreases n,
{
    if n <= 0 {
        buf
    } else {
        write_rows(
            fill_state(buf, width, bands, vals, n - 1),
            width,
            bands[n - 1].start as int,
            vals[n - 1],
        )
    }
}

/// The rows settled after the first `n` bands of a banding: none
/// before the first band, otherwise everything below the last written
/// band's end.
pub open spec fn rows_settled(bands: Seq<Band>, n: int) -> int {
    if n <= 0 {
        0
    } else {
        bands[n - 1].end as int
    }
}

/// Write every band's values into the raster.  Each write lands only
/// in its own band's rows, so the writes of distinct bands touch
/// disjoint regions of the buffer.
pub fn fill_bands(raster: &mut Raster, bands: &Vec<Band>, values: &Vec<Vec<u8>>)
    requires
        old(raster).wf(),
        is_banding(bands@, old(raster).spec_height() as int),
        values@.len() == bands@.len(),
        forall|i: int|
            0 <= i < bands@.len() ==> byte_views(values@)[i].len() == ((#[trigger] bands@[i]).end
                - bands@[i].start) * old(raster).spec_width(),
    ensures
        final(raster).wf(),
        final(raster).spec_width() == old(raster).spec_width(),
        final(raster).spec_height() == old(raster).spec_height(),
        final(raster)@ == fill_state(
            old(raster)@,
            old(raster).spec_width() as int,
            bands@,
            byte_views(values@),
            bands@.len() as int,
        ),
{
    proof {
        lemma_banding_partitions(bands@, old(raster).spec_height() as int);
    }
    let ghost orig = raster@;
    let ghost w = raster.spec_width();
    let ghost h = raster.spec_height();
    let n = bands.len();
    let mut i: usize = 0;
    while i < n
        invariant
            i <= n,
            n == bands@.len(),
            values@.len() == bands@.len(),
            raster.wf(),
            raster.spec_width() == w,
            raster.spec_height() == h,
            forall|j: int|
                0 <= j < bands@.len() ==> 0 <= (#[trigger] bands@[j]).start < bands@[j].end <= h,
            forall|j: int|
                0 <= j < bands@.len() ==> byte_views(values@)[j].len() == ((#[trigger] bands@[j]).end
                    - bands@[j].start) * w,
            raster@ == fill_state(orig, w as int, bands@, byte_views(values@), i as int),
        decreases n - i,
    {
        proof {
            assert(byte_views(values@)[i as int] == values@[i as int]@);
        }
        raster.set_band(bands[i], &values[i]);
        i = i + 1;
    }
}

/// After the first `n` bands of a banding are written, the buffer
/// holds `f`'s samples on every settled row and the original bytes
/// everywhere else.
proof fn lemma_fill_state_settled(
    buf: Seq<u8>,
    f: spec_fn(int, int) -> u8,
    width: int,
    height: int,
    bands: Seq<Band>,
    vals: Seq<Seq<u8>>,
    n: int,
)
    requires
        width >= 1,
        height >= 0,
        buf.len() == height * width,
        is_banding(bands, height),
        vals.len() == bands.len(),
        forall|i: int| 0 <= i < bands.len() ==> vals[i] == band_pixels(f, width, #[trigger] bands[i]),
        0 <= n <= bands.len(),
    ensures
        fill_state(buf, width, bands, vals, n).len() == buf.len(),
        forall|k: int|
            0 <= k < buf.len() ==> #[trigger] fill_state(buf, width, bands, vals, n)[k] == (if k
                < rows_settled(bands, n) * width {
                f(k / width, k % width)
            } else {
                buf[k]
            }),
    decreases n,
{
    lemma_banding_partitions(bands, height);
    if n > 0 {
        lemma_fill_state_settled(buf, f, width, height, bands, vals, n - 1);
        let prev = fill_state(buf, width, bands, vals, n - 1);
        let cur = fill_state(buf, width, bands, vals, n);
        let band = bands[n - 1];
        let lo = band.start as int;
        let hi = band.end as int;
        assert(lo == rows_settled(bands, n - 1));
        assert(lo * width <= hi * width && hi * width <= height * width && (hi - lo) * width + lo
            * width == hi * width && 0 <= lo * width) by (nonlinear_arith)
            requires
                0 <= lo <= hi <= height,
                width >= 1,
        ;
        assert(cur == write_rows(prev, width, lo, vals[n - 1]));
        assert(vals[n - 1].len() == (hi - lo) * width);
        assert forall|k: int| 0 <= k < buf.len() implies #[trigger] cur[k] == (if k < hi * width {
            f(k / width, k % width)
        } else {
            buf[k]
        }) by {
            if k < lo * width {
                assert(cur[k] == prev[k]);
            } else if k < hi * width {
                let j = k - lo * width;
                assert(cur[k] == vals[n - 1][j]);
                assert(vals[n - 1][j] == f(lo + j / width, j % width));
                lemma_fundamental_div_mod(j, width);
                lemma_mod_bound(j, width);
                assert(k == (lo + j / width) * width + (j % width)) by (nonlinear_arith)
                    requires
                        j == width * (j / width) + (j % width),
                        k == j + lo * width,
                ;
                lemma_fundamental_div_mod_converse(k, width, lo + j / width, j % width);
            } else {
                assert(cur[k] == prev[k]);
            }
        }
    }
}

/// Banding invariance of rendering: if every band's bytes are the
/// samples of one per-pixel function `f`, then writing all bands of
/// any banding into any `height * width` buffer yields `f`'s raster —
/// the banding policy and the initial buffer content leave no trace.
pub proof fn lemma_fill_is_canonical(
    buf: Seq<u8>,
    f: spec_fn(int, int) -> u8,
    width: int,
    height: int,
    bands: Seq<Band>,
    vals: Seq<Seq<u8>>,
)
    requires
        width >= 1,
        height >= 0,
        buf.len() == height * width,
        is_banding(bands, height),
        vals.len() == bands.len(),
        forall|i: int| 0 <= i < bands.len() ==> vals[i] == band_pixels(f, width, #[trigger] bands[i]),
    ensures
        fill_state(buf, width, bands, vals, bands.len() as int) == raster_pixels(f, width, height),
{
    let n = bands.len() as int;
    lemma_fill_state_settled(buf, f, width, height, bands, vals, n);
    if height > 0 {
        assert(rows_settled(bands, n) == height);
    }
    assert(height * width >= 0) by (nonlinear_arith)
        requires
            height >= 0,
            width >= 1,
    ;
    assert(fill_state(buf, width, bands, vals, n) =~= raster_pixels(f, width, height));
}

/// Rendering the same request with two different bandings — one row
/// per band, the whole image in one band, or anything between — gives
/// byte-identical rasters.
pub proof fn lemma_banding_invariance(
    buf1: Seq<u8>,
    bands1: Seq<Band>,
    vals1: Seq<Seq<u8>>,
    buf2: Seq<u8>,
    bands2: Seq<Band>,
    vals2: Seq<Seq<u8>>,
    f: spec_fn(int, int) -> u8,
    width: int,
    height: int,
)
    requires
        width >= 1,
        height >= 0,
        buf1.len() == height * width,
        buf2.len() == height * width,
        is_banding(bands1, height),
        is_banding(bands2, height),
        vals1.len() == bands1.len(),
        vals2.len() == bands2.len(),
        forall|i: int|
            0 <= i < bands1.len() ==> vals1[i] == band_pixels(f, width, #[trigger] bands1[i]),
        forall|i: int|
            0 <= i < bands2.len() ==> vals2[i] == band_pixels(f, width, #[trigger] bands2[i]),
    ensures
        fill_state(buf1, width, bands1, vals1, bands1.len() as int) == fill_state(
            buf2,
            width,
            bands2,
            vals2,
            bands2.len() as int,
        ),
{
    lemma_fill_is_canonical(buf1, f, width, height, bands1, vals1);
    lemma_fill_is_canonical(buf2, f, width, height, bands2, vals2);
}

} // verus!
