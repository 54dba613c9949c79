//! Partitioning a raster into row bands.
//!
//! The scheduler splits the raster's rows into contiguous, disjoint
//! bands and renders one band per concurrent task.  The partition is
//! built and proved here: the bands cover `[0, height)` exactly once —
//! no gaps, no overlaps, no out-of-range rows — whatever the band
//! granularity.

use vstd::prelude::*;

verus! {

/// A contiguous row range `[start, end)` of a raster: the unit of
/// parallel rendering work.
#[derive(Clone, Copy, PartialEq, Eq, Structural, Debug)]
pub struct Band {
    /// First row of the band.
    pub start: u32,
    /// One past the last row of the band.
    pub end: u32,
}

/// `bands` is a banding of `height` rows: a chain of nonempty row
/// ranges, each starting where the previous one ended, that begins at
/// row 0 and ends at `height`.
pub open spec fn is_banding(bands: Seq<Band>, height: int) -> bool {
    &&& (forall|i: int| 0 <= i < bands.len() ==> (#[trigger] bands[i]).start < bands[i].end)
    &&& (forall|i: int|
        0 <= i && i + 1 < bands.len() ==> (#[trigger] bands[i]).end == bands[i + 1].start)
    &&& if height > 0 {
        bands.len() > 0 && bands[0].start == 0 && bands.last().end == height
    } else {
        bands.len() == 0
    }
}

/// Divide `height` rows into bands of `rows_per_band` rows each, the
/// last band taking whatever remains.  One row per band is the default
/// policy; a larger granularity is the allowed coarser policy.
pub fn make_bands(height: u32, rows_per_band: u32) -> (r: Vec<Band>)
    requires
        rows_per_band >= 1,
    ensures
        is_banding(r@, height as int),
        forall|i: int|
            0 <= i < r@.len() ==> (#[trigger] r@[i]).start == i * rows_per_band && r@[i].end == (
            if (i + 1) * rows_per_band <= height {
                (i + 1) * rows_per_band
            } else {
                height as int
            }),
{
    let mut bands: Vec<Band> = Vec::new();
    let mut row: u32 = 0;
    while row < height
        invariant
            rows_per_band >= 1,
            row <= height,
            bands@.len() == 0 ==> row == 0,
            bands@.len() > 0 ==> bands@.last().end == row,
            forall|i: int| 0 <= i < bands@.len() ==> (#[trigger] bands@[i]).start < bands@[i].end,
            forall|i: int|
                0 <= i && i + 1 < bands@.len() ==> (#[trigger] bands@[i]).end == bands@[i + 1].start,
            bands@.len() > 0 ==> bands@[0].start == 0,
            forall|i: int|
                0 <= i < bands@.len() ==> (#[trigger] bands@[i]).start == i * rows_per_band
                    && bands@[i].end == (if (i + 1) * rows_per_band <= height {
                    (i + 1) * rows_per_band
                } else {
                    height as int
                }),
        decreases height - row,
    {
        let end: u32 = if height - row > rows_per_band {
            row + rows_per_band
        } else {
            height
        };
        proof {
            let k = bands@.len() as int;
            assert(row == k * rows_per_band) by (nonlinear_arith)
                requires
                    k >= 0,
                    rows_per_band >= 1,
                    row < height,
                    k == 0 ==> row == 0,
                    k > 0 ==> row as int == (if k * rows_per_band <= height {
                        k * rows_per_band
                    } else {
                        height as int
                    }),
            ;
            assert((k + 1) * rows_per_band == k * rows_per_band + rows_per_band)
                by (nonlinear_arith);
        }
        let ghost prev = bands@;
        bands.push(Band { start: row, end });
        proof {
            assert forall|i: int| 0 <= i && i + 1 < bands@.len() implies (#[trigger] bands@[i]).end
                == bands@[i + 1].start by {
                assert(bands@.len() == prev.len() + 1);
                if i + 1 < prev.len() {
                    assert(bands@[i] == prev[i]);
                    assert(bands@[i + 1] == prev[i + 1]);
                    assert(prev[i].end == prev[i + 1].start);
                } else {
                    assert(i == prev.len() - 1);
                    assert(bands@[i] == prev[i]);
                    assert(prev[i] == prev.last());
                    assert(bands@[i + 1] == (Band { start: row, end }));
                    assert(prev.last().end == row);
                }
            }
        }
        row = end;
    }
    bands
}

/// Some band of `bands` holds `row`.
pub open spec fn row_in_some_band(bands: Seq<Band>, row: int) -> bool {
    exists|i: int| 0 <= i < bands.len() && (#[trigger] bands[i]).start <= row < bands[i].end
}

/// Bands `i` and `j` with `i < j` are disjoint: the earlier band ends
/// no later than the later one starts.
proof fn lemma_bands_ordered(bands: Seq<Band>, i: int, j: int)
    requires
        forall|k: int| 0 <= k < bands.len() ==> (#[trigger] bands[k]).start < bands[k].end,
        forall|k: int| 0 <= k && k + 1 < bands.len() ==> (#[trigger] bands[k]).end == bands[k + 1].start,
        0 <= i < j < bands.len(),
    ensures
        bands[i].end <= bands[j].start,
    decreases j - i,
{
    if j == i + 1 {
    } else {
        lemma_bands_ordered(bands, i, j - 1);
    }
}

/// Find the band holding `row`, searching the chain from band `k` on.
proof fn lemma_band_holding_row(bands: Seq<Band>, height: int, row: int, k: int) -> (i: int)
    requires
        is_banding(bands, height),
        0 <= k < bands.len(),
        bands[k].start <= row < height,
    ensures
        0 <= i < bands.len(),
        bands[i].start <= row < bands[i].end,
    decreases bands.len() - k,
{
    if row < bands[k].end {
        k
    } else {
        lemma_band_holding_row(bands, height, row, k + 1)
    }
}

/// Coverage invariant of a banding: the bands' row ranges are pairwise
/// disjoint, stay within `[0, height)`, and their union is exactly
/// `[0, height)` — every row lies in some band, no gaps and no
/// overlaps.
pub proof fn lemma_banding_partitions(bands: Seq<Band>, height: int)
    requires
        is_banding(bands, height),
    ensures
        forall|i: int, j: int|
            0 <= i < j < bands.len() ==> (#[trigger] bands[i]).end <= (#[trigger] bands[j]).start,
        forall|i: int|
            0 <= i < bands.len() ==> 0 <= (#[trigger] bands[i]).start < bands[i].end <= height,
        forall|row: int| 0 <= row < height ==> #[trigger] row_in_some_band(bands, row),
{
    assert forall|i: int, j: int| 0 <= i < j < bands.len() implies (#[trigger] bands[i]).end <= (
    #[trigger] bands[j]).start by {
        lemma_bands_ordered(bands, i, j);
    }
    assert forall|i: int| 0 <= i < bands.len() implies 0 <= (#[trigger] bands[i]).start
        < bands[i].end <= height by {
        if i > 0 {
            lemma_bands_ordered(bands, 0, i);
        }
        if i + 1 < bands.len() {
            lemma_bands_ordered(bands, i, bands.len() - 1);
        }
    }
    assert forall|row: int| 0 <= row < height implies #[trigger] row_in_some_band(bands, row) by {
        let i = lemma_band_holding_row(bands, height, row, 0);
        assert(0 <= i < bands.len() && bands[i].start <= row < bands[i].end);
    }
}

} // verus!
