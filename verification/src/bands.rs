//! Frequency bands: which bins of a spectrum belong to which bar.

use vstd::prelude::*;

use crate::single;

verus! {

/// The number of samples that one analysis covers.
pub const FFT_SIZE: usize = 2048;

/// The bin of the highest frequency that the spectrum holds.
pub const MAX_BIN: usize = FFT_SIZE / 2;

/// The number of bins from 0 to [`MAX_BIN`].
pub const BIN_COUNT: usize = MAX_BIN + 1;

/// The bit pattern of the magnitude 0.000001, below which a peak never falls.
pub const PEAK_FLOOR: u32 = 0x3586_37bd;

/// `value` moved into the range from `low` to `high`.
pub open spec fn clamped(value: int, low: int, high: int) -> int {
    if value < low {
        low
    } else if value > high {
        high
    } else {
        value
    }
}

/// The first bin of band `index`.
pub open spec fn band_start(edges: Seq<usize>, index: int) -> int {
    clamped(edges[index] as int, 1, MAX_BIN as int)
}

/// One past the last bin of band `index`: the next edge, moved so that the
/// band holds a bin and stays inside the spectrum. The last band reaches to
/// the end of the spectrum.
pub open spec fn band_end(edges: Seq<usize>, index: int) -> int {
    if index + 2 == edges.len() {
        MAX_BIN + 1
    } else {
        clamped(edges[index + 1] as int, band_start(edges, index) + 1, MAX_BIN + 1)
    }
}

/// The bands between neighbouring edges, each as its first bin and one past
/// its last.
pub open spec fn band_ranges(edges: Seq<usize>) -> Seq<(usize, usize)> {
    Seq::new(
        (edges.len() - 1) as nat,
        |i: int| (band_start(edges, i) as usize, band_end(edges, i) as usize),
    )
}

/// The band holds at least one bin, and none outside 1 to [`MAX_BIN`].
pub open spec fn band_ok(band: (usize, usize)) -> bool {
    1 <= band.0 < band.1 <= MAX_BIN + 1
}

/// The greatest of [`PEAK_FLOOR`] and the magnitudes from bin `start` up to,
/// but not including, bin `end`.
pub open spec fn peak(magnitudes: Seq<u32>, start: int, end: int) -> u32
    decreases end - start,
{
    if end <= start {
        PEAK_FLOOR
    } else {
        single::larger(peak(magnitudes, start, end - 1), magnitudes[end - 1])
    }
}

fn clamp(value: usize, low: usize, high: usize) -> (r: usize)
    requires
        low <= high,
    ensures
        r == clamped(value as int, low as int, high as int),
{
    if value < low {
        low
    } else if value > high {
        high
    } else {
        value
    }
}

/// The bands between neighbouring edges.
pub fn bands_between(edges: &[usize]) -> (r: Vec<(usize, usize)>)
    requires
        edges@.len() >= 1,
    ensures
        r@ == band_ranges(edges@),
        forall|i: int| 0 <= i < r@.len() ==> band_ok(#[trigger] r@[i]),
{
    let count: usize = edges.len() - 1;
    let mut r: Vec<(usize, usize)> = Vec::new();
    let mut index: usize = 0;
    while index < count
        invariant
            edges@.len() == count + 1,
            index <= count,
            r@ == band_ranges(edges@).take(index as int),
            forall|i: int| 0 <= i < r@.len() ==> band_ok(#[trigger] r@[i]),
        decreases count - index,
    {
        let start: usize = clamp(edges[index], 1, MAX_BIN);
        let end: usize = if index + 1 == count {
            MAX_BIN + 1
        } else {
            clamp(edges[index + 1], start + 1, MAX_BIN + 1)
        };
        r.push((start, end));
        assert(r@ =~= band_ranges(edges@).take(index + 1));
        index = index + 1;
    }
    assert(band_ranges(edges@).take(count as int) =~= band_ranges(edges@));
    r
}

/// The greatest of the floor and the magnitudes in the band.
pub fn band_peak(magnitudes: &[u32; BIN_COUNT], band: (usize, usize)) -> (r: u32)
    requires
        band_ok(band),
    ensures
        r == peak(magnitudes@, band.0 as int, band.1 as int),
{
    let mut r: u32 = PEAK_FLOOR;
    let mut bin: usize = band.0;
    while bin < band.1
        invariant
            band_ok(band),
            band.0 <= bin <= band.1,
            r == peak(magnitudes@, band.0 as int, bin as int),
        decreases band.1 - bin,
    {
        r = single::max(r, magnitudes[bin]);
        bin = bin + 1;
    }
    r
}

/// Every band holds a bin and stays inside the spectrum, wherever the edges
/// fall.
pub proof fn lemma_bands_lie_in_the_spectrum(edges: Seq<usize>, index: int)
    requires
        0 <= index < edges.len() - 1,
    ensures
        band_ok(band_ranges(edges)[index]),
{
}

/// The bands leave no gap: each bin from the start of the first band to the
/// end of the spectrum lies in some band, wherever the edges fall.
pub proof fn lemma_bands_leave_no_gap(edges: Seq<usize>, bin: int)
    requires
        edges.len() >= 2,
        band_start(edges, 0) <= bin <= MAX_BIN,
    ensures
        exists|i: int|
            0 <= i < edges.len() - 1 && (#[trigger] band_ranges(edges)[i]).0 <= bin
                < band_ranges(edges)[i].1,
{
    lemma_gap_free_from(edges, bin, 0);
}

proof fn lemma_gap_free_from(edges: Seq<usize>, bin: int, first: int)
    requires
        0 <= first < edges.len() - 1,
        band_start(edges, first) <= bin <= MAX_BIN,
    ensures
        exists|i: int|
            0 <= i < edges.len() - 1 && (#[trigger] band_ranges(edges)[i]).0 <= bin
                < band_ranges(edges)[i].1,
    decreases edges.len() - first,
{
    let band = band_ranges(edges)[first];
    if bin < band.1 {
    } else {
        lemma_gap_free_from(edges, bin, first + 1);
    }
}

/// Where the edges do not fall, neither do the bands: none starts or ends
/// earlier than one before it. And neighbouring bands have at most one bin in
/// common.
pub proof fn lemma_bands_rise(edges: Seq<usize>, i: int, j: int)
    requires
        forall|a: int, b: int| 0 <= a <= b < edges.len() ==> edges[a] <= edges[b],
        0 <= i <= j < edges.len() - 1,
    ensures
        band_ranges(edges)[i].0 <= band_ranges(edges)[j].0,
        band_ranges(edges)[i].1 <= band_ranges(edges)[j].1,
        i < edges.len() - 2 ==> band_ranges(edges)[i].1 <= band_ranges(edges)[i + 1].0 + 1,
{
    if i < edges.len() - 2 {
        assert(edges[i] <= edges[i + 1]);
    }
}

/// The magnitudes, with 0 in the place of every one that is not a number.
pub open spec fn numbers_only(magnitudes: Seq<u32>) -> Seq<u32> {
    magnitudes.map_values(
        |magnitude: u32|
            if single::is_nan(magnitude) {
                0
            } else {
                magnitude
            },
    )
}

/// A magnitude that is not a number counts as none: a band's peak is what it
/// would be with 0 in its place.
pub proof fn lemma_peak_ignores_what_is_no_number(magnitudes: Seq<u32>, start: int, end: int)
    requires
        0 <= start,
        end <= magnitudes.len(),
    ensures
        peak(numbers_only(magnitudes), start, end) == peak(magnitudes, start, end),
    decreases end - start,
{
    if start < end {
        lemma_peak_ignores_what_is_no_number(magnitudes, start, end - 1);
        lemma_peak_is_greatest(magnitudes, start, end - 1);
    }
}

/// A peak is the floor or one of the band's magnitudes, it is a number, and
/// no magnitude of the band, nor the floor, is above it.
pub proof fn lemma_peak_is_greatest(magnitudes: Seq<u32>, start: int, end: int)
    requires
        0 <= start,
        end <= magnitudes.len(),
    ensures
        peak(magnitudes, start, end) == PEAK_FLOOR || exists|bin: int|
            start <= bin < end && peak(magnitudes, start, end) == #[trigger] magnitudes[bin],
        !single::is_nan(peak(magnitudes, start, end)),
        !single::above(PEAK_FLOOR, peak(magnitudes, start, end)),
        forall|bin: int|
            start <= bin < end ==> !single::above(
                #[trigger] magnitudes[bin],
                peak(magnitudes, start, end),
            ),
    decreases end - start,
{
    if start < end {
        lemma_peak_is_greatest(magnitudes, start, end - 1);
        assert(magnitudes[end - 1] == magnitudes[end - 1]);
    }
}

/// Only what lies outside the range is moved, and then to the nearer end.
pub proof fn lemma_clamped_moves_only_what_is_outside(value: int, low: int, high: int)
    requires
        low <= high,
    ensures
        low <= clamped(value, low, high) <= high,
        low <= value <= high ==> clamped(value, low, high) == value,
        value < low ==> clamped(value, low, high) == low,
        value > high ==> clamped(value, low, high) == high,
{
}

/// There is one band from each edge to the next. It starts at its edge, or at
/// the nearer of bins 1 and 1024; it ends before the next edge, but holds at
/// least one bin and none past 1024; and the last one ends with bin 1024.
pub proof fn lemma_bands_run_from_edge_to_edge(edges: Seq<usize>, i: int)
    requires
        0 <= i < edges.len() - 1,
    ensures
        band_ranges(edges).len() == edges.len() - 1,
        1 <= edges[i] <= 1024 ==> band_ranges(edges)[i].0 == edges[i],
        edges[i] < 1 ==> band_ranges(edges)[i].0 == 1,
        edges[i] > 1024 ==> band_ranges(edges)[i].0 == 1024,
        i == edges.len() - 2 ==> band_ranges(edges)[i].1 == 1025,
        i < edges.len() - 2 && band_ranges(edges)[i].0 < edges[i + 1] <= 1025 ==> band_ranges(
            edges,
        )[i].1 == edges[i + 1],
        i < edges.len() - 2 && edges[i + 1] <= band_ranges(edges)[i].0 ==> band_ranges(edges)[i].1
            == band_ranges(edges)[i].0 + 1,
        i < edges.len() - 2 && edges[i + 1] > 1025 ==> band_ranges(edges)[i].1 == 1025,
{
}

/// A band that may be used holds a bin and lies within bins 1 to 1024.
pub proof fn lemma_usable_band(band: (usize, usize))
    ensures
        band_ok(band) <==> 1 <= band.0 && band.0 < band.1 && band.1 <= 1025,
{
}

/// A peak is a number that is 0.000001 or one of the band's magnitudes, and
/// neither 0.000001 nor any magnitude from the first bin to the last is above
/// it.
pub proof fn lemma_no_bin_is_above_the_peak(magnitudes: Seq<u32>, start: int, end: int)
    requires
        0 <= start,
        end <= magnitudes.len(),
    ensures
        !single::is_nan(peak(magnitudes, start, end)),
        !single::above(0x3586_37bd, peak(magnitudes, start, end)),
        forall|bin: int|
            start <= bin < end ==> !single::above(
                #[trigger] magnitudes[bin],
                peak(magnitudes, start, end),
            ),
        peak(magnitudes, start, end) == 0x3586_37bd || exists|bin: int|
            start <= bin < end && peak(magnitudes, start, end) == #[trigger] magnitudes[bin],
{
    lemma_peak_is_greatest(magnitudes, start, end);
}

} // verus!
