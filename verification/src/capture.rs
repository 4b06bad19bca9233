//! The capture side: the history of mono samples, and the step from a
//! spectrum to smoothed bar levels.
//!
//! Magnitudes, levels and smoothing factors are single-precision numbers held
//! by their bit patterns. The arithmetic on them comes from the caller, as
//! functions; the order of the work, what each function is applied to, and
//! every comparison are decided here.

use vstd::prelude::*;

use crate::bands::{
    band_ok, band_peak, band_ranges, bands_between, peak, BIN_COUNT, FFT_SIZE,
};
use crate::settings::{EqualizerConfig, MAX_BAR_COUNT};
use crate::single;
use crate::spectrum::SharedSpectrum;

verus! {

/// The number of mono samples that are kept.
pub const MAX_HISTORY: usize = FFT_SIZE * 4;

/// The bit pattern of 20, in hertz.
pub const TWENTY: u32 = 0x41a0_0000;

/// The last `n` items of `s`, or all of them where there are fewer.
pub open spec fn last_items<S>(s: Seq<S>, n: int) -> Seq<S> {
    if s.len() > n {
        s.skip(s.len() - n)
    } else {
        s
    }
}

/// Frame `index` of interleaved `data`.
pub open spec fn frame_of<T>(data: Seq<T>, channels: int, index: int) -> Seq<T> {
    data.subrange(index * channels, index * channels + channels)
}

/// `partial` holds the sums of adding the items of `frame` to `zero` one by
/// one, from `zero` itself on.
pub open spec fn partial_sums<T, S, A: Fn(S, T) -> S>(
    accumulate: A,
    zero: S,
    frame: Seq<T>,
    partial: Seq<S>,
) -> bool {
    &&& partial.len() == frame.len() + 1
    &&& partial[0] == zero
    &&& forall|i: int|
        0 <= i < frame.len() ==> call_ensures(
            accumulate,
            (partial[i], #[trigger] frame[i]),
            partial[i + 1],
        )
}

/// `sum` is what adding the items of `frame` to `zero` one by one gives.
pub open spec fn sums_to<T, S, A: Fn(S, T) -> S>(
    accumulate: A,
    zero: S,
    frame: Seq<T>,
    sum: S,
) -> bool {
    exists|partial: Seq<S>| #[trigger]
        partial_sums(accumulate, zero, frame, partial) && partial.last() == sum
}

/// `sample` is the sum of `frame`, shared out over its channels.
pub open spec fn mixes_to<T, S, A: Fn(S, T) -> S, D: Fn(S, usize) -> S>(
    zero: S,
    accumulate: A,
    share: D,
    frame: Seq<T>,
    sample: S,
) -> bool {
    exists|sum: S| #[trigger]
        sums_to(accumulate, zero, frame, sum) && call_ensures(
            share,
            (sum, frame.len() as usize),
            sample,
        )
}

/// `mono` holds the mix of each whole frame of `data`, in order.
pub open spec fn mixed_down<T, S, A: Fn(S, T) -> S, D: Fn(S, usize) -> S>(
    zero: S,
    accumulate: A,
    share: D,
    data: Seq<T>,
    channels: int,
    mono: Seq<S>,
) -> bool {
    &&& mono.len() == data.len() as int / channels
    &&& forall|k: int|
        0 <= k < mono.len() ==> mixes_to(
            zero,
            accumulate,
            share,
            frame_of(data, channels, k),
            #[trigger] mono[k],
        )
}

/// `window` holds the weight of each place of an analysis.
pub open spec fn weights_of<S, W: Fn(usize) -> S>(weight: W, window: Seq<S>) -> bool {
    &&& window.len() == FFT_SIZE
    &&& forall|k: int|
        0 <= k < FFT_SIZE ==> call_ensures(weight, (k as usize,), #[trigger] window[k])
}

/// The frequencies that the bands span at a sample rate whose highest
/// frequency is `highest`: the configured ones, but the lower one is below
/// `highest` by at least one, and then not below 20; and the upper one is not
/// above `highest`, and then above the lower one by at least one.
pub open spec fn spans<M: Fn(u32, u32) -> u32>(
    minus: M,
    highest: u32,
    min_frequency: u32,
    max_frequency: u32,
    min_hz: u32,
    max_hz: u32,
) -> bool {
    exists|most: u32, least: u32|
        #![trigger call_ensures(minus, (highest, single::ONE), most), call_ensures(
            minus,
            (min_hz, single::MINUS_ONE),
            least,
        )]
        {
            &&& call_ensures(minus, (highest, single::ONE), most)
            &&& call_ensures(minus, (min_hz, single::MINUS_ONE), least)
            &&& min_hz == single::larger(single::smaller(min_frequency, most), TWENTY)
            &&& max_hz == single::larger(single::smaller(max_frequency, highest), least)
        }
}

/// `edges` holds the bin of each edge of the bands that span these
/// frequencies, from the start of the first band to the end of the last.
pub open spec fn edges_between<E: Fn(u32, u32, usize, usize, u32) -> usize>(
    edge_bin: E,
    min_hz: u32,
    max_hz: u32,
    count: int,
    rate: u32,
    edges: Seq<usize>,
) -> bool {
    &&& edges.len() == count + 1
    &&& forall|i: int|
        0 <= i <= count ==> call_ensures(
            edge_bin,
            (min_hz, max_hz, i as usize, count as usize, rate),
            #[trigger] edges[i],
        )
}

/// `edges` holds the bin of each band edge at a sample rate; a rate of 0
/// counts as 1.
pub open spec fn edges_of<
    H: Fn(u32) -> u32,
    M: Fn(u32, u32) -> u32,
    E: Fn(u32, u32, usize, usize, u32) -> usize,
>(
    nyquist: H,
    minus: M,
    edge_bin: E,
    frequencies: (u32, u32),
    count: int,
    sample_rate: u32,
    edges: Seq<usize>,
) -> bool {
    exists|highest: u32, min_hz: u32, max_hz: u32|
        #![trigger call_ensures(nyquist, (at_least_one(sample_rate),), highest), edges_between(
            edge_bin,
            min_hz,
            max_hz,
            count,
            at_least_one(sample_rate),
            edges,
        )]
        {
            &&& call_ensures(nyquist, (at_least_one(sample_rate),), highest)
            &&& spans(minus, highest, frequencies.0, frequencies.1, min_hz, max_hz)
            &&& edges_between(edge_bin, min_hz, max_hz, count, at_least_one(sample_rate), edges)
        }
}

/// `n`, or 1 where it is 0.
pub open spec fn at_least_one(n: u32) -> u32 {
    if n == 0 {
        1
    } else {
        n
    }
}

/// `weighed` holds what `weigh` gives for each of the last [`FFT_SIZE`]
/// samples and the weight at the same place of the window.
pub open spec fn weighed_with<S, C, W: Fn(S, S) -> C>(
    weigh: W,
    samples: Seq<S>,
    window: Seq<S>,
    weighed: Seq<C>,
) -> bool {
    &&& weighed.len() == FFT_SIZE
    &&& forall|k: int|
        0 <= k < FFT_SIZE ==> call_ensures(
            weigh,
            (last_items(samples, FFT_SIZE as int)[k], window[k]),
            #[trigger] weighed[k],
        )
}

/// One bar's step: the peak is placed between the lowest and the highest
/// loudness, from 0 to 1; the smoothed level moves towards that by the rising
/// or the falling factor; and the bar gets the result.
pub open spec fn bar_step<
    N: Fn(u32, u32, u32) -> u32,
    B: Fn(u32, u32, u32) -> u32,
    Q: Fn(u32) -> u8,
>(
    normalize: N,
    blend: B,
    quantize: Q,
    smoothing: Smoothing,
    highest: u32,
    min_db: u32,
    db_span: u32,
    before: u32,
    after: u32,
    bar: u8,
) -> bool {
    exists|share: u32|
        #![trigger call_ensures(normalize, (highest, min_db, db_span), share)]
        {
            let level = single::limited(share, 0, single::ONE);
            &&& call_ensures(normalize, (highest, min_db, db_span), share)
            &&& call_ensures(blend, (before, level, smoothing.factor(level, before)), after)
            &&& call_ensures(quantize, (after,), bar)
        }
}

/// How fast a bar follows its level, upwards and downwards, as bit patterns.
#[derive(Clone, Copy)]
pub struct Smoothing {
    pub rise: u32,
    pub fall: u32,
}

impl Smoothing {
    /// The rising factor where the level is above the smoothed one, and the
    /// falling factor otherwise.
    pub open spec fn factor(self, level: u32, smoothed: u32) -> u32 {
        if single::above(level, smoothed) {
            self.rise
        } else {
            self.fall
        }
    }
}

/// What the capture thread keeps between two blocks of samples.
pub struct CaptureState<S> {
    pub channels: usize,
    pub window: Vec<S>,
    pub samples: Vec<S>,
    pub band_ranges: Vec<(usize, usize)>,
    pub smoothed: Vec<u32>,
    pub min_frequency: u32,
    pub max_frequency: u32,
    pub min_db: u32,
    pub max_db: u32,
    pub smoothing: Smoothing,
    pub shared: SharedSpectrum,
}

impl<S: Copy> CaptureState<S> {
    /// There is at least one channel, the window covers one analysis, the
    /// history is within its bound, and every band lies inside the spectrum
    /// and has a smoothed level and a bar.
    pub open spec fn wf(&self) -> bool {
        &&& self.channels >= 1
        &&& self.window@.len() == FFT_SIZE
        &&& self.samples@.len() <= MAX_HISTORY
        &&& self.band_ranges@.len() <= MAX_BAR_COUNT
        &&& self.smoothed@.len() == self.band_ranges@.len()
        &&& self.shared.bars@.len() >= self.band_ranges@.len()
        &&& forall|i: int|
            0 <= i < self.band_ranges@.len() ==> band_ok(#[trigger] self.band_ranges@[i])
    }

    /// What `other` was configured with is what this was configured with.
    pub open spec fn configured_as(&self, other: &CaptureState<S>) -> bool {
        &&& self.channels == other.channels
        &&& self.window@ == other.window@
        &&& self.min_frequency == other.min_frequency
        &&& self.max_frequency == other.max_frequency
        &&& self.min_db == other.min_db
        &&& self.max_db == other.max_db
        &&& self.smoothing == other.smoothing
    }

    /// A state without samples for a stream of this rate and so many channels;
    /// a stream of no channels counts as one channel. Its bars are the given
    /// ones, as they are. `weight` is the window's weight at a place; the other
    /// functions are those of [`CaptureState::rebuild_bands`].
    pub fn new<
        W: Fn(usize) -> S,
        H: Fn(u32) -> u32,
        M: Fn(u32, u32) -> u32,
        E: Fn(u32, u32, usize, usize, u32) -> usize,
    >(
        shared: SharedSpectrum,
        config: &EqualizerConfig,
        sample_rate: u32,
        channels: usize,
        weight: W,
        nyquist: H,
        minus: M,
        edge_bin: E,
    ) -> (r: CaptureState<S>)
        requires
            config.bar_count <= MAX_BAR_COUNT,
            shared.bars@.len() >= config.bar_count,
            forall|place: usize| place < FFT_SIZE ==> #[trigger] call_requires(weight, (place,)),
            forall|rate: u32| 1 <= rate ==> #[trigger] call_requires(nyquist, (rate,)),
            forall|a: u32, b: u32| #[trigger] call_requires(minus, (a, b)),
            forall|min_hz: u32, max_hz: u32, index: usize, count: usize, rate: u32|
                index <= count && 1 <= rate ==> #[trigger] call_requires(
                    edge_bin,
                    (min_hz, max_hz, index, count, rate),
                ),
        ensures
            r.wf(),
            created(
                shared,
                *config,
                sample_rate,
                channels,
                weight,
                nyquist,
                minus,
                edge_bin,
                r,
            ),
    {
        let mut window: Vec<S> = Vec::with_capacity(FFT_SIZE);
        while window.len() < FFT_SIZE
            invariant
                window@.len() <= FFT_SIZE,
                forall|place: usize|
                    place < FFT_SIZE ==> #[trigger] call_requires(weight, (place,)),
                forall|k: int|
                    0 <= k < window@.len() ==> call_ensures(
                        weight,
                        (k as usize,),
                        #[trigger] window@[k],
                    ),
            decreases FFT_SIZE - window@.len(),
        {
            let value: S = weight(window.len());
            window.push(value);
        }
        let mut smoothed: Vec<u32> = Vec::new();
        while smoothed.len() < config.bar_count
            invariant
                smoothed@.len() <= config.bar_count,
                forall|i: int| 0 <= i < smoothed@.len() ==> smoothed@[i] == 0,
            decreases config.bar_count - smoothed@.len(),
        {
            smoothed.push(0);
        }
        assert(smoothed@ =~= Seq::new(config.bar_count as nat, |i: int| 0u32));
        let mut band_ranges: Vec<(usize, usize)> = Vec::new();
        while band_ranges.len() < config.bar_count
            invariant
                band_ranges@.len() <= config.bar_count,
                forall|i: int| 0 <= i < band_ranges@.len() ==> band_ok(#[trigger] band_ranges@[i]),
            decreases config.bar_count - band_ranges@.len(),
        {
            band_ranges.push((1, 2));
        }
        let mut state: CaptureState<S> = CaptureState {
            channels: if channels == 0 {
                1
            } else {
                channels
            },
            window,
            samples: Vec::with_capacity(MAX_HISTORY),
            band_ranges,
            smoothed,
            min_frequency: config.min_frequency,
            max_frequency: config.max_frequency,
            min_db: config.min_db,
            max_db: config.max_db,
            smoothing: Smoothing { rise: config.rise_smoothing, fall: config.fall_smoothing },
            shared,
        };
        state.rebuild_bands(sample_rate, nyquist, minus, edge_bin);
        state
    }

    /// Lays the bands out for another sample rate. Nothing else changes.
    /// `nyquist` is half a sample rate, `minus` the difference of two numbers,
    /// and `edge_bin` the bin of a band edge: of the bands between two
    /// frequencies, the edge at an index out of so many bands, at a sample
    /// rate.
    pub fn rebuild_bands<
        H: Fn(u32) -> u32,
        M: Fn(u32, u32) -> u32,
        E: Fn(u32, u32, usize, usize, u32) -> usize,
    >(&mut self, sample_rate: u32, nyquist: H, minus: M, edge_bin: E)
        requires
            old(self).wf(),
            forall|rate: u32| 1 <= rate ==> #[trigger] call_requires(nyquist, (rate,)),
            forall|a: u32, b: u32| #[trigger] call_requires(minus, (a, b)),
            forall|min_hz: u32, max_hz: u32, index: usize, count: usize, rate: u32|
                index <= count && 1 <= rate ==> #[trigger] call_requires(
                    edge_bin,
                    (min_hz, max_hz, index, count, rate),
                ),
        ensures
            final(self).wf(),
            rebuilt(*old(self), sample_rate, nyquist, minus, edge_bin, *final(self)),
    {
        let rate: u32 = if sample_rate == 0 {
            1
        } else {
            sample_rate
        };
        let highest: u32 = nyquist(rate);
        let most: u32 = minus(highest, single::ONE);
        let min_hz: u32 = single::max(single::min(self.min_frequency, most), TWENTY);
        let least: u32 = minus(min_hz, single::MINUS_ONE);
        let max_hz: u32 = single::max(single::min(self.max_frequency, highest), least);
        let edges: Vec<usize> = edge_bins(
            min_hz,
            max_hz,
            self.band_ranges.len(),
            rate,
            &edge_bin,
        );
        assert(spans(
            minus,
            highest,
            self.min_frequency,
            self.max_frequency,
            min_hz,
            max_hz,
        ));
        assert(call_ensures(nyquist, (at_least_one(sample_rate),), highest));
        assert(edges_between(
            edge_bin,
            min_hz,
            max_hz,
            self.band_ranges@.len() as int,
            at_least_one(sample_rate),
            edges@,
        ));
        assert(edges_of(
            nyquist,
            minus,
            edge_bin,
            (self.min_frequency, self.max_frequency),
            self.band_ranges@.len() as int,
            sample_rate,
            edges@,
        ));
        self.band_ranges = bands_between(edges.as_slice());
    }

    /// Mixes every whole frame of the interleaved `data` down to one sample,
    /// appends these to the history and keeps the last [`MAX_HISTORY`]. What
    /// is left over after the last whole frame is dropped. A frame is mixed by
    /// adding its items to `zero` in order and sharing the sum out over the
    /// channels.
    pub fn push_samples<T, A: Fn(S, T) -> S, D: Fn(S, usize) -> S>(
        &mut self,
        data: &[T],
        zero: S,
        accumulate: A,
        share: D,
    ) where T: Copy
        requires
            old(self).wf(),
            forall|sum: S, item: T| #[trigger] call_requires(accumulate, (sum, item)),
            forall|sum: S, channels: usize|
                channels >= 1 ==> #[trigger] call_requires(share, (sum, channels)),
        ensures
            final(self).wf(),
            pushed(*old(self), data@, zero, accumulate, share, *final(self)),
    {
        let frames: usize = data.len() / self.channels;
        let ghost mut mono: Seq<S> = Seq::empty();
        let ghost channels = self.channels as int;
        let mut index: usize = 0;
        let mut offset: usize = 0;
        while index < frames
            invariant
                self.channels >= 1,
                channels == self.channels,
                frames == data.len() as int / channels,
                index <= frames,
                offset == index * channels,
                forall|sum: S, item: T| #[trigger] call_requires(accumulate, (sum, item)),
                forall|sum: S, channels: usize|
                    channels >= 1 ==> #[trigger] call_requires(share, (sum, channels)),
                mono.len() == index,
                forall|k: int|
                    0 <= k < mono.len() ==> mixes_to(
                        zero,
                        accumulate,
                        share,
                        frame_of(data@, channels, k),
                        #[trigger] mono[k],
                    ),
                self.samples@ == old(self).samples@ + mono,
                self.configured_as(old(self)),
                self.band_ranges == old(self).band_ranges,
                self.smoothed == old(self).smoothed,
                self.shared == old(self).shared,
            decreases frames - index,
        {
            proof {
                lemma_frame_in_bounds(data@.len() as int, channels, index as int);
            }
            let frame: &[T] = vstd::slice::slice_subrange(data, offset, offset + self.channels);
            let sum: S = frame_sum(frame, zero, &accumulate);
            let sample: S = share(sum, self.channels);
            self.samples.push(sample);
            proof {
                assert(sums_to(accumulate, zero, frame_of(data@, channels, index as int), sum));
                assert(mixes_to(
                    zero,
                    accumulate,
                    share,
                    frame_of(data@, channels, index as int),
                    sample,
                ));
                mono = mono.push(sample);
                assert(self.samples@ =~= old(self).samples@ + mono);
            }
            index = index + 1;
            offset = offset + self.channels;
        }
        assert(mixed_down(zero, accumulate, share, data@, channels, mono));
        if self.samples.len() > MAX_HISTORY {
            let overflow: usize = self.samples.len() - MAX_HISTORY;
            let kept: Vec<S> = self.samples.split_off(overflow);
            self.samples = kept;
        }
        assert(self.samples@ =~= last_items(old(self).samples@ + mono, MAX_HISTORY as int));
    }

    /// The last [`FFT_SIZE`] samples, each weighed by its place in the window.
    fn weighed<C, W: Fn(S, S) -> C>(&self, weigh: &W) -> (r: Vec<C>)
        requires
            self.wf(),
            self.samples@.len() >= FFT_SIZE,
            forall|sample: S, weight: S| #[trigger] call_requires(*weigh, (sample, weight)),
        ensures
            weighed_with(*weigh, self.samples@, self.window@, r@),
    {
        let start: usize = self.samples.len() - FFT_SIZE;
        let mut r: Vec<C> = Vec::with_capacity(FFT_SIZE);
        let mut k: usize = 0;
        while k < FFT_SIZE
            invariant
                self.wf(),
                start + FFT_SIZE == self.samples@.len(),
                k <= FFT_SIZE,
                forall|sample: S, weight: S| #[trigger] call_requires(*weigh, (sample, weight)),
                r@.len() == k,
                forall|j: int|
                    0 <= j < k ==> call_ensures(
                        *weigh,
                        (last_items(self.samples@, FFT_SIZE as int)[j], self.window@[j]),
                        #[trigger] r@[j],
                    ),
            decreases FFT_SIZE - k,
        {
            let value: C = weigh(self.samples[start + k], self.window[k]);
            r.push(value);
            k = k + 1;
        }
        r
    }

    /// Once the history covers an analysis, weighs its last [`FFT_SIZE`]
    /// samples, takes their spectrum and moves every bar towards the peak of
    /// its band; the spectrum is active from then on. Before that, nothing
    /// changes.
    ///
    /// `weigh` applies a weight to a sample, `transform` gives the magnitudes
    /// of the spectrum, `minus` the difference of two numbers, `normalize` the
    /// place of a peak above the lowest loudness as a share of the span,
    /// `blend` moves a smoothed level towards another by a factor, and
    /// `quantize` turns a smoothed level into that of a bar.
    pub fn analyze<C, W, F, M, N, B, Q>(
        &mut self,
        weigh: W,
        transform: F,
        minus: M,
        normalize: N,
        blend: B,
        quantize: Q,
    ) where
        W: Fn(S, S) -> C,
        F: FnOnce(Vec<C>) -> [u32; BIN_COUNT],
        M: Fn(u32, u32) -> u32,
        N: Fn(u32, u32, u32) -> u32,
        B: Fn(u32, u32, u32) -> u32,
        Q: Fn(u32) -> u8,

        requires
            old(self).wf(),
            forall|sample: S, weight: S| #[trigger] call_requires(weigh, (sample, weight)),
            forall|weighed: Vec<C>|
                weighed@.len() == FFT_SIZE ==> #[trigger] call_requires(transform, (weighed,)),
            forall|a: u32, b: u32| #[trigger] call_requires(minus, (a, b)),
            forall|highest: u32, min_db: u32, db_span: u32| #[trigger]
                call_requires(normalize, (highest, min_db, db_span)),
            forall|before: u32, level: u32, factor: u32| #[trigger]
                call_requires(blend, (before, level, factor)),
            forall|level: u32| #[trigger] call_requires(quantize, (level,)),
        ensures
            final(self).wf(),
            analyzed(
                *old(self),
                weigh,
                transform,
                minus,
                normalize,
                blend,
                quantize,
                *final(self),
            ),
    {
        if self.samples.len() < FFT_SIZE {
            return;
        }
        let weighed: Vec<C> = self.weighed(&weigh);
        let ghost input = weighed;
        let magnitudes: [u32; BIN_COUNT] = transform(weighed);
        let difference: u32 = minus(self.max_db, self.min_db);
        let db_span: u32 = single::max(difference, single::ONE);
        let mut index: usize = 0;
        while index < self.band_ranges.len()
            invariant
                self.wf(),
                self.configured_as(old(self)),
                self.samples == old(self).samples,
                self.band_ranges == old(self).band_ranges,
                self.smoothed@.len() == old(self).smoothed@.len(),
                self.shared.bars@.len() == old(self).shared.bars@.len(),
                forall|i: int|
                    old(self).band_ranges@.len() <= i < old(self).shared.bars@.len()
                        ==> self.shared.bars@[i] == old(self).shared.bars@[i],
                index <= self.band_ranges@.len(),
                forall|highest: u32, min_db: u32, db_span: u32| #[trigger]
                    call_requires(normalize, (highest, min_db, db_span)),
                forall|before: u32, level: u32, factor: u32| #[trigger]
                    call_requires(blend, (before, level, factor)),
                forall|level: u32| #[trigger] call_requires(quantize, (level,)),
                forall|i: int|
                    index <= i < old(self).band_ranges@.len() ==> self.smoothed@[i]
                        == old(self).smoothed@[i],
                forall|i: int|
                    0 <= i < index ==> bar_step(
                        normalize,
                        blend,
                        quantize,
                        old(self).smoothing,
                        peak(
                            magnitudes@,
                            old(self).band_ranges@[i].0 as int,
                            old(self).band_ranges@[i].1 as int,
                        ),
                        old(self).min_db,
                        db_span,
                        old(self).smoothed@[i],
                        #[trigger] self.smoothed@[i],
                        self.shared.bars@[i],
                    ),
            decreases self.band_ranges@.len() - index,
        {
            let highest: u32 = band_peak(&magnitudes, self.band_ranges[index]);
            let share: u32 = normalize(highest, self.min_db, db_span);
            let level: u32 = single::clamp(share, 0, single::ONE);
            let before: u32 = self.smoothed[index];
            let factor: u32 = if single::is_above(level, before) {
                self.smoothing.rise
            } else {
                self.smoothing.fall
            };
            let after: u32 = blend(before, level, factor);
            let bar: u8 = quantize(after);
            self.smoothed[index] = after;
            self.shared.bars[index] = bar;
            assert(bar_step(
                normalize,
                blend,
                quantize,
                old(self).smoothing,
                highest,
                old(self).min_db,
                db_span,
                before,
                after,
                bar,
            ));
            index = index + 1;
        }
        self.shared.active = true;
        assert(call_ensures(transform, (input,), magnitudes));
        assert(call_ensures(minus, (old(self).max_db, old(self).min_db), difference));
    }

    /// Takes in a block of captured samples: pushes it onto the history, as
    /// [`CaptureState::push_samples`] does, and then analyses the history with
    /// that block in it, as [`CaptureState::analyze`] does.
    pub fn take_block<T, A, D, C, W, F, M, N, B, Q>(
        &mut self,
        data: &[T],
        zero: S,
        accumulate: A,
        share: D,
        weigh: W,
        transform: F,
        minus: M,
        normalize: N,
        blend: B,
        quantize: Q,
    ) where
        T: Copy,
        A: Fn(S, T) -> S,
        D: Fn(S, usize) -> S,
        W: Fn(S, S) -> C,
        F: FnOnce(Vec<C>) -> [u32; BIN_COUNT],
        M: Fn(u32, u32) -> u32,
        N: Fn(u32, u32, u32) -> u32,
        B: Fn(u32, u32, u32) -> u32,
        Q: Fn(u32) -> u8,

        requires
            old(self).wf(),
            forall|sum: S, item: T| #[trigger] call_requires(accumulate, (sum, item)),
            forall|sum: S, channels: usize|
                channels >= 1 ==> #[trigger] call_requires(share, (sum, channels)),
            forall|sample: S, weight: S| #[trigger] call_requires(weigh, (sample, weight)),
            forall|weighed: Vec<C>|
                weighed@.len() == FFT_SIZE ==> #[trigger] call_requires(transform, (weighed,)),
            forall|a: u32, b: u32| #[trigger] call_requires(minus, (a, b)),
            forall|highest: u32, min_db: u32, db_span: u32| #[trigger]
                call_requires(normalize, (highest, min_db, db_span)),
            forall|before: u32, level: u32, factor: u32| #[trigger]
                call_requires(blend, (before, level, factor)),
            forall|level: u32| #[trigger] call_requires(quantize, (level,)),
        ensures
            final(self).wf(),
            exists|heard: CaptureState<S>|
                #[trigger] pushed(*old(self), data@, zero, accumulate, share, heard)
                    && heard.wf() && analyzed(
                    heard,
                    weigh,
                    transform,
                    minus,
                    normalize,
                    blend,
                    quantize,
                    *final(self),
                ),
    {
        self.push_samples(data, zero, accumulate, share);
        let ghost heard = *self;
        self.analyze(weigh, transform, minus, normalize, blend, quantize);
        assert(pushed(*old(self), data@, zero, accumulate, share, heard));
    }
}

/// `r` is a new state: without samples, its smoothed levels at 0, with these
/// bars, this configuration, and the bands of this sample rate.
pub open spec fn created<
    S: Copy,
    W: Fn(usize) -> S,
    H: Fn(u32) -> u32,
    M: Fn(u32, u32) -> u32,
    E: Fn(u32, u32, usize, usize, u32) -> usize,
>(
    shared: SharedSpectrum,
    config: EqualizerConfig,
    sample_rate: u32,
    channels: usize,
    weight: W,
    nyquist: H,
    minus: M,
    edge_bin: E,
    r: CaptureState<S>,
) -> bool {
    &&& r.shared == shared
    &&& r.channels == if channels == 0 {
        1
    } else {
        channels
    }
    &&& weights_of(weight, r.window@)
    &&& r.samples@ == Seq::<S>::empty()
    &&& exists|edges: Seq<usize>|
        #[trigger] edges_of(
            nyquist,
            minus,
            edge_bin,
            (config.min_frequency, config.max_frequency),
            config.bar_count as int,
            sample_rate,
            edges,
        ) && r.band_ranges@ == band_ranges(edges)
    &&& r.smoothed@ == Seq::new(config.bar_count as nat, |i: int| 0u32)
    &&& r.min_frequency == config.min_frequency
    &&& r.max_frequency == config.max_frequency
    &&& r.min_db == config.min_db
    &&& r.max_db == config.max_db
    &&& r.smoothing == (Smoothing { rise: config.rise_smoothing, fall: config.fall_smoothing })
}

/// `after` is `before` with the bands of this sample rate.
pub open spec fn rebuilt<
    S: Copy,
    H: Fn(u32) -> u32,
    M: Fn(u32, u32) -> u32,
    E: Fn(u32, u32, usize, usize, u32) -> usize,
>(
    before: CaptureState<S>,
    sample_rate: u32,
    nyquist: H,
    minus: M,
    edge_bin: E,
    after: CaptureState<S>,
) -> bool {
    &&& exists|edges: Seq<usize>|
        #[trigger] edges_of(
            nyquist,
            minus,
            edge_bin,
            (before.min_frequency, before.max_frequency),
            before.band_ranges@.len() as int,
            sample_rate,
            edges,
        ) && after.band_ranges@ == band_ranges(edges)
    &&& after.configured_as(&before)
    &&& after.samples == before.samples
    &&& after.smoothed == before.smoothed
    &&& after.shared == before.shared
}

/// `after` is `before` with the mix of `data` at the end of its history.
pub open spec fn pushed<T, S: Copy, A: Fn(S, T) -> S, D: Fn(S, usize) -> S>(
    before: CaptureState<S>,
    data: Seq<T>,
    zero: S,
    accumulate: A,
    share: D,
    after: CaptureState<S>,
) -> bool {
    &&& exists|mono: Seq<S>|
        #[trigger] mixed_down(zero, accumulate, share, data, before.channels as int, mono)
            && after.samples@ == last_items(before.samples@ + mono, MAX_HISTORY as int)
    &&& after.configured_as(&before)
    &&& after.band_ranges == before.band_ranges
    &&& after.smoothed == before.smoothed
    &&& after.shared == before.shared
}

/// `after` is `before` itself where the history does not cover an analysis;
/// where it does, `after` is `before` with every band's smoothed level and bar
/// moved towards the peak of the band, and the spectrum active. A bar that no
/// band belongs to stays.
pub open spec fn analyzed<
    S: Copy,
    C,
    W: Fn(S, S) -> C,
    F: FnOnce(Vec<C>) -> [u32; BIN_COUNT],
    M: Fn(u32, u32) -> u32,
    N: Fn(u32, u32, u32) -> u32,
    B: Fn(u32, u32, u32) -> u32,
    Q: Fn(u32) -> u8,
>(
    before: CaptureState<S>,
    weigh: W,
    transform: F,
    minus: M,
    normalize: N,
    blend: B,
    quantize: Q,
    after: CaptureState<S>,
) -> bool {
    &&& after.configured_as(&before)
    &&& after.samples == before.samples
    &&& after.band_ranges == before.band_ranges
    &&& if before.samples@.len() < FFT_SIZE {
        &&& after.smoothed == before.smoothed
        &&& after.shared == before.shared
    } else {
        &&& after.shared.active
        &&& after.smoothed@.len() == before.smoothed@.len()
        &&& after.shared.bars@.len() == before.shared.bars@.len()
        &&& forall|i: int|
            before.band_ranges@.len() <= i < before.shared.bars@.len()
                ==> #[trigger] after.shared.bars@[i] == before.shared.bars@[i]
        &&& exists|weighed: Vec<C>, magnitudes: [u32; BIN_COUNT], difference: u32|
            weighed_with(weigh, before.samples@, before.window@, weighed@)
                && #[trigger] call_ensures(transform, (weighed,), magnitudes)
                && #[trigger] call_ensures(minus, (before.max_db, before.min_db), difference)
                && bars_moved(
                before,
                normalize,
                blend,
                quantize,
                magnitudes@,
                single::larger(difference, single::ONE),
                after,
            )
    }
}

/// Every band's smoothed level and bar made one step from `before` to `after`,
/// on these magnitudes and this span of loudness.
pub open spec fn bars_moved<
    S: Copy,
    N: Fn(u32, u32, u32) -> u32,
    B: Fn(u32, u32, u32) -> u32,
    Q: Fn(u32) -> u8,
>(
    before: CaptureState<S>,
    normalize: N,
    blend: B,
    quantize: Q,
    magnitudes: Seq<u32>,
    db_span: u32,
    after: CaptureState<S>,
) -> bool {
    forall|i: int|
        0 <= i < before.band_ranges@.len() ==> bar_step(
            normalize,
            blend,
            quantize,
            before.smoothing,
            peak(
                magnitudes,
                before.band_ranges@[i].0 as int,
                before.band_ranges@[i].1 as int,
            ),
            before.min_db,
            db_span,
            before.smoothed@[i],
            #[trigger] after.smoothed@[i],
            after.shared.bars@[i],
        )
}

/// The items of `frame` added to `zero`, in order.
fn frame_sum<T: Copy, S: Copy, A: Fn(S, T) -> S>(frame: &[T], zero: S, accumulate: &A) -> (r: S)
    requires
        forall|sum: S, item: T| #[trigger] call_requires(*accumulate, (sum, item)),
    ensures
        sums_to(*accumulate, zero, frame@, r),
{
    let mut sum: S = zero;
    let ghost mut partial: Seq<S> = seq![zero];
    let mut i: usize = 0;
    while i < frame.len()
        invariant
            i <= frame@.len(),
            forall|sum: S, item: T| #[trigger] call_requires(*accumulate, (sum, item)),
            partial.len() == i + 1,
            partial[0] == zero,
            partial.last() == sum,
            forall|j: int|
                0 <= j < i ==> call_ensures(
                    *accumulate,
                    (partial[j], #[trigger] frame@[j]),
                    partial[j + 1],
                ),
        decreases frame@.len() - i,
    {
        sum = accumulate(sum, frame[i]);
        proof {
            partial = partial.push(sum);
        }
        i = i + 1;
    }
    assert(partial_sums(*accumulate, zero, frame@, partial));
    sum
}

/// The bin of each band edge.
fn edge_bins<E: Fn(u32, u32, usize, usize, u32) -> usize>(
    min_hz: u32,
    max_hz: u32,
    count: usize,
    rate: u32,
    edge_bin: &E,
) -> (r: Vec<usize>)
    requires
        count <= MAX_BAR_COUNT,
        forall|index: usize|
            index <= count ==> #[trigger] call_requires(
                *edge_bin,
                (min_hz, max_hz, index, count, rate),
            ),
    ensures
        edges_between(*edge_bin, min_hz, max_hz, count as int, rate, r@),
{
    let mut r: Vec<usize> = Vec::new();
    let mut index: usize = 0;
    while index <= count
        invariant
            count <= MAX_BAR_COUNT,
            index <= count + 1,
            r@.len() == index,
            forall|index: usize|
                index <= count ==> #[trigger] call_requires(
                    *edge_bin,
                    (min_hz, max_hz, index, count, rate),
                ),
            forall|i: int|
                0 <= i < index ==> call_ensures(
                    *edge_bin,
                    (min_hz, max_hz, i as usize, count as usize, rate),
                    #[trigger] r@[i],
                ),
        decreases count + 1 - index,
    {
        let bin: usize = edge_bin(min_hz, max_hz, index, count, rate);
        r.push(bin);
        index = index + 1;
    }
    r
}

/// Trimming after each block keeps what trimming once at the end would keep.
pub proof fn lemma_trimming_block_by_block<S>(start: Seq<S>, a: Seq<S>, b: Seq<S>, n: int)
    requires
        n >= 0,
    ensures
        last_items(last_items(start + a, n) + b, n) == last_items(start + (a + b), n),
{
    assert(last_items(last_items(start + a, n) + b, n) =~= last_items(start + (a + b), n));
}

/// The analysis sees the end of everything that was captured: the bound on the
/// history never hides a sample from it.
pub proof fn lemma_history_keeps_the_analysed_samples<S>(captured: Seq<S>)
    ensures
        last_items(last_items(captured, MAX_HISTORY as int), FFT_SIZE as int) == last_items(
            captured,
            FFT_SIZE as int,
        ),
{
    assert(last_items(last_items(captured, MAX_HISTORY as int), FFT_SIZE as int) =~= last_items(
        captured,
        FFT_SIZE as int,
    ));
}

/// Where a block ends on a whole frame, mixing it and the next block one after
/// the other gives what mixing both at once gives.
pub proof fn lemma_blocks_mix_as_one<T, S, A: Fn(S, T) -> S, D: Fn(S, usize) -> S>(
    zero: S,
    accumulate: A,
    share: D,
    a: Seq<T>,
    b: Seq<T>,
    channels: int,
    mono_a: Seq<S>,
    mono_b: Seq<S>,
)
    requires
        channels >= 1,
        a.len() as int % channels == 0,
        mixed_down(zero, accumulate, share, a, channels, mono_a),
        mixed_down(zero, accumulate, share, b, channels, mono_b),
    ensures
        mixed_down(zero, accumulate, share, a + b, channels, mono_a + mono_b),
{
    let frames = a.len() as int / channels;
    vstd::arithmetic::div_mod::lemma_fundamental_div_mod(a.len() as int, channels);
    assert(a.len() == frames * channels) by {
        vstd::arithmetic::mul::lemma_mul_is_commutative(frames, channels);
    }
    vstd::arithmetic::div_mod::lemma_hoist_over_denominator(
        b.len() as int,
        frames,
        channels as nat,
    );
    assert(mono_a.len() + mono_b.len() == (a + b).len() as int / channels);
    assert forall|k: int| 0 <= k < (mono_a + mono_b).len() implies mixes_to(
        zero,
        accumulate,
        share,
        frame_of(a + b, channels, k),
        #[trigger] (mono_a + mono_b)[k],
    ) by {
        if k < mono_a.len() {
            lemma_frame_in_bounds(a.len() as int, channels, k);
            assert(0 <= k * channels) by (nonlinear_arith)
                requires
                    0 <= k,
                    1 <= channels,
            ;
            assert(frame_of(a + b, channels, k) =~= frame_of(a, channels, k));
            assert(mixes_to(zero, accumulate, share, frame_of(a, channels, k), mono_a[k]));
        } else {
            let j = k - mono_a.len();
            lemma_frame_in_bounds(b.len() as int, channels, j);
            assert(0 <= j * channels) by (nonlinear_arith)
                requires
                    0 <= j,
                    1 <= channels,
            ;
            assert(k * channels == frames * channels + j * channels) by (nonlinear_arith)
                requires
                    k == frames + j,
            ;
            assert(frame_of(a + b, channels, k) =~= frame_of(b, channels, j));
            assert(mixes_to(zero, accumulate, share, frame_of(b, channels, j), mono_b[j]));
        }
    }
}

/// A whole frame lies within the data.
pub proof fn lemma_frame_in_bounds(len: int, channels: int, index: int)
    requires
        channels >= 1,
        0 <= index < len / channels,
    ensures
        index * channels + channels <= len,
        (index + 1) * channels == index * channels + channels,
{
    assert(index * channels + channels <= len) by (nonlinear_arith)
        requires
            channels >= 1,
            0 <= index < len / channels,
    ;
    assert((index + 1) * channels == index * channels + channels) by (nonlinear_arith);
}

} // verus!
