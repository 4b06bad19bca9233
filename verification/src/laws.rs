//! What holds of the capture state over one call and over several, whatever
//! arithmetic it is given; where two calls are compared, as far as that
//! arithmetic gives one result for one input.

use vstd::prelude::*;

use crate::bands::{
    band_ranges, lemma_bands_run_from_edge_to_edge, lemma_peak_ignores_what_is_no_number, lemma_peak_is_greatest, numbers_only, peak,
    BIN_COUNT, FFT_SIZE, PEAK_FLOOR,
};
use crate::capture::{
    analyzed, at_least_one, bar_step, bars_moved, created, edges_between, edges_of, frame_of,
    last_items, lemma_blocks_mix_as_one, lemma_frame_in_bounds, lemma_trimming_block_by_block,
    mixed_down, mixes_to, partial_sums, pushed, rebuilt, spans, sums_to, weighed_with,
    CaptureState, Smoothing, MAX_HISTORY, TWENTY,
};
use crate::settings::EqualizerConfig;
use crate::single;
use crate::spectrum::SharedSpectrum;

verus! {

/// `f` has one result for one input.
pub open spec fn single_valued1<X, Y, F: Fn(X) -> Y>(f: F) -> bool {
    forall|x: X, y: Y, z: Y| #[trigger]
        call_ensures(f, (x,), y) && #[trigger] call_ensures(f, (x,), z) ==> y == z
}

/// `f` has one result for one pair of inputs.
pub open spec fn single_valued2<X1, X2, Y, F: Fn(X1, X2) -> Y>(f: F) -> bool {
    forall|x1: X1, x2: X2, y: Y, z: Y| #[trigger]
        call_ensures(f, (x1, x2), y) && #[trigger] call_ensures(f, (x1, x2), z) ==> y == z
}

/// `f` has one result for the same three inputs.
pub open spec fn single_valued3<X1, X2, X3, Y, F: Fn(X1, X2, X3) -> Y>(f: F) -> bool {
    forall|x1: X1, x2: X2, x3: X3, y: Y, z: Y| #[trigger]
        call_ensures(f, (x1, x2, x3), y) && #[trigger] call_ensures(f, (x1, x2, x3), z) ==> y == z
}

/// `edge_bin` has one bin for one edge.
pub open spec fn one_bin_per_edge<E: Fn(u32, u32, usize, usize, u32) -> usize>(
    edge_bin: E,
) -> bool {
    forall|min_hz: u32, max_hz: u32, index: usize, count: usize, rate: u32, y: usize, z: usize|
        #[trigger] call_ensures(edge_bin, (min_hz, max_hz, index, count, rate), y)
            && #[trigger] call_ensures(edge_bin, (min_hz, max_hz, index, count, rate), z)
            ==> y == z
}

/// `transform` has one spectrum for the same weighed samples.
pub open spec fn one_spectrum<C, F: FnOnce(Vec<C>) -> [u32; BIN_COUNT]>(transform: F) -> bool {
    forall|x1: Vec<C>, x2: Vec<C>, y: [u32; BIN_COUNT], z: [u32; BIN_COUNT]|
        x1@ == x2@ && #[trigger] call_ensures(transform, (x1,), y) && #[trigger] call_ensures(
            transform,
            (x2,),
            z,
        ) ==> y@ == z@
}

/// All levels, bars and settings of `a` are those of `b`; only their
/// histories may differ.
pub open spec fn same_but_for_samples<S: Copy>(a: CaptureState<S>, b: CaptureState<S>) -> bool {
    &&& a.configured_as(&b)
    &&& a.band_ranges@ == b.band_ranges@
    &&& a.smoothed@ == b.smoothed@
    &&& a.shared.bars@ == b.shared.bars@
    &&& a.shared.active == b.shared.active
}

proof fn lemma_partial_sums_agree<T, S, A: Fn(S, T) -> S>(
    accumulate: A,
    zero: S,
    frame: Seq<T>,
    p: Seq<S>,
    q: Seq<S>,
    i: int,
)
    requires
        single_valued2(accumulate),
        partial_sums(accumulate, zero, frame, p),
        partial_sums(accumulate, zero, frame, q),
        0 <= i <= frame.len(),
    ensures
        p[i] == q[i],
    decreases i,
{
    if i > 0 {
        lemma_partial_sums_agree(accumulate, zero, frame, p, q, i - 1);
        let item = frame[i - 1];
        assert(call_ensures(accumulate, (p[i - 1], item), p[i]));
        assert(call_ensures(accumulate, (q[i - 1], item), q[i]));
    }
}

proof fn lemma_mixes_agree<T, S, A: Fn(S, T) -> S, D: Fn(S, usize) -> S>(
    zero: S,
    accumulate: A,
    share: D,
    frame: Seq<T>,
    x: S,
    y: S,
)
    requires
        single_valued2(accumulate),
        single_valued2(share),
        mixes_to(zero, accumulate, share, frame, x),
        mixes_to(zero, accumulate, share, frame, y),
    ensures
        x == y,
{
    let count = frame.len() as usize;
    let s = choose|sum: S| #[trigger]
        sums_to(accumulate, zero, frame, sum) && call_ensures(share, (sum, count), x);
    let t = choose|sum: S| #[trigger]
        sums_to(accumulate, zero, frame, sum) && call_ensures(share, (sum, count), y);
    let p = choose|partial: Seq<S>| #[trigger]
        partial_sums(accumulate, zero, frame, partial) && partial.last() == s;
    let q = choose|partial: Seq<S>| #[trigger]
        partial_sums(accumulate, zero, frame, partial) && partial.last() == t;
    lemma_partial_sums_agree(accumulate, zero, frame, p, q, frame.len() as int);
    assert(call_ensures(share, (s, count), x));
    assert(call_ensures(share, (t, count), y));
}

/// A block has one mix.
pub proof fn lemma_one_mix<T, S, A: Fn(S, T) -> S, D: Fn(S, usize) -> S>(
    zero: S,
    accumulate: A,
    share: D,
    data: Seq<T>,
    channels: int,
    x: Seq<S>,
    y: Seq<S>,
)
    requires
        single_valued2(accumulate),
        single_valued2(share),
        mixed_down(zero, accumulate, share, data, channels, x),
        mixed_down(zero, accumulate, share, data, channels, y),
    ensures
        x == y,
{
    assert forall|k: int| 0 <= k < x.len() implies x[k] == y[k] by {
        let frame = frame_of(data, channels, k);
        assert(mixes_to(zero, accumulate, share, frame, x[k]));
        assert(mixes_to(zero, accumulate, share, frame, y[k]));
        lemma_mixes_agree(zero, accumulate, share, frame, x[k], y[k]);
    }
    assert(x =~= y);
}

/// Where a block ends on a whole frame, pushing it and then the next block
/// leaves exactly what pushing both at once leaves.
pub proof fn lemma_two_pushes_are_one<T, S: Copy, A: Fn(S, T) -> S, D: Fn(S, usize) -> S>(
    zero: S,
    accumulate: A,
    share: D,
    a: Seq<T>,
    b: Seq<T>,
    before: CaptureState<S>,
    between: CaptureState<S>,
    after: CaptureState<S>,
    at_once: CaptureState<S>,
)
    requires
        before.wf(),
        single_valued2(accumulate),
        single_valued2(share),
        a.len() as int % before.channels as int == 0,
        pushed(before, a, zero, accumulate, share, between),
        pushed(between, b, zero, accumulate, share, after),
        pushed(before, a + b, zero, accumulate, share, at_once),
    ensures
        after.samples@ == at_once.samples@,
        same_but_for_samples(after, at_once),
{
    let channels = before.channels as int;
    let limit = MAX_HISTORY as int;
    let mono_a = choose|mono: Seq<S>|
        #[trigger] mixed_down(zero, accumulate, share, a, channels, mono) && between.samples@
            == last_items(before.samples@ + mono, limit);
    let mono_b = choose|mono: Seq<S>|
        #[trigger] mixed_down(zero, accumulate, share, b, channels, mono) && after.samples@
            == last_items(between.samples@ + mono, limit);
    let mono = choose|mono: Seq<S>|
        #[trigger] mixed_down(zero, accumulate, share, a + b, channels, mono) && at_once.samples@
            == last_items(before.samples@ + mono, limit);
    lemma_blocks_mix_as_one(zero, accumulate, share, a, b, channels, mono_a, mono_b);
    lemma_one_mix(zero, accumulate, share, a + b, channels, mono_a + mono_b, mono);
    lemma_trimming_block_by_block(before.samples@, mono_a, mono_b, limit);
}

/// Pushing less than a frame, or nothing at all, changes nothing.
pub proof fn lemma_pushing_no_frame_changes_nothing<
    T,
    S: Copy,
    A: Fn(S, T) -> S,
    D: Fn(S, usize) -> S,
>(
    zero: S,
    accumulate: A,
    share: D,
    data: Seq<T>,
    before: CaptureState<S>,
    after: CaptureState<S>,
)
    requires
        before.wf(),
        data.len() < before.channels,
        pushed(before, data, zero, accumulate, share, after),
    ensures
        after.samples@ == before.samples@,
        same_but_for_samples(after, before),
{
    let channels = before.channels as int;
    let mono = choose|mono: Seq<S>|
        #[trigger] mixed_down(zero, accumulate, share, data, channels, mono) && after.samples@
            == last_items(before.samples@ + mono, MAX_HISTORY as int);
    vstd::arithmetic::div_mod::lemma_basic_div(data.len() as int, channels);
    assert(before.samples@ + mono =~= before.samples@);
}

/// At one sample rate, the same bands have the same edges.
pub proof fn lemma_one_set_of_edges<
    H: Fn(u32) -> u32,
    M: Fn(u32, u32) -> u32,
    E: Fn(u32, u32, usize, usize, u32) -> usize,
>(
    nyquist: H,
    minus: M,
    edge_bin: E,
    frequencies: (u32, u32),
    count: int,
    sample_rate: u32,
    x: Seq<usize>,
    y: Seq<usize>,
)
    requires
        single_valued1(nyquist),
        single_valued2(minus),
        one_bin_per_edge(edge_bin),
        edges_of(nyquist, minus, edge_bin, frequencies, count, sample_rate, x),
        edges_of(nyquist, minus, edge_bin, frequencies, count, sample_rate, y),
    ensures
        x == y,
        x.len() == count + 1,
{
    let rate = at_least_one(sample_rate);
    let (highest_x, min_x, max_x) = choose|highest: u32, min_hz: u32, max_hz: u32|
        #![trigger call_ensures(nyquist, (rate,), highest), edges_between(
            edge_bin, min_hz, max_hz, count, rate, x)]
        {
            &&& call_ensures(nyquist, (rate,), highest)
            &&& spans(minus, highest, frequencies.0, frequencies.1, min_hz, max_hz)
            &&& edges_between(edge_bin, min_hz, max_hz, count, rate, x)
        };
    let (highest_y, min_y, max_y) = choose|highest: u32, min_hz: u32, max_hz: u32|
        #![trigger call_ensures(nyquist, (rate,), highest), edges_between(
            edge_bin, min_hz, max_hz, count, rate, y)]
        {
            &&& call_ensures(nyquist, (rate,), highest)
            &&& spans(minus, highest, frequencies.0, frequencies.1, min_hz, max_hz)
            &&& edges_between(edge_bin, min_hz, max_hz, count, rate, y)
        };
    assert(call_ensures(nyquist, (rate,), highest_x));
    assert(call_ensures(nyquist, (rate,), highest_y));
    lemma_one_span(minus, highest_x, frequencies, (min_x, max_x), (min_y, max_y));
    assert forall|i: int| 0 <= i <= count implies x[i] == y[i] by {
        assert(call_ensures(
            edge_bin,
            (min_x, max_x, i as usize, count as usize, rate),
            x[i],
        ));
        assert(call_ensures(
            edge_bin,
            (min_x, max_x, i as usize, count as usize, rate),
            y[i],
        ));
    }
    assert(x =~= y);
}

proof fn lemma_one_span<M: Fn(u32, u32) -> u32>(
    minus: M,
    highest: u32,
    frequencies: (u32, u32),
    x: (u32, u32),
    y: (u32, u32),
)
    requires
        single_valued2(minus),
        spans(minus, highest, frequencies.0, frequencies.1, x.0, x.1),
        spans(minus, highest, frequencies.0, frequencies.1, y.0, y.1),
    ensures
        x == y,
{
}

/// The states of a run of rebuilds: `states[0]`, and after it one state for
/// each rate that the bands were laid out for, in turn.
pub open spec fn rebuilt_in_turn<
    S: Copy,
    H: Fn(u32) -> u32,
    M: Fn(u32, u32) -> u32,
    E: Fn(u32, u32, usize, usize, u32) -> usize,
>(
    states: Seq<CaptureState<S>>,
    rates: Seq<u32>,
    nyquist: H,
    minus: M,
    edge_bin: E,
) -> bool {
    &&& states.len() == rates.len() + 1
    &&& forall|i: int|
        0 <= i < rates.len() ==> rebuilt(
            states[i],
            #[trigger] rates[i],
            nyquist,
            minus,
            edge_bin,
            states[i + 1],
        )
}

proof fn lemma_rebuilds_keep_the_rest<
    S: Copy,
    H: Fn(u32) -> u32,
    M: Fn(u32, u32) -> u32,
    E: Fn(u32, u32, usize, usize, u32) -> usize,
>(
    states: Seq<CaptureState<S>>,
    rates: Seq<u32>,
    nyquist: H,
    minus: M,
    edge_bin: E,
    i: int,
)
    requires
        rebuilt_in_turn(states, rates, nyquist, minus, edge_bin),
        0 <= i < states.len(),
    ensures
        states[i].configured_as(&states[0]),
        states[i].samples == states[0].samples,
        states[i].smoothed == states[0].smoothed,
        states[i].shared == states[0].shared,
        states[i].band_ranges@.len() == states[0].band_ranges@.len(),
    decreases i,
{
    if i > 0 {
        lemma_rebuilds_keep_the_rest(states, rates, nyquist, minus, edge_bin, i - 1);
        assert(rebuilt(states[i - 1], rates[i - 1], nyquist, minus, edge_bin, states[i]));
    }
}

/// Earlier sample rates leave no trace. However often the bands of a new state
/// are laid out, they end as those of a new state for the last rate, and
/// nothing else changes.
pub proof fn lemma_only_the_last_rate_counts<
    S: Copy,
    W: Fn(usize) -> S,
    H: Fn(u32) -> u32,
    M: Fn(u32, u32) -> u32,
    E: Fn(u32, u32, usize, usize, u32) -> usize,
>(
    shared: SharedSpectrum,
    config: EqualizerConfig,
    first_rate: u32,
    channels: usize,
    weight: W,
    nyquist: H,
    minus: M,
    edge_bin: E,
    states: Seq<CaptureState<S>>,
    rates: Seq<u32>,
    fresh: CaptureState<S>,
)
    requires
        single_valued1(nyquist),
        single_valued2(minus),
        one_bin_per_edge(edge_bin),
        rates.len() > 0,
        rebuilt_in_turn(states, rates, nyquist, minus, edge_bin),
        created(
            shared,
            config,
            first_rate,
            channels,
            weight,
            nyquist,
            minus,
            edge_bin,
            states[0],
        ),
        created(
            shared,
            config,
            rates.last(),
            channels,
            weight,
            nyquist,
            minus,
            edge_bin,
            fresh,
        ),
    ensures
        states.last().band_ranges@ == fresh.band_ranges@,
        states.last().configured_as(&states[0]),
        states.last().samples == states[0].samples,
        states.last().smoothed == states[0].smoothed,
        states.last().shared == states[0].shared,
        single_valued1(weight) ==> same_but_for_samples(states.last(), fresh),
{
    let last = rates.len() - 1;
    lemma_rebuilds_keep_the_rest(states, rates, nyquist, minus, edge_bin, last);
    lemma_rebuilds_keep_the_rest(states, rates, nyquist, minus, edge_bin, last + 1);
    let frequencies = (config.min_frequency, config.max_frequency);
    let count = config.bar_count as int;
    let first = choose|edges: Seq<usize>|
        #[trigger] edges_of(nyquist, minus, edge_bin, frequencies, count, first_rate, edges)
            && states[0].band_ranges@ == band_ranges(edges);
    lemma_one_set_of_edges(
        nyquist,
        minus,
        edge_bin,
        frequencies,
        count,
        first_rate,
        first,
        first,
    );
    assert(rebuilt(states[last], rates[last], nyquist, minus, edge_bin, states[last + 1]));
    let x = choose|edges: Seq<usize>|
        #[trigger] edges_of(nyquist, minus, edge_bin, frequencies, count, rates[last], edges)
            && states[last + 1].band_ranges@ == band_ranges(edges);
    let y = choose|edges: Seq<usize>|
        #[trigger] edges_of(nyquist, minus, edge_bin, frequencies, count, rates[last], edges)
            && fresh.band_ranges@ == band_ranges(edges);
    lemma_one_set_of_edges(nyquist, minus, edge_bin, frequencies, count, rates[last], x, y);
    if single_valued1(weight) {
        assert forall|k: int| 0 <= k < FFT_SIZE implies states[0].window@[k]
            == fresh.window@[k] by {
            assert(call_ensures(weight, (k as usize,), states[0].window@[k]));
            assert(call_ensures(weight, (k as usize,), fresh.window@[k]));
        }
        assert(states[0].window@ =~= fresh.window@);
    }
}

/// Laying the bands out again for the rate that they were last laid out for
/// changes nothing.
pub proof fn lemma_repeating_a_rate_changes_nothing<
    S: Copy,
    H: Fn(u32) -> u32,
    M: Fn(u32, u32) -> u32,
    E: Fn(u32, u32, usize, usize, u32) -> usize,
>(
    nyquist: H,
    minus: M,
    edge_bin: E,
    rate: u32,
    before: CaptureState<S>,
    once: CaptureState<S>,
    twice: CaptureState<S>,
)
    requires
        single_valued1(nyquist),
        single_valued2(minus),
        one_bin_per_edge(edge_bin),
        rebuilt(before, rate, nyquist, minus, edge_bin, once),
        rebuilt(once, rate, nyquist, minus, edge_bin, twice),
    ensures
        twice.samples == once.samples,
        same_but_for_samples(twice, once),
{
    let frequencies = (before.min_frequency, before.max_frequency);
    let count = before.band_ranges@.len() as int;
    let x = choose|edges: Seq<usize>|
        #[trigger] edges_of(nyquist, minus, edge_bin, frequencies, count, rate, edges)
            && once.band_ranges@ == band_ranges(edges);
    lemma_one_set_of_edges(nyquist, minus, edge_bin, frequencies, count, rate, x, x);
    let y = choose|edges: Seq<usize>|
        #[trigger] edges_of(nyquist, minus, edge_bin, frequencies, count, rate, edges)
            && twice.band_ranges@ == band_ranges(edges);
    lemma_one_set_of_edges(nyquist, minus, edge_bin, frequencies, count, rate, x, y);
}

proof fn lemma_one_step<
    N: Fn(u32, u32, u32) -> u32,
    B: Fn(u32, u32, u32) -> u32,
    Q: Fn(u32) -> u8,
>(
    normalize: N,
    blend: B,
    quantize: Q,
    smoothing: Smoothing,
    highest: u32,
    min_db: u32,
    db_span: u32,
    before: u32,
    x: (u32, u8),
    y: (u32, u8),
)
    requires
        single_valued3(normalize),
        single_valued3(blend),
        single_valued1(quantize),
        bar_step(
            normalize,
            blend,
            quantize,
            smoothing,
            highest,
            min_db,
            db_span,
            before,
            x.0,
            x.1,
        ),
        bar_step(
            normalize,
            blend,
            quantize,
            smoothing,
            highest,
            min_db,
            db_span,
            before,
            y.0,
            y.1,
        ),
    ensures
        x == y,
{
}

/// Where two spectra have the same peaks, the bars move alike.
proof fn lemma_same_peaks_same_bars<
    S: Copy,
    N: Fn(u32, u32, u32) -> u32,
    B: Fn(u32, u32, u32) -> u32,
    Q: Fn(u32) -> u8,
>(
    normalize: N,
    blend: B,
    quantize: Q,
    a: CaptureState<S>,
    b: CaptureState<S>,
    magnitudes_a: Seq<u32>,
    magnitudes_b: Seq<u32>,
    db_span: u32,
    after_a: CaptureState<S>,
    after_b: CaptureState<S>,
)
    requires
        a.wf(),
        b.wf(),
        same_but_for_samples(a, b),
        single_valued3(normalize),
        single_valued3(blend),
        single_valued1(quantize),
        forall|i: int|
            #![trigger a.band_ranges@[i]]
            0 <= i < a.band_ranges@.len() ==> peak(
                magnitudes_a,
                a.band_ranges@[i].0 as int,
                a.band_ranges@[i].1 as int,
            ) == peak(magnitudes_b, a.band_ranges@[i].0 as int, a.band_ranges@[i].1 as int),
        bars_moved(a, normalize, blend, quantize, magnitudes_a, db_span, after_a),
        bars_moved(b, normalize, blend, quantize, magnitudes_b, db_span, after_b),
    ensures
        forall|i: int|
            #![trigger after_a.smoothed@[i]]
            #![trigger after_b.smoothed@[i]]
            #![trigger after_a.shared.bars@[i]]
            0 <= i < a.band_ranges@.len() ==> after_a.smoothed@[i] == after_b.smoothed@[i]
                && after_a.shared.bars@[i] == after_b.shared.bars@[i],
{
    assert forall|i: int|
        #![trigger after_a.smoothed@[i]]
        #![trigger after_b.smoothed@[i]]
        #![trigger after_a.shared.bars@[i]]
        0 <= i < a.band_ranges@.len() implies after_a.smoothed@[i] == after_b.smoothed@[i]
        && after_a.shared.bars@[i] == after_b.shared.bars@[i] by {
        let band = a.band_ranges@[i];
        let x = (after_a.smoothed@[i], after_a.shared.bars@[i]);
        let y = (after_b.smoothed@[i], after_b.shared.bars@[i]);
        lemma_one_step(
            normalize,
            blend,
            quantize,
            a.smoothing,
            peak(magnitudes_a, band.0 as int, band.1 as int),
            a.min_db,
            db_span,
            a.smoothed@[i],
            x,
            y,
        );
    }
}

/// What an analysis worked on: the weighed samples, the magnitudes of their
/// spectrum, and the difference between the loudness limits.
proof fn lemma_analysis_parts<
    S: Copy,
    C,
    W: Fn(S, S) -> C,
    F: FnOnce(Vec<C>) -> [u32; BIN_COUNT],
    M: Fn(u32, u32) -> u32,
    N: Fn(u32, u32, u32) -> u32,
    B: Fn(u32, u32, u32) -> u32,
    Q: Fn(u32) -> u8,
>(
    weigh: W,
    transform: F,
    minus: M,
    normalize: N,
    blend: B,
    quantize: Q,
    before: CaptureState<S>,
    after: CaptureState<S>,
) -> (r: (Vec<C>, [u32; BIN_COUNT], u32))
    requires
        before.samples@.len() >= FFT_SIZE,
        analyzed(before, weigh, transform, minus, normalize, blend, quantize, after),
    ensures
        weighed_with(weigh, before.samples@, before.window@, r.0@),
        call_ensures(transform, (r.0,), r.1),
        call_ensures(minus, (before.max_db, before.min_db), r.2),
        bars_moved(
            before,
            normalize,
            blend,
            quantize,
            r.1@,
            single::larger(r.2, single::ONE),
            after,
        ),
{
    choose|weighed: Vec<C>, magnitudes: [u32; BIN_COUNT], difference: u32|
        weighed_with(weigh, before.samples@, before.window@, weighed@) && #[trigger] call_ensures(
            transform,
            (weighed,),
            magnitudes,
        ) && #[trigger] call_ensures(minus, (before.max_db, before.min_db), difference)
            && bars_moved(
            before,
            normalize,
            blend,
            quantize,
            magnitudes@,
            single::larger(difference, single::ONE),
            after,
        )
}

/// What an analysis leaves depends on the last [`FFT_SIZE`] samples alone:
/// older ones make no difference to any level or bar.
pub proof fn lemma_only_the_latest_samples_count<
    S: Copy,
    C,
    W: Fn(S, S) -> C,
    F: FnOnce(Vec<C>) -> [u32; BIN_COUNT],
    M: Fn(u32, u32) -> u32,
    N: Fn(u32, u32, u32) -> u32,
    B: Fn(u32, u32, u32) -> u32,
    Q: Fn(u32) -> u8,
>(
    weigh: W,
    transform: F,
    minus: M,
    normalize: N,
    blend: B,
    quantize: Q,
    a: CaptureState<S>,
    b: CaptureState<S>,
    after_a: CaptureState<S>,
    after_b: CaptureState<S>,
)
    requires
        a.wf(),
        b.wf(),
        same_but_for_samples(a, b),
        a.samples@.len() >= FFT_SIZE,
        b.samples@.len() >= FFT_SIZE,
        last_items(a.samples@, FFT_SIZE as int) == last_items(b.samples@, FFT_SIZE as int),
        single_valued2(weigh),
        one_spectrum(transform),
        single_valued2(minus),
        single_valued3(normalize),
        single_valued3(blend),
        single_valued1(quantize),
        analyzed(a, weigh, transform, minus, normalize, blend, quantize, after_a),
        analyzed(b, weigh, transform, minus, normalize, blend, quantize, after_b),
    ensures
        same_but_for_samples(after_a, after_b),
{
    let (weighed_a, magnitudes_a, difference_a) = lemma_analysis_parts(
        weigh,
        transform,
        minus,
        normalize,
        blend,
        quantize,
        a,
        after_a,
    );
    let (weighed_b, magnitudes_b, difference_b) = lemma_analysis_parts(
        weigh,
        transform,
        minus,
        normalize,
        blend,
        quantize,
        b,
        after_b,
    );
    let heard = last_items(a.samples@, FFT_SIZE as int);
    assert forall|k: int| 0 <= k < FFT_SIZE implies weighed_a@[k] == weighed_b@[k] by {
        assert(call_ensures(weigh, (heard[k], a.window@[k]), weighed_a@[k]));
        assert(call_ensures(weigh, (heard[k], a.window@[k]), weighed_b@[k]));
    }
    assert(weighed_a@ =~= weighed_b@);
    assert(magnitudes_a@ == magnitudes_b@);
    assert(difference_a == difference_b);
    lemma_same_peaks_same_bars(
        normalize,
        blend,
        quantize,
        a,
        b,
        magnitudes_a@,
        magnitudes_b@,
        single::larger(difference_a, single::ONE),
        after_a,
        after_b,
    );
    assert(after_a.smoothed@ =~= after_b.smoothed@);
    assert(after_a.shared.bars@ =~= after_b.shared.bars@);
}

/// Magnitudes that are not numbers act like silence: an analysis leaves what
/// it would leave if the transform gave 0 in their place. `cleaned` is such a
/// transform.
pub proof fn lemma_no_number_acts_like_silence<
    S: Copy,
    C,
    W: Fn(S, S) -> C,
    F: FnOnce(Vec<C>) -> [u32; BIN_COUNT],
    G: FnOnce(Vec<C>) -> [u32; BIN_COUNT],
    M: Fn(u32, u32) -> u32,
    N: Fn(u32, u32, u32) -> u32,
    B: Fn(u32, u32, u32) -> u32,
    Q: Fn(u32) -> u8,
>(
    weigh: W,
    transform: F,
    cleaned: G,
    minus: M,
    normalize: N,
    blend: B,
    quantize: Q,
    before: CaptureState<S>,
    after: CaptureState<S>,
    after_cleaned: CaptureState<S>,
)
    requires
        before.wf(),
        forall|x1: Vec<C>, x2: Vec<C>, y: [u32; BIN_COUNT], z: [u32; BIN_COUNT]|
            x1@ == x2@ && #[trigger] call_ensures(transform, (x1,), y) && #[trigger] call_ensures(
                cleaned,
                (x2,),
                z,
            ) ==> z@ == numbers_only(y@),
        single_valued2(weigh),
        single_valued2(minus),
        single_valued3(normalize),
        single_valued3(blend),
        single_valued1(quantize),
        analyzed(before, weigh, transform, minus, normalize, blend, quantize, after),
        analyzed(before, weigh, cleaned, minus, normalize, blend, quantize, after_cleaned),
    ensures
        same_but_for_samples(after, after_cleaned),
{
    if before.samples@.len() >= FFT_SIZE {
        let (weighed_a, magnitudes_a, difference_a) = lemma_analysis_parts(
            weigh,
            transform,
            minus,
            normalize,
            blend,
            quantize,
            before,
            after,
        );
        let (weighed_b, magnitudes_b, difference_b) = lemma_analysis_parts(
            weigh,
            cleaned,
            minus,
            normalize,
            blend,
            quantize,
            before,
            after_cleaned,
        );
        let heard = last_items(before.samples@, FFT_SIZE as int);
        assert forall|k: int| 0 <= k < FFT_SIZE implies weighed_a@[k] == weighed_b@[k] by {
            assert(call_ensures(weigh, (heard[k], before.window@[k]), weighed_a@[k]));
            assert(call_ensures(weigh, (heard[k], before.window@[k]), weighed_b@[k]));
        }
        assert(weighed_a@ =~= weighed_b@);
        assert(magnitudes_b@ == numbers_only(magnitudes_a@));
        assert(difference_a == difference_b);
        assert forall|i: int|
            #![trigger before.band_ranges@[i]]
            0 <= i < before.band_ranges@.len() implies peak(
            magnitudes_a@,
            before.band_ranges@[i].0 as int,
            before.band_ranges@[i].1 as int,
        ) == peak(
            magnitudes_b@,
            before.band_ranges@[i].0 as int,
            before.band_ranges@[i].1 as int,
        ) by {
            lemma_peak_ignores_what_is_no_number(
                magnitudes_a@,
                before.band_ranges@[i].0 as int,
                before.band_ranges@[i].1 as int,
            );
        }
        lemma_same_peaks_same_bars(
            normalize,
            blend,
            quantize,
            before,
            before,
            magnitudes_a@,
            magnitudes_b@,
            single::larger(difference_a, single::ONE),
            after,
            after_cleaned,
        );
        assert(after.smoothed@ =~= after_cleaned.smoothed@);
        assert(after.shared.bars@ =~= after_cleaned.shared.bars@);
    }
}

/// The level is a number from 0 to 1.
pub open spec fn in_range(level: u32) -> bool {
    !single::is_nan(level) && 0 <= single::rank(level) <= single::rank(single::ONE)
}

/// Every smoothed level is a number from 0 to 1.
pub open spec fn levels_in_range<S>(state: CaptureState<S>) -> bool {
    forall|i: int| 0 <= i < state.smoothed@.len() ==> in_range(#[trigger] state.smoothed@[i])
}

/// The smoothed levels of a new state are numbers from 0 to 1.
pub proof fn lemma_levels_start_in_range<
    S: Copy,
    W: Fn(usize) -> S,
    H: Fn(u32) -> u32,
    M: Fn(u32, u32) -> u32,
    E: Fn(u32, u32, usize, usize, u32) -> usize,
>(
    shared: SharedSpectrum,
    config: EqualizerConfig,
    sample_rate: u32,
    channels: usize,
    weight: W,
    nyquist: H,
    minus: M,
    edge_bin: E,
    r: CaptureState<S>,
)
    requires
        created(shared, config, sample_rate, channels, weight, nyquist, minus, edge_bin, r),
    ensures
        levels_in_range(r),
{
}

/// The smoothed levels stay numbers from 0 to 1, whatever the spectrum holds,
/// where `normalize` gives a number for every peak that is one and not below
/// the floor, and `blend` stays between 0 and 1 when it moves a level between
/// 0 and 1 towards another by one of the two factors.
pub proof fn lemma_levels_stay_in_range<
    S: Copy,
    C,
    W: Fn(S, S) -> C,
    F: FnOnce(Vec<C>) -> [u32; BIN_COUNT],
    M: Fn(u32, u32) -> u32,
    N: Fn(u32, u32, u32) -> u32,
    B: Fn(u32, u32, u32) -> u32,
    Q: Fn(u32) -> u8,
>(
    weigh: W,
    transform: F,
    minus: M,
    normalize: N,
    blend: B,
    quantize: Q,
    before: CaptureState<S>,
    after: CaptureState<S>,
)
    requires
        before.wf(),
        levels_in_range(before),
        forall|highest: u32, difference: u32, share: u32|
            !single::is_nan(highest) && !single::above(PEAK_FLOOR, highest)
                && #[trigger] call_ensures(minus, (before.max_db, before.min_db), difference)
                && #[trigger] call_ensures(
                normalize,
                (highest, before.min_db, single::larger(difference, single::ONE)),
                share,
            ) ==> !single::is_nan(share),
        forall|level: u32, towards: u32, factor: u32, moved: u32|
            in_range(level) && in_range(towards) && (factor == before.smoothing.rise || factor
                == before.smoothing.fall) && #[trigger] call_ensures(
                blend,
                (level, towards, factor),
                moved,
            ) ==> in_range(moved),
        analyzed(before, weigh, transform, minus, normalize, blend, quantize, after),
    ensures
        levels_in_range(after),
{
    if before.samples@.len() >= FFT_SIZE {
        let (weighed, magnitudes, difference) = lemma_analysis_parts(
            weigh,
            transform,
            minus,
            normalize,
            blend,
            quantize,
            before,
            after,
        );
        let db_span = single::larger(difference, single::ONE);
        assert forall|i: int| 0 <= i < after.smoothed@.len() implies in_range(
            #[trigger] after.smoothed@[i],
        ) by {
            let band = before.band_ranges@[i];
            let highest = peak(magnitudes@, band.0 as int, band.1 as int);
            lemma_peak_is_greatest(magnitudes@, band.0 as int, band.1 as int);
            assert(bar_step(
                normalize,
                blend,
                quantize,
                before.smoothing,
                highest,
                before.min_db,
                db_span,
                before.smoothed@[i],
                after.smoothed@[i],
                after.shared.bars@[i],
            ));
            let level = before.smoothed@[i];
            let share = choose|share: u32|
                #![trigger call_ensures(normalize, (highest, before.min_db, db_span), share)]
                {
                    let towards = single::limited(share, 0, single::ONE);
                    &&& call_ensures(normalize, (highest, before.min_db, db_span), share)
                    &&& call_ensures(
                        blend,
                        (level, towards, before.smoothing.factor(towards, level)),
                        after.smoothed@[i],
                    )
                    &&& call_ensures(quantize, (after.smoothed@[i],), after.shared.bars@[i])
                };
            assert(call_ensures(minus, (before.max_db, before.min_db), difference));
            assert(!single::is_nan(share));
            assert(in_range(level));
            single::lemma_limited_is_in_range(share, 0, single::ONE);
        }
    }
}

/// A state is usable exactly where it has a channel, a window of 2048 weights,
/// at most 8192 samples and at most 128 bands, and each band holds a bin within
/// 1 to 1024 and has a smoothed level and a bar.
pub proof fn lemma_usable_state<S: Copy>(state: CaptureState<S>)
    ensures
        state.wf() <==> {
            &&& state.channels >= 1
            &&& state.window@.len() == 2048
            &&& state.samples@.len() <= 8192
            &&& state.band_ranges@.len() <= 128
            &&& state.smoothed@.len() == state.band_ranges@.len()
            &&& state.shared.bars@.len() >= state.band_ranges@.len()
            &&& forall|i: int|
                0 <= i < state.band_ranges@.len() ==> 1 <= (#[trigger] state.band_ranges@[i]).0
                    && state.band_ranges@[i].0 < state.band_ranges@[i].1
                    && state.band_ranges@[i].1 <= 1025
        },
{
}

/// A new state has every setting from its own place in the configuration, the
/// given spectrum as it is, the channels of the stream or one where it has
/// none, a weight for each of 2048 places, no sample, and a smoothed level of 0
/// for each bar.
pub proof fn lemma_new_state_is_as_configured<
    S: Copy,
    W: Fn(usize) -> S,
    H: Fn(u32) -> u32,
    M: Fn(u32, u32) -> u32,
    E: Fn(u32, u32, usize, usize, u32) -> usize,
>(
    shared: SharedSpectrum,
    config: EqualizerConfig,
    sample_rate: u32,
    channels: usize,
    weight: W,
    nyquist: H,
    minus: M,
    edge_bin: E,
    r: CaptureState<S>,
)
    requires
        created(shared, config, sample_rate, channels, weight, nyquist, minus, edge_bin, r),
    ensures
        r.shared.bars == shared.bars,
        r.shared.active == shared.active,
        channels >= 1 ==> r.channels == channels,
        channels == 0 ==> r.channels == 1,
        r.window@.len() == 2048,
        forall|k: int|
            0 <= k < 2048 ==> call_ensures(weight, (k as usize,), #[trigger] r.window@[k]),
        r.samples@.len() == 0,
        r.band_ranges@.len() == config.bar_count,
        r.smoothed@.len() == config.bar_count,
        forall|i: int| 0 <= i < config.bar_count ==> #[trigger] r.smoothed@[i] == 0,
        r.min_frequency == config.min_frequency,
        r.max_frequency == config.max_frequency,
        r.min_db == config.min_db,
        r.max_db == config.max_db,
        r.smoothing.rise == config.rise_smoothing,
        r.smoothing.fall == config.fall_smoothing,
{
    let edges = choose|edges: Seq<usize>|
        #[trigger] edges_of(
            nyquist,
            minus,
            edge_bin,
            (config.min_frequency, config.max_frequency),
            config.bar_count as int,
            sample_rate,
            edges,
        ) && r.band_ranges@ == band_ranges(edges);
    lemma_edges_of_a_span(
        nyquist,
        minus,
        edge_bin,
        (config.min_frequency, config.max_frequency),
        config.bar_count as int,
        sample_rate,
        edges,
    );
}

/// What the edges at a sample rate were computed from: the highest frequency
/// of that rate, or of a rate of 1 where it is 0; one less than that; one more
/// than the lower end of the span; and both ends. The lower end is the first
/// frequency, but lowered to one less than the highest and then raised to 20;
/// the upper end is the second, but lowered to the highest and then raised to
/// one more than the lower end. What is not a number gives way to what is. Each
/// edge is computed from both ends as they are and from its own number.
proof fn lemma_edges_of_a_span<
    H: Fn(u32) -> u32,
    M: Fn(u32, u32) -> u32,
    E: Fn(u32, u32, usize, usize, u32) -> usize,
>(
    nyquist: H,
    minus: M,
    edge_bin: E,
    frequencies: (u32, u32),
    count: int,
    sample_rate: u32,
    edges: Seq<usize>,
) -> (r: (u32, u32, u32, u32, u32))
    requires
        edges_of(nyquist, minus, edge_bin, frequencies, count, sample_rate, edges),
    ensures
        edges.len() == count + 1,
        ({
            let rate = if sample_rate == 0 {
                1u32
            } else {
                sample_rate
            };
            let (highest, most, least, min_hz, max_hz) = r;
            let lowered = if single::is_nan(frequencies.0) || single::above(frequencies.0, most) {
                most
            } else {
                frequencies.0
            };
            let capped = if single::is_nan(frequencies.1) || single::above(
                frequencies.1,
                highest,
            ) {
                highest
            } else {
                frequencies.1
            };
            &&& call_ensures(nyquist, (rate,), highest)
            &&& call_ensures(minus, (highest, 0x3f80_0000), most)
            &&& call_ensures(minus, (min_hz, 0xbf80_0000), least)
            &&& min_hz == if single::is_nan(lowered) || single::above(0x41a0_0000, lowered) {
                0x41a0_0000
            } else {
                lowered
            }
            &&& max_hz == if single::is_nan(capped) || single::above(least, capped) {
                least
            } else {
                capped
            }
            &&& forall|i: int|
                0 <= i <= count ==> call_ensures(
                    edge_bin,
                    (min_hz, max_hz, i as usize, count as usize, rate),
                    #[trigger] edges[i],
                )
        }),
{
    let rate = at_least_one(sample_rate);
    let (highest, min_hz, max_hz) = choose|highest: u32, min_hz: u32, max_hz: u32|
        #![trigger call_ensures(nyquist, (rate,), highest), edges_between(
            edge_bin, min_hz, max_hz, count, rate, edges)]
        {
            &&& call_ensures(nyquist, (rate,), highest)
            &&& spans(minus, highest, frequencies.0, frequencies.1, min_hz, max_hz)
            &&& edges_between(edge_bin, min_hz, max_hz, count, rate, edges)
        };
    let (most, least) = choose|most: u32, least: u32|
        #![trigger call_ensures(minus, (highest, single::ONE), most), call_ensures(
            minus,
            (min_hz, single::MINUS_ONE),
            least,
        )]
        {
            &&& call_ensures(minus, (highest, single::ONE), most)
            &&& call_ensures(minus, (min_hz, single::MINUS_ONE), least)
            &&& min_hz == single::larger(single::smaller(frequencies.0, most), TWENTY)
            &&& max_hz == single::larger(single::smaller(frequencies.1, highest), least)
        };
    (highest, most, least, min_hz, max_hz)
}

/// Laying out the bands uses the configured frequencies as they are wherever
/// they lie within what the sample rate allows: the lower end of the span is
/// the lowest frequency, bit for bit, where that is from 20 to one less than
/// the highest frequency of the rate, and the upper end is the highest
/// frequency where that is from one more than the lower end to the highest of
/// the rate. Otherwise each is the nearer bound, and what is not a number gives
/// way to it. Every edge is computed from these two ends; every band starts at
/// its edge and ends at the next one, moved into bins 1 to 1024 so that it
/// holds a bin; and the last one reaches bin 1024. Nothing else changes.
///
/// The result is the highest frequency of the rate, one less than that, one
/// more than the lower end, both ends, and the edges.
pub proof fn lemma_bands_span_the_configured_frequencies<
    S: Copy,
    H: Fn(u32) -> u32,
    M: Fn(u32, u32) -> u32,
    E: Fn(u32, u32, usize, usize, u32) -> usize,
>(
    nyquist: H,
    minus: M,
    edge_bin: E,
    sample_rate: u32,
    before: CaptureState<S>,
    after: CaptureState<S>,
) -> (r: (u32, u32, u32, u32, u32, Seq<usize>))
    requires
        rebuilt(before, sample_rate, nyquist, minus, edge_bin, after),
    ensures
        ({
            let count = before.band_ranges@.len();
            let rate = if sample_rate == 0 {
                1u32
            } else {
                sample_rate
            };
            let (highest, most, least, min_hz, max_hz, edges) = r;
            let low = before.min_frequency;
            let high = before.max_frequency;
            &&& call_ensures(nyquist, (rate,), highest)
            &&& call_ensures(minus, (highest, 0x3f80_0000), most)
            &&& call_ensures(minus, (min_hz, 0xbf80_0000), least)
            &&& !single::is_nan(low) && !single::above(0x41a0_0000, low) && !single::above(
                low,
                most,
            ) ==> min_hz == low
            &&& single::above(0x41a0_0000, low) ==> min_hz == 0x41a0_0000
            &&& single::is_nan(low) || single::above(low, most) ==> min_hz == if single::is_nan(
                most,
            ) || single::above(0x41a0_0000, most) {
                0x41a0_0000
            } else {
                most
            }
            &&& !single::is_nan(high) && !single::above(least, high) && !single::above(
                high,
                highest,
            ) ==> max_hz == high
            &&& single::above(least, high) && !single::above(high, highest) ==> max_hz == least
            &&& single::is_nan(high) || single::above(high, highest) ==> max_hz
                == if single::is_nan(highest) || single::above(least, highest) {
                least
            } else {
                highest
            }
            &&& edges.len() == count + 1
            &&& forall|i: int|
                0 <= i <= count ==> call_ensures(
                    edge_bin,
                    (min_hz, max_hz, i as usize, count as usize, rate),
                    #[trigger] edges[i],
                )
            &&& after.band_ranges@.len() == count
            &&& forall|i: int|
                0 <= i < count ==> (#[trigger] after.band_ranges@[i]).0 == if edges[i] < 1 {
                    1
                } else if edges[i] > 1024 {
                    1024
                } else {
                    edges[i] as int
                }
            &&& forall|i: int|
                0 <= i < count ==> (#[trigger] after.band_ranges@[i]).1 == if i == count - 1
                    || edges[i + 1] > 1025 {
                    1025
                } else if edges[i + 1] <= after.band_ranges@[i].0 {
                    after.band_ranges@[i].0 + 1
                } else {
                    edges[i + 1] as int
                }
        }),
        after.samples@ == before.samples@,
        after.smoothed@ == before.smoothed@,
        after.shared.bars@ == before.shared.bars@,
        after.shared.active == before.shared.active,
        after.channels == before.channels,
        after.window@ == before.window@,
        after.min_frequency == before.min_frequency,
        after.max_frequency == before.max_frequency,
        after.min_db == before.min_db,
        after.max_db == before.max_db,
        after.smoothing.rise == before.smoothing.rise,
        after.smoothing.fall == before.smoothing.fall,
{
    let frequencies = (before.min_frequency, before.max_frequency);
    let count = before.band_ranges@.len() as int;
    let edges = choose|edges: Seq<usize>|
        #[trigger] edges_of(nyquist, minus, edge_bin, frequencies, count, sample_rate, edges)
            && after.band_ranges@ == band_ranges(edges);
    let r = lemma_edges_of_a_span(
        nyquist,
        minus,
        edge_bin,
        frequencies,
        count,
        sample_rate,
        edges,
    );
    assert forall|i: int| 0 <= i < count implies (#[trigger] after.band_ranges@[i]).0 == if edges[i]
        < 1 {
        1
    } else if edges[i] > 1024 {
        1024
    } else {
        edges[i] as int
    } by {
        lemma_bands_run_from_edge_to_edge(edges, i);
    }
    assert forall|i: int| 0 <= i < count implies (#[trigger] after.band_ranges@[i]).1 == if i
        == count - 1 || edges[i + 1] > 1025 {
        1025
    } else if edges[i + 1] <= after.band_ranges@[i].0 {
        after.band_ranges@[i].0 + 1
    } else {
        edges[i + 1] as int
    } by {
        lemma_bands_run_from_edge_to_edge(edges, i);
    }
    (r.0, r.1, r.2, r.3, r.4, edges)
}

/// The bands of a new state are those that laying them out for its sample rate
/// would leave.
pub proof fn lemma_new_bands_are_laid_out<
    S: Copy,
    W: Fn(usize) -> S,
    H: Fn(u32) -> u32,
    M: Fn(u32, u32) -> u32,
    E: Fn(u32, u32, usize, usize, u32) -> usize,
>(
    shared: SharedSpectrum,
    config: EqualizerConfig,
    sample_rate: u32,
    channels: usize,
    weight: W,
    nyquist: H,
    minus: M,
    edge_bin: E,
    r: CaptureState<S>,
)
    requires
        created(shared, config, sample_rate, channels, weight, nyquist, minus, edge_bin, r),
    ensures
        rebuilt(r, sample_rate, nyquist, minus, edge_bin, r),
{
    lemma_new_state_is_as_configured(
        shared,
        config,
        sample_rate,
        channels,
        weight,
        nyquist,
        minus,
        edge_bin,
        r,
    );
    let edges = choose|edges: Seq<usize>|
        #[trigger] edges_of(
            nyquist,
            minus,
            edge_bin,
            (config.min_frequency, config.max_frequency),
            config.bar_count as int,
            sample_rate,
            edges,
        ) && r.band_ranges@ == band_ranges(edges);
    assert(edges_of(
        nyquist,
        minus,
        edge_bin,
        (r.min_frequency, r.max_frequency),
        r.band_ranges@.len() as int,
        sample_rate,
        edges,
    ));
}

/// Every whole frame adds one sample at the end of the history, of which the
/// last 8192 samples are kept, in order. Nothing else changes.
pub proof fn lemma_history_is_the_latest<T, S: Copy, A: Fn(S, T) -> S, D: Fn(S, usize) -> S>(
    zero: S,
    accumulate: A,
    share: D,
    data: Seq<T>,
    before: CaptureState<S>,
    after: CaptureState<S>,
)
    requires
        pushed(before, data, zero, accumulate, share, after),
    ensures
        ({
            let frames = data.len() as int / before.channels as int;
            let total = before.samples@.len() + frames;
            &&& after.samples@.len() == if total <= 8192 {
                total
            } else {
                8192
            }
            &&& forall|j: int|
                0 <= j < before.samples@.len() && total - j <= 8192
                    ==> #[trigger] before.samples@[j] == after.samples@[after.samples@.len() - (
                total - j)]
        }),
        after.band_ranges@ == before.band_ranges@,
        after.smoothed@ == before.smoothed@,
        after.shared.bars@ == before.shared.bars@,
        after.shared.active == before.shared.active,
        after.channels == before.channels,
        after.window@ == before.window@,
        after.min_frequency == before.min_frequency,
        after.max_frequency == before.max_frequency,
        after.min_db == before.min_db,
        after.max_db == before.max_db,
        after.smoothing.rise == before.smoothing.rise,
        after.smoothing.fall == before.smoothing.fall,
{
}

/// Every channel of a frame enters its sample once, whatever the number of
/// channels: from `zero` on, each item of frame `k` is added in turn, and what
/// comes out after the last one is shared out over the channels. The result is
/// the sums on the way, from `zero` to the whole.
pub proof fn lemma_every_channel_is_mixed<T, S: Copy, A: Fn(S, T) -> S, D: Fn(S, usize) -> S>(
    zero: S,
    accumulate: A,
    share: D,
    data: Seq<T>,
    before: CaptureState<S>,
    after: CaptureState<S>,
    k: int,
) -> (sums: Seq<S>)
    requires
        before.channels >= 1,
        pushed(before, data, zero, accumulate, share, after),
        0 <= k < data.len() as int / before.channels as int,
        data.len() as int / before.channels as int - k <= 8192,
    ensures
        sums.len() == before.channels + 1,
        sums[0] == zero,
        forall|i: int|
            #![trigger sums[i]]
            0 <= i < before.channels ==> call_ensures(
                accumulate,
                (sums[i], data[k * before.channels as int + i]),
                sums[i + 1],
            ),
        call_ensures(
            share,
            (sums[before.channels as int], before.channels),
            after.samples@[after.samples@.len() - (data.len() as int / before.channels as int
                - k)],
        ),
{
    let channels = before.channels as int;
    let mono = choose|mono: Seq<S>|
        #[trigger] mixed_down(zero, accumulate, share, data, channels, mono) && after.samples@
            == last_items(before.samples@ + mono, MAX_HISTORY as int);
    let frame = frame_of(data, channels, k);
    assert(mixes_to(zero, accumulate, share, frame, mono[k]));
    lemma_frame_in_bounds(data.len() as int, channels, k);
    assert(0 <= k * channels) by (nonlinear_arith)
        requires
            0 <= k,
            1 <= channels,
    ;
    assert(frame.len() == channels);
    let count = frame.len() as usize;
    let sum = choose|sum: S| #[trigger]
        sums_to(accumulate, zero, frame, sum) && call_ensures(share, (sum, count), mono[k]);
    let sums = choose|partial: Seq<S>| #[trigger]
        partial_sums(accumulate, zero, frame, partial) && partial.last() == sum;
    assert forall|i: int|
        #![trigger sums[i]]
        0 <= i < channels implies call_ensures(
        accumulate,
        (sums[i], data[k * channels + i]),
        sums[i + 1],
    ) by {
        assert(frame[i] == data[k * channels + i]);
        assert(call_ensures(accumulate, (sums[i], frame[i]), sums[i + 1]));
    }
    sums
}

/// Where adding is exact, what is shared out over the channels is worth `zero`
/// and all items of the frame together, for every number of channels. The
/// result is that sum.
pub proof fn lemma_frame_is_worth_all_its_items<T, S: Copy, A: Fn(S, T) -> S, D: Fn(S, usize) -> S>(
    zero: S,
    accumulate: A,
    share: D,
    data: Seq<T>,
    before: CaptureState<S>,
    after: CaptureState<S>,
    k: int,
    worth: spec_fn(S) -> int,
    item_worth: spec_fn(T) -> int,
) -> (sum: S)
    requires
        before.channels >= 1,
        pushed(before, data, zero, accumulate, share, after),
        0 <= k < data.len() as int / before.channels as int,
        data.len() as int / before.channels as int - k <= 8192,
        forall|s: S, item: T, r: S| #[trigger]
            call_ensures(accumulate, (s, item), r) ==> worth(r) == worth(s) + item_worth(item),
    ensures
        worth(sum) == data.subrange(
            k * before.channels as int,
            (k + 1) * before.channels as int,
        ).fold_left(worth(zero), |total: int, item: T| total + item_worth(item)),
        call_ensures(
            share,
            (sum, before.channels),
            after.samples@[after.samples@.len() - (data.len() as int / before.channels as int
                - k)],
        ),
{
    let channels = before.channels as int;
    let sums = lemma_every_channel_is_mixed(zero, accumulate, share, data, before, after, k);
    lemma_frame_in_bounds(data.len() as int, channels, k);
    assert(0 <= k * channels) by (nonlinear_arith)
        requires
            0 <= k,
            1 <= channels,
    ;
    let frame = data.subrange(k * channels, (k + 1) * channels);
    assert forall|i: int|
        #![trigger sums[i]]
        0 <= i < frame.len() implies worth(sums[i + 1]) == worth(sums[i]) + item_worth(frame[i]) by {
        assert(call_ensures(accumulate, (sums[i], data[k * channels + i]), sums[i + 1]));
    }
    lemma_exact_sums(frame, sums, worth, item_worth, channels);
    assert(frame.take(channels) =~= frame);
    sums[channels]
}

proof fn lemma_exact_sums<T, S>(
    frame: Seq<T>,
    sums: Seq<S>,
    worth: spec_fn(S) -> int,
    item_worth: spec_fn(T) -> int,
    n: int,
)
    requires
        0 <= n <= frame.len(),
        forall|i: int|
            #![trigger sums[i]]
            0 <= i < frame.len() ==> worth(sums[i + 1]) == worth(sums[i]) + item_worth(frame[i]),
    ensures
        worth(sums[n]) == frame.take(n).fold_left(
            worth(sums[0]),
            |total: int, item: T| total + item_worth(item),
        ),
    decreases n,
{
    reveal_with_fuel(Seq::fold_left, 2);
    if n > 0 {
        lemma_exact_sums(frame, sums, worth, item_worth, n - 1);
        assert(frame.take(n).drop_last() =~= frame.take(n - 1));
        assert(worth(sums[n - 1 + 1]) == worth(sums[n - 1]) + item_worth(frame[n - 1]));
    }
}

/// An analysis of fewer than 2048 samples changes nothing.
pub proof fn lemma_too_few_samples_change_nothing<
    S: Copy,
    C,
    W: Fn(S, S) -> C,
    F: FnOnce(Vec<C>) -> [u32; BIN_COUNT],
    M: Fn(u32, u32) -> u32,
    N: Fn(u32, u32, u32) -> u32,
    B: Fn(u32, u32, u32) -> u32,
    Q: Fn(u32) -> u8,
>(
    weigh: W,
    transform: F,
    minus: M,
    normalize: N,
    blend: B,
    quantize: Q,
    before: CaptureState<S>,
    after: CaptureState<S>,
)
    requires
        before.samples@.len() < 2048,
        analyzed(before, weigh, transform, minus, normalize, blend, quantize, after),
    ensures
        after.samples@ == before.samples@,
        after.band_ranges@ == before.band_ranges@,
        after.smoothed@ == before.smoothed@,
        after.shared.bars@ == before.shared.bars@,
        after.shared.active == before.shared.active,
        after.channels == before.channels,
        after.window@ == before.window@,
        after.min_frequency == before.min_frequency,
        after.max_frequency == before.max_frequency,
        after.min_db == before.min_db,
        after.max_db == before.max_db,
        after.smoothing.rise == before.smoothing.rise,
        after.smoothing.fall == before.smoothing.fall,
{
}

/// Where a band's peak lies in the span, as its step placed it.
spec fn share_of<
    N: Fn(u32, u32, u32) -> u32,
    B: Fn(u32, u32, u32) -> u32,
    Q: Fn(u32) -> u8,
>(
    normalize: N,
    blend: B,
    quantize: Q,
    smoothing: Smoothing,
    highest: u32,
    min_db: u32,
    db_span: u32,
    before: u32,
    after: u32,
    bar: u8,
) -> u32 {
    choose|share: u32|
        #![trigger call_ensures(normalize, (highest, min_db, db_span), share)]
        {
            let level = single::limited(share, 0, single::ONE);
            &&& call_ensures(normalize, (highest, min_db, db_span), share)
            &&& call_ensures(blend, (before, level, smoothing.factor(level, before)), after)
            &&& call_ensures(quantize, (after,), bar)
        }
}

/// An analysis of 2048 samples or more weighs each of the last 2048 by the
/// weight at its place and takes one spectrum of them. Every band's level is
/// that of its own peak, the greatest of 0.000001 and the magnitudes of its
/// bins, moved into 0 to 1, in a span of loudness of at least 1. Where the
/// level is above the smoothed one, that moves towards it by the rising factor,
/// and otherwise by the falling one, whichever of the two factors is greater;
/// and the band's bar is what the moved level comes to. The spectrum is active
/// then, bars without a band stay, and nothing else changes.
///
/// The result is the weighed samples, the magnitudes, the difference between
/// the loudness limits, and for each band its peak, where that lies in the
/// span, and its level.
pub proof fn lemma_analysis_moves_every_bar<
    S: Copy,
    C,
    W: Fn(S, S) -> C,
    F: FnOnce(Vec<C>) -> [u32; BIN_COUNT],
    M: Fn(u32, u32) -> u32,
    N: Fn(u32, u32, u32) -> u32,
    B: Fn(u32, u32, u32) -> u32,
    Q: Fn(u32) -> u8,
>(
    weigh: W,
    transform: F,
    minus: M,
    normalize: N,
    blend: B,
    quantize: Q,
    before: CaptureState<S>,
    after: CaptureState<S>,
) -> (r: (Vec<C>, [u32; BIN_COUNT], u32, Seq<u32>, Seq<u32>, Seq<u32>))
    requires
        before.wf(),
        before.samples@.len() >= 2048,
        analyzed(before, weigh, transform, minus, normalize, blend, quantize, after),
    ensures
        ({
            let (weighed, magnitudes, difference, highest, share, level) = r;
            let db_span = if single::is_nan(difference) || single::above(0x3f80_0000, difference) {
                0x3f80_0000
            } else {
                difference
            };
            let count = before.band_ranges@.len();
            &&& weighed@.len() == 2048
            &&& forall|k: int|
                0 <= k < 2048 ==> call_ensures(
                    weigh,
                    (before.samples@[before.samples@.len() - 2048 + k], before.window@[k]),
                    #[trigger] weighed@[k],
                )
            &&& call_ensures(transform, (weighed,), magnitudes)
            &&& call_ensures(minus, (before.max_db, before.min_db), difference)
            &&& highest.len() == count
            &&& share.len() == count
            &&& level.len() == count
            &&& forall|i: int|
                0 <= i < count ==> !single::is_nan(#[trigger] highest[i]) && !single::above(
                    0x3586_37bd,
                    highest[i],
                )
            &&& forall|i: int, bin: int|
                0 <= i < count && before.band_ranges@[i].0 <= bin < before.band_ranges@[i].1
                    ==> !single::above(#[trigger] magnitudes@[bin], #[trigger] highest[i])
            &&& forall|i: int|
                0 <= i < count && #[trigger] highest[i] != 0x3586_37bd ==> exists|bin: int|
                    before.band_ranges@[i].0 <= bin < before.band_ranges@[i].1
                        && #[trigger] magnitudes@[bin] == highest[i]
            &&& forall|i: int|
                0 <= i < count ==> call_ensures(
                    normalize,
                    (highest[i], before.min_db, db_span),
                    #[trigger] share[i],
                )
            &&& forall|i: int|
                0 <= i < count ==> #[trigger] level[i] == if single::above(0, share[i]) {
                    0
                } else if single::above(share[i], 0x3f80_0000) {
                    0x3f80_0000
                } else {
                    share[i]
                }
            &&& forall|i: int|
                0 <= i < count && single::above(#[trigger] level[i], before.smoothed@[i])
                    ==> call_ensures(
                    blend,
                    (before.smoothed@[i], level[i], before.smoothing.rise),
                    after.smoothed@[i],
                )
            &&& forall|i: int|
                0 <= i < count && !single::above(#[trigger] level[i], before.smoothed@[i])
                    ==> call_ensures(
                    blend,
                    (before.smoothed@[i], level[i], before.smoothing.fall),
                    after.smoothed@[i],
                )
            &&& forall|i: int|
                0 <= i < count ==> call_ensures(
                    quantize,
                    (#[trigger] after.smoothed@[i],),
                    after.shared.bars@[i],
                )
            &&& forall|i: int|
                count <= i < before.shared.bars@.len() ==> #[trigger] after.shared.bars@[i]
                    == before.shared.bars@[i]
        }),
        after.shared.active,
        after.smoothed@.len() == before.smoothed@.len(),
        after.shared.bars@.len() == before.shared.bars@.len(),
        after.samples@ == before.samples@,
        after.band_ranges@ == before.band_ranges@,
        after.channels == before.channels,
        after.window@ == before.window@,
        after.min_frequency == before.min_frequency,
        after.max_frequency == before.max_frequency,
        after.min_db == before.min_db,
        after.max_db == before.max_db,
        after.smoothing.rise == before.smoothing.rise,
        after.smoothing.fall == before.smoothing.fall,
{
    let (weighed, magnitudes, difference) = lemma_analysis_parts(
        weigh,
        transform,
        minus,
        normalize,
        blend,
        quantize,
        before,
        after,
    );
    let db_span = single::larger(difference, single::ONE);
    let count = before.band_ranges@.len();
    let highest = Seq::new(
        count,
        |i: int|
            peak(
                magnitudes@,
                before.band_ranges@[i].0 as int,
                before.band_ranges@[i].1 as int,
            ),
    );
    let share = Seq::new(
        count,
        |i: int|
            share_of(
                normalize,
                blend,
                quantize,
                before.smoothing,
                highest[i],
                before.min_db,
                db_span,
                before.smoothed@[i],
                after.smoothed@[i],
                after.shared.bars@[i],
            ),
    );
    let level = Seq::new(count, |i: int| single::limited(share[i], 0, single::ONE));
    assert forall|i: int| 0 <= i < count implies {
        &&& call_ensures(normalize, (highest[i], before.min_db, db_span), #[trigger] share[i])
        &&& call_ensures(
            blend,
            (
                before.smoothed@[i],
                level[i],
                before.smoothing.factor(level[i], before.smoothed@[i]),
            ),
            after.smoothed@[i],
        )
        &&& call_ensures(quantize, (after.smoothed@[i],), after.shared.bars@[i])
    } by {
        assert(bar_step(
            normalize,
            blend,
            quantize,
            before.smoothing,
            highest[i],
            before.min_db,
            db_span,
            before.smoothed@[i],
            after.smoothed@[i],
            after.shared.bars@[i],
        ));
    }
    assert forall|i: int| 0 <= i < count implies {
        &&& !single::is_nan(#[trigger] highest[i])
        &&& !single::above(PEAK_FLOOR, highest[i])
        &&& forall|bin: int|
            before.band_ranges@[i].0 <= bin < before.band_ranges@[i].1 ==> !single::above(
                #[trigger] magnitudes@[bin],
                highest[i],
            )
        &&& highest[i] != PEAK_FLOOR ==> exists|bin: int|
            before.band_ranges@[i].0 <= bin < before.band_ranges@[i].1
                && #[trigger] magnitudes@[bin] == highest[i]
    } by {
        lemma_peak_is_greatest(
            magnitudes@,
            before.band_ranges@[i].0 as int,
            before.band_ranges@[i].1 as int,
        );
    }
    assert forall|i: int| 0 <= i < count implies call_ensures(
        quantize,
        (#[trigger] after.smoothed@[i],),
        after.shared.bars@[i],
    ) by {
        assert(share[i] == share[i]);
    }
    assert forall|i: int|
        0 <= i < count && single::above(#[trigger] level[i], before.smoothed@[i]) implies call_ensures(
        blend,
        (before.smoothed@[i], level[i], before.smoothing.rise),
        after.smoothed@[i],
    ) by {
        assert(share[i] == share[i]);
    }
    assert forall|i: int|
        0 <= i < count && !single::above(#[trigger] level[i], before.smoothed@[i]) implies call_ensures(
        blend,
        (before.smoothed@[i], level[i], before.smoothing.fall),
        after.smoothed@[i],
    ) by {
        assert(share[i] == share[i]);
    }
    (weighed, magnitudes, difference, highest, share, level)
}

/// A state that is made is a new one.
pub proof fn lemma_made_state_is_new<
    S: Copy,
    W: Fn(usize) -> S,
    H: Fn(u32) -> u32,
    M: Fn(u32, u32) -> u32,
    E: Fn(u32, u32, usize, usize, u32) -> usize,
>(
    shared: SharedSpectrum,
    config: EqualizerConfig,
    sample_rate: u32,
    channels: usize,
    weight: W,
    nyquist: H,
    minus: M,
    edge_bin: E,
    r: CaptureState<S>,
)
    requires
        call_ensures(
            CaptureState::<S>::new::<W, H, M, E>,
            (shared, &config, sample_rate, channels, weight, nyquist, minus, edge_bin),
            r,
        ),
    ensures
        r.wf(),
        created(shared, config, sample_rate, channels, weight, nyquist, minus, edge_bin, r),
{
}

/// Rebuilding the bands lays them out for the given rate.
pub proof fn lemma_rebuilding_lays_the_bands_out<
    S: Copy,
    H: Fn(u32) -> u32,
    M: Fn(u32, u32) -> u32,
    E: Fn(u32, u32, usize, usize, u32) -> usize,
>(sample_rate: u32, nyquist: H, minus: M, edge_bin: E)
    ensures
        forall|state: &mut CaptureState<S>| #[trigger]
            call_ensures(
                CaptureState::<S>::rebuild_bands::<H, M, E>,
                (state, sample_rate, nyquist, minus, edge_bin),
                (),
            ) ==> final(state).wf() && rebuilt(
                *state,
                sample_rate,
                nyquist,
                minus,
                edge_bin,
                *final(state),
            ),
{
}

/// Pushing samples puts the mix of all of them at the end of the history.
pub proof fn lemma_pushing_extends_the_history<T, S: Copy, A: Fn(S, T) -> S, D: Fn(S, usize) -> S>(
    data: &[T],
    zero: S,
    accumulate: A,
    share: D,
) where T: Copy
    ensures
        forall|state: &mut CaptureState<S>| #[trigger]
            call_ensures(
                CaptureState::<S>::push_samples::<T, A, D>,
                (state, data, zero, accumulate, share),
                (),
            ) ==> final(state).wf() && pushed(
                *state,
                data@,
                zero,
                accumulate,
                share,
                *final(state),
            ),
{
}

/// Analysing the history moves every bar.
pub proof fn lemma_analysing_moves_the_bars<
    S: Copy,
    C,
    W: Fn(S, S) -> C,
    F: FnOnce(Vec<C>) -> [u32; BIN_COUNT],
    M: Fn(u32, u32) -> u32,
    N: Fn(u32, u32, u32) -> u32,
    B: Fn(u32, u32, u32) -> u32,
    Q: Fn(u32) -> u8,
>(weigh: W, transform: F, minus: M, normalize: N, blend: B, quantize: Q)
    ensures
        forall|state: &mut CaptureState<S>| #[trigger]
            call_ensures(
                CaptureState::<S>::analyze::<C, W, F, M, N, B, Q>,
                (state, weigh, transform, minus, normalize, blend, quantize),
                (),
            ) ==> final(state).wf() && analyzed(
                *state,
                weigh,
                transform,
                minus,
                normalize,
                blend,
                quantize,
                *final(state),
            ),
{
}

/// Taking in a block is pushing it and then analysing, once each and in this
/// order: the analysis hears the block.
pub proof fn lemma_block_is_pushed_and_analysed<
    T,
    S: Copy,
    A: Fn(S, T) -> S,
    D: Fn(S, usize) -> S,
    C,
    W: Fn(S, S) -> C,
    F: FnOnce(Vec<C>) -> [u32; BIN_COUNT],
    M: Fn(u32, u32) -> u32,
    N: Fn(u32, u32, u32) -> u32,
    B: Fn(u32, u32, u32) -> u32,
    Q: Fn(u32) -> u8,
>(
    data: &[T],
    zero: S,
    accumulate: A,
    share: D,
    weigh: W,
    transform: F,
    minus: M,
    normalize: N,
    blend: B,
    quantize: Q,
) where T: Copy
    ensures
        forall|state: &mut CaptureState<S>| #[trigger]
            call_ensures(
                CaptureState::<S>::take_block::<T, A, D, C, W, F, M, N, B, Q>,
                (
                    state,
                    data,
                    zero,
                    accumulate,
                    share,
                    weigh,
                    transform,
                    minus,
                    normalize,
                    blend,
                    quantize,
                ),
                (),
            ) ==> final(state).wf() && exists|heard: CaptureState<S>|
                #[trigger] pushed(*state, data@, zero, accumulate, share, heard) && analyzed(
                    heard,
                    weigh,
                    transform,
                    minus,
                    normalize,
                    blend,
                    quantize,
                    *final(state),
                ),
{
}

} // verus!
