use apex_equalizer::bands::{BIN_COUNT, FFT_SIZE, MAX_BIN};
use apex_equalizer::capture::{CaptureState, MAX_HISTORY};
use apex_equalizer::settings::EqualizerConfig;
use apex_equalizer::spectrum::SharedSpectrum;
use rustfft::{num_complex::Complex, FftPlanner};

fn settings(bar_count: usize) -> EqualizerConfig {
    EqualizerConfig {
        polling_interval: 20,
        bar_count,
        min_frequency: 20.0_f32.to_bits(),
        max_frequency: 16_000.0_f32.to_bits(),
        min_db: (-72.0_f32).to_bits(),
        max_db: (-18.0_f32).to_bits(),
        rise_smoothing: 0.6_f32.to_bits(),
        fall_smoothing: 0.4_f32.to_bits(),
        capture_sink: true,
        device_name: None,
    }
}

fn nyquist(rate: u32) -> u32 {
    (rate as f32 / 2.0).to_bits()
}

fn minus(a: u32, b: u32) -> u32 {
    (f32::from_bits(a) - f32::from_bits(b)).to_bits()
}

fn interpolated_bin(min_hz: u32, max_hz: u32, index: usize, count: usize, rate: u32) -> usize {
    let (min_hz, max_hz) = (f32::from_bits(min_hz), f32::from_bits(max_hz));
    let hz = min_hz * (max_hz / min_hz).powf(index as f32 / count as f32);
    ((hz / rate as f32) * FFT_SIZE as f32).round() as usize
}

fn counting_state(bar_count: usize, channels: usize) -> CaptureState<u32> {
    CaptureState::new(
        SharedSpectrum::new(bar_count),
        &settings(bar_count),
        48_000,
        channels,
        |place: usize| place as u32,
        nyquist,
        minus,
        |_min: u32, _max: u32, index: usize, count: usize, _rate: u32| {
            1 + index * MAX_BIN / count
        },
    )
}

fn push(state: &mut CaptureState<u32>, data: &[u8]) {
    state.push_samples(
        data,
        100_u32,
        |sum: u32, item: u8| sum * 2 + u32::from(item),
        |sum: u32, channels: usize| sum + 1000 * channels as u32,
    );
}

#[test]
fn new_state_is_empty_and_silent() {
    let state = counting_state(4, 0);
    assert_eq!(state.channels, 1);
    assert_eq!(state.samples, Vec::<u32>::new());
    assert_eq!(state.window.len(), FFT_SIZE);
    assert_eq!(state.window[7], 7);
    assert_eq!(
        state.band_ranges,
        vec![(1, 257), (257, 513), (513, 769), (769, 1025)]
    );
    assert_eq!(state.smoothed, vec![0; 4]);
    assert_eq!(state.smoothing.rise, 0.6_f32.to_bits());
    assert_eq!(state.smoothing.fall, 0.4_f32.to_bits());
    assert_eq!(state.shared.bars, vec![0; 4]);
    assert!(!state.shared.active);
    assert_eq!(counting_state(4, 6).channels, 6);
}

#[test]
fn bands_follow_the_sample_rate() {
    let mut state = counting_state(4, 1);
    push(&mut state, &[1, 2]);
    state.rebuild_bands(
        0,
        nyquist,
        minus,
        |_min: u32, _max: u32, index: usize, count: usize, rate: u32| {
            assert!(index <= count && count == 4);
            index * 10 * rate as usize
        },
    );
    assert_eq!(
        state.band_ranges,
        vec![(1, 10), (10, 20), (20, 30), (30, 1025)]
    );
    assert_eq!(state.samples.len(), 2);
}

#[test]
fn whole_frames_are_mixed_in_order() {
    let mut state = counting_state(4, 2);
    push(&mut state, &[1, 3, 5, 7, 9]);
    assert_eq!(
        state.samples,
        vec![2000 + (100 * 2 + 1) * 2 + 3, 2000 + (100 * 2 + 5) * 2 + 7]
    );
    push(&mut state, &[4]);
    assert_eq!(state.samples.len(), 2);
    push(&mut state, &[]);
    assert_eq!(state.samples.len(), 2);
}

#[test]
fn history_keeps_the_latest_samples() {
    let mut state = counting_state(4, 1);
    let data: Vec<u8> = (0..MAX_HISTORY + 5).map(|i| (i % 251) as u8).collect();
    push(&mut state, &data[..MAX_HISTORY]);
    assert_eq!(state.samples.len(), MAX_HISTORY);
    let tail = state.samples[1..].to_vec();
    push(&mut state, &data[MAX_HISTORY..MAX_HISTORY + 1]);
    assert_eq!(state.samples.len(), MAX_HISTORY);
    assert_eq!(state.samples[..MAX_HISTORY - 1], tail[..]);
}

#[test]
fn two_pushes_are_one() {
    let data: Vec<u8> = (0..3 * MAX_HISTORY).map(|i| (i % 241) as u8).collect();
    let mut whole = counting_state(4, 3);
    push(&mut whole, &data);
    let mut parts = counting_state(4, 3);
    push(&mut parts, &data[..3 * 1000]);
    push(&mut parts, &data[3 * 1000..]);
    assert_eq!(whole.samples, parts.samples);
}

fn step(state: &mut CaptureState<u32>, magnitudes: [u32; BIN_COUNT]) -> Vec<u32> {
    let mut seen = Vec::new();
    state.analyze(
        |sample: u32, weight: u32| sample + weight,
        |weighed: Vec<u32>| {
            seen = weighed;
            magnitudes
        },
        minus,
        |peak: u32, _min_db: u32, _span: u32| peak,
        |_before: u32, level: u32, factor: u32| {
            if factor == 0.6_f32.to_bits() {
                level
            } else {
                0.25_f32.to_bits()
            }
        },
        |level: u32| (f32::from_bits(level) * 100.0) as u8,
    );
    seen
}

#[test]
fn nothing_happens_before_there_is_enough() {
    let mut state = counting_state(4, 1);
    push(&mut state, &vec![9; FFT_SIZE - 1]);
    let seen = step(&mut state, [1.0_f32.to_bits(); BIN_COUNT]);
    assert!(seen.is_empty());
    assert!(!state.shared.active);
    assert_eq!(state.shared.bars, vec![0; 4]);
    assert_eq!(state.smoothed, vec![0; 4]);
}

#[test]
fn analysis_weighs_the_latest_samples() {
    let mut state = counting_state(4, 1);
    let data: Vec<u8> = (0..FFT_SIZE + 10).map(|i| (i % 256) as u8).collect();
    push(&mut state, &data);
    let seen = step(&mut state, [0; BIN_COUNT]);
    assert_eq!(seen.len(), FFT_SIZE);
    for (k, value) in seen.iter().enumerate() {
        let sample = 1000 + 200 + u32::from(data[k + 10]);
        assert_eq!(*value, sample + k as u32);
    }
    assert!(state.shared.active);
}

#[test]
fn bars_rise_and_fall_with_their_bands() {
    let mut state = counting_state(4, 1);
    push(&mut state, &vec![0; FFT_SIZE]);
    let mut magnitudes = [0_u32; BIN_COUNT];
    magnitudes[256] = 0.5_f32.to_bits();
    magnitudes[257] = 0.75_f32.to_bits();
    magnitudes[0] = 9.0_f32.to_bits();
    step(&mut state, magnitudes);
    let floor = 1.0e-6_f32.to_bits();
    assert_eq!(
        state.smoothed,
        vec![0.5_f32.to_bits(), 0.75_f32.to_bits(), floor, floor]
    );
    assert_eq!(state.shared.bars, vec![50, 75, 0, 0]);
    step(&mut state, [0.5_f32.to_bits(); BIN_COUNT]);
    assert_eq!(state.shared.bars, vec![25, 25, 50, 50]);
    assert!(state.shared.active);
}

/// One analysis of `signal`, written out in floating point.
fn analysed(signal: &[f32], bands: &[(usize, usize)], smoothed: &mut [f32]) -> Vec<u8> {
    let mut spectrum: Vec<Complex<f32>> = signal[signal.len() - FFT_SIZE..]
        .iter()
        .enumerate()
        .map(|(index, sample)| {
            let phase = (2.0 * std::f32::consts::PI * index as f32) / (FFT_SIZE as f32 - 1.0);
            Complex::new(sample * phase.cos(), 0.0)
        })
        .collect();
    FftPlanner::<f32>::new()
        .plan_fft_forward(FFT_SIZE)
        .process(&mut spectrum);
    let scale = 1.0 / FFT_SIZE as f32;
    let mut bars = Vec::new();
    for (index, (start, end)) in bands.iter().enumerate() {
        let mut peak = 1.0e-6_f32;
        for bin in *start..*end {
            peak = peak.max(spectrum[bin].norm() * scale);
        }
        let db = 20.0 * peak.log10();
        let normalized = ((db + 72.0) / 54.0).clamp(0.0, 1.0);
        let factor = if normalized > smoothed[index] { 0.6 } else { 0.4 };
        smoothed[index] += (normalized - smoothed[index]) * factor;
        bars.push((smoothed[index] * 255.0).round() as u8);
    }
    bars
}

fn analyse(state: &mut CaptureState<f32>) {
    state.analyze(
        |sample: f32, weight: f32| Complex::new(sample * weight, 0.0),
        |mut spectrum: Vec<Complex<f32>>| {
            FftPlanner::<f32>::new()
                .plan_fft_forward(FFT_SIZE)
                .process(&mut spectrum);
            let mut magnitudes = [0_u32; BIN_COUNT];
            for (slot, value) in magnitudes.iter_mut().zip(&spectrum) {
                *slot = (value.norm() * (1.0 / FFT_SIZE as f32)).to_bits();
            }
            magnitudes
        },
        minus,
        |peak: u32, min_db: u32, span: u32| {
            let db = 20.0 * f32::from_bits(peak).log10();
            ((db - f32::from_bits(min_db)) / f32::from_bits(span)).to_bits()
        },
        |smoothed: u32, level: u32, factor: u32| {
            let mut value = f32::from_bits(smoothed);
            value += (f32::from_bits(level) - value) * f32::from_bits(factor);
            value.to_bits()
        },
        |smoothed: u32| (f32::from_bits(smoothed) * 255.0).round() as u8,
    );
}

#[test]
fn analysis_agrees_with_floating_point() {
    let mut state: CaptureState<f32> = CaptureState::new(
        SharedSpectrum::new(8),
        &settings(8),
        44_100,
        2,
        |index: usize| {
            let phase = (2.0 * std::f32::consts::PI * index as f32) / (FFT_SIZE as f32 - 1.0);
            phase.cos()
        },
        nyquist,
        minus,
        interpolated_bin,
    );
    let mut signal = Vec::new();
    let mut smoothed = vec![0.0_f32; 8];
    for block in 0..12 {
        let loud = if block < 6 { 0.5 } else { 0.01 };
        let data: Vec<f32> = (0..2048)
            .map(|i| loud * ((block * 1024 + i / 2) as f32 * 0.05 * (1 + i % 2) as f32).sin())
            .collect();
        for frame in data.chunks_exact(2) {
            signal.push((0.0 + frame[0] + frame[1]) / 2.0);
        }
        state.push_samples(
            &data,
            0.0_f32,
            |sum: f32, item: f32| sum + item,
            |sum: f32, channels: usize| sum / channels as f32,
        );
        analyse(&mut state);
        if signal.len() < FFT_SIZE {
            assert!(!state.shared.active);
        } else {
            let bars = analysed(&signal, &state.band_ranges, &mut smoothed);
            assert_eq!(state.shared.bars, bars, "block {block}");
            assert!(state.shared.active);
        }
    }
    assert!(state.shared.bars.iter().any(|bar| *bar > 0));
    assert_eq!(state.samples.len(), MAX_HISTORY);
}

/// The bands for a sample rate, written out in floating point.
fn bands_for(config: &EqualizerConfig, sample_rate: u32) -> Vec<(usize, usize)> {
    let sample_rate = sample_rate.max(1);
    let nyquist = sample_rate as f32 / 2.0;
    let min_hz = f32::from_bits(config.min_frequency)
        .min(nyquist - 1.0)
        .max(20.0);
    let max_hz = f32::from_bits(config.max_frequency)
        .min(nyquist)
        .max(min_hz + 1.0);
    let bin = |t: f32| {
        let hz = min_hz * (max_hz / min_hz).powf(t);
        ((hz / sample_rate as f32) * FFT_SIZE as f32).round() as usize
    };
    (0..config.bar_count)
        .map(|index| {
            let count = config.bar_count as f32;
            let start = bin(index as f32 / count).clamp(1, MAX_BIN);
            let end = if index + 1 == config.bar_count {
                MAX_BIN + 1
            } else {
                bin((index + 1) as f32 / count).clamp(start + 1, MAX_BIN + 1)
            };
            (start, end)
        })
        .collect()
}

#[test]
fn bands_agree_with_floating_point() {
    for rate in [0, 1, 30, 42, 100, 8_000, 22_050, 44_100, 48_000, 192_000, u32::MAX] {
        for count in [4, 5, 32, 64, 128] {
            let config = settings(count);
            let state: CaptureState<u8> = CaptureState::new(
                SharedSpectrum::new(count),
                &config,
                rate,
                2,
                |_place: usize| 0_u8,
                nyquist,
                minus,
                interpolated_bin,
            );
            assert_eq!(state.band_ranges, bands_for(&config, rate), "{rate} {count}");
        }
    }
}

#[test]
fn loudness_is_placed_in_a_span_of_at_least_one() {
    let mut config = settings(4);
    config.min_db = (-1.0_f32).to_bits();
    config.max_db = (-1.5_f32).to_bits();
    let mut state: CaptureState<u32> = CaptureState::new(
        SharedSpectrum::new(4),
        &config,
        48_000,
        1,
        |_place: usize| 0_u32,
        nyquist,
        minus,
        interpolated_bin,
    );
    push(&mut state, &vec![0; FFT_SIZE]);
    state.analyze(
        |sample: u32, _weight: u32| sample,
        |_weighed: Vec<u32>| [0; BIN_COUNT],
        minus,
        |_peak: u32, min_db: u32, span: u32| {
            assert_eq!(f32::from_bits(min_db), -1.0);
            assert_eq!(f32::from_bits(span), 1.0);
            7.5_f32.to_bits()
        },
        |_before: u32, level: u32, factor: u32| {
            assert_eq!(f32::from_bits(level), 1.0);
            assert_eq!(f32::from_bits(factor), 0.6);
            level
        },
        |level: u32| (f32::from_bits(level) * 255.0) as u8,
    );
    assert_eq!(state.shared.bars, vec![255; 4]);
}

fn given_state(shared: SharedSpectrum) -> CaptureState<u32> {
    CaptureState::new(
        shared,
        &settings(4),
        48_000,
        1,
        |place: usize| place as u32,
        nyquist,
        minus,
        interpolated_bin,
    )
}

#[test]
fn new_state_keeps_the_given_spectrum() {
    let state = given_state(SharedSpectrum {
        bars: vec![9, 8, 7, 6],
        active: true,
    });
    assert_eq!(state.shared.bars, vec![9, 8, 7, 6]);
    assert!(state.shared.active);
    assert_eq!(state.smoothed, vec![0; 4]);
}

#[test]
fn bars_without_a_band_stay() {
    let mut state = given_state(SharedSpectrum {
        bars: vec![9, 8, 7, 6, 5, 4],
        active: false,
    });
    push(&mut state, &vec![0; FFT_SIZE]);
    step(&mut state, [0.5_f32.to_bits(); BIN_COUNT]);
    assert_eq!(state.shared.bars, vec![50, 50, 50, 50, 5, 4]);
    assert!(state.shared.active);
}

#[test]
fn a_block_is_pushed_and_then_analysed() {
    let mut state = counting_state(4, 1);
    let data: Vec<u8> = (0..FFT_SIZE).map(|i| (i % 256) as u8).collect();
    let mut seen = Vec::new();
    for block in data.chunks_exact(FFT_SIZE / 2) {
        seen.clear();
        state.take_block(
            block,
            100_u32,
            |sum: u32, item: u8| sum * 2 + u32::from(item),
            |sum: u32, channels: usize| sum + 1000 * channels as u32,
            |sample: u32, weight: u32| sample + weight,
            |weighed: Vec<u32>| {
                seen = weighed;
                [0.5_f32.to_bits(); BIN_COUNT]
            },
            minus,
            |peak: u32, _min_db: u32, _span: u32| peak,
            |_before: u32, level: u32, _factor: u32| level,
            |level: u32| (f32::from_bits(level) * 100.0) as u8,
        );
        let full = state.samples.len() == FFT_SIZE;
        assert_eq!(state.shared.active, full);
        assert_eq!(seen.is_empty(), !full);
    }
    assert_eq!(seen[FFT_SIZE - 1], 1000 + 200 + 255 + (FFT_SIZE - 1) as u32);
    assert_eq!(state.shared.bars, vec![50; 4]);

    let mut apart = counting_state(4, 1);
    push(&mut apart, &data);
    assert_eq!(apart.samples, state.samples);
}

#[test]
fn pushing_no_frame_changes_nothing() {
    let mut state = counting_state(4, 3);
    push(&mut state, &vec![5; 3 * MAX_HISTORY]);
    let before = state.samples.clone();
    push(&mut state, &[]);
    push(&mut state, &[1, 2]);
    assert_eq!(state.samples, before);
}

#[test]
fn only_the_last_rate_counts() {
    let fresh = |rate: u32| -> CaptureState<u8> {
        CaptureState::new(
            SharedSpectrum::new(16),
            &settings(16),
            rate,
            2,
            |_place: usize| 0_u8,
            nyquist,
            minus,
            interpolated_bin,
        )
    };
    let mut state = fresh(48_000);
    assert_ne!(state.band_ranges, fresh(8_000).band_ranges);
    for rate in [8_000, 96_000, 0, 22_050] {
        state.rebuild_bands(rate, nyquist, minus, interpolated_bin);
        assert_eq!(state.band_ranges, fresh(rate).band_ranges);
        let once = state.band_ranges.clone();
        state.rebuild_bands(rate, nyquist, minus, interpolated_bin);
        assert_eq!(state.band_ranges, once);
    }
    assert_eq!(state.shared.bars, vec![0; 16]);
    assert!(!state.shared.active);
}

fn float_state() -> CaptureState<f32> {
    CaptureState::new(
        SharedSpectrum::new(8),
        &settings(8),
        48_000,
        1,
        |_place: usize| 1.0_f32,
        nyquist,
        minus,
        interpolated_bin,
    )
}

fn push_mono(state: &mut CaptureState<f32>, data: &[f32]) {
    state.push_samples(
        data,
        0.0_f32,
        |sum: f32, item: f32| sum + item,
        |sum: f32, channels: usize| sum / channels as f32,
    );
}

#[test]
fn older_samples_make_no_difference() {
    let recent: Vec<f32> = (0..FFT_SIZE).map(|i| (i as f32 * 0.3).sin()).collect();
    let mut short = float_state();
    push_mono(&mut short, &recent);
    let mut long = float_state();
    push_mono(&mut long, &vec![0.75; 3000]);
    push_mono(&mut long, &recent);
    analyse(&mut short);
    analyse(&mut long);
    assert_ne!(short.samples.len(), long.samples.len());
    assert_eq!(short.smoothed, long.smoothed);
    assert_eq!(short.shared.bars, long.shared.bars);
    assert!(short.shared.bars.iter().any(|bar| *bar > 0));
}

#[test]
fn levels_stay_between_zero_and_one() {
    let mut state = float_state();
    for loud in [0.0, 1.0, 1.0e30, f32::INFINITY, f32::NAN, 1.0e-30, 3.0, 0.0] {
        let data: Vec<f32> = (0..FFT_SIZE).map(|i| loud * (i as f32 * 0.7).sin()).collect();
        push_mono(&mut state, &data);
        analyse(&mut state);
        for level in &state.smoothed {
            assert!((0.0..=1.0).contains(&f32::from_bits(*level)), "{loud}");
        }
    }
}

#[test]
fn what_is_no_number_acts_like_silence() {
    let tone: Vec<f32> = (0..FFT_SIZE).map(|i| (i as f32 * 0.3).sin()).collect();
    let mut broken = float_state();
    let mut silent = float_state();
    for state in [&mut broken, &mut silent] {
        push_mono(state, &tone);
        analyse(state);
        assert!(state.shared.bars.iter().any(|bar| *bar > 0));
    }
    push_mono(&mut broken, &vec![f32::NAN; FFT_SIZE]);
    push_mono(&mut silent, &vec![0.0; FFT_SIZE]);
    analyse(&mut broken);
    analyse(&mut silent);
    assert_eq!(broken.smoothed, silent.smoothed);
    assert_eq!(broken.shared.bars, silent.shared.bars);
}

#[test]
fn any_number_of_bars_up_to_the_limit_will_do() {
    for count in [0, 1, 3, 128] {
        let mut config = settings(count);
        config.polling_interval = 0;
        let mut state: CaptureState<u32> = CaptureState::new(
            SharedSpectrum::new(count),
            &config,
            48_000,
            1,
            |place: usize| place as u32,
            nyquist,
            minus,
            interpolated_bin,
        );
        assert_eq!(state.band_ranges, bands_for(&config, 48_000));
        push(&mut state, &vec![0; FFT_SIZE]);
        step(&mut state, [0.5_f32.to_bits(); BIN_COUNT]);
        assert_eq!(state.shared.bars, vec![50; count]);
        assert!(state.shared.active);
    }
}
