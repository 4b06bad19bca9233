use apex_equalizer::bands::{
    band_peak, bands_between, BIN_COUNT, FFT_SIZE, MAX_BIN, PEAK_FLOOR,
};

#[test]
fn bands_follow_the_edges() {
    assert_eq!(
        bands_between(&[10, 20, 40, 80]),
        vec![(10, 20), (20, 40), (40, 1025)]
    );
}

#[test]
fn bands_are_never_empty() {
    assert_eq!(
        bands_between(&[0, 0, 0, 0]),
        vec![(1, 2), (1, 2), (1, 1025)]
    );
    assert_eq!(
        bands_between(&[5000, 6000, usize::MAX]),
        vec![(1024, 1025), (1024, 1025)]
    );
}

#[test]
fn single_edge_makes_no_band() {
    assert_eq!(bands_between(&[7]), vec![]);
}

#[test]
fn bands_cover_every_bin_from_the_first() {
    let mut edges = Vec::new();
    let mut seed = 12345_u32;
    for _ in 0..33 {
        seed = seed.wrapping_mul(1_664_525).wrapping_add(1_013_904_223);
        edges.push((seed >> 20) as usize % 1500);
    }
    let bands = bands_between(&edges);
    for bin in bands[0].0..=MAX_BIN {
        assert!(bands.iter().any(|b| b.0 <= bin && bin < b.1), "{bin}");
    }
}

#[test]
fn rising_edges_make_rising_bands() {
    let edges: Vec<usize> = (0..=64).map(|i| i * i / 4).collect();
    let bands = bands_between(&edges);
    for pair in bands.windows(2) {
        assert!(pair[0].0 <= pair[1].0 && pair[0].1 <= pair[1].1);
    }
}

#[test]
fn neighbouring_bands_share_at_most_one_bin() {
    for pair in bands_between(&[3, 3, 3, 4, 9, 9, 2000, 2000]).windows(2) {
        assert!(pair[0].1 <= pair[1].0 + 1, "{pair:?}");
    }
    assert_eq!(
        bands_between(&[3, 3, 5]),
        vec![(3, 4), (3, 1025)]
    );
}

#[test]
fn what_is_no_number_counts_as_none() {
    let mut magnitudes = [f32::NAN.to_bits(); BIN_COUNT];
    assert_eq!(band_peak(&magnitudes, (1, 1025)), PEAK_FLOOR);
    magnitudes[8] = (-f32::NAN).to_bits();
    magnitudes[9] = 0.5_f32.to_bits();
    assert_eq!(band_peak(&magnitudes, (8, 11)), 0.5_f32.to_bits());
}

#[test]
fn peak_is_the_greatest_number_in_the_band() {
    let mut magnitudes = [0_u32; BIN_COUNT];
    magnitudes[2] = 0.25_f32.to_bits();
    magnitudes[3] = f32::NAN.to_bits();
    magnitudes[4] = 0.5_f32.to_bits();
    magnitudes[5] = 0.125_f32.to_bits();
    magnitudes[6] = 9.0_f32.to_bits();
    assert_eq!(band_peak(&magnitudes, (2, 6)), 0.5_f32.to_bits());
    assert_eq!(band_peak(&magnitudes, (3, 4)), PEAK_FLOOR);
    assert_eq!(band_peak(&magnitudes, (7, 1025)), PEAK_FLOOR);
    assert_eq!(band_peak(&magnitudes, (1, 1025)), 9.0_f32.to_bits());
    assert_eq!(FFT_SIZE, 2048);
}
