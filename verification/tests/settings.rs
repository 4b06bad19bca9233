use apex_equalizer::settings::{
    ConfiguredValues, EqualizerConfig, MAX_FREQUENCY, MAX_FREQUENCY_SINGLE, MAX_SMOOTHING,
    MIN_FREQUENCY, MIN_FREQUENCY_SINGLE, MIN_SMOOTHING, MIN_SMOOTHING_SINGLE,
};
use apex_equalizer::single::ONE;
use config::Config;

fn narrow(bits: u64) -> u32 {
    (f64::from_bits(bits) as f32).to_bits()
}

fn one_more(bits: u32) -> u64 {
    (f64::from(f32::from_bits(bits)) + 1.0).to_bits()
}

fn read(config: &Config) -> EqualizerConfig {
    EqualizerConfig::from_config(config, narrow, one_more)
}

fn single(bits: u32) -> f32 {
    f32::from_bits(bits)
}

#[test]
fn empty_configuration_gives_the_defaults() {
    let settings = read(&Config::new());
    assert_eq!(settings.polling_interval, 20);
    assert_eq!(settings.bar_count, 32);
    assert_eq!(single(settings.min_frequency), 20.0);
    assert_eq!(single(settings.max_frequency), 16_000.0);
    assert_eq!(single(settings.min_db), -72.0);
    assert_eq!(single(settings.max_db), -18.0);
    assert_eq!(single(settings.rise_smoothing), 0.6);
    assert_eq!(single(settings.fall_smoothing), 0.4);
    assert!(settings.capture_sink);
    assert_eq!(settings.device_name, None);
}

#[test]
fn configured_values_are_used() {
    let mut config = Config::new();
    config.set("equalizer.polling_interval", 50_i64).unwrap();
    config.set("equalizer.bar_count", "16").unwrap();
    config.set("equalizer.min_frequency", 40.5_f64).unwrap();
    config.set("equalizer.max_frequency", 12_000.0_f64).unwrap();
    config.set("equalizer.min_db", -60.0_f64).unwrap();
    config.set("equalizer.max_db", -6.0_f64).unwrap();
    config.set("equalizer.rise_smoothing", 0.25_f64).unwrap();
    config.set("equalizer.fall_smoothing", 1_i64).unwrap();
    config.set("equalizer.capture_sink", false).unwrap();
    config.set("equalizer.device_name", "Mic").unwrap();
    config.set("equalizer.target_object", "Other").unwrap();
    let settings = read(&config);
    assert_eq!(settings.polling_interval, 50);
    assert_eq!(settings.bar_count, 16);
    assert_eq!(single(settings.min_frequency), 40.5);
    assert_eq!(single(settings.max_frequency), 12_000.0);
    assert_eq!(single(settings.min_db), -60.0);
    assert_eq!(single(settings.max_db), -6.0);
    assert_eq!(single(settings.rise_smoothing), 0.25);
    assert_eq!(single(settings.fall_smoothing), 1.0);
    assert!(!settings.capture_sink);
    assert_eq!(settings.device_name.as_deref(), Some("Mic"));
}

#[test]
fn numbers_are_moved_into_their_ranges() {
    let mut low = Config::new();
    low.set("equalizer.polling_interval", -5_i64).unwrap();
    low.set("equalizer.bar_count", 0_i64).unwrap();
    low.set("equalizer.min_frequency", 1.0_f64).unwrap();
    low.set("equalizer.max_frequency", 2.0_f64).unwrap();
    low.set("equalizer.min_db", 3.0_f64).unwrap();
    low.set("equalizer.max_db", -3.0_f64).unwrap();
    low.set("equalizer.rise_smoothing", -1.0_f64).unwrap();
    let settings = read(&low);
    assert_eq!(settings.polling_interval, 16);
    assert_eq!(settings.bar_count, 4);
    assert_eq!(single(settings.min_frequency), 20.0);
    assert_eq!(single(settings.max_frequency), 21.0);
    assert_eq!(single(settings.min_db), 3.0);
    assert_eq!(single(settings.max_db), 4.0);
    assert_eq!(single(settings.rise_smoothing), 0.01);

    let mut high = Config::new();
    high.set("equalizer.polling_interval", i64::MAX).unwrap();
    high.set("equalizer.bar_count", 129_i64).unwrap();
    high.set("equalizer.min_frequency", 1.0e9_f64).unwrap();
    high.set("equalizer.max_frequency", 1.0e9_f64).unwrap();
    high.set("equalizer.fall_smoothing", 7.0_f64).unwrap();
    let settings = read(&high);
    assert_eq!(settings.polling_interval, 1000);
    assert_eq!(settings.bar_count, 128);
    assert_eq!(single(settings.min_frequency), 20_000.0);
    assert_eq!(single(settings.max_frequency), 20_000.0);
    assert_eq!(single(settings.fall_smoothing), 1.0);
}

#[test]
fn values_of_another_kind_count_as_missing() {
    let mut config = Config::new();
    config.set("equalizer.bar_count", "many").unwrap();
    config.set("equalizer.capture_sink", "maybe").unwrap();
    config.set("equalizer.min_db", "quiet").unwrap();
    config.set("equalizer.device_name", vec![1_i64]).unwrap();
    let settings = read(&config);
    assert_eq!(settings.bar_count, 32);
    assert!(settings.capture_sink);
    assert_eq!(single(settings.min_db), -72.0);
    assert_eq!(settings.device_name, None);
}

#[test]
fn target_object_names_the_device_where_device_name_does_not() {
    let mut config = Config::new();
    config.set("equalizer.target_object", "Sink 3").unwrap();
    assert_eq!(read(&config).device_name.as_deref(), Some("Sink 3"));
    config.set("equalizer.device_name", 42_i64).unwrap();
    assert_eq!(read(&config).device_name.as_deref(), Some("42"));
}

#[test]
fn values_are_read_as_they_are() {
    let mut config = Config::new();
    config.set("equalizer.bar_count", 900_i64).unwrap();
    config.set("equalizer.max_db", 0.5_f64).unwrap();
    let values = ConfiguredValues::read(&config);
    assert_eq!(values.bar_count, Some(900));
    assert_eq!(values.max_db, Some(0.5_f64.to_bits()));
    assert_eq!(values.polling_interval, None);
    assert_eq!(values.min_db, None);
    assert_eq!(values.capture_sink, None);
}

#[test]
fn limits_round_to_their_single_forms() {
    assert_eq!(narrow(MIN_FREQUENCY), MIN_FREQUENCY_SINGLE);
    assert_eq!(narrow(MAX_FREQUENCY), MAX_FREQUENCY_SINGLE);
    assert_eq!(narrow(MIN_SMOOTHING), MIN_SMOOTHING_SINGLE);
    assert_eq!(narrow(MAX_SMOOTHING), ONE);
    assert_eq!(single(MIN_FREQUENCY_SINGLE), 20.0);
    assert_eq!(single(MAX_FREQUENCY_SINGLE), 20_000.0);
    assert_eq!(single(MIN_SMOOTHING_SINGLE), 0.01);
}

#[test]
fn real_numbers_are_in_order_and_in_range() {
    let odd = [
        f64::NEG_INFINITY,
        -1.0e300,
        -72.0,
        -0.0,
        0.005,
        0.3,
        19.999_999_999,
        20.0,
        440.0,
        19_999.999_999,
        20_000.0,
        1.0e300,
        f64::INFINITY,
        f64::NAN,
    ];
    for low in odd {
        for high in odd {
            let settings = EqualizerConfig::from_values(
                ConfiguredValues {
                    polling_interval: None,
                    bar_count: None,
                    min_frequency: Some(low.to_bits()),
                    max_frequency: Some(high.to_bits()),
                    min_db: Some(low.to_bits()),
                    max_db: Some(high.to_bits()),
                    rise_smoothing: Some(low.to_bits()),
                    fall_smoothing: Some(high.to_bits()),
                    capture_sink: None,
                    device_name: None,
                    target_object: None,
                },
                narrow,
                one_more,
            );
            let (min, max) = (single(settings.min_frequency), single(settings.max_frequency));
            assert!(max <= 20_000.0, "{low} {high}");
            assert_eq!(min.is_nan(), low.is_nan());
            if !low.is_nan() {
                assert!(20.0 <= min && min <= max, "{low} {high}");
                assert!(single(settings.min_db) <= single(settings.max_db), "{low} {high}");
                assert!((0.01..=1.0).contains(&single(settings.rise_smoothing)));
            }
            if !high.is_nan() {
                assert!((0.01..=1.0).contains(&single(settings.fall_smoothing)));
            }
        }
    }
}
