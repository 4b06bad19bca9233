//! The equaliser's settings and how they are read from a configuration.
//!
//! Real numbers are held by their bit patterns: double precision as they are
//! configured, single precision as they are used. Rounding the one to the
//! other is a function that the caller brings; defaults and limits are set
//! here.

use config::Config;
use vstd::prelude::*;

use crate::bands::clamped;
use crate::double;
use crate::single;

verus! {

pub const DEFAULT_POLLING_INTERVAL: i64 = 20;

pub const MIN_POLLING_INTERVAL: i64 = 16;

pub const MAX_POLLING_INTERVAL: i64 = 1000;

pub const DEFAULT_BAR_COUNT: i64 = 32;

pub const MIN_BAR_COUNT: i64 = 4;

pub const MAX_BAR_COUNT: i64 = 128;

/// The bit pattern of 20, the lowest frequency in hertz.
pub const MIN_FREQUENCY: u64 = 0x4034_0000_0000_0000;

/// The bit pattern of 20000, the highest frequency in hertz.
pub const MAX_FREQUENCY: u64 = 0x40d3_8800_0000_0000;

/// The bit pattern of 20.
pub const DEFAULT_MIN_FREQUENCY: u64 = 0x4034_0000_0000_0000;

/// The bit pattern of 16000.
pub const DEFAULT_MAX_FREQUENCY: u64 = 0x40cf_4000_0000_0000;

/// The bit pattern of -72, in decibels.
pub const DEFAULT_MIN_DB: u64 = 0xc052_0000_0000_0000;

/// The bit pattern of -18, in decibels.
pub const DEFAULT_MAX_DB: u64 = 0xc032_0000_0000_0000;

/// The bit pattern of 0.6.
pub const DEFAULT_RISE_SMOOTHING: u64 = 0x3fe3_3333_3333_3333;

/// The bit pattern of 0.4.
pub const DEFAULT_FALL_SMOOTHING: u64 = 0x3fd9_9999_9999_999a;

/// The bit pattern of 0.01.
pub const MIN_SMOOTHING: u64 = 0x3f84_7ae1_47ae_147b;

/// The bit pattern of 1.
pub const MAX_SMOOTHING: u64 = 0x3ff0_0000_0000_0000;

/// The bit pattern of [`MIN_FREQUENCY`] in single precision.
pub const MIN_FREQUENCY_SINGLE: u32 = 0x41a0_0000;

/// The bit pattern of [`MAX_FREQUENCY`] in single precision.
pub const MAX_FREQUENCY_SINGLE: u32 = 0x469c_4000;

/// The bit pattern of [`MIN_SMOOTHING`] rounded to single precision.
pub const MIN_SMOOTHING_SINGLE: u32 = 0x3c23_d70a;

/// `config::Config`, a tree of named values, seen here only through what its
/// getters give for a key.
#[verifier::external_type_specification]
#[verifier::external_body]
pub struct ExConfig(config::Config);

/// The keys for which `Config::get_int` succeeds, each with what it gives.
pub uninterp spec fn config_ints(config: Config) -> Map<Seq<char>, i64>;

/// The keys for which `Config::get_bool` succeeds, each with what it gives.
pub uninterp spec fn config_bools(config: Config) -> Map<Seq<char>, bool>;

/// The keys for which `Config::get_str` succeeds, each with what it gives.
pub uninterp spec fn config_strs(config: Config) -> Map<Seq<char>, Seq<char>>;

/// The keys for which `Config::get_float` succeeds, each with the bit pattern
/// of what it gives.
pub uninterp spec fn config_floats(config: Config) -> Map<Seq<char>, u64>;

/// A key without subscripts, and short: only such keys are looked up. A
/// negative subscript beyond the end of a list makes a lookup panic, and so
/// may a key of very many parts, since each part is a level of recursion.
pub open spec fn plain_key(key: Seq<char>) -> bool {
    key.len() <= 64 && !key.contains('[')
}

/// What `map` holds at `key`, if anything.
pub open spec fn entry<V>(map: Map<Seq<char>, V>, key: Seq<char>) -> Option<V> {
    if map.contains_key(key) {
        Some(map[key])
    } else {
        None
    }
}

/// Calls `config::Config::get_int`. Its result depends on nothing but the
/// configuration and the key; `None` stands for any error.
#[verifier::external_body]
fn get_int(config: &Config, key: &str) -> (r: Option<i64>)
    requires
        plain_key(key@),
    ensures
        r == entry(config_ints(*config), key@),
{
    config.get_int(key).ok()
}

/// Calls `config::Config::get_bool`. Its result depends on nothing but the
/// configuration and the key; `None` stands for any error.
#[verifier::external_body]
fn get_bool(config: &Config, key: &str) -> (r: Option<bool>)
    requires
        plain_key(key@),
    ensures
        r == entry(config_bools(*config), key@),
{
    config.get_bool(key).ok()
}

/// Calls `config::Config::get_str`. Its result depends on nothing but the
/// configuration and the key; `None` stands for any error.
#[verifier::external_body]
fn get_str(config: &Config, key: &str) -> (r: Option<String>)
    requires
        plain_key(key@),
    ensures
        text_of(r) == entry(config_strs(*config), key@),
{
    config.get_str(key).ok()
}

/// Calls `config::Config::get_float` and takes the bit pattern of the result.
/// It depends on nothing but the configuration and the key; `None` stands for
/// any error.
#[verifier::external_body]
fn get_float(config: &Config, key: &str) -> (r: Option<u64>)
    requires
        plain_key(key@),
    ensures
        r == entry(config_floats(*config), key@),
{
    config.get_float(key).ok().map(|value| value.to_bits())
}

/// The characters of a string that may be missing.
pub open spec fn text_of(s: Option<String>) -> Option<Seq<char>> {
    match s {
        Some(text) => Some(text@),
        None => None,
    }
}

/// The configured value, or the default where there is none.
pub open spec fn value_or<V>(configured: Option<V>, default: V) -> V {
    match configured {
        Some(value) => value,
        None => default,
    }
}

/// The first of the two that is there.
pub open spec fn first_of(a: Option<Seq<char>>, b: Option<Seq<char>>) -> Option<Seq<char>> {
    match a {
        Some(_) => a,
        None => b,
    }
}

fn or_default<V>(configured: Option<V>, default: V) -> (r: V)
    ensures
        r == value_or(configured, default),
{
    match configured {
        Some(value) => value,
        None => default,
    }
}

fn clamp(value: i64, low: i64, high: i64) -> (r: i64)
    requires
        low <= high,
    ensures
        r == clamped(value as int, low as int, high as int),
{
    if value < low {
        low
    } else if value > high {
        high
    } else {
        value
    }
}

/// What a configuration says under `equalizer`, before defaults and limits.
pub struct ConfiguredValues {
    pub polling_interval: Option<i64>,
    pub bar_count: Option<i64>,
    pub min_frequency: Option<u64>,
    pub max_frequency: Option<u64>,
    pub min_db: Option<u64>,
    pub max_db: Option<u64>,
    pub rise_smoothing: Option<u64>,
    pub fall_smoothing: Option<u64>,
    pub capture_sink: Option<bool>,
    pub device_name: Option<String>,
    pub target_object: Option<String>,
}

impl ConfiguredValues {
    /// The values are those of the configuration.
    pub open spec fn are_of(&self, config: Config) -> bool {
        let ints = config_ints(config);
        let floats = config_floats(config);
        let strs = config_strs(config);
        &&& self.polling_interval == entry(ints, "equalizer.polling_interval"@)
        &&& self.bar_count == entry(ints, "equalizer.bar_count"@)
        &&& self.min_frequency == entry(floats, "equalizer.min_frequency"@)
        &&& self.max_frequency == entry(floats, "equalizer.max_frequency"@)
        &&& self.min_db == entry(floats, "equalizer.min_db"@)
        &&& self.max_db == entry(floats, "equalizer.max_db"@)
        &&& self.rise_smoothing == entry(floats, "equalizer.rise_smoothing"@)
        &&& self.fall_smoothing == entry(floats, "equalizer.fall_smoothing"@)
        &&& self.capture_sink == entry(config_bools(config), "equalizer.capture_sink"@)
        &&& text_of(self.device_name) == entry(strs, "equalizer.device_name"@)
        &&& text_of(self.target_object) == entry(strs, "equalizer.target_object"@)
    }

    /// Reads the values from the configuration.
    pub fn read(config: &Config) -> (r: ConfiguredValues)
        ensures
            r.are_of(*config),
    {
        proof {
            reveal_strlit("equalizer.polling_interval");
            reveal_strlit("equalizer.bar_count");
            reveal_strlit("equalizer.min_frequency");
            reveal_strlit("equalizer.max_frequency");
            reveal_strlit("equalizer.min_db");
            reveal_strlit("equalizer.max_db");
            reveal_strlit("equalizer.rise_smoothing");
            reveal_strlit("equalizer.fall_smoothing");
            reveal_strlit("equalizer.capture_sink");
            reveal_strlit("equalizer.device_name");
            reveal_strlit("equalizer.target_object");
        }
        ConfiguredValues {
            polling_interval: get_int(config, "equalizer.polling_interval"),
            bar_count: get_int(config, "equalizer.bar_count"),
            min_frequency: get_float(config, "equalizer.min_frequency"),
            max_frequency: get_float(config, "equalizer.max_frequency"),
            min_db: get_float(config, "equalizer.min_db"),
            max_db: get_float(config, "equalizer.max_db"),
            rise_smoothing: get_float(config, "equalizer.rise_smoothing"),
            fall_smoothing: get_float(config, "equalizer.fall_smoothing"),
            capture_sink: get_bool(config, "equalizer.capture_sink"),
            device_name: get_str(config, "equalizer.device_name"),
            target_object: get_str(config, "equalizer.target_object"),
        }
    }
}

/// The settings: how often the picture is drawn, in milliseconds; how many
/// bars it has; the frequencies in hertz and the loudness in decibels that it
/// spans; how fast bars rise and fall; whether to record what is played; and
/// which device to record from.
#[derive(Debug, Clone)]
pub struct EqualizerConfig {
    pub polling_interval: u64,
    pub bar_count: usize,
    pub min_frequency: u32,
    pub max_frequency: u32,
    pub min_db: u32,
    pub max_db: u32,
    pub rise_smoothing: u32,
    pub fall_smoothing: u32,
    pub capture_sink: bool,
    pub device_name: Option<String>,
}

impl EqualizerConfig {
    /// The whole numbers are in their ranges.
    pub open spec fn wf(&self) -> bool {
        &&& MIN_POLLING_INTERVAL <= self.polling_interval <= MAX_POLLING_INTERVAL
        &&& MIN_BAR_COUNT <= self.bar_count <= MAX_BAR_COUNT
    }

    /// The settings that are no real numbers are those that the values ask
    /// for: the whole numbers moved into their ranges, recording what is
    /// played unless that is switched off, and the device named by
    /// `device_name` or, failing that, by `target_object`.
    pub open spec fn follows(&self, values: ConfiguredValues) -> bool {
        &&& self.polling_interval == clamped(
            value_or(values.polling_interval, DEFAULT_POLLING_INTERVAL) as int,
            MIN_POLLING_INTERVAL as int,
            MAX_POLLING_INTERVAL as int,
        )
        &&& self.bar_count == clamped(
            value_or(values.bar_count, DEFAULT_BAR_COUNT) as int,
            MIN_BAR_COUNT as int,
            MAX_BAR_COUNT as int,
        )
        &&& self.capture_sink == value_or(values.capture_sink, true)
        &&& text_of(self.device_name) == first_of(
            text_of(values.device_name),
            text_of(values.target_object),
        )
    }

    /// The lowest frequency and the smoothing factors are the configured
    /// ones, moved into their ranges; so is the lowest loudness, which has no
    /// range.
    pub open spec fn follows_limits<N: Fn(u64) -> u32>(
        &self,
        narrow: N,
        values: ConfiguredValues,
    ) -> bool {
        &&& call_ensures(
            narrow,
            (double::limited(
                value_or(values.min_frequency, DEFAULT_MIN_FREQUENCY),
                MIN_FREQUENCY,
                MAX_FREQUENCY,
            ),),
            self.min_frequency,
        )
        &&& call_ensures(narrow, (value_or(values.min_db, DEFAULT_MIN_DB),), self.min_db)
        &&& call_ensures(
            narrow,
            (double::limited(
                value_or(values.rise_smoothing, DEFAULT_RISE_SMOOTHING),
                MIN_SMOOTHING,
                MAX_SMOOTHING,
            ),),
            self.rise_smoothing,
        )
        &&& call_ensures(
            narrow,
            (double::limited(
                value_or(values.fall_smoothing, DEFAULT_FALL_SMOOTHING),
                MIN_SMOOTHING,
                MAX_SMOOTHING,
            ),),
            self.fall_smoothing,
        )
    }

    /// The highest frequency and loudness are the configured ones, but at
    /// least one more than the lowest, and the frequency is never above its
    /// limit.
    pub open spec fn follows_spans<N: Fn(u64) -> u32, P: Fn(u32) -> u64>(
        &self,
        narrow: N,
        one_more: P,
        values: ConfiguredValues,
    ) -> bool {
        &&& exists|least: u64|
            #![trigger call_ensures(one_more, (self.min_frequency,), least)]
            call_ensures(one_more, (self.min_frequency,), least) && call_ensures(
                narrow,
                (double::smaller(
                    double::larger(
                        value_or(values.max_frequency, DEFAULT_MAX_FREQUENCY),
                        least,
                    ),
                    MAX_FREQUENCY,
                ),),
                self.max_frequency,
            )
        &&& exists|least: u64|
            #![trigger call_ensures(one_more, (self.min_db,), least)]
            call_ensures(one_more, (self.min_db,), least) && call_ensures(
                narrow,
                (double::larger(value_or(values.max_db, DEFAULT_MAX_DB), least),),
                self.max_db,
            )
    }

    /// The settings for the given values. `narrow` rounds a double to single
    /// precision, and `one_more` is a single plus one, as a double.
    pub fn from_values<N: Fn(u64) -> u32, P: Fn(u32) -> u64>(
        values: ConfiguredValues,
        narrow: N,
        one_more: P,
    ) -> (r: EqualizerConfig)
        requires
            forall|value: u64| #[trigger] call_requires(narrow, (value,)),
            forall|value: u32| #[trigger] call_requires(one_more, (value,)),
        ensures
            r.wf(),
            r.follows(values),
            r.follows_limits(narrow, values),
            r.follows_spans(narrow, one_more, values),
    {
        let min_frequency: u32 = narrow(
            double::clamp(
                or_default(values.min_frequency, DEFAULT_MIN_FREQUENCY),
                MIN_FREQUENCY,
                MAX_FREQUENCY,
            ),
        );
        let min_db: u32 = narrow(or_default(values.min_db, DEFAULT_MIN_DB));
        let least_frequency: u64 = one_more(min_frequency);
        let max_frequency: u32 = narrow(
            double::min(
                double::max(
                    or_default(values.max_frequency, DEFAULT_MAX_FREQUENCY),
                    least_frequency,
                ),
                MAX_FREQUENCY,
            ),
        );
        let least_db: u64 = one_more(min_db);
        let max_db: u32 = narrow(double::max(or_default(values.max_db, DEFAULT_MAX_DB), least_db));
        let rise_smoothing: u32 = narrow(
            double::clamp(
                or_default(values.rise_smoothing, DEFAULT_RISE_SMOOTHING),
                MIN_SMOOTHING,
                MAX_SMOOTHING,
            ),
        );
        let fall_smoothing: u32 = narrow(
            double::clamp(
                or_default(values.fall_smoothing, DEFAULT_FALL_SMOOTHING),
                MIN_SMOOTHING,
                MAX_SMOOTHING,
            ),
        );
        assert(call_ensures(one_more, (min_frequency,), least_frequency));
        assert(call_ensures(one_more, (min_db,), least_db));
        EqualizerConfig {
            polling_interval: clamp(
                or_default(values.polling_interval, DEFAULT_POLLING_INTERVAL),
                MIN_POLLING_INTERVAL,
                MAX_POLLING_INTERVAL,
            ) as u64,
            bar_count: clamp(
                or_default(values.bar_count, DEFAULT_BAR_COUNT),
                MIN_BAR_COUNT,
                MAX_BAR_COUNT,
            ) as usize,
            min_frequency,
            max_frequency,
            min_db,
            max_db,
            rise_smoothing,
            fall_smoothing,
            capture_sink: or_default(values.capture_sink, true),
            device_name: match values.device_name {
                Some(name) => Some(name),
                None => values.target_object,
            },
        }
    }

    /// Reads the settings under `equalizer` from the configuration.
    pub fn from_config<N: Fn(u64) -> u32, P: Fn(u32) -> u64>(
        config: &Config,
        narrow: N,
        one_more: P,
    ) -> (r: EqualizerConfig)
        requires
            forall|value: u64| #[trigger] call_requires(narrow, (value,)),
            forall|value: u32| #[trigger] call_requires(one_more, (value,)),
        ensures
            r.wf(),
            exists|values: ConfiguredValues| #[trigger]
                values.are_of(*config) && r.follows(values) && r.follows_limits(narrow, values)
                    && r.follows_spans(narrow, one_more, values),
    {
        EqualizerConfig::from_values(ConfiguredValues::read(config), narrow, one_more)
    }
}

/// `narrow` computes `rounding`, which gives a number for a number and only
/// then, and never falls where its argument rises.
pub open spec fn rounds_in_order<N: Fn(u64) -> u32>(
    narrow: N,
    rounding: spec_fn(u64) -> u32,
) -> bool {
    &&& forall|value: u64, r: u32| #[trigger]
        call_ensures(narrow, (value,), r) ==> r == rounding(value)
    &&& forall|value: u64| single::is_nan(#[trigger] rounding(value)) == double::is_nan(value)
    &&& forall|a: u64, b: u64|
        #![trigger rounding(a), rounding(b)]
        !double::is_nan(a) && !double::is_nan(b) && double::rank(a) <= double::rank(b)
            ==> single::rank(rounding(a)) <= single::rank(rounding(b))
}

/// What `one_more` gives for a number is a number, which rounds to nothing
/// below its argument.
pub open spec fn never_less<P: Fn(u32) -> u64>(
    one_more: P,
    rounding: spec_fn(u64) -> u32,
) -> bool {
    forall|value: u32, r: u64| #[trigger]
        call_ensures(one_more, (value,), r) && !single::is_nan(value) ==> !double::is_nan(r)
            && single::rank(value) <= single::rank(rounding(r))
}

/// The value is missing or a number.
pub open spec fn no_nan(configured: Option<u64>) -> bool {
    match configured {
        Some(value) => !double::is_nan(value),
        None => true,
    }
}

/// The frequencies are in order and within their limits: the lowest is not
/// above the highest, the highest is a number and at most 20000, and unless
/// the lowest is configured as what is no number, it is a number and at least
/// 20.
pub proof fn lemma_frequencies_in_order<N: Fn(u64) -> u32, P: Fn(u32) -> u64>(
    config: EqualizerConfig,
    values: ConfiguredValues,
    narrow: N,
    one_more: P,
    rounding: spec_fn(u64) -> u32,
)
    requires
        config.follows_limits(narrow, values),
        config.follows_spans(narrow, one_more, values),
        rounds_in_order(narrow, rounding),
        rounding(MIN_FREQUENCY) == MIN_FREQUENCY_SINGLE,
        rounding(MAX_FREQUENCY) == MAX_FREQUENCY_SINGLE,
        never_less(one_more, rounding),
    ensures
        !single::above(MIN_FREQUENCY_SINGLE, config.min_frequency),
        !single::above(config.min_frequency, config.max_frequency),
        !single::above(config.max_frequency, MAX_FREQUENCY_SINGLE),
        !single::is_nan(config.max_frequency),
        no_nan(values.min_frequency) ==> !single::is_nan(config.min_frequency),
{
    let low = double::limited(
        value_or(values.min_frequency, DEFAULT_MIN_FREQUENCY),
        MIN_FREQUENCY,
        MAX_FREQUENCY,
    );
    let asked = value_or(values.max_frequency, DEFAULT_MAX_FREQUENCY);
    let least = choose|least: u64|
        #![trigger call_ensures(one_more, (config.min_frequency,), least)]
        call_ensures(one_more, (config.min_frequency,), least) && call_ensures(
            narrow,
            (double::smaller(double::larger(asked, least), MAX_FREQUENCY),),
            config.max_frequency,
        );
    let high = double::smaller(double::larger(asked, least), MAX_FREQUENCY);
    assert(config.min_frequency == rounding(low));
    assert(config.max_frequency == rounding(high));
    assert(!double::is_nan(high) && double::rank(high) <= double::rank(MAX_FREQUENCY));
    if !double::is_nan(low) {
        assert(double::rank(MIN_FREQUENCY) <= double::rank(low) <= double::rank(MAX_FREQUENCY));
        if high != MAX_FREQUENCY {
            assert(double::rank(least) <= double::rank(high));
            assert(single::rank(rounding(least)) <= single::rank(rounding(high)));
        }
    }
}

/// The lowest loudness is not above the highest. Unless the lowest is
/// configured as what is no number, both are numbers.
pub proof fn lemma_loudness_in_order<N: Fn(u64) -> u32, P: Fn(u32) -> u64>(
    config: EqualizerConfig,
    values: ConfiguredValues,
    narrow: N,
    one_more: P,
    rounding: spec_fn(u64) -> u32,
)
    requires
        config.follows_limits(narrow, values),
        config.follows_spans(narrow, one_more, values),
        rounds_in_order(narrow, rounding),
        never_less(one_more, rounding),
    ensures
        !single::above(config.min_db, config.max_db),
        no_nan(values.min_db) ==> !single::is_nan(config.min_db) && !single::is_nan(
            config.max_db,
        ),
{
    let low = value_or(values.min_db, DEFAULT_MIN_DB);
    let asked = value_or(values.max_db, DEFAULT_MAX_DB);
    let least = choose|least: u64|
        #![trigger call_ensures(one_more, (config.min_db,), least)]
        call_ensures(one_more, (config.min_db,), least) && call_ensures(
            narrow,
            (double::larger(asked, least),),
            config.max_db,
        );
    let high = double::larger(asked, least);
    assert(config.min_db == rounding(low));
    assert(config.max_db == rounding(high));
    if !double::is_nan(low) {
        assert(double::rank(least) <= double::rank(high));
        assert(single::rank(rounding(least)) <= single::rank(rounding(high)));
    }
}

/// The smoothing factors lie between 0.01 and 1. Each is a number unless it is
/// configured as what is none.
pub proof fn lemma_smoothing_in_range<N: Fn(u64) -> u32>(
    config: EqualizerConfig,
    values: ConfiguredValues,
    narrow: N,
    rounding: spec_fn(u64) -> u32,
)
    requires
        config.follows_limits(narrow, values),
        rounds_in_order(narrow, rounding),
        rounding(MIN_SMOOTHING) == MIN_SMOOTHING_SINGLE,
        rounding(MAX_SMOOTHING) == single::ONE,
    ensures
        !single::above(MIN_SMOOTHING_SINGLE, config.rise_smoothing),
        !single::above(config.rise_smoothing, single::ONE),
        no_nan(values.rise_smoothing) ==> !single::is_nan(config.rise_smoothing),
        !single::above(MIN_SMOOTHING_SINGLE, config.fall_smoothing),
        !single::above(config.fall_smoothing, single::ONE),
        no_nan(values.fall_smoothing) ==> !single::is_nan(config.fall_smoothing),
{
    let rise = double::limited(
        value_or(values.rise_smoothing, DEFAULT_RISE_SMOOTHING),
        MIN_SMOOTHING,
        MAX_SMOOTHING,
    );
    let fall = double::limited(
        value_or(values.fall_smoothing, DEFAULT_FALL_SMOOTHING),
        MIN_SMOOTHING,
        MAX_SMOOTHING,
    );
    assert(config.rise_smoothing == rounding(rise));
    assert(config.fall_smoothing == rounding(fall));
}

/// A device that is configured by `device_name` is the one to use, whether
/// `target_object` is there or not; `target_object` counts only where
/// `device_name` is missing; and where both are, there is no preferred device.
pub proof fn lemma_device_name_comes_first(config: EqualizerConfig, values: ConfiguredValues)
    requires
        config.follows(values),
    ensures
        match (values.device_name, values.target_object) {
            (Some(name), _) => config.device_name is Some && config.device_name->0@ == name@,
            (None, Some(target)) => config.device_name is Some && config.device_name->0@
                == target@,
            (None, None) => config.device_name is None,
        },
{
}

/// What is played is recorded unless that is switched off. Whole numbers in
/// their ranges are used as they are configured, those outside are moved to
/// the nearer end, and those that are missing have their defaults.
pub proof fn lemma_whole_numbers_are_moved_only_from_outside(
    config: EqualizerConfig,
    values: ConfiguredValues,
)
    requires
        config.follows(values),
    ensures
        config.capture_sink <==> values.capture_sink != Some(false),
        match values.polling_interval {
            Some(n) => {
                &&& 16 <= n <= 1000 ==> config.polling_interval == n
                &&& n < 16 ==> config.polling_interval == 16
                &&& n > 1000 ==> config.polling_interval == 1000
            },
            None => config.polling_interval == 20,
        },
        match values.bar_count {
            Some(n) => {
                &&& 4 <= n <= 128 ==> config.bar_count == n
                &&& n < 4 ==> config.bar_count == 4
                &&& n > 128 ==> config.bar_count == 128
            },
            None => config.bar_count == 32,
        },
{
}

/// The settings are usable exactly where the polling interval is from 16 to
/// 1000 and there are 4 to 128 bars.
pub proof fn lemma_usable_settings(config: EqualizerConfig)
    ensures
        config.wf() <==> 16 <= config.polling_interval <= 1000 && 4 <= config.bar_count <= 128,
{
}

/// The lowest frequency and loudness and the smoothing factors are rounded
/// from what is configured for each, as it is where it lies in its range, and
/// from the nearer end where it does not: 20 to 20000 for the frequency, 0.01
/// to 1 for a factor, and no limit for the loudness. What is missing is 20
/// hertz, -72 decibels, 0.6 for rising and 0.4 for falling.
pub proof fn lemma_real_numbers_are_moved_only_from_outside<N: Fn(u64) -> u32>(
    config: EqualizerConfig,
    values: ConfiguredValues,
    narrow: N,
)
    requires
        config.follows_limits(narrow, values),
    ensures
        match values.min_frequency {
            Some(v) => {
                let used = if double::above(0x4034_0000_0000_0000, v) {
                    0x4034_0000_0000_0000
                } else if double::above(v, 0x40d3_8800_0000_0000) {
                    0x40d3_8800_0000_0000
                } else {
                    v
                };
                call_ensures(narrow, (used,), config.min_frequency)
            },
            None => call_ensures(narrow, (0x4034_0000_0000_0000,), config.min_frequency),
        },
        match values.min_db {
            Some(v) => call_ensures(narrow, (v,), config.min_db),
            None => call_ensures(narrow, (0xc052_0000_0000_0000,), config.min_db),
        },
        match values.rise_smoothing {
            Some(v) => {
                let used = if double::above(0x3f84_7ae1_47ae_147b, v) {
                    0x3f84_7ae1_47ae_147b
                } else if double::above(v, 0x3ff0_0000_0000_0000) {
                    0x3ff0_0000_0000_0000
                } else {
                    v
                };
                call_ensures(narrow, (used,), config.rise_smoothing)
            },
            None => call_ensures(narrow, (0x3fe3_3333_3333_3333,), config.rise_smoothing),
        },
        match values.fall_smoothing {
            Some(v) => {
                let used = if double::above(0x3f84_7ae1_47ae_147b, v) {
                    0x3f84_7ae1_47ae_147b
                } else if double::above(v, 0x3ff0_0000_0000_0000) {
                    0x3ff0_0000_0000_0000
                } else {
                    v
                };
                call_ensures(narrow, (used,), config.fall_smoothing)
            },
            None => call_ensures(narrow, (0x3fd9_9999_9999_999a,), config.fall_smoothing),
        },
{
}

/// The highest frequency and loudness are rounded from what is configured for
/// each, or from 16000 hertz and -18 decibels, as it is where it is not below
/// one more than the lowest and, for the frequency, not above 20000. A highest
/// one that is below that, or no number, is raised to it; a frequency above
/// 20000, or no number even then, is lowered to 20000. The result is one more
/// than the lowest frequency, what the highest frequency is rounded from, one
/// more than the lowest loudness, and what the highest loudness is rounded
/// from.
pub proof fn lemma_highest_is_one_more_than_lowest<N: Fn(u64) -> u32, P: Fn(u32) -> u64>(
    config: EqualizerConfig,
    values: ConfiguredValues,
    narrow: N,
    one_more: P,
) -> (r: (u64, u64, u64, u64))
    requires
        config.follows_spans(narrow, one_more, values),
    ensures
        call_ensures(one_more, (config.min_frequency,), r.0),
        call_ensures(narrow, (r.1,), config.max_frequency),
        ({
            let asked = match values.max_frequency {
                Some(v) => v,
                None => 0x40cf_4000_0000_0000,
            };
            let raised = if double::is_nan(asked) || double::above(r.0, asked) {
                r.0
            } else {
                asked
            };
            r.1 == if double::is_nan(raised) || double::above(raised, 0x40d3_8800_0000_0000) {
                0x40d3_8800_0000_0000
            } else {
                raised
            }
        }),
        call_ensures(one_more, (config.min_db,), r.2),
        call_ensures(narrow, (r.3,), config.max_db),
        ({
            let asked = match values.max_db {
                Some(v) => v,
                None => 0xc032_0000_0000_0000,
            };
            r.3 == if double::is_nan(asked) || double::above(r.2, asked) {
                r.2
            } else {
                asked
            }
        }),
{
    let asked_hz = value_or(values.max_frequency, DEFAULT_MAX_FREQUENCY);
    let least_hz = choose|least: u64|
        #![trigger call_ensures(one_more, (config.min_frequency,), least)]
        call_ensures(one_more, (config.min_frequency,), least) && call_ensures(
            narrow,
            (double::smaller(double::larger(asked_hz, least), MAX_FREQUENCY),),
            config.max_frequency,
        );
    let asked_db = value_or(values.max_db, DEFAULT_MAX_DB);
    let least_db = choose|least: u64|
        #![trigger call_ensures(one_more, (config.min_db,), least)]
        call_ensures(one_more, (config.min_db,), least) && call_ensures(
            narrow,
            (double::larger(asked_db, least),),
            config.max_db,
        );
    (
        least_hz,
        double::smaller(double::larger(asked_hz, least_hz), MAX_FREQUENCY),
        least_db,
        double::larger(asked_db, least_db),
    )
}

/// Every value is what the configuration gives for its own key, and is missing
/// exactly where the configuration gives nothing for it.
pub proof fn lemma_every_value_has_its_own_key(values: ConfiguredValues, config: Config)
    requires
        values.are_of(config),
    ensures
        match values.polling_interval {
            Some(v) => config_ints(config).contains_pair("equalizer.polling_interval"@, v),
            None => !config_ints(config).contains_key("equalizer.polling_interval"@),
        },
        match values.bar_count {
            Some(v) => config_ints(config).contains_pair("equalizer.bar_count"@, v),
            None => !config_ints(config).contains_key("equalizer.bar_count"@),
        },
        match values.min_frequency {
            Some(v) => config_floats(config).contains_pair("equalizer.min_frequency"@, v),
            None => !config_floats(config).contains_key("equalizer.min_frequency"@),
        },
        match values.max_frequency {
            Some(v) => config_floats(config).contains_pair("equalizer.max_frequency"@, v),
            None => !config_floats(config).contains_key("equalizer.max_frequency"@),
        },
        match values.min_db {
            Some(v) => config_floats(config).contains_pair("equalizer.min_db"@, v),
            None => !config_floats(config).contains_key("equalizer.min_db"@),
        },
        match values.max_db {
            Some(v) => config_floats(config).contains_pair("equalizer.max_db"@, v),
            None => !config_floats(config).contains_key("equalizer.max_db"@),
        },
        match values.rise_smoothing {
            Some(v) => config_floats(config).contains_pair("equalizer.rise_smoothing"@, v),
            None => !config_floats(config).contains_key("equalizer.rise_smoothing"@),
        },
        match values.fall_smoothing {
            Some(v) => config_floats(config).contains_pair("equalizer.fall_smoothing"@, v),
            None => !config_floats(config).contains_key("equalizer.fall_smoothing"@),
        },
        match values.capture_sink {
            Some(v) => config_bools(config).contains_pair("equalizer.capture_sink"@, v),
            None => !config_bools(config).contains_key("equalizer.capture_sink"@),
        },
        match values.device_name {
            Some(v) => config_strs(config).contains_pair("equalizer.device_name"@, v@),
            None => !config_strs(config).contains_key("equalizer.device_name"@),
        },
        match values.target_object {
            Some(v) => config_strs(config).contains_pair("equalizer.target_object"@, v@),
            None => !config_strs(config).contains_key("equalizer.target_object"@),
        },
{
}

/// The characters of a string that is there are its own.
pub proof fn lemma_text_of_a_string(s: String)
    ensures
        text_of(Some(s)) == Some(s@),
        text_of(None) is None,
{
}

/// From a configuration to the preferred device: the string at
/// `equalizer.device_name` wherever there is one, else that at
/// `equalizer.target_object`, else none.
pub proof fn lemma_configured_device_is_preferred<N: Fn(u64) -> u32, P: Fn(u32) -> u64>(
    config: Config,
    narrow: N,
    one_more: P,
    r: EqualizerConfig,
)
    requires
        call_ensures(EqualizerConfig::from_config::<N, P>, (&config, narrow, one_more), r),
    ensures
        ({
            let strs = config_strs(config);
            if strs.contains_key("equalizer.device_name"@) {
                r.device_name is Some && r.device_name->0@ == strs["equalizer.device_name"@]
            } else if strs.contains_key("equalizer.target_object"@) {
                r.device_name is Some && r.device_name->0@ == strs["equalizer.target_object"@]
            } else {
                r.device_name is None
            }
        }),
{
}

/// The settings for given values follow all of them.
pub proof fn lemma_settings_follow_their_values<N: Fn(u64) -> u32, P: Fn(u32) -> u64>(
    values: ConfiguredValues,
    narrow: N,
    one_more: P,
    r: EqualizerConfig,
)
    requires
        call_ensures(EqualizerConfig::from_values::<N, P>, (values, narrow, one_more), r),
    ensures
        r.follows(values),
        r.follows_limits(narrow, values),
        r.follows_spans(narrow, one_more, values),
{
}

} // verus!
