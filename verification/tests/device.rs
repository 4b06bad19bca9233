use apex_equalizer::device::{
    build_selection, default_device, device_label, device_supports_capture, is_match,
    select_capture_device, select_config, select_input_device, select_output_loopback_device,
    DevicePlan, DeviceSearch,
};
use apex_equalizer::error::{CaptureDirection, CaptureError};
use apex_equalizer::settings::EqualizerConfig;

fn search_of(plan: DevicePlan) -> DeviceSearch {
    match plan {
        DevicePlan::Search(search) => search,
        DevicePlan::Default(_) => panic!("a search was expected"),
    }
}

fn named(name: &str) -> Option<String> {
    Some(name.to_string())
}

fn settings(capture_sink: bool, device_name: Option<String>) -> EqualizerConfig {
    EqualizerConfig {
        polling_interval: 20,
        bar_count: 32,
        min_frequency: 0,
        max_frequency: 0,
        min_db: 0,
        max_db: 0,
        rise_smoothing: 0,
        fall_smoothing: 0,
        capture_sink,
        device_name,
    }
}

#[test]
fn names_match_in_any_case_and_in_part() {
    assert!(is_match("USB Microphone", "usb microphone"));
    assert!(is_match("USB Microphone", "  MICRO \t"));
    assert!(is_match("USB Microphone", ""));
    assert!(is_match("<unknown>", " \u{3000}"));
    assert!(!is_match("USB Microphone", "usb  micro"));
    assert!(!is_match("mic", "microphone"));
    assert!(!is_match("\u{c4}", "\u{e4}"));
    assert!(is_match(" mic ", " MIC "));
}

#[test]
fn surrounding_space_makes_no_difference() {
    for name in ["Loopback", "loop back", "x", " x ", " Y ", ""] {
        for preferred in [" loop ", "BACK\n", " x", " y ", "", " "] {
            assert_eq!(
                is_match(name, preferred),
                is_match(name, preferred.trim()),
                "{name:?} {preferred:?}"
            );
        }
    }
}

#[test]
fn search_stops_at_the_first_capable_match() {
    let mut search = search_of(select_input_device(&named("Mic")));
    assert_eq!(search.direction, CaptureDirection::Input);
    assert!(!search.offer(false, named("Mic")));
    assert!(!search.offer(true, None));
    assert!(!search.offer(true, named("Line in")));
    assert!(search.offer(true, named("USB MIC 2")));
    assert_eq!(search.available, vec!["<unknown>", "Line in", "USB MIC 2"]);
}

#[test]
fn failed_input_search_lists_the_capable_devices() {
    let mut search = search_of(select_input_device(&named("my \"mic\"")));
    assert!(!search.offer(true, named("A")));
    assert!(!search.offer(false, named("B")));
    assert!(!search.offer(true, named("C")));
    assert_eq!(
        search.failure().message(),
        "No CPAL input device matched \"my \\\"mic\\\"\". Available input devices: \n\tA\n\t C"
    );
}

#[test]
fn failed_search_without_devices_says_so() {
    let search = search_of(select_input_device(&named("x")));
    assert_eq!(
        search.failure().message(),
        "No CPAL input device matched \"x\". Available input devices: \n\t<none>"
    );
    let search = search_of(select_output_loopback_device(&named("x")));
    assert_eq!(
        search.failure().message(),
        "No CPAL output device matched \"x\" for loopback capture. Available output devices: \
         \n\t<none>"
    );
}

#[test]
fn default_device_is_used_without_a_name() {
    assert!(matches!(
        select_input_device(&None),
        DevicePlan::Default(CaptureDirection::Input)
    ));
    assert!(matches!(
        select_output_loopback_device(&None),
        DevicePlan::Default(CaptureDirection::OutputLoopback)
    ));
    assert!(matches!(default_device(CaptureDirection::Input, Some(3)), Ok(3)));
    let missing = |direction| match default_device::<u8>(direction, None) {
        Ok(_) => panic!("no device was there"),
        Err(error) => error.message(),
    };
    assert_eq!(
        missing(CaptureDirection::Input),
        "No default CPAL input device available"
    );
    assert_eq!(
        missing(CaptureDirection::OutputLoopback),
        "No default CPAL output device available for loopback capture"
    );
}

#[test]
fn playback_is_recorded_on_windows_only() {
    let direction = |windows, sink| match select_capture_device(windows, &settings(sink, None)) {
        DevicePlan::Default(direction) => direction,
        DevicePlan::Search(search) => search.direction,
    };
    assert_eq!(direction(true, true), CaptureDirection::OutputLoopback);
    assert_eq!(direction(true, false), CaptureDirection::Input);
    assert_eq!(direction(false, true), CaptureDirection::Input);
    assert_eq!(direction(false, false), CaptureDirection::Input);
    let search = search_of(select_capture_device(true, &settings(true, named("hdmi"))));
    assert_eq!(search.direction, CaptureDirection::OutputLoopback);
    assert_eq!(search.preferred, "hdmi");
}

#[test]
fn default_configuration_comes_first() {
    let input = CaptureDirection::Input;
    assert!(matches!(select_config(input, Some(1), Some(Some(2))), Ok(1)));
    assert!(matches!(select_config(input, Some(1), None), Ok(1)));
    assert!(matches!(select_config(input, None, Some(Some(2))), Ok(2)));
    let text = |direction, supported| match select_config::<u8>(direction, None, supported) {
        Ok(_) => panic!("there is no configuration"),
        Err(error) => error.message(),
    };
    assert_eq!(text(input, None), "Failed to query supported input configs");
    assert_eq!(
        text(input, Some(None)),
        "The selected CPAL input device has no supported input configs"
    );
    let output = CaptureDirection::OutputLoopback;
    assert_eq!(text(output, None), "Failed to query supported output configs");
    assert_eq!(
        text(output, Some(None)),
        "The selected CPAL output device has no supported output configs"
    );
}

#[test]
fn device_needs_some_configuration() {
    assert!(device_supports_capture(true, None));
    assert!(device_supports_capture(true, Some(false)));
    assert!(device_supports_capture(false, Some(true)));
    assert!(!device_supports_capture(false, Some(false)));
    assert!(!device_supports_capture(false, None));
}

#[test]
fn selection_holds_what_was_chosen() {
    let chosen = match build_selection(CaptureDirection::OutputLoopback, 'd', None, Ok('c')) {
        Ok(chosen) => chosen,
        Err(error) => panic!("{}", error.message()),
    };
    assert_eq!(chosen.device, 'd');
    assert_eq!(chosen.supported_config, 'c');
    assert_eq!(chosen.device_name, "<unknown>");
    assert!(chosen.loopback);
    let chosen = match build_selection(CaptureDirection::Input, 1, named("Mic"), Ok(2)) {
        Ok(chosen) => chosen,
        Err(error) => panic!("{}", error.message()),
    };
    assert_eq!(chosen.device_name, "Mic");
    assert!(!chosen.loopback);
    let failed = build_selection::<u8, u8>(
        CaptureDirection::Input,
        1,
        None,
        Err(CaptureError::EnumerateDevices),
    );
    assert!(matches!(failed, Err(CaptureError::EnumerateDevices)));
    assert_eq!(device_label(named("n")), "n");
}
