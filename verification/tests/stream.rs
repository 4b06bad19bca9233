use apex_equalizer::error::{
    build_stream_message, capture_mode, no_match_message, CaptureDirection, CaptureError,
};
use apex_equalizer::stream::{
    build_input_stream, failure_of, format_build_stream_error, run_capture_thread, start_capture,
    CaptureStep, ReadySignal, SampleFormat, SampleType,
};

const HINT: &str = " (the Windows audio endpoint appears to be in exclusive use; disable the \
                    device's exclusive-control setting or close the app currently holding it, \
                    then try again. See the README Windows audio notes.)";

#[test]
fn known_formats_are_taken() {
    for kind in [
        SampleType::I8,
        SampleType::I16,
        SampleType::I32,
        SampleType::I64,
        SampleType::U8,
        SampleType::U16,
        SampleType::U32,
        SampleType::U64,
        SampleType::F32,
        SampleType::F64,
    ] {
        match build_input_stream(SampleFormat::Known(kind), true) {
            Ok(plan) => {
                assert_eq!(plan.sample_type, kind);
                assert_eq!(plan.capture_mode, "loopback");
            }
            Err(error) => panic!("{}", error.message()),
        }
    }
    assert_eq!(capture_mode(false), "input");
}

#[test]
fn other_formats_are_refused() {
    match build_input_stream(SampleFormat::Other("I24".to_string()), false) {
        Ok(_) => panic!("the format is not known"),
        Err(error) => assert_eq!(
            error.message(),
            "Unsupported CPAL input sample format for equalizer: I24"
        ),
    }
}

#[test]
fn exclusive_use_gets_a_hint_on_windows() {
    let raw = "backend error: 0x8889000A busy";
    assert_eq!(format_build_stream_error(raw, true), format!("{raw}{HINT}"));
    assert_eq!(format_build_stream_error(raw, false), raw);
    assert_eq!(format_build_stream_error("0x8889000a", true), "0x8889000a");
    assert_eq!(format_build_stream_error("", true), "");
}

#[test]
fn failed_build_tells_the_configuration() {
    let error = CaptureError::BuildStream {
        capture_mode: capture_mode(false),
        device_name: "Mic\t1".to_string(),
        channels: 2,
        sample_rate: 44_100,
        detail: "busy".to_string(),
    };
    assert_eq!(
        error.message(),
        "Failed to build CPAL input stream for device \"Mic\\t1\" with config 2 ch @ 44100 Hz: \
         busy"
    );
}

#[test]
fn every_error_has_its_message() {
    assert_eq!(
        CaptureError::SpawnThread.message(),
        "Failed to spawn the CPAL equalizer thread"
    );
    assert_eq!(
        CaptureError::EnumerateDevices.message(),
        "Failed to enumerate CPAL devices"
    );
    assert_eq!(
        CaptureError::PlayStream.message(),
        "Failed to start the CPAL equalizer input stream"
    );
    assert_eq!(
        CaptureError::ReportReadiness.message(),
        "Failed to report CPAL equalizer readiness"
    );
}

#[test]
fn waiting_ends_in_one_of_four_ways() {
    assert!(start_capture(ReadySignal::Started).is_ok());
    let text = |signal| match start_capture(signal) {
        Ok(()) => panic!("capture did not start"),
        Err(error) => error.message(),
    };
    assert_eq!(text(ReadySignal::Failed("no device".to_string())), "no device");
    assert_eq!(
        text(ReadySignal::TimedOut),
        "Timed out after 5s while waiting for CPAL audio capture to start"
    );
    assert_eq!(
        text(ReadySignal::Disconnected),
        "CPAL equalizer thread exited before initialization"
    );
}

#[test]
fn readiness_follows_three_successes() {
    let mut step = CaptureStep::SelectDevice;
    let mut seen = vec![step];
    for _ in 0..5 {
        let (next, failure) = run_capture_thread(step, Ok(()));
        assert_eq!(failure, None);
        step = next;
        seen.push(step);
    }
    assert_eq!(
        seen,
        vec![
            CaptureStep::SelectDevice,
            CaptureStep::BuildStream,
            CaptureStep::PlayStream,
            CaptureStep::ReportReady,
            CaptureStep::KeepAlive,
            CaptureStep::KeepAlive,
        ]
    );
}

#[test]
fn failure_stops_for_good() {
    for step in [
        CaptureStep::SelectDevice,
        CaptureStep::BuildStream,
        CaptureStep::PlayStream,
        CaptureStep::ReportReady,
    ] {
        let (next, failure) = run_capture_thread(step, Err(CaptureError::PlayStream));
        assert_eq!(next, CaptureStep::Stop);
        assert_eq!(
            failure.as_deref(),
            Some("Failed to start the CPAL equalizer input stream")
        );
        assert_eq!(run_capture_thread(next, Ok(())).0, CaptureStep::Stop);
    }
}

#[test]
fn steps_that_fail_in_one_way() {
    let text = |step| failure_of(step).map(|error| error.message());
    assert_eq!(
        text(CaptureStep::PlayStream).as_deref(),
        Some("Failed to start the CPAL equalizer input stream")
    );
    assert_eq!(
        text(CaptureStep::ReportReady).as_deref(),
        Some("Failed to report CPAL equalizer readiness")
    );
    for step in [
        CaptureStep::SelectDevice,
        CaptureStep::BuildStream,
        CaptureStep::KeepAlive,
        CaptureStep::Stop,
    ] {
        assert_eq!(text(step), None);
    }
}

#[test]
fn plan_tells_why_its_stream_did_not_open() {
    let plan = |loopback| match build_input_stream(SampleFormat::Known(SampleType::I16), loopback) {
        Ok(plan) => plan,
        Err(error) => panic!("{}", error.message()),
    };
    assert_eq!(
        plan(true)
            .failure("Speakers", 2, 48_000, "code 0x8889000A", true)
            .message(),
        format!(
            "Failed to build CPAL loopback stream for device \"Speakers\" with config 2 ch @ \
             48000 Hz: code 0x8889000A{HINT}"
        )
    );
    assert_eq!(
        plan(false)
            .failure("Mic", 1, 8_000, "code 0x8889000A", false)
            .message(),
        "Failed to build CPAL input stream for device \"Mic\" with config 1 ch @ 8000 Hz: code \
         0x8889000A"
    );
}

#[test]
fn messages_hold_the_quoted_name_as_it_is() {
    let available = vec!["A".to_string(), "B".to_string()];
    assert_eq!(
        no_match_message(CaptureDirection::Input, "<q>", &available),
        "No CPAL input device matched <q>. Available input devices: \n\tA\n\t B"
    );
    assert_eq!(
        no_match_message(CaptureDirection::OutputLoopback, "<q>", &Vec::new()),
        "No CPAL output device matched <q> for loopback capture. Available output devices: \
         \n\t<none>"
    );
    assert_eq!(
        build_stream_message("loopback", "<q>", 6, 96_000, "gone"),
        "Failed to build CPAL loopback stream for device <q> with config 6 ch @ 96000 Hz: gone"
    );
}
