//! What can go wrong while capture starts, and the message for each case.

use vstd::prelude::*;
use vstd::string::*;

use crate::text::{
    decimal, join, joined, lemma_joining_goes_piece_by_piece, push_decimal, views,
};

verus! {

/// How long, in seconds, the start of capture may take.
pub const READY_TIMEOUT_SECONDS: u64 = 5;

/// Where the sound comes from: an input device, or an output device whose
/// playback is recorded.
#[derive(Clone, Copy, Debug, PartialEq, Eq, Structural)]
pub enum CaptureDirection {
    Input,
    OutputLoopback,
}

/// Why capture did not start.
pub enum CaptureError {
    SpawnThread,
    EnumerateDevices,
    NoMatchingDevice { direction: CaptureDirection, preferred: String, available: Vec<String> },
    NoDefaultDevice { direction: CaptureDirection },
    QueryConfigs { direction: CaptureDirection },
    NoSupportedConfig { direction: CaptureDirection },
    UnsupportedSampleFormat { format: String },
    BuildStream {
        capture_mode: &'static str,
        device_name: String,
        channels: u16,
        sample_rate: u32,
        detail: String,
    },
    PlayStream,
    ReportReadiness,
    ReadyTimeout,
    ThreadExited,
    Capture { message: String },
}

/// A string as its debug format writes it: in quotes, with escapes.
pub uninterp spec fn debug_text(s: Seq<char>) -> Seq<char>;

/// Calls `std::format!` with `{:?}`, the `Debug` format of `str`. Its result
/// depends on nothing but the string.
#[verifier::external_body]
fn debug_string(s: &str) -> (r: String)
    ensures
        r@ == debug_text(s@),
{
    format!("{:?}", s)
}

/// `input`, or `loopback` where playback is recorded.
pub open spec fn mode_text(loopback: bool) -> Seq<char> {
    if loopback {
        "loopback"@
    } else {
        "input"@
    }
}

/// The names of the devices that were passed over, or a note that there were
/// none.
pub open spec fn listing(available: Seq<String>) -> Seq<char> {
    if available.len() == 0 {
        "<none>"@
    } else {
        joined(views(available), "\n\t "@)
    }
}

/// The message for a search that no device ended. `quoted` is the preferred
/// name in quotes.
pub open spec fn no_match_text(
    direction: CaptureDirection,
    quoted: Seq<char>,
    available: Seq<String>,
) -> Seq<char> {
    match direction {
        CaptureDirection::Input => "No CPAL input device matched "@ + quoted
            + ". Available input devices: \n\t"@ + listing(available),
        CaptureDirection::OutputLoopback => "No CPAL output device matched "@ + quoted
            + " for loopback capture. Available output devices: \n\t"@ + listing(available),
    }
}

/// The message for a stream that could not be opened. `quoted` is the device's
/// name in quotes.
pub open spec fn build_stream_text(
    capture_mode: Seq<char>,
    quoted: Seq<char>,
    channels: u16,
    sample_rate: u32,
    detail: Seq<char>,
) -> Seq<char> {
    "Failed to build CPAL "@ + capture_mode + " stream for device "@ + quoted + " with config "@
        + decimal(channels as nat) + " ch @ "@ + decimal(sample_rate as nat) + " Hz: "@ + detail
}

impl CaptureError {
    /// The message for the user.
    pub open spec fn text(&self) -> Seq<char> {
        match self {
            CaptureError::SpawnThread => "Failed to spawn the CPAL equalizer thread"@,
            CaptureError::EnumerateDevices => "Failed to enumerate CPAL devices"@,
            CaptureError::NoMatchingDevice { direction, preferred, available } =>
                no_match_text(*direction, debug_text(preferred@), available@),
            CaptureError::NoDefaultDevice { direction } => match direction {
                CaptureDirection::Input => "No default CPAL input device available"@,
                CaptureDirection::OutputLoopback =>
                    "No default CPAL output device available for loopback capture"@,
            },
            CaptureError::QueryConfigs { direction } => match direction {
                CaptureDirection::Input => "Failed to query supported input configs"@,
                CaptureDirection::OutputLoopback => "Failed to query supported output configs"@,
            },
            CaptureError::NoSupportedConfig { direction } => match direction {
                CaptureDirection::Input =>
                    "The selected CPAL input device has no supported input configs"@,
                CaptureDirection::OutputLoopback =>
                    "The selected CPAL output device has no supported output configs"@,
            },
            CaptureError::UnsupportedSampleFormat { format } =>
                "Unsupported CPAL input sample format for equalizer: "@ + format@,
            CaptureError::BuildStream {
                capture_mode,
                device_name,
                channels,
                sample_rate,
                detail,
            } => build_stream_text(
                capture_mode@,
                debug_text(device_name@),
                *channels,
                *sample_rate,
                detail@,
            ),
            CaptureError::PlayStream => "Failed to start the CPAL equalizer input stream"@,
            CaptureError::ReportReadiness => "Failed to report CPAL equalizer readiness"@,
            CaptureError::ReadyTimeout => "Timed out after "@ + decimal(
                READY_TIMEOUT_SECONDS as nat,
            ) + "s while waiting for CPAL audio capture to start"@,
            CaptureError::ThreadExited => "CPAL equalizer thread exited before initialization"@,
            CaptureError::Capture { message } => message@,
        }
    }

    /// The message for the user.
    pub fn message(&self) -> (r: String)
        ensures
            r@ == self.text(),
    {
        match self {
            CaptureError::SpawnThread => "Failed to spawn the CPAL equalizer thread".to_string(),
            CaptureError::EnumerateDevices => "Failed to enumerate CPAL devices".to_string(),
            CaptureError::NoMatchingDevice { direction, preferred, available } => {
                let quoted: String = debug_string(preferred.as_str());
                no_match_message(*direction, quoted.as_str(), available)
            },
            CaptureError::NoDefaultDevice { direction } => match direction {
                CaptureDirection::Input => "No default CPAL input device available".to_string(),
                CaptureDirection::OutputLoopback =>
                    "No default CPAL output device available for loopback capture".to_string(),
            },
            CaptureError::QueryConfigs { direction } => match direction {
                CaptureDirection::Input => "Failed to query supported input configs".to_string(),
                CaptureDirection::OutputLoopback =>
                    "Failed to query supported output configs".to_string(),
            },
            CaptureError::NoSupportedConfig { direction } => match direction {
                CaptureDirection::Input =>
                    "The selected CPAL input device has no supported input configs".to_string(),
                CaptureDirection::OutputLoopback =>
                    "The selected CPAL output device has no supported output configs".to_string(),
            },
            CaptureError::UnsupportedSampleFormat { format } => {
                let mut r: String =
                    "Unsupported CPAL input sample format for equalizer: ".to_string();
                r.append(format.as_str());
                r
            },
            CaptureError::BuildStream {
                capture_mode,
                device_name,
                channels,
                sample_rate,
                detail,
            } => {
                let quoted: String = debug_string(device_name.as_str());
                build_stream_message(
                    capture_mode,
                    quoted.as_str(),
                    *channels,
                    *sample_rate,
                    detail.as_str(),
                )
            },
            CaptureError::PlayStream => {
                "Failed to start the CPAL equalizer input stream".to_string()
            },
            CaptureError::ReportReadiness => {
                "Failed to report CPAL equalizer readiness".to_string()
            },
            CaptureError::ReadyTimeout => {
                let mut r: String = "Timed out after ".to_string();
                push_decimal(&mut r, READY_TIMEOUT_SECONDS);
                r.append("s while waiting for CPAL audio capture to start");
                r
            },
            CaptureError::ThreadExited => {
                "CPAL equalizer thread exited before initialization".to_string()
            },
            CaptureError::Capture { message } => message.clone(),
        }
    }
}

/// The message for a search that no device ended. `quoted` is the preferred
/// name in quotes.
pub fn no_match_message(
    direction: CaptureDirection,
    quoted: &str,
    available: &Vec<String>,
) -> (r: String)
    ensures
        r@ == no_match_text(direction, quoted@, available@),
{
    match direction {
        CaptureDirection::Input => {
            let mut r: String = "No CPAL input device matched ".to_string();
            r.append(quoted);
            r.append(". Available input devices: \n\t");
            r.append(list(available).as_str());
            r
        },
        CaptureDirection::OutputLoopback => {
            let mut r: String = "No CPAL output device matched ".to_string();
            r.append(quoted);
            r.append(" for loopback capture. Available output devices: \n\t");
            r.append(list(available).as_str());
            r
        },
    }
}

/// The message for a stream that could not be opened. `quoted` is the device's
/// name in quotes.
pub fn build_stream_message(
    capture_mode: &str,
    quoted: &str,
    channels: u16,
    sample_rate: u32,
    detail: &str,
) -> (r: String)
    ensures
        r@ == build_stream_text(capture_mode@, quoted@, channels, sample_rate, detail@),
{
    let mut r: String = "Failed to build CPAL ".to_string();
    r.append(capture_mode);
    r.append(" stream for device ");
    r.append(quoted);
    r.append(" with config ");
    push_decimal(&mut r, channels as u64);
    r.append(" ch @ ");
    push_decimal(&mut r, sample_rate as u64);
    r.append(" Hz: ");
    r.append(detail);
    r
}

fn list(available: &Vec<String>) -> (r: String)
    ensures
        r@ == listing(available@),
{
    if available.is_empty() {
        "<none>".to_string()
    } else {
        join(available, "\n\t ")
    }
}

/// `input`, or `loopback` where playback is recorded.
pub fn capture_mode(loopback: bool) -> (r: &'static str)
    ensures
        r@ == mode_text(loopback),
{
    if loopback {
        "loopback"
    } else {
        "input"
    }
}

/// Playback is recorded in loopback; anything else is input.
pub proof fn lemma_mode_names()
    ensures
        mode_text(true) == "loopback"@,
        mode_text(false) == "input"@,
{
}

/// Every device that was passed over is listed: none as `<none>`, one by its
/// name, and the devices of two lists one after the other.
pub proof fn lemma_listing_leaves_no_device_out(front: Seq<String>, back: Seq<String>)
    requires
        back.len() > 0,
    ensures
        listing(seq![]) == "<none>"@,
        back.len() == 1 ==> listing(back) == back[0]@,
        front.len() > 0 ==> listing(front + back) == listing(front) + "\n\t "@ + listing(back),
{
    assert(back.len() == 1 ==> views(back) =~= seq![back[0]@]);
    if front.len() > 0 {
        assert(views(front + back) =~= views(front) + views(back));
        lemma_joining_goes_piece_by_piece(views(front), views(back), "\n\t "@);
    }
}

/// The message for a search that no device ended holds the quoted name and the
/// whole list, each once and in its place.
pub proof fn lemma_failed_search_is_told_in_full(quoted: Seq<char>, available: Seq<String>)
    ensures
        no_match_text(CaptureDirection::Input, quoted, available)
            == "No CPAL input device matched "@ + quoted + ". Available input devices: \n\t"@
            + listing(available),
        no_match_text(CaptureDirection::OutputLoopback, quoted, available)
            == "No CPAL output device matched "@ + quoted
            + " for loopback capture. Available output devices: \n\t"@ + listing(available),
{
}

/// The message for a stream that could not be opened holds the mode, the
/// quoted name, both numbers and what the host said, each once and in its
/// place.
pub proof fn lemma_failed_stream_is_told_in_full(
    mode: Seq<char>,
    quoted: Seq<char>,
    channels: u16,
    sample_rate: u32,
    detail: Seq<char>,
)
    ensures
        build_stream_text(mode, quoted, channels, sample_rate, detail) == "Failed to build CPAL "@
            + mode + " stream for device "@ + quoted + " with config "@ + decimal(channels as nat)
            + " ch @ "@ + decimal(sample_rate as nat) + " Hz: "@ + detail,
{
}

/// Each error has its own message, which holds what the error holds.
pub proof fn lemma_every_error_is_told(
    name: String,
    available: Vec<String>,
    mode: &'static str,
    channels: u16,
    sample_rate: u32,
    detail: String,
)
    ensures
        CaptureError::SpawnThread.text() == "Failed to spawn the CPAL equalizer thread"@,
        CaptureError::EnumerateDevices.text() == "Failed to enumerate CPAL devices"@,
        forall|direction: CaptureDirection| #[trigger]
            (CaptureError::NoMatchingDevice { direction, preferred: name, available }).text()
                == no_match_text(direction, debug_text(name@), available@),
        (CaptureError::NoDefaultDevice { direction: CaptureDirection::Input }).text()
            == "No default CPAL input device available"@,
        (CaptureError::NoDefaultDevice { direction: CaptureDirection::OutputLoopback }).text()
            == "No default CPAL output device available for loopback capture"@,
        (CaptureError::QueryConfigs { direction: CaptureDirection::Input }).text()
            == "Failed to query supported input configs"@,
        (CaptureError::QueryConfigs { direction: CaptureDirection::OutputLoopback }).text()
            == "Failed to query supported output configs"@,
        (CaptureError::NoSupportedConfig { direction: CaptureDirection::Input }).text()
            == "The selected CPAL input device has no supported input configs"@,
        (CaptureError::NoSupportedConfig { direction: CaptureDirection::OutputLoopback }).text()
            == "The selected CPAL output device has no supported output configs"@,
        (CaptureError::UnsupportedSampleFormat { format: name }).text()
            == "Unsupported CPAL input sample format for equalizer: "@ + name@,
        (CaptureError::BuildStream {
            capture_mode: mode,
            device_name: name,
            channels,
            sample_rate,
            detail,
        }).text() == build_stream_text(mode@, debug_text(name@), channels, sample_rate, detail@),
        CaptureError::PlayStream.text() == "Failed to start the CPAL equalizer input stream"@,
        CaptureError::ReportReadiness.text() == "Failed to report CPAL equalizer readiness"@,
        CaptureError::ReadyTimeout.text() == "Timed out after "@ + decimal(5)
            + "s while waiting for CPAL audio capture to start"@,
        CaptureError::ThreadExited.text() == "CPAL equalizer thread exited before initialization"@,
        (CaptureError::Capture { message: detail }).text() == detail@,
{
}

/// A search that no device ended tells the name as it was asked for, in quotes,
/// and every device that was passed over.
pub proof fn lemma_failed_search_tells_the_name(
    direction: CaptureDirection,
    preferred: String,
    available: Vec<String>,
    message: String,
)
    requires
        call_ensures(
            CaptureError::message,
            (&CaptureError::NoMatchingDevice { direction, preferred, available },),
            message,
        ),
    ensures
        message@ == if direction == CaptureDirection::Input {
            "No CPAL input device matched "@ + debug_text(preferred@)
                + ". Available input devices: \n\t"@ + listing(available@)
        } else {
            "No CPAL output device matched "@ + debug_text(preferred@)
                + " for loopback capture. Available output devices: \n\t"@ + listing(available@)
        },
{
}

/// The message is the text of the error.
pub proof fn lemma_message_is_the_text(error: CaptureError, message: String)
    requires
        call_ensures(CaptureError::message, (&error,), message),
    ensures
        message@ == error.text(),
{
}

} // verus!
