//! Opening the capture stream, and the steps from choosing a device to a
//! running capture.

use vstd::prelude::*;
use vstd::string::*;

use crate::error::{capture_mode, debug_text, mode_text, CaptureError};
use crate::text::{contains_chars, decimal, has_substring, occurs_at};

verus! {

/// The kinds of sample that capture can take.
#[derive(Clone, Copy, Debug, PartialEq, Eq, Structural)]
pub enum SampleType {
    I8,
    I16,
    I32,
    I64,
    U8,
    U16,
    U32,
    U64,
    F32,
    F64,
}

/// The format a device delivers: one of the known kinds, or another, which
/// goes by its name.
pub enum SampleFormat {
    Known(SampleType),
    Other(String),
}

/// How to open a stream: the kind of its samples, and what to call the way
/// they are captured.
pub struct StreamPlan {
    pub sample_type: SampleType,
    pub capture_mode: &'static str,
}

/// How to open a stream of this format, or the error where capture cannot take
/// it.
pub fn build_input_stream(format: SampleFormat, loopback: bool) -> (r: Result<
    StreamPlan,
    CaptureError,
>)
    ensures
        match format {
            SampleFormat::Known(sample_type) => match r {
                Ok(plan) => plan.sample_type == sample_type && plan.capture_mode@ == mode_text(
                    loopback,
                ),
                Err(_) => false,
            },
            SampleFormat::Other(name) => r == Err::<StreamPlan, CaptureError>(
                CaptureError::UnsupportedSampleFormat { format: name },
            ),
        },
{
    match format {
        SampleFormat::Known(sample_type) => Ok(
            StreamPlan { sample_type, capture_mode: capture_mode(loopback) },
        ),
        SampleFormat::Other(format) => Err(CaptureError::UnsupportedSampleFormat { format }),
    }
}

impl StreamPlan {
    /// The error for a stream that could not be opened as planned: from what
    /// device, in what configuration, and what the host said of it.
    pub fn failure(
        &self,
        device_name: &str,
        channels: u16,
        sample_rate: u32,
        raw: &str,
        windows: bool,
    ) -> (r: CaptureError)
        ensures
            match r {
                CaptureError::BuildStream {
                    capture_mode,
                    device_name: name,
                    channels: count,
                    sample_rate: rate,
                    detail,
                } => {
                    &&& capture_mode == self.capture_mode
                    &&& name@ == device_name@
                    &&& count == channels
                    &&& rate == sample_rate
                    &&& detail@ == build_error_text(raw@, windows)
                },
                _ => false,
            },
    {
        CaptureError::BuildStream {
            capture_mode: self.capture_mode,
            device_name: device_name.to_string(),
            channels,
            sample_rate,
            detail: format_build_stream_error(raw, windows),
        }
    }
}

/// The code by which Windows says that another program holds the device.
pub open spec fn exclusive_use_code() -> Seq<char> {
    "0x8889000A"@
}

/// The hint for a device that another program holds.
pub open spec fn exclusive_use_hint() -> Seq<char> {
    " (the Windows audio endpoint appears to be in exclusive use; disable the device's exclusive-control setting or close the app currently holding it, then try again. See the README Windows audio notes.)"@
}

/// What the host said of a stream that could not be opened and, on Windows, a
/// hint where another program holds the device.
pub open spec fn build_error_text(raw: Seq<char>, windows: bool) -> Seq<char> {
    if windows && has_substring(raw, exclusive_use_code()) {
        raw + exclusive_use_hint()
    } else {
        raw
    }
}

/// The text for a stream that could not be opened: what the host said and, on
/// Windows, a hint where another program holds the device.
pub fn format_build_stream_error(raw: &str, windows: bool) -> (r: String)
    ensures
        r@ == build_error_text(raw@, windows),
{
    let mut r: String = raw.to_string();
    if windows && contains_chars(&chars_of(raw), &chars_of("0x8889000A")) {
        r.append(
            " (the Windows audio endpoint appears to be in exclusive use; disable the device's exclusive-control setting or close the app currently holding it, then try again. See the README Windows audio notes.)",
        );
    }
    r
}

fn chars_of(s: &str) -> (r: Vec<char>)
    ensures
        r@ == s@,
{
    let mut r: Vec<char> = Vec::new();
    for c in iter: s.chars()
        invariant
            iter.seq() == s@,
            r@ == s@.take(iter.index()),
    {
        r.push(c);
        assert(r@ =~= s@.take(iter.index() + 1));
    }
    assert(s@.take(s@.len() as int) =~= s@);
    r
}

/// What the capture thread does next.
#[derive(Clone, Copy, Debug, PartialEq, Eq, Structural)]
pub enum CaptureStep {
    SelectDevice,
    BuildStream,
    PlayStream,
    ReportReady,
    KeepAlive,
    Stop,
}

impl CaptureStep {
    /// How many steps a start has behind it before this one.
    pub open spec fn place(self) -> int {
        match self {
            CaptureStep::SelectDevice => 0,
            CaptureStep::BuildStream => 1,
            CaptureStep::PlayStream => 2,
            CaptureStep::ReportReady => 3,
            CaptureStep::KeepAlive => 4,
            CaptureStep::Stop => 5,
        }
    }

    /// The step that follows when this one succeeded or failed.
    pub open spec fn after(self, succeeded: bool) -> CaptureStep {
        if !succeeded {
            CaptureStep::Stop
        } else {
            match self {
                CaptureStep::SelectDevice => CaptureStep::BuildStream,
                CaptureStep::BuildStream => CaptureStep::PlayStream,
                CaptureStep::PlayStream => CaptureStep::ReportReady,
                CaptureStep::ReportReady => CaptureStep::KeepAlive,
                CaptureStep::KeepAlive => CaptureStep::KeepAlive,
                CaptureStep::Stop => CaptureStep::Stop,
            }
        }
    }
}

/// The error of a step that can fail in one way only. Choosing a device and
/// opening the stream say themselves why they failed, and the last two steps
/// do not fail.
pub fn failure_of(step: CaptureStep) -> (r: Option<CaptureError>)
    ensures
        r == match step {
            CaptureStep::PlayStream => Some(CaptureError::PlayStream),
            CaptureStep::ReportReady => Some(CaptureError::ReportReadiness),
            _ => None,
        },
{
    match step {
        CaptureStep::PlayStream => Some(CaptureError::PlayStream),
        CaptureStep::ReportReady => Some(CaptureError::ReportReadiness),
        _ => None,
    }
}

/// The step that the outcome of `step` leads to and, where it failed, the
/// message with which capture stops and which is reported to whoever waits for
/// it.
pub fn run_capture_thread(step: CaptureStep, outcome: Result<(), CaptureError>) -> (r: (
    CaptureStep,
    Option<String>,
))
    ensures
        r.0 == step.after(outcome is Ok),
        match outcome {
            Ok(_) => r.1 is None,
            Err(error) => r.1 is Some && r.1->0@ == error.text(),
        },
{
    match outcome {
        Err(error) => (CaptureStep::Stop, Some(error.message())),
        Ok(_) => {
            let next: CaptureStep = match step {
                CaptureStep::SelectDevice => CaptureStep::BuildStream,
                CaptureStep::BuildStream => CaptureStep::PlayStream,
                CaptureStep::PlayStream => CaptureStep::ReportReady,
                CaptureStep::ReportReady => CaptureStep::KeepAlive,
                CaptureStep::KeepAlive => CaptureStep::KeepAlive,
                CaptureStep::Stop => CaptureStep::Stop,
            };
            (next, None)
        },
    }
}

/// What came of waiting for the capture thread.
pub enum ReadySignal {
    Started,
    Failed(String),
    TimedOut,
    Disconnected,
}

/// Whether capture started, or why it did not.
pub fn start_capture(signal: ReadySignal) -> (r: Result<(), CaptureError>)
    ensures
        r == match signal {
            ReadySignal::Started => Ok(()),
            ReadySignal::Failed(message) => Err(CaptureError::Capture { message }),
            ReadySignal::TimedOut => Err(CaptureError::ReadyTimeout),
            ReadySignal::Disconnected => Err(CaptureError::ThreadExited),
        },
{
    match signal {
        ReadySignal::Started => Ok(()),
        ReadySignal::Failed(message) => Err(CaptureError::Capture { message }),
        ReadySignal::TimedOut => Err(CaptureError::ReadyTimeout),
        ReadySignal::Disconnected => Err(CaptureError::ThreadExited),
    }
}

/// The step that a run comes to whose steps so far had these outcomes.
pub open spec fn step_after(outcomes: Seq<bool>) -> CaptureStep
    decreases outcomes.len(),
{
    if outcomes.len() == 0 {
        CaptureStep::SelectDevice
    } else {
        step_after(outcomes.drop_last()).after(outcomes.last())
    }
}

/// A run comes to reporting that it is ready exactly after three steps that
/// all succeeded: the device was chosen, the stream opened, and it plays.
pub proof fn lemma_ready_only_when_playing(outcomes: Seq<bool>)
    ensures
        step_after(outcomes) == CaptureStep::ReportReady <==> outcomes.len() == 3 && forall|i: int|
            0 <= i < outcomes.len() ==> #[trigger] outcomes[i],
{
    lemma_steps_follow(outcomes);
}

/// One failure stops the run for good.
pub proof fn lemma_failure_stops(outcomes: Seq<bool>, failed: int)
    requires
        0 <= failed < outcomes.len(),
        !outcomes[failed],
    ensures
        step_after(outcomes) == CaptureStep::Stop,
    decreases outcomes.len(),
{
    if failed < outcomes.len() - 1 {
        assert(outcomes.drop_last()[failed] == outcomes[failed]);
        lemma_failure_stops(outcomes.drop_last(), failed);
    }
}

proof fn lemma_steps_follow(outcomes: Seq<bool>)
    ensures
        (forall|i: int| 0 <= i < outcomes.len() ==> #[trigger] outcomes[i]) ==> step_after(
            outcomes,
        ).place() == if outcomes.len() < 4 {
            outcomes.len() as int
        } else {
            4
        },
        (exists|i: int| 0 <= i < outcomes.len() && !#[trigger] outcomes[i]) ==> step_after(
            outcomes,
        ) == CaptureStep::Stop,
    decreases outcomes.len(),
{
    if outcomes.len() > 0 {
        lemma_steps_follow(outcomes.drop_last());
        if forall|i: int| 0 <= i < outcomes.len() ==> #[trigger] outcomes[i] {
            assert(forall|i: int|
                0 <= i < outcomes.drop_last().len() ==> #[trigger] outcomes.drop_last()[i]);
        } else {
            let failed = choose|i: int| 0 <= i < outcomes.len() && !#[trigger] outcomes[i];
            lemma_failure_stops(outcomes, failed);
        }
    }
}

/// A start chooses the device, opens the stream, plays it, reports that it is
/// ready and keeps it alive, in this order; whatever fails stops it.
pub proof fn lemma_steps_follow_one_another(step: CaptureStep)
    ensures
        step.after(false) == CaptureStep::Stop,
        CaptureStep::SelectDevice.after(true) == CaptureStep::BuildStream,
        CaptureStep::BuildStream.after(true) == CaptureStep::PlayStream,
        CaptureStep::PlayStream.after(true) == CaptureStep::ReportReady,
        CaptureStep::ReportReady.after(true) == CaptureStep::KeepAlive,
        CaptureStep::KeepAlive.after(true) == CaptureStep::KeepAlive,
        CaptureStep::Stop.after(true) == CaptureStep::Stop,
{
}

/// What the host said is passed on as it is, but for one hint at its end: on
/// Windows, where the code for a device in exclusive use stands anywhere in
/// it. The result is where it stands.
pub proof fn lemma_hint_needs_the_code(raw: Seq<char>, windows: bool) -> (at: int)
    requires
        build_error_text(raw, windows) != raw,
    ensures
        windows,
        0 <= at,
        at + "0x8889000A"@.len() <= raw.len(),
        raw.subrange(at, at + "0x8889000A"@.len()) == "0x8889000A"@,
{
    choose|at: int| occurs_at(raw, exclusive_use_code(), at)
}

/// On Windows, the code for a device in exclusive use brings the hint, wherever
/// it stands.
pub proof fn lemma_code_brings_the_hint(raw: Seq<char>, at: int)
    requires
        0 <= at,
        at + "0x8889000A"@.len() <= raw.len(),
        raw.subrange(at, at + "0x8889000A"@.len()) == "0x8889000A"@,
    ensures
        build_error_text(raw, true) == raw
            + " (the Windows audio endpoint appears to be in exclusive use; disable the device's exclusive-control setting or close the app currently holding it, then try again. See the README Windows audio notes.)"@,
{
    assert(occurs_at(raw, exclusive_use_code(), at));
}

/// From a stream that could not be opened to its message: the mode is that of
/// the capture, and the name, both numbers and what the host said are told as
/// they are.
pub proof fn lemma_failed_stream_tells_why(
    sample_type: SampleType,
    loopback: bool,
    plan: StreamPlan,
    name: &str,
    channels: u16,
    sample_rate: u32,
    raw: &str,
    windows: bool,
    error: CaptureError,
    message: String,
)
    requires
        call_ensures(
            build_input_stream,
            (SampleFormat::Known(sample_type), loopback),
            Ok(plan),
        ),
        call_ensures(
            StreamPlan::failure,
            (&plan, name, channels, sample_rate, raw, windows),
            error,
        ),
        call_ensures(CaptureError::message, (&error,), message),
    ensures
        plan.sample_type == sample_type,
        message@ == "Failed to build CPAL "@ + (if loopback {
            "loopback"@
        } else {
            "input"@
        }) + " stream for device "@ + debug_text(name@) + " with config "@ + decimal(
            channels as nat,
        ) + " ch @ "@ + decimal(sample_rate as nat) + " Hz: "@ + build_error_text(raw@, windows),
{
}

/// A step that succeeds is followed by the next one and says nothing; one that
/// fails stops the capture, and its error is told.
pub proof fn lemma_failure_is_told_once(
    step: CaptureStep,
    outcome: Result<(), CaptureError>,
    next: CaptureStep,
    told: Option<String>,
)
    requires
        call_ensures(run_capture_thread, (step, outcome), (next, told)),
    ensures
        match outcome {
            Ok(_) => next == step.after(true) && told is None,
            Err(error) => next == CaptureStep::Stop && told is Some && told->0@ == error.text(),
        },
{
}

} // verus!
