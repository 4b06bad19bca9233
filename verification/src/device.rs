//! Choosing the device to capture from, and its stream configuration.
//!
//! Talking to devices is left to the caller, who reports what each one said;
//! what to ask for next, and what to make of the answers, is decided here.

use vstd::prelude::*;
use vstd::string::*;

use crate::error::{CaptureDirection, CaptureError};
use crate::settings::{text_of, EqualizerConfig};
use crate::text::{
    ascii_lower, ascii_lower_char, contains_chars, has_substring, is_white_space,
    lemma_bounds_of_what_is_left, lemma_found_substring_stands_in_full,
    lemma_lower_and_trim_commute, lemma_trimmed_is_what_stands_between, lemma_trimmed_occurs,
    lemma_trimmed_stays, lemma_what_stands_in_full_is_found, lower_chars, occurs_at, same_chars,
    trim, trimmed, views,
};

verus! {

/// The name to show for a device; one that does not tell its name is unknown.
pub open spec fn label(name: Option<Seq<char>>) -> Seq<char> {
    match name {
        Some(name) => name,
        None => "<unknown>"@,
    }
}

/// A device of this name is one the user may have meant: it is the preferred
/// name, or holds it without the white space around it, whatever the case of
/// ASCII letters.
pub open spec fn name_matches(name: Seq<char>, preferred: Seq<char>) -> bool {
    ||| ascii_lower(name) == ascii_lower(preferred)
    ||| has_substring(ascii_lower(name), ascii_lower(trimmed(preferred)))
}

/// What one device said: whether it can capture, and its name.
pub type Report = (bool, Option<Seq<char>>);

/// The search ends at this device.
pub open spec fn accepted(preferred: Seq<char>, report: Report) -> bool {
    report.0 && name_matches(label(report.1), preferred)
}

/// The devices seen so far that can capture, after one more report.
pub open spec fn noted(available: Seq<Seq<char>>, report: Report) -> Seq<Seq<char>> {
    if report.0 {
        available.push(label(report.1))
    } else {
        available
    }
}

/// The names of the devices that can capture, in order.
pub open spec fn capable(reports: Seq<Report>) -> Seq<Seq<char>>
    decreases reports.len(),
{
    if reports.len() == 0 {
        Seq::empty()
    } else {
        noted(capable(reports.drop_last()), reports.last())
    }
}

/// A search that offers the reports one after the other, from `next` on, and
/// stops where one is accepted: where it stopped, and what it noted.
pub open spec fn search(
    preferred: Seq<char>,
    reports: Seq<Report>,
    next: int,
    available: Seq<Seq<char>>,
) -> (Option<int>, Seq<Seq<char>>)
    decreases reports.len() - next,
{
    if next < 0 || next >= reports.len() {
        (None, available)
    } else if accepted(preferred, reports[next]) {
        (Some(next), noted(available, reports[next]))
    } else {
        search(preferred, reports, next + 1, noted(available, reports[next]))
    }
}

/// A search for a device by name.
pub struct DeviceSearch {
    pub direction: CaptureDirection,
    pub preferred: String,
    pub available: Vec<String>,
}

impl DeviceSearch {
    /// A search in which no device was seen yet.
    pub fn new(direction: CaptureDirection, preferred_name: &str) -> (r: DeviceSearch)
        ensures
            r.direction == direction,
            r.preferred@ == preferred_name@,
            r.available@ == Seq::<String>::empty(),
    {
        DeviceSearch {
            direction,
            preferred: preferred_name.to_string(),
            available: Vec::new(),
        }
    }

    /// Takes one device's report and tells whether it is the one to use. A
    /// device that can capture is noted, whether it is used or not.
    pub fn offer(&mut self, can_capture: bool, name: Option<String>) -> (r: bool)
        ensures
            r == accepted(old(self).preferred@, (can_capture, text_of(name))),
            views(final(self).available@) == noted(
                views(old(self).available@),
                (can_capture, text_of(name)),
            ),
            final(self).direction == old(self).direction,
            final(self).preferred == old(self).preferred,
    {
        if !can_capture {
            return false;
        }
        let name: String = device_label(name);
        let matches: bool = is_match(name.as_str(), self.preferred.as_str());
        self.available.push(name);
        assert(views(self.available@) =~= views(old(self).available@).push(name@));
        matches
    }

    /// The error for a search that no device ended.
    pub fn failure(self) -> (r: CaptureError)
        ensures
            r == (CaptureError::NoMatchingDevice {
                direction: self.direction,
                preferred: self.preferred,
                available: self.available,
            }),
    {
        CaptureError::NoMatchingDevice {
            direction: self.direction,
            preferred: self.preferred,
            available: self.available,
        }
    }
}

/// How to come by a device: the host's default, or one found by name.
pub enum DevicePlan {
    Default(CaptureDirection),
    Search(DeviceSearch),
}

impl DevicePlan {
    /// The plan for a direction and a preferred name, before any device was
    /// seen.
    pub open spec fn starts(
        &self,
        direction: CaptureDirection,
        preferred_name: Option<Seq<char>>,
    ) -> bool {
        match preferred_name {
            None => *self == DevicePlan::Default(direction),
            Some(name) => match self {
                DevicePlan::Default(_) => false,
                DevicePlan::Search(search) => {
                    &&& search.direction == direction
                    &&& search.preferred@ == name
                    &&& search.available@ == Seq::<String>::empty()
                },
            },
        }
    }
}

/// The name to show for a device.
pub fn device_label(name: Option<String>) -> (r: String)
    ensures
        r@ == label(text_of(name)),
{
    match name {
        Some(name) => name,
        None => "<unknown>".to_string(),
    }
}

/// Whether a device of this name is one the user may have meant.
pub fn is_match(name: &str, preferred: &str) -> (r: bool)
    ensures
        r == name_matches(name@, preferred@),
{
    let folded: Vec<char> = lower_chars(name);
    same_chars(&folded, &lower_chars(preferred)) || contains_chars(
        &folded,
        &lower_chars(trim(preferred)),
    )
}

/// How to come by an input device.
pub fn select_input_device(preferred_name: &Option<String>) -> (r: DevicePlan)
    ensures
        r.starts(CaptureDirection::Input, text_of(*preferred_name)),
{
    match preferred_name {
        Some(name) => DevicePlan::Search(
            DeviceSearch::new(CaptureDirection::Input, name.as_str()),
        ),
        None => DevicePlan::Default(CaptureDirection::Input),
    }
}

/// How to come by an output device whose playback is recorded.
pub fn select_output_loopback_device(preferred_name: &Option<String>) -> (r: DevicePlan)
    ensures
        r.starts(CaptureDirection::OutputLoopback, text_of(*preferred_name)),
{
    match preferred_name {
        Some(name) => DevicePlan::Search(
            DeviceSearch::new(CaptureDirection::OutputLoopback, name.as_str()),
        ),
        None => DevicePlan::Default(CaptureDirection::OutputLoopback),
    }
}

/// How to come by the device for these settings. Only Windows lets an output
/// device be recorded; elsewhere an input device is used in any case.
pub fn select_capture_device(windows: bool, config: &EqualizerConfig) -> (r: DevicePlan)
    ensures
        r.starts(
            if windows && config.capture_sink {
                CaptureDirection::OutputLoopback
            } else {
                CaptureDirection::Input
            },
            text_of(config.device_name),
        ),
{
    if windows && config.capture_sink {
        select_output_loopback_device(&config.device_name)
    } else {
        select_input_device(&config.device_name)
    }
}

/// The host's default device, or the error where it has none.
pub fn default_device<D>(direction: CaptureDirection, device: Option<D>) -> (r: Result<
    D,
    CaptureError,
>)
    ensures
        r == match device {
            Some(device) => Ok(device),
            None => Err(CaptureError::NoDefaultDevice { direction }),
        },
{
    match device {
        Some(device) => Ok(device),
        None => Err(CaptureError::NoDefaultDevice { direction }),
    }
}

/// Whether a device can capture: it has a default configuration, or supports
/// at least one. `supported` is `None` where the device could not be asked.
pub fn device_supports_capture(has_default: bool, supported: Option<bool>) -> (r: bool)
    ensures
        r == (has_default || supported == Some(true)),
{
    has_default || match supported {
        Some(any) => any,
        None => false,
    }
}

/// The configuration to use: the default, else the first supported one.
/// `supported` is `None` where the device could not be asked; it does not
/// matter where there is a default.
pub fn select_config<C>(
    direction: CaptureDirection,
    default: Option<C>,
    supported: Option<Option<C>>,
) -> (r: Result<C, CaptureError>)
    ensures
        r == match (default, supported) {
            (Some(config), _) => Ok(config),
            (None, None) => Err(CaptureError::QueryConfigs { direction }),
            (None, Some(None)) => Err(CaptureError::NoSupportedConfig { direction }),
            (None, Some(Some(config))) => Ok(config),
        },
{
    match default {
        Some(config) => Ok(config),
        None => match supported {
            None => Err(CaptureError::QueryConfigs { direction }),
            Some(None) => Err(CaptureError::NoSupportedConfig { direction }),
            Some(Some(config)) => Ok(config),
        },
    }
}

/// A device that was chosen, with its configuration and its name.
pub struct CaptureDeviceSelection<D, C> {
    pub device: D,
    pub supported_config: C,
    pub device_name: String,
    pub loopback: bool,
}

/// Puts a selection together; it fails where the configuration did.
pub fn build_selection<D, C>(
    direction: CaptureDirection,
    device: D,
    name: Option<String>,
    supported_config: Result<C, CaptureError>,
) -> (r: Result<CaptureDeviceSelection<D, C>, CaptureError>)
    ensures
        match supported_config {
            Err(error) => r == Err::<CaptureDeviceSelection<D, C>, CaptureError>(error),
            Ok(config) => match r {
                Err(_) => false,
                Ok(selection) => {
                    &&& selection.device == device
                    &&& selection.supported_config == config
                    &&& selection.device_name@ == label(text_of(name))
                    &&& selection.loopback == (direction == CaptureDirection::OutputLoopback)
                },
            },
        },
{
    match supported_config {
        Err(error) => Err(error),
        Ok(supported_config) => Ok(
            CaptureDeviceSelection {
                device,
                supported_config,
                device_name: device_label(name),
                loopback: match direction {
                    CaptureDirection::Input => false,
                    CaptureDirection::OutputLoopback => true,
                },
            },
        ),
    }
}

/// The device that is used is the first that can capture and matches, in the
/// order of the reports; where there is none, no device is used.
pub proof fn lemma_first_match_is_used(preferred: Seq<char>, reports: Seq<Report>)
    ensures
        match search(preferred, reports, 0, Seq::empty()).0 {
            Some(k) => {
                &&& 0 <= k < reports.len()
                &&& accepted(preferred, reports[k])
                &&& forall|j: int| 0 <= j < k ==> !accepted(preferred, #[trigger] reports[j])
            },
            None => forall|j: int|
                0 <= j < reports.len() ==> !accepted(preferred, #[trigger] reports[j]),
        },
{
    lemma_search_from(preferred, reports, 0, Seq::empty());
}

/// A search that fails has noted every device that can capture, in order, and
/// one that succeeds has noted those up to the device that is used.
pub proof fn lemma_search_notes_capable_devices(preferred: Seq<char>, reports: Seq<Report>)
    ensures
        match search(preferred, reports, 0, Seq::empty()) {
            (Some(k), available) => available == capable(reports.take(k + 1)),
            (None, available) => available == capable(reports),
        },
{
    assert(reports.take(0) =~= Seq::<Report>::empty());
    assert(reports.take(reports.len() as int) =~= reports);
    lemma_search_from(preferred, reports, 0, capable(reports.take(0)));
}

proof fn lemma_search_from(
    preferred: Seq<char>,
    reports: Seq<Report>,
    next: int,
    available: Seq<Seq<char>>,
)
    requires
        0 <= next <= reports.len(),
    ensures
        match search(preferred, reports, next, available).0 {
            Some(k) => {
                &&& next <= k < reports.len()
                &&& accepted(preferred, reports[k])
                &&& forall|j: int| next <= j < k ==> !accepted(preferred, #[trigger] reports[j])
            },
            None => forall|j: int|
                next <= j < reports.len() ==> !accepted(preferred, #[trigger] reports[j]),
        },
        available == capable(reports.take(next)) ==> match search(
            preferred,
            reports,
            next,
            available,
        ) {
            (Some(k), seen) => seen == capable(reports.take(k + 1)),
            (None, seen) => seen == capable(reports.take(reports.len() as int)),
        },
    decreases reports.len() - next,
{
    if next < reports.len() {
        assert(reports.take(next + 1).drop_last() =~= reports.take(next));
        if !accepted(preferred, reports[next]) {
            lemma_search_from(preferred, reports, next + 1, noted(available, reports[next]));
        }
    }
}

/// The case of ASCII letters does not matter, in either name.
pub proof fn lemma_match_ignores_case(
    name: Seq<char>,
    other_name: Seq<char>,
    preferred: Seq<char>,
    other_preferred: Seq<char>,
)
    requires
        ascii_lower(name) == ascii_lower(other_name),
        ascii_lower(preferred) == ascii_lower(other_preferred),
    ensures
        name_matches(name, preferred) == name_matches(other_name, other_preferred),
{
    lemma_lower_and_trim_commute(preferred);
    lemma_lower_and_trim_commute(other_preferred);
}

/// White space around the preferred name makes no difference.
pub proof fn lemma_match_ignores_surrounding_space(name: Seq<char>, preferred: Seq<char>)
    ensures
        name_matches(name, preferred) == name_matches(name, trimmed(preferred)),
{
    let folded = ascii_lower(name);
    lemma_trimmed_stays(preferred);
    if folded == ascii_lower(preferred) {
        lemma_lower_and_trim_commute(preferred);
        lemma_trimmed_occurs(folded);
    }
    if folded == ascii_lower(trimmed(preferred)) {
        assert(folded.subrange(0, folded.len() as int) =~= folded);
        assert(occurs_at(folded, ascii_lower(trimmed(preferred)), 0));
    }
}

/// A preferred name of nothing but white space matches every device.
pub proof fn lemma_blank_name_matches_all(name: Seq<char>, preferred: Seq<char>)
    requires
        trimmed(preferred).len() == 0,
    ensures
        name_matches(name, preferred),
{
    let folded = ascii_lower(name);
    assert(folded.subrange(0, 0) =~= ascii_lower(trimmed(preferred)));
    assert(occurs_at(folded, ascii_lower(trimmed(preferred)), 0));
}

/// A device that matches holds the whole preferred name, from its first to its
/// last character that is not part of the white space around it, in a row and
/// whatever the case of ASCII letters. `start` and `end` are where that part
/// of the preferred name lies; the result is where it stands in the name.
pub proof fn lemma_match_holds_the_whole_name(
    name: Seq<char>,
    preferred: Seq<char>,
    start: int,
    end: int,
) -> (at: int)
    requires
        0 <= start <= end <= preferred.len(),
        forall|i: int| 0 <= i < start ==> is_white_space(#[trigger] preferred[i]),
        forall|i: int| end <= i < preferred.len() ==> is_white_space(#[trigger] preferred[i]),
        start < end ==> !is_white_space(preferred[start]) && !is_white_space(preferred[end - 1]),
        name_matches(name, preferred),
    ensures
        0 <= at,
        at + (end - start) <= name.len(),
        forall|k: int|
            start <= k < end ==> ascii_lower_char(name[at + (k - start)]) == ascii_lower_char(
                #[trigger] preferred[k],
            ),
{
    let folded = ascii_lower(name);
    let needle = ascii_lower(trimmed(preferred));
    lemma_trimmed_is_what_stands_between(preferred, start, end);
    if folded == ascii_lower(preferred) {
        assert(folded.len() == ascii_lower(preferred).len());
        assert forall|k: int| start <= k < end implies ascii_lower_char(name[start + (k - start)])
            == ascii_lower_char(#[trigger] preferred[k]) by {
            assert(folded[k] == ascii_lower(preferred)[k]);
        }
        start
    } else {
        let at = lemma_found_substring_stands_in_full(folded, needle);
        assert forall|k: int| start <= k < end implies ascii_lower_char(name[at + (k - start)])
            == ascii_lower_char(#[trigger] preferred[k]) by {
            assert(folded[at + (k - start)] == needle[k - start]);
            assert(trimmed(preferred)[k - start] == preferred[k]);
        }
        at
    }
}

/// A device whose name holds the whole preferred name, without the white space
/// around it and whatever the case of ASCII letters, matches, wherever in the
/// name that stands.
pub proof fn lemma_name_that_holds_the_whole_matches(
    name: Seq<char>,
    preferred: Seq<char>,
    start: int,
    end: int,
    at: int,
)
    requires
        0 <= start <= end <= preferred.len(),
        forall|i: int| 0 <= i < start ==> is_white_space(#[trigger] preferred[i]),
        forall|i: int| end <= i < preferred.len() ==> is_white_space(#[trigger] preferred[i]),
        start < end ==> !is_white_space(preferred[start]) && !is_white_space(preferred[end - 1]),
        0 <= at,
        at + (end - start) <= name.len(),
        forall|k: int|
            start <= k < end ==> ascii_lower_char(name[at + (k - start)]) == ascii_lower_char(
                #[trigger] preferred[k],
            ),
    ensures
        name_matches(name, preferred),
{
    let folded = ascii_lower(name);
    let needle = ascii_lower(trimmed(preferred));
    lemma_trimmed_is_what_stands_between(preferred, start, end);
    assert forall|j: int| 0 <= j < needle.len() implies folded[at + j] == #[trigger] needle[j] by {
        assert(trimmed(preferred)[j] == preferred[start + j]);
        assert(ascii_lower_char(name[at + (start + j - start)]) == ascii_lower_char(
            preferred[start + j],
        ));
    }
    lemma_what_stands_in_full_is_found(folded, needle, at);
}

/// A name shorter than the preferred one without the white space around it
/// never matches.
pub proof fn lemma_shorter_name_never_matches(name: Seq<char>, preferred: Seq<char>)
    requires
        name.len() < trimmed(preferred).len(),
    ensures
        !name_matches(name, preferred),
{
    let bounds = lemma_bounds_of_what_is_left(preferred);
    lemma_trimmed_is_what_stands_between(preferred, bounds.0, bounds.1);
    if name_matches(name, preferred) {
        let at = lemma_match_holds_the_whole_name(name, preferred, bounds.0, bounds.1);
        assert(at + (bounds.1 - bounds.0) <= name.len());
    }
}

/// A device goes by its own name, and by `<unknown>` where it tells none.
pub proof fn lemma_devices_go_by_their_names(name: Seq<char>)
    ensures
        label(Some(name)) == name,
        label(None) == "<unknown>"@,
{
}

/// A device that cannot capture is neither used nor noted. One that can is
/// noted last, whether it is used or not, and is used where its name matches.
pub proof fn lemma_what_becomes_of_a_device(
    preferred: Seq<char>,
    available: Seq<Seq<char>>,
    name: Option<Seq<char>>,
)
    ensures
        !accepted(preferred, (false, name)),
        noted(available, (false, name)) == available,
        match name {
            Some(known) => {
                &&& accepted(preferred, (true, name)) == name_matches(known, preferred)
                &&& noted(available, (true, name)) == available.push(known)
            },
            None => {
                &&& accepted(preferred, (true, name)) == name_matches("<unknown>"@, preferred)
                &&& noted(available, (true, name)) == available.push("<unknown>"@)
            },
        },
{
}

/// Without a preferred name the plan is the default device; with one, it is a
/// search for exactly that name, in the given direction, that has seen no
/// device yet.
pub proof fn lemma_plan_follows_the_preferred_name(
    plan: DevicePlan,
    direction: CaptureDirection,
    preferred_name: Option<Seq<char>>,
)
    requires
        plan.starts(direction, preferred_name),
    ensures
        preferred_name is None <==> plan is Default,
        match plan {
            DevicePlan::Default(chosen) => chosen == direction,
            DevicePlan::Search(search) => {
                &&& search.direction == direction
                &&& preferred_name == Some(search.preferred@)
                &&& search.available@.len() == 0
            },
        },
{
}

/// Whether a device is the one to use is whether its name matches.
pub proof fn lemma_only_the_names_decide(name: &str, preferred: &str, r: bool)
    requires
        call_ensures(is_match, (name, preferred), r),
    ensures
        r <==> name_matches(name@, preferred@),
{
}

/// What is played is recorded only on Windows and only where the settings ask
/// for it; otherwise an input device is used. The device is searched for by the
/// configured name, as it is, and is the default one where no name is
/// configured.
pub proof fn lemma_settings_choose_the_device(
    windows: bool,
    config: EqualizerConfig,
    plan: DevicePlan,
)
    requires
        call_ensures(select_capture_device, (windows, &config), plan),
    ensures
        match (plan, config.device_name) {
            (DevicePlan::Default(direction), None) => direction == CaptureDirection::OutputLoopback
                <==> windows && config.capture_sink,
            (DevicePlan::Search(search), Some(name)) => {
                &&& search.direction == CaptureDirection::OutputLoopback <==> windows
                    && config.capture_sink
                &&& search.preferred@ == name@
                &&& search.available@.len() == 0
            },
            _ => false,
        },
{
}

/// Offering a device to a search keeps what is searched for, notes the device
/// last where it can capture, and ends the search where it can and its name
/// matches.
pub proof fn lemma_offer_notes_and_decides(can_capture: bool, name: String, r: bool)
    ensures
        forall|search: &mut DeviceSearch| #[trigger]
            call_ensures(DeviceSearch::offer, (search, can_capture, Some(name)), r) ==> {
                &&& r <==> can_capture && name_matches(name@, search.preferred@)
                &&& final(search).direction == search.direction
                &&& final(search).preferred@ == search.preferred@
                &&& views(final(search).available@) == if can_capture {
                    views(search.available@).push(name@)
                } else {
                    views(search.available@)
                }
            },
        forall|search: &mut DeviceSearch| #[trigger]
            call_ensures(DeviceSearch::offer, (search, can_capture, None), r) ==> {
                &&& r <==> can_capture && name_matches("<unknown>"@, search.preferred@)
                &&& final(search).direction == search.direction
                &&& final(search).preferred@ == search.preferred@
                &&& views(final(search).available@) == if can_capture {
                    views(search.available@).push("<unknown>"@)
                } else {
                    views(search.available@)
                }
            },
{
}

} // verus!
