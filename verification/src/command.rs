//! Judging what an external command left behind, and reading a video's
//! duration and resolution out of the prober's report.

use crate::text::{parse_decimal, parsed_decimal};
use vstd::prelude::*;
use vstd::utf8::{decode_utf8, valid_utf8};

verus! {

/// Why a step outside this library did not succeed, in words.
#[derive(Clone, Debug, PartialEq, Eq)]
pub struct IoError {
    pub message: String,
}

impl IoError {
    /// The description, as it is shown to people.
    pub fn to_string(&self) -> (text: String)
        ensures
            text@ == self.message@,
    {
        self.message.clone()
    }
}

/// What a finished command left behind.
#[derive(Clone, Debug, PartialEq, Eq)]
pub struct Output {
    /// Whether the command exited with status zero.
    pub success: bool,
    pub stdout: Vec<u8>,
    pub stderr: Vec<u8>,
}

/// Width and height of a video in pixels, and its length in whole seconds.
#[derive(Clone, Copy, Debug, PartialEq, Eq, Structural)]
pub struct Metadata {
    pub width: u32,
    pub height: u32,
    pub duration: u64,
}

/// The capture groups of one match, the whole match first. A group that took
/// no part in the match is `None`.
pub type Groups = Vec<Option<String>>;

/// Pattern of the prober's line that holds the duration.
pub const DURATION_PATTERN: &'static str = r"(?m)^  Duration: (\d\d):(\d\d):(\d\d)\.\d\d,";

/// Pattern of the prober's line that holds the resolution of the video stream.
pub const RESOLUTION_PATTERN: &'static str = r"(?m)^  Stream [^ ]+: Video: .*, (\d\d\d+)x(\d\d\d+)";

/// An error with the given description.
pub fn io_err(message: &str) -> (error: IoError)
    ensures
        error.message@ == message@,
{
    IoError { message: message.to_owned() }
}

/// The description of a command that exited with a failure: its name and what
/// it wrote to its error stream, where that is text.
pub open spec fn command_failure(descriptor: Seq<char>, stderr: Seq<u8>) -> Seq<char> {
    if valid_utf8(stderr) {
        descriptor + " failed\n\n"@ + decode_utf8(stderr)
    } else {
        descriptor + " failed and the output was not UTF-8"@
    }
}

/// The text that `bytes` encode, where they are well-formed UTF-8.
///
/// Trusted: `String::from_utf8` returns the decoded text exactly when the
/// bytes are valid UTF-8, and an error otherwise.
#[verifier::external_body]
fn utf8_text(bytes: Vec<u8>) -> (text: Option<String>)
    ensures
        match text {
            Some(t) => valid_utf8(bytes@) && t@ == decode_utf8(bytes@),
            None => !valid_utf8(bytes@),
        },
{
    String::from_utf8(bytes).ok()
}

/// What a run of a command amounts to: its output where it started and exited
/// with status zero, and otherwise the description of what went wrong, which
/// is the reason why it did not start or else names `descriptor`.
pub open spec fn judged(launched: Result<Output, String>, descriptor: Seq<char>) -> Result<
    Output,
    Seq<char>,
> {
    match launched {
        Err(reason) => Err(reason@),
        Ok(output) => if output.success {
            Ok(output)
        } else {
            Err(command_failure(descriptor, output.stderr@))
        },
    }
}

/// Judges a command that the caller has run.
///
/// `launched` is the command's output, or the reason why it could not be
/// started. A command that started and exited with status zero is passed on;
/// any other outcome becomes an error.
pub fn run_command(launched: Result<Output, String>, descriptor: &str) -> (result: Result<
    Output,
    IoError,
>)
    ensures
        match judged(launched, descriptor@) {
            Ok(output) => result == Ok::<Output, IoError>(output),
            Err(message) => result matches Err(error) && error.message@ == message,
        },
{
    let output = match launched {
        Ok(output) => output,
        Err(reason) => {
            return Err(IoError { message: reason });
        },
    };
    if output.success {
        return Ok(output);
    }
    let mut message = descriptor.to_owned();
    match utf8_text(output.stderr) {
        Some(text) => {
            message.append(" failed\n\n");
            message.append(text.as_str());
        },
        None => {
            message.append(" failed and the output was not UTF-8");
        },
    }
    Err(IoError { message })
}

/// The capture groups of the leftmost match of `pattern` in `text`; `None`
/// where nothing matches or `pattern` is no regular expression.
pub uninterp spec fn regex_captures(pattern: Seq<char>, text: Seq<char>) -> Option<
    Seq<Option<Seq<char>>>,
>;

/// Searches `text` for `pattern`.
///
/// Trusted: `regex::Regex::new` followed by `Regex::captures` depends on the
/// pattern and the text alone. The groups are handed out in the order of
/// `Captures::iter`, each as the text it matched.
#[verifier::external_body]
fn captures(pattern: &str, text: &str) -> (groups: Option<Groups>)
    ensures
        groups.deep_view() == regex_captures(pattern@, text@),
{
    match regex::Regex::new(pattern) {
        Ok(re) => re.captures(text).map(
            |found| found.iter().map(|group| group.map(|m| m.as_str().to_string())).collect(),
        ),
        Err(_) => None,
    }
}

/// The number that group `i` writes, if the group is there, took part in the
/// match and is a decimal number no greater than `limit`.
pub open spec fn group_number(groups: Seq<Option<Seq<char>>>, i: int, limit: u64) -> Option<u64> {
    if 0 <= i < groups.len() {
        match groups[i] {
            Some(text) => parsed_decimal(text, limit),
            None => None,
        }
    } else {
        None
    }
}

/// Hours, minutes and seconds of groups 1 to 3 as one number of seconds, if
/// that number fits.
pub open spec fn duration_of(groups: Seq<Option<Seq<char>>>) -> Option<u64> {
    match (
        group_number(groups, 1, u64::MAX),
        group_number(groups, 2, u64::MAX),
        group_number(groups, 3, u64::MAX),
    ) {
        (Some(hours), Some(minutes), Some(seconds)) => if hours * 3600 + minutes * 60 + seconds
            <= u64::MAX {
            Some((hours * 3600 + minutes * 60 + seconds) as u64)
        } else {
            None
        },
        _ => None,
    }
}

/// Width and height of groups 1 and 2.
pub open spec fn resolution_of(groups: Seq<Option<Seq<char>>>) -> Option<(u32, u32)> {
    match (group_number(groups, 1, u32::MAX as u64), group_number(groups, 2, u32::MAX as u64)) {
        (Some(width), Some(height)) => Some((width as u32, height as u32)),
        _ => None,
    }
}

/// What the two searches of a report amount to: the metadata, or the reason
/// why there is none. The duration is looked at first.
pub open spec fn metadata_of(
    duration: Option<Seq<Option<Seq<char>>>>,
    resolution: Option<Seq<Option<Seq<char>>>>,
) -> Result<Metadata, Seq<char>> {
    let seconds = match duration {
        Some(groups) => duration_of(groups),
        None => None,
    };
    let size = match resolution {
        Some(groups) => resolution_of(groups),
        None => None,
    };
    match seconds {
        None => Err("no duration found"@),
        Some(duration) => match size {
            None => Err("no resolution found"@),
            Some((width, height)) => Ok(Metadata { width, height, duration }),
        },
    }
}

/// What a prober's report says of the video: the metadata that the searches
/// for the two patterns amount to.
pub open spec fn report_metadata(text: Seq<char>) -> Result<Metadata, Seq<char>> {
    metadata_of(
        regex_captures(DURATION_PATTERN@, text),
        regex_captures(RESOLUTION_PATTERN@, text),
    )
}

/// `result` is the outcome `expected`, error descriptions compared as text.
pub open spec fn is_outcome(result: Result<Metadata, IoError>, expected: Result<
    Metadata,
    Seq<char>,
>) -> bool {
    match (result, expected) {
        (Ok(found), Ok(metadata)) => found == metadata,
        (Err(error), Err(message)) => error.message@ == message,
        _ => false,
    }
}

fn number_in(groups: &Groups, i: usize, limit: u64) -> (number: Option<u64>)
    ensures
        number == group_number(groups.deep_view(), i as int, limit),
{
    if i < groups.len() {
        match &groups[i] {
            Some(text) => parse_decimal(text.as_str(), limit),
            None => None,
        }
    } else {
        None
    }
}

fn duration_in(groups: &Groups) -> (duration: Option<u64>)
    ensures
        duration == duration_of(groups.deep_view()),
{
    let hours = number_in(groups, 1, u64::MAX)?;
    let minutes = number_in(groups, 2, u64::MAX)?;
    let seconds = number_in(groups, 3, u64::MAX)?;
    let from_hours = hours.checked_mul(3600)?;
    let from_minutes = minutes.checked_mul(60)?;
    from_hours.checked_add(from_minutes)?.checked_add(seconds)
}

fn resolution_in(groups: &Groups) -> (resolution: Option<(u32, u32)>)
    ensures
        resolution == resolution_of(groups.deep_view()),
{
    let width = number_in(groups, 1, u32::MAX as u64)?;
    let height = number_in(groups, 2, u32::MAX as u64)?;
    Some((width as u32, height as u32))
}

/// Turns the capture groups of the two searches into metadata.
///
/// `duration` holds what the search for [`DURATION_PATTERN`] found and
/// `resolution` what the search for [`RESOLUTION_PATTERN`] found. A search
/// without a match, a group that is no number and a number that does not fit
/// all count as not found.
pub fn metadata_from_captures(duration: Option<Groups>, resolution: Option<Groups>) -> (result:
    Result<Metadata, IoError>)
    ensures
        is_outcome(result, metadata_of(duration.deep_view(), resolution.deep_view())),
{
    let seconds = match duration {
        Some(groups) => duration_in(&groups),
        None => None,
    };
    let seconds = match seconds {
        Some(seconds) => seconds,
        None => {
            return Err(io_err("no duration found"));
        },
    };
    let size = match resolution {
        Some(groups) => resolution_in(&groups),
        None => None,
    };
    match size {
        Some((width, height)) => Ok(Metadata { width, height, duration: seconds }),
        None => Err(io_err("no resolution found")),
    }
}

/// Reads duration and resolution out of the prober's report.
pub fn read_report(text: &str) -> (result: Result<Metadata, IoError>)
    ensures
        is_outcome(result, report_metadata(text@)),
{
    let duration = captures(DURATION_PATTERN, text);
    let resolution = captures(RESOLUTION_PATTERN, text);
    metadata_from_captures(duration, resolution)
}

/// What a probe of a file amounts to, from what the prober left behind.
pub open spec fn probe_outcome(launched: Result<Output, String>) -> Result<Metadata, Seq<char>> {
    match launched {
        Err(reason) => Err(reason@),
        Ok(output) => if !output.success {
            Err(command_failure("ffprobe"@, output.stderr@))
        } else if !valid_utf8(output.stderr@) {
            Err("invalid encoding"@)
        } else {
            report_metadata(decode_utf8(output.stderr@))
        },
    }
}

/// Judges a run of the prober and reads the video's metadata out of what it
/// wrote to its error stream.
///
/// `launched` is the prober's output, or the reason why it could not be
/// started.
pub fn probe(launched: Result<Output, String>) -> (result: Result<Metadata, IoError>)
    ensures
        is_outcome(result, probe_outcome(launched)),
{
    let output = match run_command(launched, "ffprobe") {
        Ok(output) => output,
        Err(error) => {
            return Err(error);
        },
    };
    match utf8_text(output.stderr) {
        Some(text) => read_report(text.as_str()),
        None => Err(io_err("invalid encoding")),
    }
}

} // verus!
