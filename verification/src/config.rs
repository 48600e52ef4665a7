//! What an operator can set: the encoder's argument templates and the policy
//! that a submitted video has to meet.

use vstd::prelude::*;

verus! {

/// The orientation that a policy can ask of a video.
#[derive(Clone, Copy, Debug, PartialEq, Eq, Structural)]
pub enum VideoOrientation {
    Portrait,
    Landscape,
}

/// The settings of one server, fixed when it starts.
#[derive(Clone, Copy, Debug)]
pub struct Config {
    /// Argument template of the first encoder pass, tokens separated by single spaces.
    pub ffmpeg_arguments_pass_1: &'static str,
    /// Argument template of the second encoder pass, where there is one.
    pub ffmpeg_arguments_pass_2: Option<&'static str>,
    /// Longest accepted video, in whole seconds.
    pub maximum_video_length: Option<u64>,
    /// Orientation that a video must have.
    pub require_orientation: Option<VideoOrientation>,
    /// How long a finished job stays listed, in whole seconds.
    pub expire_completed_jobs_after: u64,
}

/// Argument template of the first pass in the stock configuration.
pub const STOCK_PASS_1: &'static str =
    "-i $INPUT -vf scale=1280x720 -b:v 1024k -minrate 512k -maxrate 1485k -tile-columns 2 -g 240 -quality good -crf 32 -c:v libvpx-vp9 -speed 4 -map_metadata -1 -pass 1 -an -f null /dev/null";

/// Argument template of the second pass in the stock configuration.
pub const STOCK_PASS_2: &'static str =
    "-i $INPUT -vf scale=1280x720 -b:v 1024k -minrate 512k -maxrate 1485k -tile-columns 2 -g 240 -quality good -crf 32 -c:v libvpx-vp9 -speed 4 -map_metadata -1 -pass 2 -c:a libopus -y $OUTPUT";

impl Config {
    /// The stock configuration: two passes, at most two minutes of landscape
    /// video, finished jobs listed for one hour.
    pub fn stock() -> (config: Config)
        ensures
            config.ffmpeg_arguments_pass_1@ == STOCK_PASS_1@,
            config.ffmpeg_arguments_pass_2 matches Some(second) && second@ == STOCK_PASS_2@,
            config.maximum_video_length == Some(120u64),
            config.require_orientation == Some(VideoOrientation::Landscape),
            config.expire_completed_jobs_after == 3600,
    {
        Config {
            ffmpeg_arguments_pass_1: STOCK_PASS_1,
            ffmpeg_arguments_pass_2: Some(STOCK_PASS_2),
            maximum_video_length: Some(120),
            require_orientation: Some(VideoOrientation::Landscape),
            expire_completed_jobs_after: 3600,
        }
    }
}

} // verus!
