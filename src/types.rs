//! Plain data handed between the orchestrator and its callers. Times are whole
//! microseconds.
use vstd::prelude::*;

verus! {

/// A requested stretch of the input, in microseconds from its start.
#[derive(Clone, Copy, Debug)]
pub struct TimeRange {
    pub start: Option<u64>,
    pub end: Option<u64>,
}

#[derive(Clone, Copy, Debug, PartialEq, Eq)]
pub struct CustomResolution {
    pub width: u32,
    pub height: u32,
}

/// The user's settings for one transcode, as the command builder reads them.
#[derive(Clone, Debug)]
pub struct CompressionSettings {
    pub format: String,
    pub codec: String,
    pub resolution: String,
    pub custom_resolution: Option<CustomResolution>,
    pub quality_type: String,
    pub crf_value: Option<u8>,
    pub bitrate: Option<String>,
    pub qv_value: Option<u8>,
    pub time_range: Option<TimeRange>,
    pub hardware_acceleration: Option<String>,
    pub bit_depth: Option<u8>,
}

/// What the metadata probe reports of a media file. `duration` is in
/// microseconds, `fps` in thousandths of a frame per second.
#[derive(Clone, Debug)]
pub struct VideoMetadata {
    pub format: String,
    pub video_codec: String,
    pub audio_codec: String,
    pub resolution: String,
    pub bitrate: String,
    pub sample_rate: String,
    pub duration: u64,
    pub fps: u64,
    pub color_depth: Option<String>,
}

/// The outcome of one transcode. A failed encode is reported here, with
/// `success` false, rather than as an error.
#[derive(Debug)]
pub struct CompressionResult {
    pub success: bool,
    pub output_path: Option<String>,
    pub error: Option<String>,
    pub original_size: u64,
    pub compressed_size: Option<u64>,
    pub compressed_metadata: Option<VideoMetadata>,
}

/// One encoder or decoder that the transcoder lists.
#[derive(Clone, Debug)]
pub struct Codec {
    pub name: String,
    pub codec_type: String,
    pub media_type: String,
    pub description: String,
    pub hardware_type: Option<String>,
}

} // verus!
