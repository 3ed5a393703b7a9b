//! Names the user interface shows for codecs, mapped to the transcoder's encoder names.
use vstd::prelude::*;

use crate::text::same_text;

verus! {

/// The transcoder's video encoder for a codec name; a name that is already an
/// encoder name is kept.
pub open spec fn video_encoder_of(c: Seq<char>) -> Seq<char> {
    if c == "H.264"@ {
        "libx264"@
    } else if c == "H.265"@ || c == "HEVC"@ {
        "libx265"@
    } else if c == "AV1"@ {
        "libsvtav1"@
    } else if c == "VP8"@ {
        "libvpx"@
    } else if c == "VP9"@ {
        "libvpx-vp9"@
    } else if c == "Xvid"@ {
        "libxvid"@
    } else if c == "ProRes"@ {
        "prores"@
    } else if c == "WMV9"@ {
        "wmv2"@
    } else if c == "VC-1"@ {
        "vc1"@
    } else if c == "MPEG-2"@ {
        "mpeg2video"@
    } else if c == "MPEG-4"@ {
        "mpeg4"@
    } else if c == "H.263"@ {
        "h263"@
    } else if c == "VP6"@ {
        "vp6"@
    } else if c == "Theora"@ {
        "libtheora"@
    } else if c == "DNxHD"@ {
        "dnxhd"@
    } else {
        c
    }
}

/// The transcoder's audio encoder for a codec name; a name that is already an
/// encoder name is kept.
pub open spec fn audio_encoder_of(c: Seq<char>) -> Seq<char> {
    if c == "AAC"@ {
        "aac"@
    } else if c == "MP3"@ {
        "libmp3lame"@
    } else if c == "FLAC"@ {
        "flac"@
    } else if c == "Vorbis"@ {
        "libvorbis"@
    } else if c == "Opus"@ {
        "libopus"@
    } else if c == "AC-3"@ {
        "ac3"@
    } else if c == "DTS"@ {
        "dts"@
    } else if c == "WMA"@ {
        "wmav2"@
    } else if c == "AMR"@ {
        "libopencore_amrnb"@
    } else if c == "PCM"@ {
        "pcm_s16le"@
    } else {
        c
    }
}

/// The transcoder's video encoder for a codec name.
pub fn map_codec_to_ffmpeg(codec: &str) -> (r: &str)
    ensures
        r@ == video_encoder_of(codec@),
{
    if same_text(codec, "H.264") {
        "libx264"
    } else if same_text(codec, "H.265") || same_text(codec, "HEVC") {
        "libx265"
    } else if same_text(codec, "AV1") {
        "libsvtav1"
    } else if same_text(codec, "VP8") {
        "libvpx"
    } else if same_text(codec, "VP9") {
        "libvpx-vp9"
    } else if same_text(codec, "Xvid") {
        "libxvid"
    } else if same_text(codec, "ProRes") {
        "prores"
    } else if same_text(codec, "WMV9") {
        "wmv2"
    } else if same_text(codec, "VC-1") {
        "vc1"
    } else if same_text(codec, "MPEG-2") {
        "mpeg2video"
    } else if same_text(codec, "MPEG-4") {
        "mpeg4"
    } else if same_text(codec, "H.263") {
        "h263"
    } else if same_text(codec, "VP6") {
        "vp6"
    } else if same_text(codec, "Theora") {
        "libtheora"
    } else if same_text(codec, "DNxHD") {
        "dnxhd"
    } else {
        codec
    }
}

/// The transcoder's audio encoder for a codec name.
pub fn map_audio_codec_to_ffmpeg(codec: &str) -> (r: &str)
    ensures
        r@ == audio_encoder_of(codec@),
{
    if same_text(codec, "AAC") {
        "aac"
    } else if same_text(codec, "MP3") {
        "libmp3lame"
    } else if same_text(codec, "FLAC") {
        "flac"
    } else if same_text(codec, "Vorbis") {
        "libvorbis"
    } else if same_text(codec, "Opus") {
        "libopus"
    } else if same_text(codec, "AC-3") {
        "ac3"
    } else if same_text(codec, "DTS") {
        "dts"
    } else if same_text(codec, "WMA") {
        "wmav2"
    } else if same_text(codec, "AMR") {
        "libopencore_amrnb"
    } else if same_text(codec, "PCM") {
        "pcm_s16le"
    } else {
        codec
    }
}

} // verus!
