//! Display rules for what the metadata probe reports: container names,
//! colour depth, and the labels of bitrate, size and sample rate.
use vstd::prelude::*;
use vstd::string::*;

use crate::text::{eq_ignore_ascii_case, same_text, same_text_ignore_ascii_case};
use crate::timecode::{decimal_digits, push_decimal};

verus! {

/// What `str::to_uppercase` makes of a text.
pub uninterp spec fn upper_of(s: Seq<char>) -> Seq<char>;

/// Relies on `str::to_uppercase`: the text with every character in upper case.
#[verifier::external_body]
fn uppercase(s: &str) -> (r: String)
    ensures
        r@ == upper_of(s@),
{
    s.to_uppercase()
}

/// The container name a file extension gives, ignoring ASCII case.
pub open spec fn container_of_extension(ext: Seq<char>) -> Option<Seq<char>> {
    if eq_ignore_ascii_case(ext, "mp4"@) {
        Some("MP4"@)
    } else if eq_ignore_ascii_case(ext, "mov"@) {
        Some("MOV"@)
    } else if eq_ignore_ascii_case(ext, "mkv"@) {
        Some("MKV"@)
    } else if eq_ignore_ascii_case(ext, "avi"@) {
        Some("AVI"@)
    } else if eq_ignore_ascii_case(ext, "webm"@) {
        Some("WEBM"@)
    } else if eq_ignore_ascii_case(ext, "flv"@) {
        Some("FLV"@)
    } else if eq_ignore_ascii_case(ext, "wmv"@) {
        Some("WMV"@)
    } else if eq_ignore_ascii_case(ext, "m4v"@) {
        Some("M4V"@)
    } else if eq_ignore_ascii_case(ext, "ts"@) {
        Some("TS"@)
    } else if eq_ignore_ascii_case(ext, "m2ts"@) {
        Some("M2TS"@)
    } else if eq_ignore_ascii_case(ext, "3gp"@) {
        Some("3GP"@)
    } else {
        None
    }
}

/// The container name the probe's format name gives, ignoring ASCII case;
/// an unknown name is shown upper-cased.
pub open spec fn container_of_format_name(name: Seq<char>) -> Seq<char> {
    if eq_ignore_ascii_case(name, "mov"@) || eq_ignore_ascii_case(name, "mp4"@) {
        "MP4"@
    } else if eq_ignore_ascii_case(name, "matroska"@) || eq_ignore_ascii_case(name, "mkv"@) {
        "MKV"@
    } else if eq_ignore_ascii_case(name, "avi"@) {
        "AVI"@
    } else if eq_ignore_ascii_case(name, "webm"@) {
        "WEBM"@
    } else if eq_ignore_ascii_case(name, "flv"@) {
        "FLV"@
    } else if eq_ignore_ascii_case(name, "asf"@) || eq_ignore_ascii_case(name, "wmv"@) {
        "WMV"@
    } else if eq_ignore_ascii_case(name, "mpegts"@) {
        "TS"@
    } else {
        upper_of(name)
    }
}

/// The container name shown for a file: by its extension where that is
/// known, else by the probe's format name.
pub fn container_format(extension: &str, format_name: &str) -> (r: String)
    ensures
        r@ == (match container_of_extension(extension@) {
            Some(c) => c,
            None => container_of_format_name(format_name@),
        }),
{
    let e = extension;
    if same_text_ignore_ascii_case(e, "mp4") {
        String::from_str("MP4")
    } else if same_text_ignore_ascii_case(e, "mov") {
        String::from_str("MOV")
    } else if same_text_ignore_ascii_case(e, "mkv") {
        String::from_str("MKV")
    } else if same_text_ignore_ascii_case(e, "avi") {
        String::from_str("AVI")
    } else if same_text_ignore_ascii_case(e, "webm") {
        String::from_str("WEBM")
    } else if same_text_ignore_ascii_case(e, "flv") {
        String::from_str("FLV")
    } else if same_text_ignore_ascii_case(e, "wmv") {
        String::from_str("WMV")
    } else if same_text_ignore_ascii_case(e, "m4v") {
        String::from_str("M4V")
    } else if same_text_ignore_ascii_case(e, "ts") {
        String::from_str("TS")
    } else if same_text_ignore_ascii_case(e, "m2ts") {
        String::from_str("M2TS")
    } else if same_text_ignore_ascii_case(e, "3gp") {
        String::from_str("3GP")
    } else {
        let f = format_name;
        if same_text_ignore_ascii_case(f, "mov") || same_text_ignore_ascii_case(f, "mp4") {
            String::from_str("MP4")
        } else if same_text_ignore_ascii_case(f, "matroska") || same_text_ignore_ascii_case(f, "mkv") {
            String::from_str("MKV")
        } else if same_text_ignore_ascii_case(f, "avi") {
            String::from_str("AVI")
        } else if same_text_ignore_ascii_case(f, "webm") {
            String::from_str("WEBM")
        } else if same_text_ignore_ascii_case(f, "flv") {
            String::from_str("FLV")
        } else if same_text_ignore_ascii_case(f, "asf") || same_text_ignore_ascii_case(f, "wmv") {
            String::from_str("WMV")
        } else if same_text_ignore_ascii_case(f, "mpegts") {
            String::from_str("TS")
        } else {
            uppercase(f)
        }
    }
}

/// The bit depth a pixel format implies, where it is one the probe names.
pub open spec fn depth_of_pix_fmt(p: Seq<char>) -> Option<Seq<char>> {
    if p == "yuv420p"@ || p == "yuv422p"@ || p == "yuv444p"@ || p == "rgb24"@ || p == "bgr24"@ {
        Some("8"@)
    } else if p == "yuv420p10le"@ || p == "yuv422p10le"@ || p == "yuv444p10le"@ || p == "rgb48le"@ || p == "bgr48le"@ {
        Some("10"@)
    } else if p == "yuv420p12le"@ || p == "yuv422p12le"@ || p == "yuv444p12le"@ {
        Some("12"@)
    } else if p == "yuv420p16le"@ || p == "yuv422p16le"@ || p == "yuv444p16le"@ || p == "rgb48"@ || p == "bgr48"@ {
        Some("16"@)
    } else {
        None
    }
}

/// The bit depth a pixel format implies.
pub fn color_depth_of_pix_fmt(p: &str) -> (r: Option<&'static str>)
    ensures
        match r {
            Some(d) => depth_of_pix_fmt(p@) == Some(d@),
            None => depth_of_pix_fmt(p@) is None,
        },
{
    if same_text(p, "yuv420p") || same_text(p, "yuv422p") || same_text(p, "yuv444p") || same_text(p, "rgb24")
        || same_text(p, "bgr24") {
        Some("8")
    } else if same_text(p, "yuv420p10le") || same_text(p, "yuv422p10le") || same_text(p, "yuv444p10le")
        || same_text(p, "rgb48le") || same_text(p, "bgr48le") {
        Some("10")
    } else if same_text(p, "yuv420p12le") || same_text(p, "yuv422p12le") || same_text(p, "yuv444p12le") {
        Some("12")
    } else if same_text(p, "yuv420p16le") || same_text(p, "yuv422p16le") || same_text(p, "yuv444p16le")
        || same_text(p, "rgb48") || same_text(p, "bgr48") {
        Some("16")
    } else {
        None
    }
}

/// The colour depth label: `10 bit`.
pub fn depth_label(depth: &str) -> (r: String)
    ensures
        r@ == depth@ + " bit"@,
{
    let mut s = String::from_str(depth);
    s.append(" bit");
    s
}

/// The bitrate label: whole kilobits per second (rounded down), or `unknown`.
pub fn bitrate_label(bits_per_second: Option<u64>) -> (r: String)
    ensures
        r@ == (match bits_per_second {
            Some(b) => decimal_digits((b / 1000) as nat) + " kbps"@,
            None => "unknown"@,
        }),
{
    match bits_per_second {
        Some(b) => {
            let mut s = String::new();
            push_decimal(&mut s, b / 1000);
            s.append(" kbps");
            s
        },
        None => String::from_str("unknown"),
    }
}

/// The frame size label: `1920x1080`.
pub fn resolution_label(width: u64, height: u64) -> (r: String)
    ensures
        r@ == decimal_digits(width as nat) + "x"@ + decimal_digits(height as nat),
{
    let mut s = String::new();
    push_decimal(&mut s, width);
    s.append("x");
    push_decimal(&mut s, height);
    s
}

/// The sample rate label: `none` without an audio stream, `unknown` where the
/// stream gives no rate, else the rate in hertz.
pub fn sample_rate_label(has_audio: bool, rate: Option<&str>) -> (r: String)
    ensures
        !has_audio ==> r@ == "none"@,
        has_audio ==> r@ == (match rate {
            Some(x) => x@ + " Hz"@,
            None => "unknown"@,
        }),
{
    if !has_audio {
        return String::from_str("none");
    }
    match rate {
        Some(x) => {
            let mut s = String::from_str(x);
            s.append(" Hz");
            s
        },
        None => String::from_str("unknown"),
    }
}

/// A codec name as shown: upper-cased, with `fallback` where the stream names none.
pub fn codec_label(name: Option<&str>, fallback: &str) -> (r: String)
    ensures
        r@ == upper_of(match name {
            Some(n) => n@,
            None => fallback@,
        }),
{
    match name {
        Some(n) => uppercase(n),
        None => uppercase(fallback),
    }
}

} // verus!
