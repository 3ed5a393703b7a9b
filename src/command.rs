//! The transcoder's argument lists: which video encoder a task uses, and the
//! arguments of a video transcode and of an image conversion.
use vstd::prelude::*;
use vstd::string::*;

use crate::codecs::{map_codec_to_ffmpeg, video_encoder_of};
use crate::hardware::{eligible, select_hardware_encoder, vendor_rank, Arch, HardwareSupport, Platform};
use crate::image::{
    build_png_filter_and_codec, build_scale_filter, jpeg_quantiser, map_jpeg_quality, map_webp_quality,
    palette_filter_text, palette_colors, quality_of, scale_filter_of,
};
use crate::text::{
    texts, contains_text, eq_ignore_ascii_case, has_suffix_ignore_ascii_case, ends_with_ignore_ascii_case, occurs_in,
    same_text, same_text_ignore_ascii_case,
};
use crate::timecode::{decimal_digits, format_seconds_exact, micros_text, push_decimal};
use crate::types::CompressionSettings;

verus! {

/// `s` with every `x` written as `:`.
pub open spec fn x_to_colon(s: Seq<char>) -> Seq<char> {
    s.map_values(|c: char| if c == 'x' { ':' } else { c })
}

/// Relies on `str::replace`, which replaces every match of the pattern: here
/// each `x` by `:`.
#[verifier::external_body]
fn replace_x_with_colon(s: &str) -> (r: String)
    ensures
        r@ == x_to_colon(s@),
{
    s.replace('x', ":")
}

pub open spec fn wants_gpu(s: CompressionSettings) -> bool {
    s.hardware_acceleration matches Some(h) && h@ == "gpu"@
}

/// The VideoToolbox encoder for a codec name, where there is one.
pub open spec fn videotoolbox_encoder(c: Seq<char>) -> Option<Seq<char>> {
    if c == "H.264"@ || c == "libx264"@ || c == "h264"@ {
        Some("h264_videotoolbox"@)
    } else if c == "H.265"@ || c == "HEVC"@ || c == "libx265"@ || c == "hevc"@ {
        Some("hevc_videotoolbox"@)
    } else if c == "ProRes"@ || c == "prores"@ {
        Some("prores_videotoolbox"@)
    } else {
        None
    }
}

/// The logical codec a codec name asks a hardware encoder for; empty where none applies.
pub open spec fn hardware_codec(c: Seq<char>) -> Seq<char> {
    if c == "H.264"@ || c == "libx264"@ || c == "h264"@ {
        "h264"@
    } else if c == "H.265"@ || c == "HEVC"@ || c == "libx265"@ || c == "hevc"@ {
        "hevc"@
    } else if c == "AV1"@ || c == "libsvtav1"@ || c == "av1"@ {
        "av1"@
    } else {
        Seq::empty()
    }
}

fn videotoolbox_for(c: &str) -> (r: Option<&'static str>)
    ensures
        match r {
            Some(e) => videotoolbox_encoder(c@) == Some(e@),
            None => videotoolbox_encoder(c@) is None,
        },
{
    if same_text(c, "H.264") || same_text(c, "libx264") || same_text(c, "h264") {
        Some("h264_videotoolbox")
    } else if same_text(c, "H.265") || same_text(c, "HEVC") || same_text(c, "libx265") || same_text(c, "hevc") {
        Some("hevc_videotoolbox")
    } else if same_text(c, "ProRes") || same_text(c, "prores") {
        Some("prores_videotoolbox")
    } else {
        None
    }
}

fn hardware_codec_for(c: &str) -> (r: &'static str)
    ensures
        r@ == hardware_codec(c@),
{
    if same_text(c, "H.264") || same_text(c, "libx264") || same_text(c, "h264") {
        "h264"
    } else if same_text(c, "H.265") || same_text(c, "HEVC") || same_text(c, "libx265") || same_text(c, "hevc") {
        "hevc"
    } else if same_text(c, "AV1") || same_text(c, "libsvtav1") || same_text(c, "av1") {
        "av1"
    } else {
        proof {
            reveal_strlit("");
        }
        assert(""@ =~= Seq::<char>::empty());
        ""
    }
}

/// The video encoder for a task. Software encoding unless the GPU is asked
/// for; then VideoToolbox on Apple silicon, on Windows the best supported
/// encoder of the probe report for the codec, and software where neither applies.
pub fn choose_video_encoder(
    settings: &CompressionSettings,
    platform: Platform,
    arch: Arch,
    report: Option<&HardwareSupport>,
) -> (r: String)
    ensures
        !wants_gpu(*settings) ==> r@ == video_encoder_of(settings.codec@),
        wants_gpu(*settings) && platform == Platform::MacOs && arch == Arch::X86_64 ==> r@ == video_encoder_of(settings.codec@),
        wants_gpu(*settings) && platform == Platform::MacOs && arch != Arch::X86_64 ==> r@ == (match videotoolbox_encoder(settings.codec@) {
            Some(e) => e,
            None => video_encoder_of(settings.codec@),
        }),
        wants_gpu(*settings) && platform == Platform::Windows ==> {
            let base = hardware_codec(settings.codec@);
            if base.len() > 0 && report is Some && exists|i: int| eligible(*report->0, base, i) {
                exists|i: int| {
                    &&& eligible(*report->0, base, i)
                    &&& r@ == report->0.encoders@[i].name@
                    &&& forall|j: int| #[trigger] eligible(*report->0, base, j) ==> vendor_rank(report->0.encoders@[j].vendor@) <= vendor_rank(report->0.encoders@[i].vendor@)
                }
            } else {
                r@ == video_encoder_of(settings.codec@)
            }
        },
        wants_gpu(*settings) && platform != Platform::MacOs && platform != Platform::Windows ==> r@ == video_encoder_of(settings.codec@),
{
    let codec = settings.codec.as_str();
    let gpu = match &settings.hardware_acceleration {
        Some(h) => same_text(h.as_str(), "gpu"),
        None => false,
    };
    if !gpu {
        return String::from_str(map_codec_to_ffmpeg(codec));
    }
    match platform {
        Platform::MacOs => {
            if arch == Arch::X86_64 {
                String::from_str(map_codec_to_ffmpeg(codec))
            } else {
                match videotoolbox_for(codec) {
                    Some(e) => String::from_str(e),
                    None => String::from_str(map_codec_to_ffmpeg(codec)),
                }
            }
        },
        Platform::Windows => {
            let base = hardware_codec_for(codec);
            let selected = if base.unicode_len() > 0 {
                match report {
                    Some(hs) => select_hardware_encoder(hs, &String::from_str(base)),
                    None => None,
                }
            } else {
                None
            };
            match selected {
                Some(s) => s,
                None => String::from_str(map_codec_to_ffmpeg(codec)),
            }
        },
        _ => String::from_str(map_codec_to_ffmpeg(codec)),
    }
}

pub open spec fn range_start_args(s: CompressionSettings) -> Seq<Seq<char>> {
    match s.time_range {
        Some(tr) => match tr.start {
            Some(st) => seq!["-ss"@, micros_text(st as nat)],
            None => Seq::empty(),
        },
        None => Seq::empty(),
    }
}

pub open spec fn range_length_args(s: CompressionSettings) -> Seq<Seq<char>> {
    match s.time_range {
        Some(tr) => match tr.end {
            Some(end) => match tr.start {
                Some(st) => if end > st {
                    seq!["-t"@, micros_text((end - st) as nat)]
                } else {
                    Seq::empty()
                },
                None => seq!["-t"@, micros_text(end as nat)],
            },
            None => Seq::empty(),
        },
        None => Seq::empty(),
    }
}

pub open spec fn is_videotoolbox(e: Seq<char>) -> bool {
    occurs_in(e, "videotoolbox"@)
}

pub open spec fn deep_color(s: CompressionSettings) -> bool {
    s.bit_depth matches Some(d) && d >= 10
}

pub open spec fn tag_args(e: Seq<char>) -> Seq<Seq<char>> {
    if occurs_in(e, "265"@) || occurs_in(e, "hevc"@) {
        seq!["-tag:v"@, "hvc1"@]
    } else {
        Seq::empty()
    }
}

/// The pixel format for the bit depth: VideoToolbox takes `p010le` for 10 and
/// 12 bits and `nv12` otherwise; other encoders the planar 4:2:0 format of the depth.
pub open spec fn pix_fmt_of(e: Seq<char>, depth: Option<u8>) -> Seq<char> {
    if is_videotoolbox(e) {
        if depth == Some(12u8) || depth == Some(10u8) {
            "p010le"@
        } else {
            "nv12"@
        }
    } else if depth == Some(10u8) {
        "yuv420p10le"@
    } else if depth == Some(12u8) {
        "yuv420p12le"@
    } else {
        "yuv420p"@
    }
}

pub open spec fn profile_args(e: Seq<char>, s: CompressionSettings) -> Seq<Seq<char>> {
    if is_videotoolbox(e) && deep_color(s) {
        seq!["-profile:v"@, "main10"@]
    } else {
        Seq::empty()
    }
}

pub open spec fn quality_args(s: CompressionSettings) -> Seq<Seq<char>> {
    if s.quality_type@ == "crf"@ {
        match s.crf_value {
            Some(c) => seq!["-crf"@, decimal_digits(c as nat)],
            None => Seq::empty(),
        }
    } else if s.quality_type@ == "bitrate"@ {
        match s.bitrate {
            Some(b) => seq!["-b:v"@, b@],
            None => Seq::empty(),
        }
    } else if s.quality_type@ == "qv"@ {
        seq!["-q:v"@, decimal_digits(quality_of(s.qv_value) as nat)]
    } else {
        Seq::empty()
    }
}

/// The scale part of the video filter; empty where the size is kept.
pub open spec fn video_scale_text(s: CompressionSettings) -> Seq<char> {
    if s.resolution@ == "custom"@ {
        match s.custom_resolution {
            Some(c) => "scale="@ + decimal_digits(c.width as nat) + ":"@ + decimal_digits(c.height as nat),
            None => Seq::empty(),
        }
    } else if s.resolution@ != "original"@ {
        "scale="@ + x_to_colon(s.resolution@)
    } else {
        Seq::empty()
    }
}

/// The video filter chain: the scale, and for deep colour through VideoToolbox
/// a conversion that keeps 10 bits.
pub open spec fn video_filter_text(s: CompressionSettings, e: Seq<char>) -> Seq<char> {
    let base = video_scale_text(s);
    if is_videotoolbox(e) && deep_color(s) {
        if base.len() == 0 {
            "format=p010le"@
        } else {
            base + ",format=p010le"@
        }
    } else {
        base
    }
}

pub open spec fn filter_args(s: CompressionSettings, e: Seq<char>) -> Seq<Seq<char>> {
    if video_filter_text(s, e).len() > 0 {
        seq!["-vf"@, video_filter_text(s, e)]
    } else {
        Seq::empty()
    }
}

/// WebM output gets Opus audio and WebVTT subtitles; other containers copy both.
pub open spec fn audio_args(output: Seq<char>) -> Seq<Seq<char>> {
    if has_suffix_ignore_ascii_case(output, ".webm"@) {
        seq!["-c:a"@, "libopus"@, "-b:a"@, "128k"@, "-c:s"@, "webvtt"@]
    } else {
        seq!["-c:a"@, "copy"@, "-c:s"@, "copy"@]
    }
}

/// The arguments of a video transcode with encoder `e`, ending with the
/// request for the progress channel on standard output.
pub open spec fn video_args(input: Seq<char>, output: Seq<char>, s: CompressionSettings, e: Seq<char>) -> Seq<Seq<char>> {
    range_start_args(s) + seq!["-i"@, input] + range_length_args(s) + seq!["-c:v"@, e] + tag_args(e)
        + seq!["-pix_fmt"@, pix_fmt_of(e, s.bit_depth)] + profile_args(e, s) + quality_args(s) + filter_args(s, e)
        + audio_args(output) + seq!["-y"@, output, "-progress"@, "pipe:1"@]
}

fn push_text(v: &mut Vec<String>, s: &str)
    ensures
        texts(final(v)@) == texts(old(v)@).push(s@),
{
    v.push(String::from_str(s));
    assert(texts(v@) =~= texts(old(v)@).push(s@));
}

fn push_owned(v: &mut Vec<String>, s: String)
    ensures
        texts(final(v)@) == texts(old(v)@).push(s@),
{
    let ghost sv = s@;
    v.push(s);
    assert(texts(v@) =~= texts(old(v)@).push(sv));
}

fn decimal_string(n: u64) -> (r: String)
    ensures
        r@ == decimal_digits(n as nat),
{
    let mut s = String::new();
    push_decimal(&mut s, n);
    assert(s@ =~= decimal_digits(n as nat));
    s
}

fn range_arguments(v: &mut Vec<String>, s: &CompressionSettings, length: bool)
    ensures
        texts(final(v)@) == texts(old(v)@) + (if length {
            range_length_args(*s)
        } else {
            range_start_args(*s)
        }),
{
    let ghost before = texts(v@);
    match &s.time_range {
        Some(tr) => {
            if !length {
                match tr.start {
                    Some(st) => {
                        push_text(v, "-ss");
                        push_owned(v, format_seconds_exact(st));
                    },
                    None => {},
                }
            } else {
                match tr.end {
                    Some(end) => match tr.start {
                        Some(st) => {
                            if end > st {
                                push_text(v, "-t");
                                push_owned(v, format_seconds_exact(end - st));
                            }
                        },
                        None => {
                            push_text(v, "-t");
                            push_owned(v, format_seconds_exact(end));
                        },
                    },
                    None => {},
                }
            }
        },
        None => {},
    }
    assert(texts(v@) =~= before + (if length {
        range_length_args(*s)
    } else {
        range_start_args(*s)
    }));
}

fn quality_arguments(v: &mut Vec<String>, s: &CompressionSettings)
    ensures
        texts(final(v)@) == texts(old(v)@) + quality_args(*s),
{
    let ghost before = texts(v@);
    let q = s.quality_type.as_str();
    if same_text(q, "crf") {
        match s.crf_value {
            Some(c) => {
                push_text(v, "-crf");
                push_owned(v, decimal_string(c as u64));
            },
            None => {},
        }
    } else if same_text(q, "bitrate") {
        match &s.bitrate {
            Some(b) => {
                push_text(v, "-b:v");
                push_owned(v, b.clone());
            },
            None => {},
        }
    } else if same_text(q, "qv") {
        let qv: u8 = match s.qv_value {
            Some(x) => if x > 100 {
                100
            } else {
                x
            },
            None => 80,
        };
        push_text(v, "-q:v");
        push_owned(v, decimal_string(qv as u64));
    }
    assert(texts(v@) =~= before + quality_args(*s));
}

fn video_filter(s: &CompressionSettings, vt: bool) -> (r: String)
    ensures
        r@ == (if vt && deep_color(*s) {
            if video_scale_text(*s).len() == 0 {
                "format=p010le"@
            } else {
                video_scale_text(*s) + ",format=p010le"@
            }
        } else {
            video_scale_text(*s)
        }),
{
    let res = s.resolution.as_str();
    let mut base = String::new();
    if same_text(res, "custom") {
        match &s.custom_resolution {
            Some(c) => {
                base.append("scale=");
                push_decimal(&mut base, c.width as u64);
                base.append(":");
                push_decimal(&mut base, c.height as u64);
            },
            None => {},
        }
    } else if !same_text(res, "original") {
        base.append("scale=");
        let sized = replace_x_with_colon(res);
        base.append(sized.as_str());
    }
    assert(base@ =~= video_scale_text(*s));
    let deep = match s.bit_depth {
        Some(d) => d >= 10,
        None => false,
    };
    if vt && deep {
        if base.unicode_len() == 0 {
            String::from_str("format=p010le")
        } else {
            base.append(",format=p010le");
            base
        }
    } else {
        base
    }
}

fn encoder_arguments(v: &mut Vec<String>, s: &CompressionSettings, encoder: &String) -> (vt: bool)
    ensures
        vt == is_videotoolbox(encoder@),
        texts(final(v)@) == texts(old(v)@) + seq!["-c:v"@, encoder@] + tag_args(encoder@)
            + seq!["-pix_fmt"@, pix_fmt_of(encoder@, s.bit_depth)] + profile_args(encoder@, *s),
{
    let ghost before = texts(v@);
    let e = encoder.as_str();
    push_text(v, "-c:v");
    push_owned(v, encoder.clone());
    if contains_text(e, "265") || contains_text(e, "hevc") {
        push_text(v, "-tag:v");
        push_text(v, "hvc1");
    }
    let vt = contains_text(e, "videotoolbox");
    let pix = if vt {
        if s.bit_depth == Some(12u8) || s.bit_depth == Some(10u8) {
            "p010le"
        } else {
            "nv12"
        }
    } else if s.bit_depth == Some(10u8) {
        "yuv420p10le"
    } else if s.bit_depth == Some(12u8) {
        "yuv420p12le"
    } else {
        "yuv420p"
    };
    push_text(v, "-pix_fmt");
    push_text(v, pix);
    let deep = match s.bit_depth {
        Some(d) => d >= 10,
        None => false,
    };
    if vt && deep {
        push_text(v, "-profile:v");
        push_text(v, "main10");
    }
    assert(texts(v@) =~= before + seq!["-c:v"@, encoder@] + tag_args(encoder@)
        + seq!["-pix_fmt"@, pix_fmt_of(encoder@, s.bit_depth)] + profile_args(encoder@, *s));
    vt
}

fn filter_arguments(v: &mut Vec<String>, s: &CompressionSettings, encoder: &String, vt: bool)
    requires
        vt == is_videotoolbox(encoder@),
    ensures
        texts(final(v)@) == texts(old(v)@) + filter_args(*s, encoder@),
{
    let ghost before = texts(v@);
    let filter = video_filter(s, vt);
    if filter.unicode_len() > 0 {
        push_text(v, "-vf");
        push_owned(v, filter);
    }
    assert(texts(v@) =~= before + filter_args(*s, encoder@));
}

fn output_arguments(v: &mut Vec<String>, output: &String)
    ensures
        texts(final(v)@) == texts(old(v)@) + audio_args(output@) + seq!["-y"@, output@, "-progress"@, "pipe:1"@],
{
    let ghost before = texts(v@);
    if ends_with_ignore_ascii_case(output.as_str(), ".webm") {
        push_text(v, "-c:a");
        push_text(v, "libopus");
        push_text(v, "-b:a");
        push_text(v, "128k");
        push_text(v, "-c:s");
        push_text(v, "webvtt");
    } else {
        push_text(v, "-c:a");
        push_text(v, "copy");
        push_text(v, "-c:s");
        push_text(v, "copy");
    }
    push_text(v, "-y");
    push_owned(v, output.clone());
    push_text(v, "-progress");
    push_text(v, "pipe:1");
    assert(texts(v@) =~= before + audio_args(output@) + seq!["-y"@, output@, "-progress"@, "pipe:1"@]);
}

/// The arguments of a video transcode of `input` into `output` with the
/// encoder `encoder`: trim, encoder, pixel format, quality, filters, audio,
/// and the progress channel on standard output.
pub fn build_video_args(input: &String, output: &String, settings: &CompressionSettings, encoder: &String) -> (r: Vec<String>)
    ensures
        texts(r@) == video_args(input@, output@, *settings, encoder@),
{
    let mut v: Vec<String> = Vec::new();
    assert(texts(v@) =~= Seq::<Seq<char>>::empty());
    range_arguments(&mut v, settings, false);
    let ghost a = texts(v@);
    push_text(&mut v, "-i");
    push_owned(&mut v, input.clone());
    let ghost b = texts(v@);
    range_arguments(&mut v, settings, true);
    let ghost c = texts(v@);
    let vt = encoder_arguments(&mut v, settings, encoder);
    let ghost d = texts(v@);
    quality_arguments(&mut v, settings);
    let ghost e = texts(v@);
    filter_arguments(&mut v, settings, encoder, vt);
    let ghost f = texts(v@);
    output_arguments(&mut v, output);
    assert(b =~= range_start_args(*settings) + seq!["-i"@, input@]);
    assert(texts(v@) =~= video_args(input@, output@, *settings, encoder@));
    v
}

pub open spec fn scale_args(s: CompressionSettings) -> Seq<Seq<char>> {
    match scale_filter_of(s) {
        Some(f) => seq!["-vf"@, f],
        None => Seq::empty(),
    }
}

/// PNG: below quality 100 a palette filter (after the scale, in one chain);
/// at 100 lossless compression.
pub open spec fn png_format_args(s: CompressionSettings) -> Seq<Seq<char>> {
    let q = quality_of(s.crf_value);
    if q < 100 {
        let palette = palette_filter_text(palette_colors(q));
        match scale_filter_of(s) {
            Some(sc) => seq!["-vf"@, sc + ","@ + palette, "-c:v"@, "png"@],
            None => seq!["-vf"@, palette, "-c:v"@, "png"@],
        }
    } else {
        scale_args(s) + seq!["-compression_level"@, "90"@, "-pred"@, "mixed"@, "-c:v"@, "png"@]
    }
}

/// The codec and quality arguments for the image format (matched ignoring
/// ASCII case; an unknown format falls back to lossless PNG).
pub open spec fn image_format_args(s: CompressionSettings) -> Seq<Seq<char>> {
    let q = quality_of(s.crf_value);
    if eq_ignore_ascii_case(s.format@, "jpg"@) || eq_ignore_ascii_case(s.format@, "jpeg"@) {
        scale_args(s) + seq!["-c:v"@, "mjpeg"@, "-q:v"@, decimal_digits(jpeg_quantiser(q) as nat)]
    } else if eq_ignore_ascii_case(s.format@, "png"@) {
        png_format_args(s)
    } else if eq_ignore_ascii_case(s.format@, "webp"@) {
        scale_args(s) + seq!["-c:v"@, "libwebp"@, "-q:v"@, decimal_digits(q as nat)]
    } else {
        scale_args(s) + seq!["-c:v"@, "png"@, "-compression_level"@, "90"@]
    }
}

/// The arguments of an image conversion of `input` into `output`.
pub open spec fn image_args(input: Seq<char>, output: Seq<char>, s: CompressionSettings) -> Seq<Seq<char>> {
    seq!["-y"@, "-i"@, input] + image_format_args(s) + seq![output]
}

fn scale_arguments(v: &mut Vec<String>, s: &CompressionSettings)
    ensures
        texts(final(v)@) == texts(old(v)@) + scale_args(*s),
{
    let ghost before = texts(v@);
    match build_scale_filter(s) {
        Some(f) => {
            push_text(v, "-vf");
            push_owned(v, f);
        },
        None => {},
    }
    assert(texts(v@) =~= before + scale_args(*s));
}

fn png_arguments(v: &mut Vec<String>, s: &CompressionSettings)
    ensures
        texts(final(v)@) == texts(old(v)@) + png_format_args(*s),
{
    let ghost before = texts(v@);
    let (codec, png) = build_png_filter_and_codec(s.crf_value);
    let q = map_webp_quality(s.crf_value);
    if q < 100 {
        assert(png@.len() == 2 && png@[1]@ == texts(png@)[1]);
        let palette = &png[1];
        match build_scale_filter(s) {
            Some(sc) => {
                let mut combined = sc;
                combined.append(",");
                combined.append(palette.as_str());
                push_text(v, "-vf");
                push_owned(v, combined);
            },
            None => {
                push_text(v, "-vf");
                push_owned(v, palette.clone());
            },
        }
    } else {
        scale_arguments(v, s);
        let ghost mid = texts(v@);
        let mut i: usize = 0;
        assert(texts(png@).take(0) =~= Seq::<Seq<char>>::empty());
        assert(mid =~= mid + texts(png@).take(0));
        while i < png.len()
            invariant
                0 <= i <= png@.len(),
                texts(v@) == mid + texts(png@).take(i as int),
            decreases png@.len() - i,
        {
            assert(texts(png@).take(i + 1) =~= texts(png@).take(i as int).push(png@[i as int]@));
            push_owned(v, png[i].clone());
            i = i + 1;
        }
        assert(texts(png@).take(png@.len() as int) =~= texts(png@));
    }
    push_text(v, "-c:v");
    push_owned(v, codec);
    assert(texts(v@) =~= before + png_format_args(*s));
}

/// The arguments of an image conversion of `input` into `output`: JPEG, PNG
/// and WebP by their quality mappings, the scale filter where one is asked for,
/// and lossless PNG for any other format.
pub fn build_image_args(input: &String, output: &String, settings: &CompressionSettings) -> (r: Vec<String>)
    ensures
        texts(r@) == image_args(input@, output@, *settings),
{
    let mut v: Vec<String> = Vec::new();
    push_text(&mut v, "-y");
    push_text(&mut v, "-i");
    push_owned(&mut v, input.clone());
    let ghost head = texts(v@);
    let f = settings.format.as_str();
    if same_text_ignore_ascii_case(f, "jpg") || same_text_ignore_ascii_case(f, "jpeg") {
        scale_arguments(&mut v, settings);
        let q = map_jpeg_quality(settings.crf_value);
        push_text(&mut v, "-c:v");
        push_text(&mut v, "mjpeg");
        push_text(&mut v, "-q:v");
        push_owned(&mut v, decimal_string(q as u64));
    } else if same_text_ignore_ascii_case(f, "png") {
        png_arguments(&mut v, settings);
    } else if same_text_ignore_ascii_case(f, "webp") {
        scale_arguments(&mut v, settings);
        let q = map_webp_quality(settings.crf_value);
        push_text(&mut v, "-c:v");
        push_text(&mut v, "libwebp");
        push_text(&mut v, "-q:v");
        push_owned(&mut v, decimal_string(q as u64));
    } else {
        scale_arguments(&mut v, settings);
        push_text(&mut v, "-c:v");
        push_text(&mut v, "png");
        push_text(&mut v, "-compression_level");
        push_text(&mut v, "90");
    }
    assert(texts(v@) =~= head + image_format_args(*settings));
    push_owned(&mut v, output.clone());
    assert(head =~= seq!["-y"@, "-i"@, input@]);
    assert(texts(v@) =~= image_args(input@, output@, *settings));
    v
}

} // verus!
