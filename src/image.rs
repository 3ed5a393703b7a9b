//! Quality and filter settings for still-image conversion.
use vstd::prelude::*;
use vstd::string::*;

use crate::text::{texts, contains_text, eq_ignore_ascii_case, occurs_in, same_text_ignore_ascii_case};
use crate::timecode::{decimal_digits, push_decimal};
use crate::types::CompressionSettings;

verus! {

/// The requested quality on a 0–100 scale (higher is better), 80 when none is given.
pub open spec fn quality_of(crf_value: Option<u8>) -> int {
    match crf_value {
        Some(q) => if q > 100 {
            100
        } else {
            q as int
        },
        None => 80,
    }
}

/// JPEG quantiser for a quality: `31 − q × 29 / 100`, rounded to nearest (halves
/// away from zero), kept within `2..=31`.
pub open spec fn jpeg_quantiser(q: int) -> int {
    let x = (3100 - 29 * q + 50) / 100;
    if x < 2 {
        2
    } else if x > 31 {
        31
    } else {
        x
    }
}

/// The colour count of the PNG palette for a quality below 100.
pub open spec fn palette_colors(q: int) -> int {
    if q >= 80 {
        256
    } else if q >= 60 {
        128
    } else if q >= 40 {
        96
    } else {
        64
    }
}

pub open spec fn palette_filter_text(colors: int) -> Seq<char> {
    "split[s0][s1];[s0]palettegen=max_colors="@ + decimal_digits(colors as nat)
        + ":stats_mode=full[p];[s1][p]paletteuse=dither=sierra2_4a"@
}

/// The scale filter a resolution setting asks for.
pub open spec fn scale_filter_of(s: CompressionSettings) -> Option<Seq<char>> {
    if eq_ignore_ascii_case(s.resolution@, "original"@) {
        None
    } else if eq_ignore_ascii_case(s.resolution@, "custom"@) {
        match s.custom_resolution {
            Some(c) => Some("scale="@ + decimal_digits(c.width as nat) + ":"@ + decimal_digits(c.height as nat)),
            None => None,
        }
    } else if occurs_in(s.resolution@, "x"@) {
        Some("scale="@ + s.resolution@)
    } else {
        None
    }
}

fn quality(crf_value: Option<u8>) -> (r: u8)
    ensures
        r as int == quality_of(crf_value),
{
    let q = match crf_value {
        Some(q) => q,
        None => 80,
    };
    if q > 100 {
        100
    } else {
        q
    }
}

/// The JPEG quantiser (2 best, 31 worst) for a requested quality.
pub fn map_jpeg_quality(crf_value: Option<u8>) -> (r: u8)
    ensures
        r as int == jpeg_quantiser(quality_of(crf_value)),
        2 <= r <= 31,
{
    let q = quality(crf_value) as u32;
    let x = (3100 - 29 * q + 50) / 100;
    if x < 2 {
        2
    } else if x > 31 {
        31
    } else {
        x as u8
    }
}

/// The WebP quality for a requested quality.
pub fn map_webp_quality(crf_value: Option<u8>) -> (r: u8)
    ensures
        r as int == quality_of(crf_value),
{
    quality(crf_value)
}

/// The PNG codec and its arguments: lossless at quality 100, else a palette
/// filter whose size falls with the quality.
pub fn build_png_filter_and_codec(crf_value: Option<u8>) -> (r: (String, Vec<String>))
    ensures
        r.0@ == "png"@,
        quality_of(crf_value) == 100 ==> texts(r.1@) == seq![
            "-compression_level"@,
            "90"@,
            "-pred"@,
            "mixed"@,
        ],
        quality_of(crf_value) < 100 ==> texts(r.1@) == seq![
            "-vf"@,
            palette_filter_text(palette_colors(quality_of(crf_value))),
        ],
{
    let q = quality(crf_value);
    if q == 100 {
        let args = vec![
            String::from_str("-compression_level"),
            String::from_str("90"),
            String::from_str("-pred"),
            String::from_str("mixed"),
        ];
        assert(texts(args@) =~= seq!["-compression_level"@, "90"@, "-pred"@, "mixed"@]);
        (String::from_str("png"), args)
    } else {
        let colors: u64 = if q >= 80 {
            256
        } else if q >= 60 {
            128
        } else if q >= 40 {
            96
        } else {
            64
        };
        let mut filter = String::from_str("split[s0][s1];[s0]palettegen=max_colors=");
        push_decimal(&mut filter, colors);
        filter.append(":stats_mode=full[p];[s1][p]paletteuse=dither=sierra2_4a");
        let args = vec![String::from_str("-vf"), filter];
        assert(texts(args@) =~= seq!["-vf"@, palette_filter_text(palette_colors(q as int))]);
        (String::from_str("png"), args)
    }
}

/// The scale filter for the resolution setting: none for `original`; the
/// custom size for `custom`; `scale=WxH` for a size written with `x`; none otherwise.
pub fn build_scale_filter(settings: &CompressionSettings) -> (r: Option<String>)
    ensures
        match r {
            Some(f) => scale_filter_of(*settings) == Some(f@),
            None => scale_filter_of(*settings) is None,
        },
{
    if same_text_ignore_ascii_case(settings.resolution.as_str(), "original") {
        return None;
    }
    if same_text_ignore_ascii_case(settings.resolution.as_str(), "custom") {
        return match &settings.custom_resolution {
            Some(c) => {
                let mut f = String::from_str("scale=");
                push_decimal(&mut f, c.width as u64);
                f.append(":");
                push_decimal(&mut f, c.height as u64);
                Some(f)
            },
            None => None,
        };
    }
    if contains_text(settings.resolution.as_str(), "x") {
        let mut f = String::from_str("scale=");
        f.append(settings.resolution.as_str());
        return Some(f);
    }
    None
}

} // verus!
