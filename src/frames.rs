//! Where preview frames are taken from a clip.
use vstd::prelude::*;
use vstd::string::*;

use base64::Engine;

use crate::text::texts;
use crate::timecode::{centis_of, centis_text, format_seconds_2dp};

verus! {

/// The standard base64 encoding, with padding, of a run of bytes.
pub uninterp spec fn base64_of(bytes: Seq<u8>) -> Seq<char>;

/// Relies on `base64::engine::general_purpose::STANDARD.encode`: the standard
/// alphabet with padding. It panics only where the encoded length overflows
/// `usize`, which the bound on the input rules out.
#[verifier::external_body]
fn encode_base64(bytes: &Vec<u8>) -> (r: String)
    requires
        bytes@.len() <= usize::MAX / 2,
    ensures
        r@ == base64_of(bytes@),
{
    base64::engine::general_purpose::STANDARD.encode(bytes)
}

/// A frame image delivered as a `data:` URL.
pub open spec fn jpeg_data_url(bytes: Seq<u8>) -> Seq<char> {
    "data:image/jpeg;base64,"@ + base64_of(bytes)
}

/// The JPEG bytes of a preview frame as a `data:` URL; `None` where the
/// transcoder produced no bytes.
pub fn frame_data_url(jpeg: &Vec<u8>) -> (r: Option<String>)
    requires
        jpeg@.len() <= usize::MAX / 2,
    ensures
        jpeg@.len() == 0 ==> r is None,
        jpeg@.len() > 0 ==> (r matches Some(u) && u@ == jpeg_data_url(jpeg@)),
{
    if jpeg.len() == 0 {
        return None;
    }
    let mut url = String::from_str("data:image/jpeg;base64,");
    let encoded = encode_base64(jpeg);
    url.append(encoded.as_str());
    Some(url)
}

/// Where the thumbnail is taken: the middle of a clip longer than ten seconds,
/// else a quarter of the way in but no later than one second; one second in
/// where the duration is unknown.
pub open spec fn thumbnail_offset(duration: Option<u64>) -> nat {
    match duration {
        Some(d) => if d > 10_000_000 {
            (d / 2) as nat
        } else if d / 4 <= 1_000_000 {
            (d / 4) as nat
        } else {
            1_000_000
        },
        None => 1_000_000,
    }
}

/// The time, in microseconds, the thumbnail is taken at.
pub fn thumbnail_timestamp(duration: Option<u64>) -> (r: u64)
    ensures
        r as nat == thumbnail_offset(duration),
{
    match duration {
        Some(d) => if d > 10_000_000 {
            d / 2
        } else if d / 4 <= 1_000_000 {
            d / 4
        } else {
            1_000_000
        },
        None => 1_000_000,
    }
}

/// The arguments that grab one JPEG frame at `at` microseconds (seeking
/// before opening the input) and write it to standard output.
pub open spec fn frame_grab_args(video: Seq<char>, at: nat) -> Seq<Seq<char>> {
    seq![
        "-ss"@,
        centis_text(centis_of(at)),
        "-i"@,
        video,
        "-vframes"@,
        "1"@,
        "-f"@,
        "image2pipe"@,
        "-vcodec"@,
        "mjpeg"@,
        "-avoid_negative_ts"@,
        "make_zero"@,
        "-"@,
    ]
}

/// The arguments that grab one JPEG frame of `video` at `at` microseconds.
pub fn build_frame_args(video: &String, at: u64) -> (r: Vec<String>)
    ensures
        texts(r@) == frame_grab_args(video@, at as nat),
{
    let v = vec![
        String::from_str("-ss"),
        format_seconds_2dp(at),
        String::from_str("-i"),
        video.clone(),
        String::from_str("-vframes"),
        String::from_str("1"),
        String::from_str("-f"),
        String::from_str("image2pipe"),
        String::from_str("-vcodec"),
        String::from_str("mjpeg"),
        String::from_str("-avoid_negative_ts"),
        String::from_str("make_zero"),
        String::from_str("-"),
    ];
    assert(texts(v@) =~= frame_grab_args(video@, at as nat));
    v
}

/// How many preview frames a clip is sampled at; the last has index `FRAME_COUNT - 1`.
pub const FRAME_COUNT: u32 = 10;

/// The offset, in microseconds from the start of a stretch of `duration`
/// microseconds, of preview frame `index`: a tenth of a second in for the
/// first; for the last, the later of half a second before the end and 95% of
/// the way (never before the start); evenly spaced ninths otherwise.
pub open spec fn frame_offset(duration: nat, index: nat) -> nat {
    if index == 0 {
        100_000
    } else if index == 9 {
        let before_end: nat = if duration >= 500_000 { (duration - 500_000) as nat } else { 0 };
        let near_end: nat = duration * 95 / 100;
        if before_end >= near_end {
            before_end
        } else {
            near_end
        }
    } else {
        duration * index / 9
    }
}

/// The offset of preview frame `index` within a stretch of `duration` microseconds.
pub fn frame_timestamp(duration: u64, index: u32) -> (r: u64)
    requires
        index < FRAME_COUNT,
    ensures
        r as nat == frame_offset(duration as nat, index as nat),
{
    if index == 0 {
        100_000
    } else if index == 9 {
        let before_end: u64 = if duration >= 500_000 {
            duration - 500_000
        } else {
            0
        };
        let near_end: u64 = ((duration as u128) * 95 / 100) as u64;
        assert((duration as nat) * 95 / 100 <= duration) by (nonlinear_arith);
        if before_end >= near_end {
            before_end
        } else {
            near_end
        }
    } else {
        assert((duration as nat) * (index as nat) <= (duration as nat) * 9) by (nonlinear_arith)
            requires
                index < 9;
        let r = (duration as u128) * (index as u128) / 9;
        assert((duration as nat) * (index as nat) / 9 <= duration) by (nonlinear_arith)
            requires
                index < 9;
        r as u64
    }
}

/// The time of preview frame `index` within the range `start..end` (in
/// microseconds); `None` where the range is empty or reversed.
pub fn frame_timestamp_in_range(start: u64, end: u64, index: u32) -> (r: Option<u64>)
    requires
        index < FRAME_COUNT,
    ensures
        end <= start ==> r is None,
        end > start ==> r == (if start + frame_offset((end - start) as nat, index as nat) <= u64::MAX {
            Some((start + frame_offset((end - start) as nat, index as nat)) as u64)
        } else {
            None
        }),
{
    if end <= start {
        return None;
    }
    let offset = frame_timestamp(end - start, index);
    start.checked_add(offset)
}

} // verus!
