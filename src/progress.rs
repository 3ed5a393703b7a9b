//! Progress from the transcoder's `key=value` progress channel.
use vstd::prelude::*;
use vstd::string::*;

use crate::text::{has_prefix, starts_with_text};
use crate::timecode::{decimal_micros, fit_u64, parse_decimal_seconds, parse_time_to_seconds, timecode_micros};
use crate::types::TimeRange;

verus! {

/// Progress is reported in hundredths of a percent: `10000` is complete.
pub const PERCENT_FULL: u64 = 10000;

/// Percent complete, in hundredths: `min(100, 100 × elapsed / target)`, rounded
/// down; nothing where the target is zero.
pub open spec fn percent_of(elapsed: nat, target: nat) -> Option<nat> {
    if target == 0 {
        None
    } else if elapsed * 10000 / target >= 10000 {
        Some(10000)
    } else {
        Some(elapsed * 10000 / target)
    }
}

/// The key whose value is the elapsed processing time.
pub open spec fn out_time_key() -> Seq<char> {
    seq!['o', 'u', 't', '_', 't', 'i', 'm', 'e', '=']
}

/// The progress that one line of the channel reports, for a task of `target` microseconds.
pub open spec fn line_progress(line: Seq<char>, target: nat) -> Option<nat> {
    if has_prefix(line, out_time_key()) {
        match fit_u64(timecode_micros(line.skip(9))) {
            Some(t) => percent_of(t as nat, target),
            None => None,
        }
    } else {
        None
    }
}

/// The length of the stretch being transcoded: the requested range where one
/// was given, else the full duration.
pub open spec fn target_duration(total: u64, range: Option<TimeRange>) -> u64 {
    match range {
        Some(r) => match r.end {
            Some(end) => match r.start {
                Some(start) => if end > start {
                    (end - start) as u64
                } else {
                    total
                },
                None => end,
            },
            None => total,
        },
        None => total,
    }
}

/// Percent complete in hundredths, clamped to `[0, 10000]`; `None` where the
/// target duration is zero.
pub fn progress_percent(elapsed: u64, target: u64) -> (r: Option<u64>)
    ensures
        r == (match percent_of(elapsed as nat, target as nat) {
            Some(p) => Some(p as u64),
            None => None,
        }),
        r is Some ==> r->0 <= PERCENT_FULL,
        target > 0 && elapsed >= target ==> r == Some(PERCENT_FULL),
{
    if target == 0 {
        return None;
    }
    let scaled: u128 = (elapsed as u128) * 10000u128 / (target as u128);
    proof {
        if elapsed >= target {
            assert(elapsed as nat * 10000 >= target as nat * 10000) by (nonlinear_arith)
                requires elapsed >= target;
            assert((elapsed as nat * 10000) / (target as nat) >= 10000) by (nonlinear_arith)
                requires elapsed as nat * 10000 >= target as nat * 10000, target > 0;
        }
    }
    if scaled >= 10000 {
        Some(PERCENT_FULL)
    } else {
        Some(scaled as u64)
    }
}

/// Progress reported by one line of the channel: an `out_time=HH:MM:SS.ffffff`
/// line gives the percent of `total_duration` (microseconds) elapsed, in
/// hundredths; every other line, and any line while the total is zero, gives nothing.
pub fn parse_ffmpeg_progress(line: &str, total_duration: u64) -> (r: Option<u64>)
    ensures
        r == (match line_progress(line@, total_duration as nat) {
            Some(p) => Some(p as u64),
            None => None,
        }),
        r is Some ==> r->0 <= PERCENT_FULL,
{
    proof {
        reveal_strlit("out_time=");
    }
    assert("out_time="@ =~= out_time_key());
    if !starts_with_text(line, "out_time=") {
        return None;
    }
    let n = line.unicode_len();
    let rest = line.substring_char(9, n);
    match parse_time_to_seconds(rest) {
        Some(t) => progress_percent(t, total_duration),
        None => None,
    }
}

/// The duration that progress is measured against, in microseconds: `end −
/// start` where both ends are given and `end` is later, `end` where only it is
/// given, else the full duration `total`.
pub fn compression_target_duration(total: u64, range: &Option<TimeRange>) -> (r: u64)
    ensures
        r == target_duration(total, *range),
{
    match range {
        Some(tr) => match tr.end {
            Some(end) => match tr.start {
                Some(start) => if end > start {
                    end - start
                } else {
                    total
                },
                None => end,
            },
            None => total,
        },
        None => total,
    }
}

/// The duration the metadata probe reported, in microseconds: zero where the
/// field is absent or is not decimal seconds.
pub open spec fn probed_duration(text: Option<Seq<char>>) -> u64 {
    match text {
        Some(t) => match fit_u64(decimal_micros(t)) {
            Some(d) => d,
            None => 0,
        },
        None => 0,
    }
}

/// The duration progress is measured against, from the probe's duration
/// field (absent or unreadable counts as zero, so no progress is reported)
/// narrowed by the requested range.
pub fn probe_target_duration(duration_text: &Option<String>, range: &Option<TimeRange>) -> (r: u64)
    ensures
        r == target_duration(
            probed_duration(
                match duration_text {
                    Some(t) => Some(t@),
                    None => None,
                },
            ),
            *range,
        ),
{
    let total = match duration_text {
        Some(t) => match parse_decimal_seconds(t.as_str()) {
            Some(d) => d,
            None => 0,
        },
        None => 0,
    };
    compression_target_duration(total, range)
}

} // verus!
