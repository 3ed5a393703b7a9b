use zipzap_core::progress::{compression_target_duration, parse_ffmpeg_progress, progress_percent};
use zipzap_core::timecode::{format_seconds_2dp, parse_decimal_seconds, parse_time_to_seconds};
use zipzap_core::types::TimeRange;

const SEC: u64 = 1_000_000;

#[test]
fn timecode_sums_hours_minutes_seconds() {
    assert_eq!(parse_time_to_seconds("00:15:58.610500"), Some(958_610_500));
    assert_eq!(parse_time_to_seconds("01:02:03.000000"), Some(3723 * SEC));
    assert_eq!(parse_time_to_seconds("2:0:7"), Some(7207 * SEC));
    assert_eq!(parse_time_to_seconds("00:00:01.5"), Some(1_500_000));
}

#[test]
fn timecode_rejects_other_shapes() {
    assert_eq!(parse_time_to_seconds("12:30"), None);
    assert_eq!(parse_time_to_seconds("a:b:c"), None);
    assert_eq!(parse_time_to_seconds("00:00:00:01"), None);
    assert_eq!(parse_time_to_seconds(""), None);
    assert_eq!(parse_time_to_seconds("-577014:32:22.775808"), None);
    assert_eq!(parse_time_to_seconds("N/A"), None);
}

#[test]
fn timecode_drops_digits_finer_than_a_microsecond() {
    assert_eq!(parse_time_to_seconds("00:00:00.12345678"), Some(123_456));
}

#[test]
fn two_decimal_round_trip_stays_within_a_hundredth() {
    for micros in [0u64, 1, 4_999, 5_000, 958_610_500, 3723 * SEC + 999_999, 59_994_999] {
        let text = format_seconds_2dp(micros);
        let back = parse_decimal_seconds(&text).unwrap();
        let diff = if back > micros { back - micros } else { micros - back };
        assert!(diff < 10_000, "{} -> {} -> {}", micros, text, back);
    }
    assert_eq!(format_seconds_2dp(958_610_500), "958.61");
    assert_eq!(format_seconds_2dp(5 * SEC), "5.00");
    assert_eq!(format_seconds_2dp(104_999), "0.10");
    assert_eq!(format_seconds_2dp(105_000), "0.11");
}

#[test]
fn decimal_seconds_parse() {
    assert_eq!(parse_decimal_seconds("12.345678"), Some(12_345_678));
    assert_eq!(parse_decimal_seconds("12"), Some(12 * SEC));
    assert_eq!(parse_decimal_seconds("12."), Some(12 * SEC));
    assert_eq!(parse_decimal_seconds("1.2.3"), None);
    assert_eq!(parse_decimal_seconds(".5"), None);
    assert_eq!(parse_decimal_seconds("abc"), None);
}

#[test]
fn progress_is_clamped_to_full() {
    assert_eq!(progress_percent(125 * SEC, 100 * SEC), Some(10000));
    assert_eq!(progress_percent(50 * SEC, 100 * SEC), Some(5000));
    assert_eq!(progress_percent(1, 3), Some(3333));
    assert_eq!(progress_percent(5 * SEC, 0), None);
    assert_eq!(progress_percent(u64::MAX, 1), Some(10000));
}

#[test]
fn progress_lines_give_percent_of_target() {
    assert_eq!(parse_ffmpeg_progress("out_time=00:00:05.000000", 10 * SEC), Some(5000));
    assert_eq!(parse_ffmpeg_progress("out_time=00:00:20.000000", 10 * SEC), Some(10000));
    assert_eq!(parse_ffmpeg_progress("out_time_ms=5000000", 10 * SEC), None);
    assert_eq!(parse_ffmpeg_progress("frame=12", 10 * SEC), None);
    assert_eq!(parse_ffmpeg_progress("out_time=00:00:05.000000", 0), None);
    assert_eq!(parse_ffmpeg_progress("out_time=N/A", 10 * SEC), None);
}

#[test]
fn target_duration_follows_requested_range() {
    let total = 100 * SEC;
    let both = Some(TimeRange { start: Some(10 * SEC), end: Some(40 * SEC) });
    assert_eq!(compression_target_duration(total, &both), 30 * SEC);
    let end_only = Some(TimeRange { start: None, end: Some(20 * SEC) });
    assert_eq!(compression_target_duration(total, &end_only), 20 * SEC);
    let reversed = Some(TimeRange { start: Some(40 * SEC), end: Some(10 * SEC) });
    assert_eq!(compression_target_duration(total, &reversed), total);
    let start_only = Some(TimeRange { start: Some(5 * SEC), end: None });
    assert_eq!(compression_target_duration(total, &start_only), total);
    assert_eq!(compression_target_duration(total, &None), total);
}
