use zipzap_core::banner::parse_duration_from_ffmpeg_output;

#[test]
fn banner_duration_is_read_from_first_duration_line() {
    let banner = "Input #0, mov,mp4,m4a,3gp,3g2,mj2, from 'in.mp4':\r\n  Duration: 00:01:02.50, start: 0.000000, bitrate: 1205 kb/s\r\n  Duration: 00:09:00.00, start: 0\n";
    assert_eq!(parse_duration_from_ffmpeg_output(banner), Some(62_500_000));
}

#[test]
fn banner_without_duration_gives_nothing() {
    assert_eq!(parse_duration_from_ffmpeg_output("ffmpeg version 6.0\nno info here\n"), None);
    assert_eq!(parse_duration_from_ffmpeg_output(""), None);
    assert_eq!(parse_duration_from_ffmpeg_output("  Duration: N/A, start: 0"), None);
    assert_eq!(parse_duration_from_ffmpeg_output("Duration:x\n  Duration:  01:00:00.00 , bitrate"), Some(3_600_000_000));
}
