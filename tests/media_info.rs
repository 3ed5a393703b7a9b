use zipzap_core::media_info::{
    bitrate_label, codec_label, color_depth_of_pix_fmt, container_format, depth_label, resolution_label, sample_rate_label,
};

#[test]
fn container_by_extension_then_format_name() {
    assert_eq!(container_format("MOV", "mov,mp4,m4a"), "MOV");
    assert_eq!(container_format("mkv", "matroska"), "MKV");
    assert_eq!(container_format("", "matroska"), "MKV");
    assert_eq!(container_format("bin", "mov"), "MP4");
    assert_eq!(container_format("", "mpegts"), "TS");
    assert_eq!(container_format("", "hls"), "HLS");
}

#[test]
fn labels() {
    assert_eq!(bitrate_label(Some(2_345_678)), "2345 kbps");
    assert_eq!(bitrate_label(None), "unknown");
    assert_eq!(resolution_label(1920, 1080), "1920x1080");
    assert_eq!(sample_rate_label(true, Some("48000")), "48000 Hz");
    assert_eq!(sample_rate_label(true, None), "unknown");
    assert_eq!(sample_rate_label(false, Some("48000")), "none");
    assert_eq!(codec_label(Some("h264"), "unknown"), "H264");
    assert_eq!(codec_label(None, "none"), "NONE");
    assert_eq!(color_depth_of_pix_fmt("yuv420p10le"), Some("10"));
    assert_eq!(color_depth_of_pix_fmt("nv12"), None);
    assert_eq!(depth_label("10"), "10 bit");
}
