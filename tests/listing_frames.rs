use zipzap_core::codec_list::{parse_codec_line, parse_codec_listing};
use zipzap_core::frames::{build_frame_args, frame_data_url, frame_timestamp, frame_timestamp_in_range, thumbnail_timestamp};

const SEC: u64 = 1_000_000;

#[test]
fn encoder_listing_lines_become_codecs() {
    let listing = "Encoders:\n V..... = Video\n ------\n V....D h264_videotoolbox    VideoToolbox H.264 Encoder (codec h264)\r\n A....D aac                  AAC (Advanced Audio Coding)\n S..... ssa   ASS subtitle\n V..... hevc_nvenc NVIDIA NVENC hevc encoder\n";
    let codecs = parse_codec_listing(listing, true);
    let names: Vec<&str> = codecs.iter().map(|c| c.name.as_str()).collect();
    assert_eq!(names, vec!["=", "h264_videotoolbox", "aac", "hevc_nvenc"]);
    let vt = &codecs[1];
    assert_eq!(vt.description, "VideoToolbox H.264 Encoder (codec h264)");
    assert_eq!(vt.media_type, "video");
    assert_eq!(vt.codec_type, "encoder");
    assert_eq!(vt.hardware_type.as_deref(), Some("Apple VideoToolbox"));
    assert_eq!(codecs[2].media_type, "audio");
    assert_eq!(codecs[2].hardware_type, None);
    assert_eq!(codecs[3].hardware_type.as_deref(), Some("NVIDIA NVENC"));
}

#[test]
fn decoder_listing_names_cuvid() {
    let c = parse_codec_line(" V....D h264_cuvid  Nvidia CUVID H264 decoder", false).unwrap();
    assert_eq!(c.codec_type, "decoder");
    assert_eq!(c.hardware_type.as_deref(), Some("NVIDIA CUVID"));
    assert!(parse_codec_line(" V....D onlyname", false).is_none());
    assert!(parse_codec_line("V....D h264 x", false).is_none());
    assert!(parse_codec_listing("", true).is_empty());
}

#[test]
fn preview_frames_are_spread_over_the_clip() {
    let d = 90 * SEC;
    assert_eq!(frame_timestamp(d, 0), 100_000);
    assert_eq!(frame_timestamp(d, 1), 10 * SEC);
    assert_eq!(frame_timestamp(d, 8), 80 * SEC);
    assert_eq!(frame_timestamp(d, 9), 89_500_000);
    assert_eq!(frame_timestamp(4 * SEC, 9), 3_800_000);
    assert_eq!(frame_timestamp(100_000, 9), 95_000);
    assert_eq!(frame_timestamp_in_range(10 * SEC, 19 * SEC, 3), Some(13 * SEC));
    assert_eq!(frame_timestamp_in_range(10 * SEC, 10 * SEC, 3), None);
}

#[test]
fn frame_bytes_become_a_jpeg_data_url() {
    assert_eq!(frame_data_url(&vec![]), None);
    assert_eq!(frame_data_url(&b"abc".to_vec()).as_deref(), Some("data:image/jpeg;base64,YWJj"));
    assert_eq!(frame_data_url(&vec![0xff, 0xd8]).as_deref(), Some("data:image/jpeg;base64,/9g="));
}

#[test]
fn thumbnail_and_frame_grab() {
    assert_eq!(thumbnail_timestamp(Some(60 * SEC)), 30 * SEC);
    assert_eq!(thumbnail_timestamp(Some(2 * SEC)), 500_000);
    assert_eq!(thumbnail_timestamp(Some(8 * SEC)), SEC);
    assert_eq!(thumbnail_timestamp(None), SEC);
    let args = build_frame_args(&"clip.mp4".to_string(), 89_500_000);
    let args: Vec<&str> = args.iter().map(|s| s.as_str()).collect();
    assert_eq!(args, vec!["-ss", "89.50", "-i", "clip.mp4", "-vframes", "1", "-f", "image2pipe", "-vcodec", "mjpeg", "-avoid_negative_ts", "make_zero", "-"]);
}
