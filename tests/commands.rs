use zipzap_core::command::{build_image_args, build_video_args, choose_video_encoder};
use zipzap_core::hardware::{hardware_report, Arch, Platform, TrialOutcome};
use zipzap_core::image::{build_png_filter_and_codec, build_scale_filter, map_jpeg_quality, map_webp_quality};
use zipzap_core::types::{CompressionSettings, CustomResolution, TimeRange};

fn settings(codec: &str, resolution: &str) -> CompressionSettings {
    CompressionSettings {
        format: "mp4".to_string(),
        codec: codec.to_string(),
        resolution: resolution.to_string(),
        custom_resolution: None,
        quality_type: "crf".to_string(),
        crf_value: Some(23),
        bitrate: None,
        qv_value: None,
        time_range: None,
        hardware_acceleration: None,
        bit_depth: None,
    }
}

fn strs(v: &[String]) -> Vec<&str> {
    v.iter().map(|s| s.as_str()).collect()
}

#[test]
fn video_args_for_a_plain_transcode() {
    let s = settings("H.264", "original");
    let args = build_video_args(&"in.mov".to_string(), &"out.mp4".to_string(), &s, &"libx264".to_string());
    assert_eq!(
        strs(&args),
        vec!["-i", "in.mov", "-c:v", "libx264", "-pix_fmt", "yuv420p", "-crf", "23", "-c:a", "copy", "-c:s", "copy", "-y", "out.mp4", "-progress", "pipe:1"]
    );
}

#[test]
fn video_args_with_range_hevc_and_webm() {
    let mut s = settings("H.265", "1280x720");
    s.time_range = Some(TimeRange { start: Some(1_500_000), end: Some(11_500_000) });
    s.quality_type = "bitrate".to_string();
    s.bitrate = Some("2M".to_string());
    s.bit_depth = Some(10);
    let args = build_video_args(&"in.mov".to_string(), &"OUT.WEBM".to_string(), &s, &"hevc_videotoolbox".to_string());
    assert_eq!(
        strs(&args),
        vec![
            "-ss", "1.500000", "-i", "in.mov", "-t", "10.000000", "-c:v", "hevc_videotoolbox", "-tag:v", "hvc1",
            "-pix_fmt", "p010le", "-profile:v", "main10", "-b:v", "2M", "-vf", "scale=1280:720,format=p010le",
            "-c:a", "libopus", "-b:a", "128k", "-c:s", "webvtt", "-y", "OUT.WEBM", "-progress", "pipe:1"
        ]
    );
}

#[test]
fn video_args_custom_size_and_qv() {
    let mut s = settings("VP9", "custom");
    s.custom_resolution = Some(CustomResolution { width: 640, height: 360 });
    s.quality_type = "qv".to_string();
    s.qv_value = Some(150);
    s.bit_depth = Some(12);
    s.time_range = Some(TimeRange { start: None, end: Some(2_000_000) });
    let args = build_video_args(&"a".to_string(), &"b.mkv".to_string(), &s, &"libvpx-vp9".to_string());
    assert_eq!(
        strs(&args),
        vec!["-i", "a", "-t", "2.000000", "-c:v", "libvpx-vp9", "-pix_fmt", "yuv420p12le", "-q:v", "100", "-vf", "scale=640:360", "-c:a", "copy", "-c:s", "copy", "-y", "b.mkv", "-progress", "pipe:1"]
    );
}

#[test]
fn encoder_choice_by_platform() {
    let mut s = settings("HEVC", "original");
    assert_eq!(choose_video_encoder(&s, Platform::MacOs, Arch::Aarch64, None), "libx265");
    s.hardware_acceleration = Some("gpu".to_string());
    assert_eq!(choose_video_encoder(&s, Platform::MacOs, Arch::Aarch64, None), "hevc_videotoolbox");
    assert_eq!(choose_video_encoder(&s, Platform::MacOs, Arch::X86_64, None), "libx265");
    assert_eq!(choose_video_encoder(&s, Platform::Linux, Arch::X86_64, None), "libx265");
    let trials: Vec<TrialOutcome> = (0..9).map(|i| TrialOutcome { success: i >= 3, diagnostic: None }).collect();
    let report = hardware_report(Platform::Windows, 0, Some(trials));
    assert_eq!(choose_video_encoder(&s, Platform::Windows, Arch::X86_64, Some(&report)), "hevc_amf");
    assert_eq!(choose_video_encoder(&s, Platform::Windows, Arch::X86_64, None), "libx265");
    let vp9 = CompressionSettings { hardware_acceleration: Some("gpu".to_string()), ..settings("VP9", "original") };
    assert_eq!(choose_video_encoder(&vp9, Platform::Windows, Arch::X86_64, Some(&report)), "libvpx-vp9");
}

#[test]
fn image_quality_mappings() {
    assert_eq!(map_jpeg_quality(None), 8);
    assert_eq!(map_jpeg_quality(Some(50)), 17);
    assert_eq!(map_jpeg_quality(Some(100)), 2);
    assert_eq!(map_jpeg_quality(Some(0)), 31);
    assert_eq!(map_jpeg_quality(Some(200)), 2);
    assert_eq!(map_webp_quality(None), 80);
    assert_eq!(map_webp_quality(Some(120)), 100);
    let (codec, args) = build_png_filter_and_codec(Some(100));
    assert_eq!(codec, "png");
    assert_eq!(strs(&args), vec!["-compression_level", "90", "-pred", "mixed"]);
    let (_, args) = build_png_filter_and_codec(Some(45));
    assert_eq!(
        strs(&args),
        vec!["-vf", "split[s0][s1];[s0]palettegen=max_colors=96:stats_mode=full[p];[s1][p]paletteuse=dither=sierra2_4a"]
    );
}

#[test]
fn scale_filters() {
    assert_eq!(build_scale_filter(&settings("x", "Original")), None);
    assert_eq!(build_scale_filter(&settings("x", "1920x1080")).as_deref(), Some("scale=1920x1080"));
    assert_eq!(build_scale_filter(&settings("x", "CUSTOM")), None);
    let mut s = settings("x", "custom");
    s.custom_resolution = Some(CustomResolution { width: 800, height: 600 });
    assert_eq!(build_scale_filter(&s).as_deref(), Some("scale=800:600"));
    assert_eq!(build_scale_filter(&settings("x", "720p")), None);
}

#[test]
fn image_args_by_format() {
    let mut s = settings("x", "640x480");
    s.format = "JPEG".to_string();
    s.crf_value = Some(80);
    let args = build_image_args(&"in.png".to_string(), &"out.jpg".to_string(), &s);
    assert_eq!(strs(&args), vec!["-y", "-i", "in.png", "-vf", "scale=640x480", "-c:v", "mjpeg", "-q:v", "8", "out.jpg"]);
    s.format = "png".to_string();
    let args = build_image_args(&"in.png".to_string(), &"out.png".to_string(), &s);
    assert_eq!(
        strs(&args),
        vec!["-y", "-i", "in.png", "-vf", "scale=640x480,split[s0][s1];[s0]palettegen=max_colors=256:stats_mode=full[p];[s1][p]paletteuse=dither=sierra2_4a", "-c:v", "png", "out.png"]
    );
    s.crf_value = Some(100);
    let args = build_image_args(&"i".to_string(), &"o".to_string(), &s);
    assert_eq!(strs(&args), vec!["-y", "-i", "i", "-vf", "scale=640x480", "-compression_level", "90", "-pred", "mixed", "-c:v", "png", "o"]);
    s.format = "webp".to_string();
    s.resolution = "original".to_string();
    let args = build_image_args(&"i".to_string(), &"o".to_string(), &s);
    assert_eq!(strs(&args), vec!["-y", "-i", "i", "-c:v", "libwebp", "-q:v", "100", "o"]);
    s.format = "bmp".to_string();
    let args = build_image_args(&"i".to_string(), &"o".to_string(), &s);
    assert_eq!(strs(&args), vec!["-y", "-i", "i", "-c:v", "png", "-compression_level", "90", "o"]);
}
