use zipzap_core::codecs::{map_audio_codec_to_ffmpeg, map_codec_to_ffmpeg};
use zipzap_core::hardware::{
    current_platform, encoders_to_test, get_ffmpeg_binary, get_ffprobe_binary, hardware_report, map_codec,
    map_vendor, select_hardware_encoder, suspend_primitive, Arch, Platform, TrialOutcome,
};
use zipzap_core::lifecycle::SuspendPrimitive;

#[test]
fn probe_without_sample_marks_every_candidate_unsupported() {
    for p in [Platform::MacOs, Platform::Windows, Platform::Linux] {
        let report = hardware_report(p, 1_700_000_000, None);
        assert_eq!(report.encoders.len(), encoders_to_test(p).len());
        assert_eq!(report.tested_at, 1_700_000_000);
        for e in &report.encoders {
            assert!(!e.supported);
            assert!(!e.error_message.as_deref().unwrap_or("").is_empty());
        }
    }
}

#[test]
fn probe_records_each_trial() {
    let trials = vec![
        TrialOutcome { success: true, diagnostic: None },
        TrialOutcome { success: false, diagnostic: Some("Unknown encoder".to_string()) },
        TrialOutcome { success: false, diagnostic: None },
        TrialOutcome { success: true, diagnostic: None },
    ];
    let report = hardware_report(Platform::Linux, 5, Some(trials));
    assert_eq!(report.platform, "linux");
    let names: Vec<&str> = report.encoders.iter().map(|e| e.name.as_str()).collect();
    assert_eq!(names, vec!["h264_vaapi", "hevc_vaapi", "av1_vaapi", "vp9_vaapi"]);
    assert!(report.encoders[0].supported && report.encoders[0].error_message.is_none());
    assert_eq!(report.encoders[1].error_message.as_deref(), Some("Unknown encoder"));
    assert_eq!(report.encoders[2].error_message, None);
    assert_eq!(report.encoders[3].codec, "vp9");
    assert_eq!(report.encoders[3].vendor, "VAAPI");
}

#[test]
fn vendor_and_codec_from_encoder_names() {
    assert_eq!(map_vendor("h264_videotoolbox"), "Apple VT");
    assert_eq!(map_vendor("hevc_nvenc"), "NVIDIA");
    assert_eq!(map_vendor("av1_qsv"), "Intel");
    assert_eq!(map_vendor("h264_amf"), "AMD");
    assert_eq!(map_vendor("libx264"), "Unknown");
    assert_eq!(map_codec("h264_nvenc"), "h264");
    assert_eq!(map_codec("libx265"), "hevc");
    assert_eq!(map_codec("hevc_qsv"), "hevc");
    assert_eq!(map_codec("av1_amf"), "av1");
    assert_eq!(map_codec("prores_videotoolbox"), "prores");
    assert_eq!(map_codec("mjpeg"), "unknown");
}

#[test]
fn windows_selection_prefers_nvidia_then_amd_then_intel() {
    let trials: Vec<TrialOutcome> = (0..9)
        .map(|i| TrialOutcome { success: i != 0, diagnostic: if i == 0 { Some("no device".to_string()) } else { None } })
        .collect();
    let report = hardware_report(Platform::Windows, 0, Some(trials));
    assert_eq!(select_hardware_encoder(&report, &"hevc".to_string()).as_deref(), Some("hevc_nvenc"));
    assert_eq!(select_hardware_encoder(&report, &"h264".to_string()).as_deref(), Some("h264_amf"));
    assert_eq!(select_hardware_encoder(&report, &"vp9".to_string()), None);
    let none = hardware_report(Platform::Windows, 0, None);
    assert_eq!(select_hardware_encoder(&none, &"h264".to_string()), None);
}

#[test]
fn platform_names_and_binaries() {
    assert_eq!(current_platform(Platform::MacOs), "macos");
    assert_eq!(current_platform(Platform::OtherUnix), "unknown");
    assert_eq!(get_ffmpeg_binary(Platform::MacOs, Arch::Aarch64), "ffmpeg-aarch64-apple-darwin");
    assert_eq!(get_ffmpeg_binary(Platform::Windows, Arch::X86_64), "ffmpeg-x86_64-pc-win64.exe");
    assert_eq!(get_ffmpeg_binary(Platform::Linux, Arch::X86_64), "ffmpeg");
    assert_eq!(get_ffprobe_binary(Platform::Windows, Arch::X86_64), "ffprobe-x86_64-pc-windows-msvc.exe");
    assert_eq!(get_ffprobe_binary(Platform::MacOs, Arch::X86_64), "ffprobe-x86_64-apple-darwin");
    assert_eq!(suspend_primitive(Platform::Linux), SuspendPrimitive::Signal);
    assert_eq!(suspend_primitive(Platform::Windows), SuspendPrimitive::ThreadSuspend);
    assert_eq!(suspend_primitive(Platform::Other), SuspendPrimitive::Unsupported);
}

#[test]
fn codec_names_map_to_encoders() {
    assert_eq!(map_codec_to_ffmpeg("H.264"), "libx264");
    assert_eq!(map_codec_to_ffmpeg("HEVC"), "libx265");
    assert_eq!(map_codec_to_ffmpeg("VP9"), "libvpx-vp9");
    assert_eq!(map_codec_to_ffmpeg("libx264"), "libx264");
    assert_eq!(map_audio_codec_to_ffmpeg("MP3"), "libmp3lame");
    assert_eq!(map_audio_codec_to_ffmpeg("PCM"), "pcm_s16le");
    assert_eq!(map_audio_codec_to_ffmpeg("copy"), "copy");
}
