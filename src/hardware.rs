//! Hardware encoder probing: the candidates of each platform, what a name says
//! of its codec and vendor, and the report built from the trial encodes.
use vstd::prelude::*;
use vstd::string::*;

use crate::lifecycle::SuspendPrimitive;
use crate::text::{contains_text, occurs_in};

verus! {

/// The operating system the orchestrator runs on.
#[derive(Clone, Copy, Debug, PartialEq, Eq, Structural)]
pub enum Platform {
    MacOs,
    Windows,
    Linux,
    /// Another Unix-like system.
    OtherUnix,
    Other,
}

/// The processor architecture the orchestrator runs on.
#[derive(Clone, Copy, Debug, PartialEq, Eq, Structural)]
pub enum Arch {
    Aarch64,
    X86_64,
    Other,
}

/// One hardware encoder and whether its trial encode succeeded.
#[derive(Clone, Debug)]
pub struct EncoderSupport {
    pub name: String,
    pub codec: String,
    pub vendor: String,
    pub supported: bool,
    pub error_message: Option<String>,
}

/// The outcome of probing every candidate of a platform. `tested_at` is in
/// seconds since the Unix epoch.
#[derive(Clone, Debug)]
pub struct HardwareSupport {
    pub platform: String,
    pub tested_at: i64,
    pub encoders: Vec<EncoderSupport>,
}

/// What one trial encode gave: success, or the transcoder's diagnostic text.
pub struct TrialOutcome {
    pub success: bool,
    pub diagnostic: Option<String>,
}

pub open spec fn platform_name_of(p: Platform) -> Seq<char> {
    match p {
        Platform::MacOs => "macos"@,
        Platform::Windows => "windows"@,
        Platform::Linux => "linux"@,
        _ => "unknown"@,
    }
}

/// The hardware encoders tried on each platform.
pub open spec fn candidates(p: Platform) -> Seq<Seq<char>> {
    match p {
        Platform::MacOs => seq!["h264_videotoolbox"@, "hevc_videotoolbox"@, "prores_videotoolbox"@],
        Platform::Windows => seq![
            "h264_nvenc"@,
            "hevc_nvenc"@,
            "av1_nvenc"@,
            "h264_qsv"@,
            "hevc_qsv"@,
            "av1_qsv"@,
            "h264_amf"@,
            "hevc_amf"@,
            "av1_amf"@,
        ],
        _ => seq!["h264_vaapi"@, "hevc_vaapi"@, "av1_vaapi"@, "vp9_vaapi"@],
    }
}

/// The vendor an encoder name belongs to.
pub open spec fn vendor_of(name: Seq<char>) -> Seq<char> {
    if occurs_in(name, "videotoolbox"@) {
        "Apple VT"@
    } else if occurs_in(name, "nvenc"@) {
        "NVIDIA"@
    } else if occurs_in(name, "qsv"@) {
        "Intel"@
    } else if occurs_in(name, "amf"@) {
        "AMD"@
    } else if occurs_in(name, "vaapi"@) {
        "VAAPI"@
    } else {
        "Unknown"@
    }
}

/// The logical codec an encoder name produces.
pub open spec fn codec_of(name: Seq<char>) -> Seq<char> {
    if occurs_in(name, "264"@) {
        "h264"@
    } else if occurs_in(name, "hevc"@) || occurs_in(name, "265"@) {
        "hevc"@
    } else if occurs_in(name, "av1"@) {
        "av1"@
    } else if occurs_in(name, "vp9"@) {
        "vp9"@
    } else if occurs_in(name, "prores"@) {
        "prores"@
    } else {
        "unknown"@
    }
}

/// The diagnostic of every candidate when no sample file can be found.
pub open spec fn no_sample_message() -> Seq<char> {
    "No test video found: expected an .mp4 sample in the test folder of the resources"@
}

/// Each entry's codec and vendor are those its name gives, and only an
/// unsupported entry carries a diagnostic.
pub open spec fn entry_wf(e: EncoderSupport) -> bool {
    &&& e.codec@ == codec_of(e.name@)
    &&& e.vendor@ == vendor_of(e.name@)
    &&& e.supported ==> e.error_message is None
}

/// A report names the platform's candidates in order, each well formed.
pub open spec fn report_wf(r: HardwareSupport, p: Platform) -> bool {
    &&& r.platform@ == platform_name_of(p)
    &&& r.encoders@.len() == candidates(p).len()
    &&& forall|i: int| 0 <= i < r.encoders@.len() ==> {
        &&& (#[trigger] r.encoders@[i]).name@ == candidates(p)[i]
        &&& entry_wf(r.encoders@[i])
    }
}

/// The platform's name as reports carry it.
pub fn current_platform(p: Platform) -> (r: String)
    ensures
        r@ == platform_name_of(p),
{
    match p {
        Platform::MacOs => String::from_str("macos"),
        Platform::Windows => String::from_str("windows"),
        Platform::Linux => String::from_str("linux"),
        _ => String::from_str("unknown"),
    }
}

/// How the platform suspends a process: signals on Unix-like systems, thread
/// suspension on Windows, and nothing elsewhere.
pub fn suspend_primitive(p: Platform) -> (r: SuspendPrimitive)
    ensures
        r == (match p {
            Platform::Windows => SuspendPrimitive::ThreadSuspend,
            Platform::Other => SuspendPrimitive::Unsupported,
            _ => SuspendPrimitive::Signal,
        }),
{
    match p {
        Platform::Windows => SuspendPrimitive::ThreadSuspend,
        Platform::Other => SuspendPrimitive::Unsupported,
        _ => SuspendPrimitive::Signal,
    }
}

/// The file name of the bundled transcoder for the platform.
pub fn get_ffmpeg_binary(p: Platform, a: Arch) -> (r: &'static str)
    ensures
        r@ == (match (p, a) {
            (Platform::MacOs, Arch::Aarch64) => "ffmpeg-aarch64-apple-darwin"@,
            (Platform::MacOs, Arch::X86_64) => "ffmpeg-x86_64-apple-darwin"@,
            (Platform::Windows, _) => "ffmpeg-x86_64-pc-win64.exe"@,
            _ => "ffmpeg"@,
        }),
{
    match (p, a) {
        (Platform::MacOs, Arch::Aarch64) => "ffmpeg-aarch64-apple-darwin",
        (Platform::MacOs, Arch::X86_64) => "ffmpeg-x86_64-apple-darwin",
        (Platform::Windows, _) => "ffmpeg-x86_64-pc-win64.exe",
        _ => "ffmpeg",
    }
}

/// The file name of the bundled metadata probe for the platform.
pub fn get_ffprobe_binary(p: Platform, a: Arch) -> (r: &'static str)
    ensures
        r@ == (match (p, a) {
            (Platform::MacOs, Arch::Aarch64) => "ffprobe-aarch64-apple-darwin"@,
            (Platform::MacOs, Arch::X86_64) => "ffprobe-x86_64-apple-darwin"@,
            (Platform::Windows, _) => "ffprobe-x86_64-pc-windows-msvc.exe"@,
            _ => "ffprobe"@,
        }),
{
    match (p, a) {
        (Platform::MacOs, Arch::Aarch64) => "ffprobe-aarch64-apple-darwin",
        (Platform::MacOs, Arch::X86_64) => "ffprobe-x86_64-apple-darwin",
        (Platform::Windows, _) => "ffprobe-x86_64-pc-windows-msvc.exe",
        _ => "ffprobe",
    }
}

/// The hardware encoders to try on the platform, in order.
pub fn encoders_to_test(p: Platform) -> (r: Vec<&'static str>)
    ensures
        r@.len() == candidates(p).len(),
        forall|i: int| 0 <= i < r@.len() ==> (#[trigger] r@[i])@ == candidates(p)[i],
{
    match p {
        Platform::MacOs => vec!["h264_videotoolbox", "hevc_videotoolbox", "prores_videotoolbox"],
        Platform::Windows => vec![
            "h264_nvenc",
            "hevc_nvenc",
            "av1_nvenc",
            "h264_qsv",
            "hevc_qsv",
            "av1_qsv",
            "h264_amf",
            "hevc_amf",
            "av1_amf",
        ],
        _ => vec!["h264_vaapi", "hevc_vaapi", "av1_vaapi", "vp9_vaapi"],
    }
}

/// The vendor an encoder name belongs to.
pub fn map_vendor(name: &str) -> (r: &'static str)
    ensures
        r@ == vendor_of(name@),
{
    if contains_text(name, "videotoolbox") {
        "Apple VT"
    } else if contains_text(name, "nvenc") {
        "NVIDIA"
    } else if contains_text(name, "qsv") {
        "Intel"
    } else if contains_text(name, "amf") {
        "AMD"
    } else if contains_text(name, "vaapi") {
        "VAAPI"
    } else {
        "Unknown"
    }
}

/// The logical codec an encoder name produces.
pub fn map_codec(name: &str) -> (r: &'static str)
    ensures
        r@ == codec_of(name@),
{
    if contains_text(name, "264") {
        "h264"
    } else if contains_text(name, "hevc") || contains_text(name, "265") {
        "hevc"
    } else if contains_text(name, "av1") {
        "av1"
    } else if contains_text(name, "vp9") {
        "vp9"
    } else if contains_text(name, "prores") {
        "prores"
    } else {
        "unknown"
    }
}

/// Builds the report of a probe run. `trials` holds the outcome of each
/// candidate's trial encode, in candidate order; it is `None` where no sample
/// file could be found, and then every candidate is unsupported with a
/// diagnostic that says so.
pub fn hardware_report(p: Platform, tested_at: i64, trials: Option<Vec<TrialOutcome>>) -> (r: HardwareSupport)
    requires
        trials matches Some(t) ==> t@.len() == candidates(p).len(),
    ensures
        report_wf(r, p),
        r.tested_at == tested_at,
        trials is None ==> forall|i: int| 0 <= i < r.encoders@.len() ==> {
            &&& !(#[trigger] r.encoders@[i]).supported
            &&& r.encoders@[i].error_message matches Some(m) && m@ == no_sample_message() && m@.len() > 0
        },
        trials matches Some(t) ==> forall|i: int| 0 <= i < r.encoders@.len() ==> {
            &&& (#[trigger] r.encoders@[i]).supported == t@[i].success
            &&& !t@[i].success ==> r.encoders@[i].error_message == t@[i].diagnostic
        },
{
    proof {
        reveal_strlit("No test video found: expected an .mp4 sample in the test folder of the resources");
    }
    let names = encoders_to_test(p);
    let mut encoders: Vec<EncoderSupport> = Vec::new();
    let mut i: usize = 0;
    while i < names.len()
        invariant
            names@.len() == candidates(p).len(),
            forall|j: int| 0 <= j < names@.len() ==> (#[trigger] names@[j])@ == candidates(p)[j],
            trials matches Some(t) ==> t@.len() == candidates(p).len(),
            0 <= i <= names@.len(),
            encoders@.len() == i,
            forall|j: int| 0 <= j < i ==> {
                &&& (#[trigger] encoders@[j]).name@ == candidates(p)[j]
                &&& entry_wf(encoders@[j])
            },
            trials is None ==> forall|j: int| 0 <= j < i ==> {
                &&& !(#[trigger] encoders@[j]).supported
                &&& encoders@[j].error_message matches Some(m) && m@ == no_sample_message()
            },
            trials matches Some(t) ==> forall|j: int| 0 <= j < i ==> {
                &&& (#[trigger] encoders@[j]).supported == t@[j].success
                &&& !t@[j].success ==> encoders@[j].error_message == t@[j].diagnostic
            },
        decreases names@.len() - i,
    {
        let name = names[i];
        let (supported, error_message) = match &trials {
            None => (false, Some(String::from_str("No test video found: expected an .mp4 sample in the test folder of the resources"))),
            Some(t) => {
                if t[i].success {
                    (true, None)
                } else {
                    (false, clone_text(&t[i].diagnostic))
                }
            },
        };
        encoders.push(EncoderSupport {
            name: String::from_str(name),
            codec: String::from_str(map_codec(name)),
            vendor: String::from_str(map_vendor(name)),
            supported,
            error_message,
        });
        i = i + 1;
    }
    HardwareSupport { platform: current_platform(p), tested_at, encoders }
}

fn clone_text(s: &Option<String>) -> (r: Option<String>)
    ensures
        r == *s,
{
    match s {
        Some(t) => Some(t.clone()),
        None => None,
    }
}

/// Where several supported encoders produce the requested codec, the vendor
/// that wins: NVIDIA, then AMD, then Intel, then any other.
pub open spec fn vendor_rank(vendor: Seq<char>) -> int {
    if vendor == "NVIDIA"@ {
        3
    } else if vendor == "AMD"@ {
        2
    } else if vendor == "Intel"@ {
        1
    } else {
        0
    }
}

/// Entry `i` is a supported encoder of `codec`.
pub open spec fn eligible(r: HardwareSupport, codec: Seq<char>, i: int) -> bool {
    0 <= i < r.encoders@.len() && r.encoders@[i].supported && r.encoders@[i].codec@ == codec
}

fn rank_of(vendor: &String) -> (r: u8)
    ensures
        r as int == vendor_rank(vendor@),
{
    let nvidia = String::from_str("NVIDIA");
    let amd = String::from_str("AMD");
    let intel = String::from_str("Intel");
    if *vendor == nvidia {
        3
    } else if *vendor == amd {
        2
    } else if *vendor == intel {
        1
    } else {
        0
    }
}

/// The hardware encoder to use for `codec`: among the supported encoders of
/// that codec, one of the highest-ranked vendor (the last such in report
/// order); `None` where the report has none.
pub fn select_hardware_encoder(report: &HardwareSupport, codec: &String) -> (r: Option<String>)
    ensures
        r is None <==> forall|i: int| !eligible(*report, codec@, i),
        r matches Some(name) ==> exists|i: int| {
            &&& eligible(*report, codec@, i)
            &&& name@ == report.encoders@[i].name@
            &&& forall|j: int| #[trigger] eligible(*report, codec@, j) ==> vendor_rank(report.encoders@[j].vendor@) <= vendor_rank(report.encoders@[i].vendor@)
        },
{
    let mut best: Option<usize> = None;
    let mut best_rank: u8 = 0;
    let mut i: usize = 0;
    while i < report.encoders.len()
        invariant
            0 <= i <= report.encoders@.len(),
            match best {
                None => forall|j: int| 0 <= j < i ==> !eligible(*report, codec@, j),
                Some(b) => {
                    &&& b < i
                    &&& eligible(*report, codec@, b as int)
                    &&& best_rank as int == vendor_rank(report.encoders@[b as int].vendor@)
                    &&& forall|j: int| 0 <= j < i && #[trigger] eligible(*report, codec@, j) ==> vendor_rank(report.encoders@[j].vendor@) <= best_rank
                },
            },
        decreases report.encoders@.len() - i,
    {
        let e = &report.encoders[i];
        if e.supported && e.codec == *codec {
            let rank = rank_of(&e.vendor);
            match best {
                None => {
                    best = Some(i);
                    best_rank = rank;
                },
                Some(_) => {
                    if rank >= best_rank {
                        best = Some(i);
                        best_rank = rank;
                    }
                },
            }
        }
        i = i + 1;
    }
    match best {
        None => None,
        Some(b) => {
            let name = report.encoders[b].name.clone();
            assert(eligible(*report, codec@, b as int));
            Some(name)
        },
    }
}

} // verus!
