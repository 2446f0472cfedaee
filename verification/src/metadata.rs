//! Video metadata: the probed record, its validity invariant, and the
//! frame-rate parser.
//!
//! Durations are carried in microseconds and frame rates in thousandths
//! of a frame per second, so every derived quantity is exact integer
//! arithmetic.  The probe reports a frame rate either as a fraction
//! (`30000/1001`) or as a plain decimal (`29.97`); a malformed field
//! falls back to 30 frames per second.

use vstd::prelude::*;
use crate::strnum::{is_decimal, parse_scaled, scaled_val};
use crate::text::{find_first, find_last, first_idx, last_idx, lemma_first_idx, lemma_last_idx};

verus! {

/// Thousandths of a frame per second standing for the fallback rate of
/// 30 frames per second.
pub const DEFAULT_FPS_MILLI: u64 = 30000;

/// Metadata probed from one video file.  `duration_us` is the duration
/// in microseconds; `fps_milli` is the frame rate in thousandths of a
/// frame per second; `total_frames` is derived from the two.
#[derive(Debug, Clone)]
pub struct VideoInfo {
    pub path: String,
    pub filename: String,
    pub duration_us: u64,
    pub width: u32,
    pub height: u32,
    pub fps_milli: u64,
    pub total_frames: u64,
    pub valid: bool,
    pub error: Option<String>,
}

/// The error message naming a missing or zero resolution.
pub open spec fn msg_missing_resolution() -> Seq<char> {
    "Invalid video metadata: missing resolution"@
}

/// The error message naming a missing or zero duration.
pub open spec fn msg_missing_duration() -> Seq<char> {
    "Invalid video metadata: missing duration"@
}

/// The metadata invariant: `valid` holds exactly when resolution and
/// duration are present, `error` is set exactly when `valid` fails and
/// names the first failing precondition, resolution before duration.
pub open spec fn video_info_wf(info: VideoInfo) -> bool {
    &&& info.valid <==> (info.width > 0 && info.height > 0 && info.duration_us > 0)
    &&& info.valid <==> info.error is None
    &&& (!info.valid && (info.width == 0 || info.height == 0)) ==> (info.error matches Some(e)
        && e@ == msg_missing_resolution())
    &&& (!info.valid && info.width > 0 && info.height > 0) ==> (info.error matches Some(e) && e@
        == msg_missing_duration())
}

/// The frame count a duration and frame rate stand for: the product in
/// whole frames, rounded to the nearest frame and saturated at `u64`.
pub open spec fn spec_total_frames(duration_us: u64, fps_milli: u64) -> int {
    let exact = ((duration_us as int) * (fps_milli as int) + 500000000) / 1000000000;
    if exact > u64::MAX {
        u64::MAX as int
    } else {
        exact
    }
}

/// Computes the frame count of `spec_total_frames`.
pub fn total_frames_of(duration_us: u64, fps_milli: u64) -> (r: u64)
    ensures
        r == spec_total_frames(duration_us, fps_milli),
{
    proof {
        assert((duration_us as int) * (fps_milli as int) + 500000000
            < 0x1_0000_0000_0000_0000_0000_0000_0000_0000) by (nonlinear_arith)
            requires
                duration_us <= u64::MAX,
                fps_milli <= u64::MAX,
        ;
    }
    let exact: u128 = ((duration_us as u128) * (fps_milli as u128) + 500000000) / 1000000000;
    if exact > u64::MAX as u128 {
        u64::MAX
    } else {
        exact as u64
    }
}

/// The scaled value of `s` when it is a decimal that fits, else `d`.
pub open spec fn scaled_or(s: Seq<char>, k: nat, d: int) -> int {
    if is_decimal(s) && scaled_val(s, k) <= u64::MAX {
        scaled_val(s, k)
    } else {
        d
    }
}

/// The frame rate, in thousandths of a frame per second, that the probe's
/// `r_frame_rate` field `s` stands for.  A field with exactly one slash
/// reads as a fraction: an unreadable numerator counts as zero, an
/// unreadable denominator as one, and a zero denominator sends the whole
/// field to the plain-decimal reading.  Any other field reads as a plain
/// decimal, and 30 frames per second stands in for anything unreadable.
pub open spec fn spec_parse_fps_milli(s: Seq<char>) -> int {
    let si = first_idx(s, '/');
    if si >= 0 && last_idx(s, '/') == si {
        let num = scaled_or(s.subrange(0, si), 3, 0);
        let den = scaled_or(s.subrange(si + 1, s.len() as int), 3, 1000);
        if den > 0 {
            let q = num * 1000 / den;
            if q > u64::MAX {
                u64::MAX as int
            } else {
                q
            }
        } else {
            scaled_or(s, 3, DEFAULT_FPS_MILLI as int)
        }
    } else {
        scaled_or(s, 3, DEFAULT_FPS_MILLI as int)
    }
}

/// Parses the probe's frame-rate field into thousandths of a frame per
/// second, as `spec_parse_fps_milli` reads it.
pub fn parse_fps(s: &str) -> (r: u64)
    ensures
        r == spec_parse_fps_milli(s@),
{
    let n = s.unicode_len();
    let sf = find_first(s, '/');
    let sl = find_last(s, '/');
    proof {
        lemma_first_idx(s@, '/');
        lemma_last_idx(s@, '/');
    }
    let (has_slash, si): (bool, usize) = match sf {
        Some(i) => (true, i),
        None => (false, 0),
    };
    let li: usize = match sl {
        Some(i) => i,
        None => 0,
    };
    if has_slash && si == li {
        let num_part = s.substring_char(0, si);
        let den_part = s.substring_char(si + 1, n);
        proof {
            assert(num_part@ =~= s@.subrange(0, si as int));
            assert(den_part@ =~= s@.subrange(si + 1, s@.len() as int));
        }
        let num: u64 = match parse_scaled(num_part, 3) {
            Some(v) => v,
            None => 0,
        };
        let den: u64 = match parse_scaled(den_part, 3) {
            Some(v) => v,
            None => 1000,
        };
        if den > 0 {
            proof {
                assert((num as int) * 1000 < 0x1_0000_0000_0000_0000_0000_0000_0000_0000)
                    by (nonlinear_arith)
                    requires
                        num <= u64::MAX,
                ;
            }
            let q: u128 = (num as u128) * 1000 / (den as u128);
            if q > u64::MAX as u128 {
                u64::MAX
            } else {
                q as u64
            }
        } else {
            match parse_scaled(s, 3) {
                Some(v) => v,
                None => DEFAULT_FPS_MILLI,
            }
        }
    } else {
        match parse_scaled(s, 3) {
            Some(v) => v,
            None => DEFAULT_FPS_MILLI,
        }
    }
}

/// The duration, in microseconds, that the probe's container-level
/// `duration` field `s` stands for: a plain decimal count of seconds,
/// anything unreadable standing for zero.
pub open spec fn spec_duration_us(s: Seq<char>) -> int {
    scaled_or(s, 6, 0)
}

/// Parses the probe's duration field into microseconds, an unreadable
/// field reading as zero.
pub fn parse_duration_us(s: &str) -> (r: u64)
    ensures
        r == spec_duration_us(s@),
{
    match parse_scaled(s, 6) {
        Some(v) => v,
        None => 0,
    }
}

/// Builds the metadata record for a successfully parsed probe report:
/// the derived frame count, the validity invariant, and the first failing
/// precondition's message, resolution before duration.
pub fn assemble_video_info(
    path: &str,
    filename: &str,
    width: u32,
    height: u32,
    fps_milli: u64,
    duration_us: u64,
) -> (r: VideoInfo)
    ensures
        r.path@ == path@,
        r.filename@ == filename@,
        r.duration_us == duration_us,
        r.width == width,
        r.height == height,
        r.fps_milli == fps_milli,
        r.total_frames == spec_total_frames(duration_us, fps_milli),
        video_info_wf(r),
{
    let valid = width > 0 && height > 0 && duration_us > 0;
    let error: Option<String> = if valid {
        None
    } else if width == 0 || height == 0 {
        Some(String::from_str("Invalid video metadata: missing resolution"))
    } else {
        Some(String::from_str("Invalid video metadata: missing duration"))
    };
    VideoInfo {
        path: String::from_str(path),
        filename: String::from_str(filename),
        duration_us,
        width,
        height,
        fps_milli,
        total_frames: total_frames_of(duration_us, fps_milli),
        valid,
        error,
    }
}

/// Builds the metadata record for a probe run that exited with failure.
pub fn probe_failed_info(path: &str, filename: &str) -> (r: VideoInfo)
    ensures
        r.path@ == path@,
        r.filename@ == filename@,
        !r.valid,
        r.error matches Some(e) && e@ == "FFprobe failed to analyze video"@,
        r.duration_us == 0 && r.width == 0 && r.height == 0 && r.fps_milli == 0
            && r.total_frames == 0,
{
    VideoInfo {
        path: String::from_str(path),
        filename: String::from_str(filename),
        duration_us: 0,
        width: 0,
        height: 0,
        fps_milli: 0,
        total_frames: 0,
        valid: false,
        error: Some(String::from_str("FFprobe failed to analyze video")),
    }
}

/// Builds the metadata record for a probe engine that could not be run
/// at all; `err` is the launcher's error text.
pub fn probe_engine_missing_info(path: &str, filename: &str, err: &str) -> (r: VideoInfo)
    ensures
        r.path@ == path@,
        r.filename@ == filename@,
        !r.valid,
        r.error matches Some(e) && e@ == "Failed to run ffprobe: "@ + err@,
        r.duration_us == 0 && r.width == 0 && r.height == 0 && r.fps_milli == 0
            && r.total_frames == 0,
{
    let msg = String::from_str("Failed to run ffprobe: ").concat(err);
    VideoInfo {
        path: String::from_str(path),
        filename: String::from_str(filename),
        duration_us: 0,
        width: 0,
        height: 0,
        fps_milli: 0,
        total_frames: 0,
        valid: false,
        error: Some(msg),
    }
}

/// Builds the metadata record for a probe whose report could not be read
/// as well-formed structured data; `detail` is the parser's error text.
pub fn probe_unparsed_info(path: &str, filename: &str, detail: &str) -> (r: VideoInfo)
    ensures
        r.path@ == path@,
        r.filename@ == filename@,
        !r.valid,
        r.error matches Some(e) && e@ == "Failed to parse ffprobe output: "@ + detail@,
        r.duration_us == 0 && r.width == 0 && r.height == 0 && r.fps_milli == 0
            && r.total_frames == 0,
{
    let msg = String::from_str("Failed to parse ffprobe output: ").concat(detail);
    VideoInfo {
        path: String::from_str(path),
        filename: String::from_str(filename),
        duration_us: 0,
        width: 0,
        height: 0,
        fps_milli: 0,
        total_frames: 0,
        valid: false,
        error: Some(msg),
    }
}

} // verus!
