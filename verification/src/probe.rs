//! Reading the metadata probe's report: the probe prints a structured
//! JSON document with a `streams` array and a `format` object, and this
//! module turns it into a `VideoInfo` record.
//!
//! Each JSON query is delegated to `serde_json` through a trusted
//! wrapper from the raw bytes to a plain value, and what that query
//! yields on given bytes is a function of the bytes alone, so each
//! wrapper's result carries a name that the contracts speak of.  The
//! logic — picking the first video stream, the fallbacks, the frame
//! count and the validity invariant — is verified over those names.

use vstd::prelude::*;
use crate::metadata::{
    assemble_video_info, parse_duration_us, parse_fps, probe_unparsed_info, spec_duration_us,
    spec_parse_fps_milli, spec_total_frames, video_info_wf, VideoInfo,
};
use crate::text::str_eq;

verus! {

/// The probe engine's argument list for one file: quiet, a JSON report,
/// the container format and every stream.
pub open spec fn spec_ffprobe_args(path: Seq<char>) -> Seq<Seq<char>> {
    seq!["-v"@, "quiet"@, "-print_format"@, "json"@, "-show_format"@, "-show_streams"@, path]
}

/// Builds the probe engine's argument list for one file.
pub fn build_ffprobe_args(path: &str) -> (r: Vec<String>)
    ensures
        r@.map_values(|s: String| s@) == spec_ffprobe_args(path@),
{
    let mut r: Vec<String> = Vec::new();
    r.push(String::from_str("-v"));
    r.push(String::from_str("quiet"));
    r.push(String::from_str("-print_format"));
    r.push(String::from_str("json"));
    r.push(String::from_str("-show_format"));
    r.push(String::from_str("-show_streams"));
    r.push(String::from_str(path));
    proof {
        assert(r@.map_values(|s: String| s@) =~= spec_ffprobe_args(path@));
    }
    r
}

/// Why the probe's bytes do not read (UTF-8-lossily) as well-formed
/// JSON, or nothing when they do; a function of the bytes alone.
pub uninterp spec fn probe_parse_error(b: Seq<u8>) -> Option<Seq<char>>;

/// How many entries the report's `streams` array holds; zero when the
/// bytes do not parse or carry no such array.
pub uninterp spec fn probe_stream_count(b: Seq<u8>) -> nat;

/// The `codec_type` string of the report's `i`-th stream, or nothing
/// when it is absent or not a string.
pub uninterp spec fn probe_codec_type(b: Seq<u8>, i: int) -> Option<Seq<char>>;

/// The `width` integer of the report's `i`-th stream, or nothing when
/// it is absent or not an unsigned integer in range.
pub uninterp spec fn probe_width(b: Seq<u8>, i: int) -> Option<u64>;

/// The `height` integer of the report's `i`-th stream, or nothing when
/// it is absent or not an unsigned integer in range.
pub uninterp spec fn probe_height(b: Seq<u8>, i: int) -> Option<u64>;

/// The `r_frame_rate` string of the report's `i`-th stream, or nothing
/// when it is absent or not a string.
pub uninterp spec fn probe_fps_field(b: Seq<u8>, i: int) -> Option<Seq<char>>;

/// The `duration` string of the report's `format` object, or nothing
/// when it is absent or not a string.
pub uninterp spec fn probe_duration_field(b: Seq<u8>) -> Option<Seq<char>>;

/// Relies on serde_json::from_str and serde_json::Error's Display
/// implementation: the parse failure's description, when the bytes do
/// not read as well-formed JSON.
#[verifier::external_body]
fn read_probe_parse_error(stdout: &[u8]) -> (r: Option<String>)
    ensures
        r is Some <==> probe_parse_error(stdout@) is Some,
        r matches Some(m) ==> (probe_parse_error(stdout@) matches Some(e) && m@ == e),
{
    match serde_json::from_str::<serde_json::Value>(&String::from_utf8_lossy(stdout)) {
        Ok(_) => None,
        Err(e) => Some(format!("{}", e)),
    }
}

/// Relies on serde_json::from_str, Value::get and Value::as_array: the
/// length of the report's `streams` array.
#[verifier::external_body]
fn read_probe_stream_count(stdout: &[u8]) -> (r: usize)
    ensures
        r == probe_stream_count(stdout@),
{
    serde_json::from_str::<serde_json::Value>(&String::from_utf8_lossy(stdout))
        .ok()
        .and_then(|v| v.get("streams").and_then(|s| s.as_array()).map(|a| a.len()))
        .unwrap_or(0)
}

/// Relies on serde_json::from_str, Value::get, Value::as_array and
/// Value::as_str: the `codec_type` string of the `i`-th stream.
#[verifier::external_body]
fn read_probe_codec_type(stdout: &[u8], i: usize) -> (r: Option<String>)
    ensures
        r is Some <==> probe_codec_type(stdout@, i as int) is Some,
        r matches Some(c) ==> (probe_codec_type(stdout@, i as int) matches Some(s) && c@ == s),
{
    serde_json::from_str::<serde_json::Value>(&String::from_utf8_lossy(stdout)).ok().and_then(
        |v| v.get("streams")?.as_array()?.get(i)?.get("codec_type")?.as_str().map(String::from),
    )
}

/// Relies on serde_json::from_str, Value::get, Value::as_array and
/// Value::as_u64: the `width` integer of the `i`-th stream.
#[verifier::external_body]
fn read_probe_width(stdout: &[u8], i: usize) -> (r: Option<u64>)
    ensures
        r == probe_width(stdout@, i as int),
{
    serde_json::from_str::<serde_json::Value>(&String::from_utf8_lossy(stdout)).ok().and_then(
        |v| v.get("streams")?.as_array()?.get(i)?.get("width")?.as_u64(),
    )
}

/// Relies on serde_json::from_str, Value::get, Value::as_array and
/// Value::as_u64: the `height` integer of the `i`-th stream.
#[verifier::external_body]
fn read_probe_height(stdout: &[u8], i: usize) -> (r: Option<u64>)
    ensures
        r == probe_height(stdout@, i as int),
{
    serde_json::from_str::<serde_json::Value>(&String::from_utf8_lossy(stdout)).ok().and_then(
        |v| v.get("streams")?.as_array()?.get(i)?.get("height")?.as_u64(),
    )
}

/// Relies on serde_json::from_str, Value::get, Value::as_array and
/// Value::as_str: the `r_frame_rate` string of the `i`-th stream.
#[verifier::external_body]
fn read_probe_fps_field(stdout: &[u8], i: usize) -> (r: Option<String>)
    ensures
        r is Some <==> probe_fps_field(stdout@, i as int) is Some,
        r matches Some(f) ==> (probe_fps_field(stdout@, i as int) matches Some(s) && f@ == s),
{
    serde_json::from_str::<serde_json::Value>(&String::from_utf8_lossy(stdout)).ok().and_then(
        |v| v.get("streams")?.as_array()?.get(i)?.get("r_frame_rate")?.as_str().map(String::from),
    )
}

/// Relies on serde_json::from_str, Value::get and Value::as_str: the
/// `duration` string of the report's `format` object.
#[verifier::external_body]
fn read_probe_duration_field(stdout: &[u8]) -> (r: Option<String>)
    ensures
        r is Some <==> probe_duration_field(stdout@) is Some,
        r matches Some(d) ==> (probe_duration_field(stdout@) matches Some(s) && d@ == s),
{
    serde_json::from_str::<serde_json::Value>(&String::from_utf8_lossy(stdout)).ok().and_then(
        |v| v.get("format")?.get("duration")?.as_str().map(String::from),
    )
}

/// The index of the first stream at or after `i` whose `codec_type` is
/// `video`, or nothing when no such stream follows.
pub open spec fn first_video_from(b: Seq<u8>, i: int) -> Option<int>
    decreases probe_stream_count(b) - i,
{
    if i < 0 || i >= probe_stream_count(b) {
        None
    } else if probe_codec_type(b, i) == Some("video"@) {
        Some(i)
    } else {
        first_video_from(b, i + 1)
    }
}

/// The index of the report's first video stream, if it has one.
pub open spec fn first_video_stream(b: Seq<u8>) -> Option<int> {
    first_video_from(b, 0)
}

/// The width the report stands for: the first video stream's `width`,
/// truncated as the record's field is, and zero when there is no video
/// stream or no readable width.
pub open spec fn report_width(b: Seq<u8>) -> u32 {
    match first_video_stream(b) {
        Some(i) => match probe_width(b, i) {
            Some(w) => (w % 0x1_0000_0000) as u32,
            None => 0,
        },
        None => 0,
    }
}

/// The height the report stands for, as `report_width` reads widths.
pub open spec fn report_height(b: Seq<u8>) -> u32 {
    match first_video_stream(b) {
        Some(i) => match probe_height(b, i) {
            Some(h) => (h % 0x1_0000_0000) as u32,
            None => 0,
        },
        None => 0,
    }
}

/// The frame rate the report stands for, in thousandths of a frame per
/// second: the first video stream's `r_frame_rate` field as
/// `spec_parse_fps_milli` reads it, and zero when there is no video
/// stream or no such field.
pub open spec fn report_fps_milli(b: Seq<u8>) -> int {
    match first_video_stream(b) {
        Some(i) => match probe_fps_field(b, i) {
            Some(f) => spec_parse_fps_milli(f),
            None => 0,
        },
        None => 0,
    }
}

/// The duration the report stands for, in microseconds: the `format`
/// object's `duration` field as `spec_duration_us` reads it, and zero
/// when there is no such field.
pub open spec fn report_duration_us(b: Seq<u8>) -> int {
    match probe_duration_field(b) {
        Some(d) => spec_duration_us(d),
        None => 0,
    }
}

/// Finds the report's first video stream, as `first_video_stream` names
/// it.
fn find_video_stream(stdout: &[u8]) -> (r: Option<usize>)
    ensures
        r is Some <==> first_video_stream(stdout@) is Some,
        r matches Some(i) ==> first_video_stream(stdout@) == Some(i as int),
{
    let n = read_probe_stream_count(stdout);
    let mut i: usize = 0;
    while i < n
        invariant
            0 <= i <= n,
            n == probe_stream_count(stdout@),
            first_video_from(stdout@, 0) == first_video_from(stdout@, i as int),
        decreases n - i,
    {
        let c = read_probe_codec_type(stdout, i);
        let is_video = match &c {
            Some(s) => str_eq(s.as_str(), "video"),
            None => false,
        };
        if is_video {
            proof {
                assert(probe_codec_type(stdout@, i as int) == Some("video"@));
            }
            return Some(i);
        }
        proof {
            assert(probe_codec_type(stdout@, i as int) != Some("video"@));
        }
        i = i + 1;
    }
    None
}

/// Turns the probe's raw standard output into a metadata record.  When
/// the bytes parse as a JSON document, every numeric field is the one
/// the report stands for — the first video stream's resolution and
/// frame rate and the container's duration — and the record meets the
/// metadata invariant; when they do not, the record is zeroed, invalid,
/// and its error carries the parse failure's detail.  In every case the
/// frame count, the validity flag and the presence of an error follow
/// the record's own fields.
pub fn parse_ffprobe_output(path: &str, filename: &str, stdout: &[u8]) -> (r: VideoInfo)
    ensures
        r.path@ == path@,
        r.filename@ == filename@,
        r.valid <==> (r.width > 0 && r.height > 0 && r.duration_us > 0),
        r.valid <==> r.error is None,
        r.total_frames == spec_total_frames(r.duration_us, r.fps_milli),
        probe_parse_error(stdout@) matches Some(m) ==> (!r.valid && r.width == 0 && r.height == 0
            && r.duration_us == 0 && r.fps_milli == 0 && r.total_frames == 0 && (
        r.error matches Some(e) && e@ == "Failed to parse ffprobe output: "@ + m)),
        probe_parse_error(stdout@) is None ==> (r.width == report_width(stdout@) && r.height
            == report_height(stdout@) && r.fps_milli == report_fps_milli(stdout@) && r.duration_us
            == report_duration_us(stdout@) && video_info_wf(r)),
{
    match read_probe_parse_error(stdout) {
        Some(detail) => {
            let r = probe_unparsed_info(path, filename, detail.as_str());
            proof {
                assert(spec_total_frames(0, 0) == 0);
            }
            r
        },
        None => {
            let mut width: u32 = 0;
            let mut height: u32 = 0;
            let mut fps_milli: u64 = 0;
            match find_video_stream(stdout) {
                Some(i) => {
                    width = match read_probe_width(stdout, i) {
                        Some(w) => (w % 0x1_0000_0000) as u32,
                        None => 0,
                    };
                    height = match read_probe_height(stdout, i) {
                        Some(h) => (h % 0x1_0000_0000) as u32,
                        None => 0,
                    };
                    fps_milli = match read_probe_fps_field(stdout, i) {
                        Some(f) => parse_fps(f.as_str()),
                        None => 0,
                    };
                },
                None => {},
            }
            let duration_us: u64 = match read_probe_duration_field(stdout) {
                Some(d) => parse_duration_us(d.as_str()),
                None => 0,
            };
            assemble_video_info(path, filename, width, height, fps_milli, duration_us)
        },
    }
}

} // verus!
