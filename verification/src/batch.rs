//! The batch orchestrator's decision core: validating the request,
//! building the transcode engine's argument list, classifying per-file
//! outcomes, shaping the lifecycle events, and rolling the outcomes into
//! one batch result.
//!
//! The speed multiplier is validated once for the whole batch, before
//! any file is touched; an out-of-range multiplier rejects the request
//! outright.  Per-file failures never abort the batch — they are
//! recorded and counted — but a batch in which nothing converted fails
//! as a whole.  The caller drives the per-file work (probing, creating
//! the output directory, running the engine) and feeds every result back
//! into these functions.

use vstd::prelude::*;
use crate::formats::{is_supported_format, spec_is_supported};
use crate::metadata::VideoInfo;
use crate::strnum::{dec_str, u64_to_string};

verus! {

/// The inclusive lower bound on the speed multiplier.
pub const MIN_SPEED_MULTIPLIER: u32 = 2;

/// The inclusive upper bound on the speed multiplier.
pub const MAX_SPEED_MULTIPLIER: u32 = 1000;

/// What the caller's file picker returned: the chosen supported files
/// and how many there are.
#[derive(Debug, Clone)]
pub struct SelectionResult {
    pub files: Vec<String>,
    pub count: usize,
}

/// One batch conversion request: the input files, in order, and the
/// speed multiplier applied to every one of them.
#[derive(Debug, Clone)]
pub struct ConversionRequest {
    pub files: Vec<String>,
    pub speed_multiplier: u32,
}

/// The rolled-up result of one batch.
#[derive(Debug, Clone)]
pub struct ConversionResult {
    pub success: bool,
    pub message: String,
    pub converted_count: usize,
    pub failed_count: usize,
    pub output_files: Vec<String>,
}

/// One lifecycle notification pushed to the caller's event sink.
#[derive(Debug, Clone)]
pub struct ProgressEvent {
    pub current_file: usize,
    pub total_files: usize,
    pub filename: String,
    pub status: String,
    pub output_path: Option<String>,
}

/// How one file's conversion ended.
#[derive(Debug, Clone)]
pub enum ConversionOutcome {
    Converted { output_path: String },
    Failed { reason: String },
}

/// Keeps, in order, the picked paths whose format is supported, and
/// counts them: the logic behind the file-selection step.
pub fn select_supported(paths: &Vec<String>) -> (r: SelectionResult)
    ensures
        r.files@ == paths@.filter(|p: String| spec_is_supported(p@)),
        r.count == r.files@.len(),
{
    let ghost pred = |p: String| spec_is_supported(p@);
    let mut files: Vec<String> = Vec::new();
    let n = paths.len();
    let mut i: usize = 0;
    proof {
        reveal(Seq::filter);
        assert(paths@.subrange(0, 0).filter(pred) =~= Seq::<String>::empty());
    }
    while i < n
        invariant
            0 <= i <= n == paths@.len(),
            pred == (|p: String| spec_is_supported(p@)),
            files@ == paths@.subrange(0, i as int).filter(pred),
        decreases n - i,
    {
        let ghost prefix = paths@.subrange(0, i as int);
        let p = &paths[i];
        let supported = is_supported_format(p.as_str());
        if supported {
            files.push(p.clone());
        }
        proof {
            reveal(Seq::filter);
            let full = paths@.subrange(0, i + 1);
            assert(full.drop_last() =~= prefix);
            assert(full.last() == paths@[i as int]);
            if supported {
                assert(files@ =~= prefix.filter(pred).push(paths@[i as int]));
            }
        }
        i = i + 1;
    }
    proof {
        assert(paths@.subrange(0, n as int) =~= paths@);
    }
    let count = files.len();
    SelectionResult { files, count }
}

/// Checks the speed multiplier once for the whole batch: it must lie in
/// `[2, 1000]`, and each bound's violation carries its own message.
pub fn validate_speed_multiplier(speed_multiplier: u32) -> (r: Result<(), String>)
    ensures
        r is Ok <==> (MIN_SPEED_MULTIPLIER <= speed_multiplier <= MAX_SPEED_MULTIPLIER),
        speed_multiplier < MIN_SPEED_MULTIPLIER ==> (r matches Err(e) && e@
            == "Speed multiplier must be at least 2"@),
        speed_multiplier > MAX_SPEED_MULTIPLIER ==> (r matches Err(e) && e@
            == "Speed multiplier cannot exceed 1000"@),
{
    if speed_multiplier < MIN_SPEED_MULTIPLIER {
        Err(String::from_str("Speed multiplier must be at least 2"))
    } else if speed_multiplier > MAX_SPEED_MULTIPLIER {
        Err(String::from_str("Speed multiplier cannot exceed 1000"))
    } else {
        Ok(())
    }
}

/// The engine's speed filter: presentation timestamps divided by the
/// multiplier, written with the two zero decimal places the engine is
/// given (`[0:v]setpts=PTS/10.00[v]`).
pub open spec fn spec_filter_arg(speed_multiplier: u32) -> Seq<char> {
    "[0:v]setpts=PTS/"@ + dec_str(speed_multiplier as nat) + ".00[v]"@
}

/// The transcode engine's full argument list for one file: overwrite the
/// output, keep the log quiet, stream `key=value` progress lines on
/// standard output, compress the video timestamps by the multiplier,
/// drop the audio, and encode with the fixed codec, preset and quality
/// factor.
pub open spec fn spec_ffmpeg_args(
    input_path: Seq<char>,
    output_path: Seq<char>,
    speed_multiplier: u32,
) -> Seq<Seq<char>> {
    seq![
        "-y"@,
        "-loglevel"@,
        "error"@,
        "-progress"@,
        "pipe:1"@,
        "-i"@,
        input_path,
        "-filter_complex"@,
        spec_filter_arg(speed_multiplier),
        "-map"@,
        "[v]"@,
        "-an"@,
        "-c:v"@,
        "libx264"@,
        "-preset"@,
        "fast"@,
        "-crf"@,
        "23"@,
        output_path,
    ]
}

/// Builds the engine's argument list for one file.
pub fn build_ffmpeg_args(input_path: &str, output_path: &str, speed_multiplier: u32) -> (r: Vec<
    String,
>)
    requires
        MIN_SPEED_MULTIPLIER <= speed_multiplier <= MAX_SPEED_MULTIPLIER,
    ensures
        r@.map_values(|s: String| s@) == spec_ffmpeg_args(input_path@, output_path@, speed_multiplier),
{
    let mut filter = String::from_str("[0:v]setpts=PTS/");
    let mult = u64_to_string(speed_multiplier as u64);
    filter.append(mult.as_str());
    filter.append(".00[v]");
    proof {
        assert(filter@ =~= spec_filter_arg(speed_multiplier));
    }
    let mut r: Vec<String> = Vec::new();
    r.push(String::from_str("-y"));
    r.push(String::from_str("-loglevel"));
    r.push(String::from_str("error"));
    r.push(String::from_str("-progress"));
    r.push(String::from_str("pipe:1"));
    r.push(String::from_str("-i"));
    r.push(String::from_str(input_path));
    r.push(String::from_str("-filter_complex"));
    r.push(filter);
    r.push(String::from_str("-map"));
    r.push(String::from_str("[v]"));
    r.push(String::from_str("-an"));
    r.push(String::from_str("-c:v"));
    r.push(String::from_str("libx264"));
    r.push(String::from_str("-preset"));
    r.push(String::from_str("fast"));
    r.push(String::from_str("-crf"));
    r.push(String::from_str("23"));
    r.push(String::from_str(output_path));
    proof {
        assert(r@.map_values(|s: String| s@) =~= spec_ffmpeg_args(
            input_path@,
            output_path@,
            speed_multiplier,
        ));
    }
    r
}

/// Decides whether a probed file may be converted: an invalid record
/// fails with the probe's own error, or a generic message when the
/// record carries none.
pub fn classify_probe(info: &VideoInfo) -> (r: Result<(), String>)
    ensures
        r is Ok <==> info.valid,
        !info.valid ==> (r matches Err(e) && e@ == (match info.error {
            Some(m) => m@,
            None => "Invalid video"@,
        })),
{
    if info.valid {
        Ok(())
    } else {
        match &info.error {
            Some(m) => Err(m.clone()),
            None => Err(String::from_str("Invalid video")),
        }
    }
}

/// The reason recorded when the engine itself cannot be started; `err`
/// is the launcher's error text.
pub fn spawn_failure_reason(err: &str) -> (r: String)
    ensures
        r@ == "Failed to start FFmpeg: "@ + err@ + ". Please ensure FFmpeg is installed."@,
{
    let mut r = String::from_str("Failed to start FFmpeg: ");
    r.append(err);
    r.append(". Please ensure FFmpeg is installed.");
    proof {
        assert(r@ =~= "Failed to start FFmpeg: "@ + err@
            + ". Please ensure FFmpeg is installed."@);
    }
    r
}

/// Classifies a finished engine run: a successful exit converts the
/// file, any other exit fails it with the generic transcode message.
pub fn classify_exit(exit_success: bool, output_path: &str) -> (r: ConversionOutcome)
    ensures
        exit_success ==> (r matches ConversionOutcome::Converted { output_path: p } && p@
            == output_path@),
        !exit_success ==> (r matches ConversionOutcome::Failed { reason } && reason@
            == "FFmpeg conversion failed"@),
{
    if exit_success {
        ConversionOutcome::Converted { output_path: String::from_str(output_path) }
    } else {
        ConversionOutcome::Failed { reason: String::from_str("FFmpeg conversion failed") }
    }
}

/// The event announcing that a file's conversion begins.
pub fn starting_event(current_file: usize, total_files: usize, filename: &str) -> (r: ProgressEvent)
    ensures
        r.current_file == current_file,
        r.total_files == total_files,
        r.filename@ == filename@,
        r.status@ == "Starting..."@,
        r.output_path is None,
{
    ProgressEvent {
        current_file,
        total_files,
        filename: String::from_str(filename),
        status: String::from_str("Starting..."),
        output_path: None,
    }
}

/// The event announcing that a file's conversion is under way.
pub fn converting_event(current_file: usize, total_files: usize, filename: &str) -> (r:
    ProgressEvent)
    ensures
        r.current_file == current_file,
        r.total_files == total_files,
        r.filename@ == filename@,
        r.status@ == "Converting..."@,
        r.output_path is None,
{
    ProgressEvent {
        current_file,
        total_files,
        filename: String::from_str(filename),
        status: String::from_str("Converting..."),
        output_path: None,
    }
}

/// The event announcing that a file converted, carrying where the output
/// was written.
pub fn completed_event(current_file: usize, total_files: usize, filename: &str, output_path: &str) -> (r:
    ProgressEvent)
    ensures
        r.current_file == current_file,
        r.total_files == total_files,
        r.filename@ == filename@,
        r.status@ == "Completed"@,
        r.output_path matches Some(p) && p@ == output_path@,
{
    ProgressEvent {
        current_file,
        total_files,
        filename: String::from_str(filename),
        status: String::from_str("Completed"),
        output_path: Some(String::from_str(output_path)),
    }
}

/// The event announcing that a file failed, carrying the reason.
pub fn failed_event(current_file: usize, total_files: usize, filename: &str, reason: &str) -> (r:
    ProgressEvent)
    ensures
        r.current_file == current_file,
        r.total_files == total_files,
        r.filename@ == filename@,
        r.status@ == "Failed: "@ + reason@,
        r.output_path is None,
{
    let mut status = String::from_str("Failed: ");
    status.append(reason);
    proof {
        assert(status@ =~= "Failed: "@ + reason@);
    }
    ProgressEvent {
        current_file,
        total_files,
        filename: String::from_str(filename),
        status,
        output_path: None,
    }
}

/// The running tallies of one batch: how many files are expected, how
/// many converted or failed so far, and the outputs written, in order.
#[derive(Debug, Clone)]
pub struct BatchState {
    pub total_files: usize,
    pub converted_count: usize,
    pub failed_count: usize,
    pub output_files: Vec<String>,
}

/// The tallies' invariant: one output per converted file, and no more
/// outcomes than files.
pub open spec fn batch_wf(b: BatchState) -> bool {
    &&& b.converted_count == b.output_files@.len()
    &&& b.converted_count + b.failed_count <= b.total_files
}

/// Opens the tallies for a batch of `total_files` files.
pub fn new_batch(total_files: usize) -> (r: BatchState)
    ensures
        batch_wf(r),
        r.total_files == total_files,
        r.converted_count == 0,
        r.failed_count == 0,
        r.output_files@.len() == 0,
{
    BatchState { total_files, converted_count: 0, failed_count: 0, output_files: Vec::new() }
}

/// Opens a batch for a whole request: the speed multiplier is checked
/// once, before any file is touched, and an out-of-range one rejects
/// the request outright with the bound's own message.
pub fn start_batch(request: &ConversionRequest) -> (r: Result<BatchState, String>)
    ensures
        r is Ok <==> (MIN_SPEED_MULTIPLIER <= request.speed_multiplier <= MAX_SPEED_MULTIPLIER),
        r matches Ok(b) ==> (batch_wf(b) && b.total_files == request.files@.len()
            && b.converted_count == 0 && b.failed_count == 0 && b.output_files@.len() == 0),
        request.speed_multiplier < MIN_SPEED_MULTIPLIER ==> (r matches Err(e) && e@
            == "Speed multiplier must be at least 2"@),
        request.speed_multiplier > MAX_SPEED_MULTIPLIER ==> (r matches Err(e) && e@
            == "Speed multiplier cannot exceed 1000"@),
{
    match validate_speed_multiplier(request.speed_multiplier) {
        Ok(()) => Ok(new_batch(request.files.len())),
        Err(e) => Err(e),
    }
}

/// Records one file's outcome: a conversion appends its output path and
/// steps the converted tally, a failure steps the failed tally; nothing
/// else changes, and the invariant is kept.
pub fn record_outcome(b: &mut BatchState, outcome: ConversionOutcome)
    requires
        batch_wf(*old(b)),
        old(b).converted_count + old(b).failed_count < old(b).total_files,
    ensures
        batch_wf(*final(b)),
        final(b).total_files == old(b).total_files,
        final(b).converted_count + final(b).failed_count == old(b).converted_count + old(b).failed_count + 1,
        outcome matches ConversionOutcome::Converted { output_path } ==> (final(b).converted_count
            == old(b).converted_count + 1 && final(b).failed_count == old(b).failed_count
            && final(b).output_files@ == old(b).output_files@.push(output_path)),
        (outcome matches ConversionOutcome::Failed { .. }) ==> (final(b).failed_count
            == old(b).failed_count + 1 && final(b).converted_count == old(b).converted_count
            && final(b).output_files@ == old(b).output_files@),
{
    match outcome {
        ConversionOutcome::Converted { output_path } => {
            b.converted_count = b.converted_count + 1;
            b.output_files.push(output_path);
        },
        ConversionOutcome::Failed { .. } => {
            b.failed_count = b.failed_count + 1;
        },
    }
}

/// The output paths of the converted entries in a run of outcomes, in
/// their order.
pub open spec fn converted_outputs(s: Seq<ConversionOutcome>) -> Seq<String>
    decreases s.len(),
{
    if s.len() == 0 {
        Seq::empty()
    } else {
        match s.last() {
            ConversionOutcome::Converted { output_path } => converted_outputs(
                s.drop_last(),
            ).push(output_path),
            ConversionOutcome::Failed { .. } => converted_outputs(s.drop_last()),
        }
    }
}

/// Rolls a whole run of per-file outcomes into one batch result: the
/// result counts exactly the converted and failed entries and carries
/// the converted entries' output paths in order, and a run in which
/// nothing converted fails as a whole.
pub fn run_batch_outcomes(outcomes: Vec<ConversionOutcome>) -> (r: Result<
    ConversionResult,
    String,
>)
    ensures
        r is Ok <==> (converted_outputs(outcomes@).len() > 0 || converted_outputs(outcomes@).len()
            == outcomes@.len()),
        r matches Ok(c) ==> (c.success && c.converted_count == converted_outputs(outcomes@).len()
            && c.converted_count + c.failed_count == outcomes@.len() && c.output_files@
            == converted_outputs(outcomes@)),
        (converted_outputs(outcomes@).len() == 0 && outcomes@.len() > 0) ==> (r matches Err(e)
            && e@ == "All conversions failed"@),
{
    let ghost all = outcomes@;
    let mut rest = outcomes;
    let total = rest.len();
    let mut batch = new_batch(total);
    proof {
        assert(all.subrange(0, 0) =~= Seq::<ConversionOutcome>::empty());
        assert(rest@ =~= all.subrange(0, total as int));
    }
    while rest.len() > 0
        invariant
            batch_wf(batch),
            batch.total_files == total == all.len(),
            rest@ == all.subrange(total - rest@.len(), total as int),
            batch.converted_count + batch.failed_count == total - rest@.len(),
            batch.output_files@ == converted_outputs(
                all.subrange(0, total - rest@.len()),
            ),
            batch.converted_count == converted_outputs(
                all.subrange(0, total - rest@.len()),
            ).len(),
        decreases rest@.len(),
    {
        let ghost done = total - rest@.len();
        let ghost prefix = all.subrange(0, done);
        let outcome = rest.remove(0);
        proof {
            assert(outcome == all[done]);
            assert(rest@ =~= all.subrange(done + 1, total as int));
            assert(all.subrange(0, done + 1).drop_last() =~= prefix);
            assert(all.subrange(0, done + 1).last() == all[done]);
        }
        record_outcome(&mut batch, outcome);
    }
    proof {
        assert(all.subrange(0, total as int) =~= all);
    }
    finish_batch(batch)
}

/// The message reported when every file converted.
pub open spec fn spec_success_message(converted: nat) -> Seq<char> {
    "Successfully converted "@ + dec_str(converted) + (if converted == 1 {
        " video!"@
    } else {
        " videos!"@
    })
}

/// The message reported when some files converted and some failed.
pub open spec fn spec_partial_message(converted: nat, failed: nat) -> Seq<char> {
    "Converted "@ + dec_str(converted) + (if converted == 1 {
        " video, "@
    } else {
        " videos, "@
    }) + dec_str(failed) + " failed"@
}

/// Closes the tallies once every file has an outcome.  A batch with no
/// failures reports full success; one with failures but at least one
/// conversion reports partial success; one in which nothing converted
/// fails as a whole.
pub fn finish_batch(b: BatchState) -> (r: Result<ConversionResult, String>)
    requires
        batch_wf(b),
        b.converted_count + b.failed_count == b.total_files,
    ensures
        r is Ok <==> (b.failed_count == 0 || b.converted_count > 0),
        (b.converted_count == 0 && b.failed_count > 0) ==> (r matches Err(e) && e@
            == "All conversions failed"@),
        r matches Ok(c) ==> (c.success && c.converted_count == b.converted_count
            && c.failed_count == b.failed_count && c.converted_count + c.failed_count
            == b.total_files && c.output_files@ == b.output_files@),
        b.failed_count == 0 ==> (r matches Ok(c) ==> c.message@ == spec_success_message(
            b.converted_count as nat,
        )),
        b.failed_count > 0 ==> (r matches Ok(c) ==> c.message@ == spec_partial_message(
            b.converted_count as nat,
            b.failed_count as nat,
        )),
{
    if b.failed_count == 0 {
        let mut message = String::from_str("Successfully converted ");
        let count_str = u64_to_string(b.converted_count as u64);
        message.append(count_str.as_str());
        if b.converted_count == 1 {
            message.append(" video!");
        } else {
            message.append(" videos!");
        }
        proof {
            assert(message@ =~= spec_success_message(b.converted_count as nat));
        }
        Ok(
            ConversionResult {
                success: true,
                message,
                converted_count: b.converted_count,
                failed_count: b.failed_count,
                output_files: b.output_files,
            },
        )
    } else if b.converted_count > 0 {
        let mut message = String::from_str("Converted ");
        let count_str = u64_to_string(b.converted_count as u64);
        message.append(count_str.as_str());
        if b.converted_count == 1 {
            message.append(" video, ");
        } else {
            message.append(" videos, ");
        }
        let failed_str = u64_to_string(b.failed_count as u64);
        message.append(failed_str.as_str());
        message.append(" failed");
        proof {
            assert(message@ =~= spec_partial_message(
                b.converted_count as nat,
                b.failed_count as nat,
            ));
        }
        Ok(
            ConversionResult {
                success: true,
                message,
                converted_count: b.converted_count,
                failed_count: b.failed_count,
                output_files: b.output_files,
            },
        )
    } else {
        Err(String::from_str("All conversions failed"))
    }
}

} // verus!
