use timelapse_core::batch::{
    build_ffmpeg_args, classify_exit, classify_probe, completed_event, converting_event,
    failed_event, finish_batch, new_batch, record_outcome, run_batch_outcomes,
    spawn_failure_reason, start_batch, starting_event, validate_speed_multiplier,
    ConversionOutcome, ConversionRequest, ConversionResult, ProgressEvent, SelectionResult,
};
use timelapse_core::metadata::VideoInfo;

#[test]
fn test_selection_result_empty() {
    let result = SelectionResult {
        files: vec![],
        count: 0,
    };
    assert_eq!(result.count, 0);
    assert!(result.files.is_empty());
}

#[test]
fn test_selection_result_with_files() {
    let result = SelectionResult {
        files: vec![
            "/path/to/video1.mp4".to_string(),
            "/path/to/video2.avi".to_string(),
        ],
        count: 2,
    };
    assert_eq!(result.count, 2);
    assert_eq!(result.files.len(), 2);
}

#[test]
fn test_conversion_request_structure() {
    let request = ConversionRequest {
        files: vec!["/test/video.mp4".to_string()],
        speed_multiplier: 10,
    };
    assert_eq!(request.files.len(), 1);
    assert_eq!(request.speed_multiplier, 10);
}

#[test]
fn test_conversion_request_various_speeds() {
    for speed in [2, 5, 10, 20, 30, 50, 100, 200, 300, 500, 1000] {
        let request = ConversionRequest {
            files: vec![],
            speed_multiplier: speed,
        };
        assert_eq!(request.speed_multiplier, speed);
    }
}

#[test]
fn test_conversion_result_success() {
    let result = ConversionResult {
        success: true,
        message: "Successfully converted 2 videos!".to_string(),
        converted_count: 2,
        failed_count: 0,
        output_files: vec![
            "/output/video1_timelapse.mp4".to_string(),
            "/output/video2_timelapse.mp4".to_string(),
        ],
    };
    assert!(result.success);
    assert_eq!(result.converted_count, 2);
    assert_eq!(result.failed_count, 0);
    assert_eq!(result.output_files.len(), 2);
}

#[test]
fn test_conversion_result_partial_failure() {
    let result = ConversionResult {
        success: true,
        message: "Converted 1 video, 1 failed".to_string(),
        converted_count: 1,
        failed_count: 1,
        output_files: vec!["/output/video1_timelapse.mp4".to_string()],
    };
    assert!(result.success);
    assert_eq!(result.converted_count, 1);
    assert_eq!(result.failed_count, 1);
}

#[test]
fn test_progress_event_structure() {
    let event = ProgressEvent {
        current_file: 1,
        total_files: 3,
        filename: "video.mp4".to_string(),
        status: "Converting...".to_string(),
        output_path: None,
    };
    assert_eq!(event.current_file, 1);
    assert_eq!(event.total_files, 3);
    assert!(event.output_path.is_none());
}

#[test]
fn test_progress_event_completed() {
    let event = ProgressEvent {
        current_file: 1,
        total_files: 1,
        filename: "video.mp4".to_string(),
        status: "Completed".to_string(),
        output_path: Some("/output/video_timelapse.mp4".to_string()),
    };
    assert!(event.output_path.is_some());
}

#[test]
fn test_validate_speed_multiplier_bounds() {
    assert!(validate_speed_multiplier(2).is_ok());
    assert!(validate_speed_multiplier(1000).is_ok());
    assert_eq!(
        validate_speed_multiplier(1).unwrap_err(),
        "Speed multiplier must be at least 2"
    );
    assert_eq!(
        validate_speed_multiplier(1001).unwrap_err(),
        "Speed multiplier cannot exceed 1000"
    );
}

#[test]
fn test_build_ffmpeg_args_exact() {
    let args = build_ffmpeg_args("/in/a.mp4", "/in/outputs/a_timelapse.mp4", 10);
    let expected = vec![
        "-y",
        "-loglevel",
        "error",
        "-progress",
        "pipe:1",
        "-i",
        "/in/a.mp4",
        "-filter_complex",
        "[0:v]setpts=PTS/10.00[v]",
        "-map",
        "[v]",
        "-an",
        "-c:v",
        "libx264",
        "-preset",
        "fast",
        "-crf",
        "23",
        "/in/outputs/a_timelapse.mp4",
    ];
    assert_eq!(args, expected);
}

#[test]
fn test_build_ffmpeg_args_speed_formatting() {
    let args = build_ffmpeg_args("a.mp4", "b.mp4", 1000);
    assert_eq!(args[8], "[0:v]setpts=PTS/1000.00[v]");
}

#[test]
fn test_classify_probe_outcomes() {
    let valid = VideoInfo {
        path: "/a.mp4".to_string(),
        filename: "a.mp4".to_string(),
        duration_us: 100_000_000,
        width: 1920,
        height: 1080,
        fps_milli: 30000,
        total_frames: 3000,
        valid: true,
        error: None,
    };
    assert!(classify_probe(&valid).is_ok());

    let invalid = VideoInfo {
        valid: false,
        error: Some("probe says no".to_string()),
        ..valid.clone()
    };
    assert_eq!(classify_probe(&invalid).unwrap_err(), "probe says no");

    let invalid_bare = VideoInfo {
        valid: false,
        error: None,
        ..valid
    };
    assert_eq!(classify_probe(&invalid_bare).unwrap_err(), "Invalid video");
}

#[test]
fn test_classify_exit_outcomes() {
    match classify_exit(true, "/out/a_timelapse.mp4") {
        ConversionOutcome::Converted { output_path } => {
            assert_eq!(output_path, "/out/a_timelapse.mp4");
        }
        ConversionOutcome::Failed { .. } => panic!("a successful exit must convert"),
    }
    match classify_exit(false, "/out/a_timelapse.mp4") {
        ConversionOutcome::Failed { reason } => {
            assert_eq!(reason, "FFmpeg conversion failed");
        }
        ConversionOutcome::Converted { .. } => panic!("a failed exit must not convert"),
    }
}

#[test]
fn test_spawn_failure_reason_exact() {
    assert_eq!(
        spawn_failure_reason("No such file or directory (os error 2)"),
        "Failed to start FFmpeg: No such file or directory (os error 2). \
         Please ensure FFmpeg is installed."
    );
}

#[test]
fn test_event_builders() {
    let start = starting_event(1, 3, "a.mp4");
    assert_eq!(start.current_file, 1);
    assert_eq!(start.total_files, 3);
    assert_eq!(start.filename, "a.mp4");
    assert_eq!(start.status, "Starting...");
    assert!(start.output_path.is_none());

    let converting = converting_event(1, 3, "a.mp4");
    assert_eq!(converting.status, "Converting...");

    let completed = completed_event(1, 3, "a.mp4", "/out/a_timelapse.mp4");
    assert_eq!(completed.status, "Completed");
    assert_eq!(completed.output_path.unwrap(), "/out/a_timelapse.mp4");

    let failed = failed_event(2, 3, "b.mp4", "probe says no");
    assert_eq!(failed.status, "Failed: probe says no");
    assert!(failed.output_path.is_none());
}

#[test]
fn test_start_batch_validates_request_once() {
    let bad = ConversionRequest {
        files: vec!["/a.mp4".to_string()],
        speed_multiplier: 1,
    };
    assert_eq!(start_batch(&bad).unwrap_err(), "Speed multiplier must be at least 2");

    let too_fast = ConversionRequest {
        files: vec!["/a.mp4".to_string()],
        speed_multiplier: 1001,
    };
    assert_eq!(start_batch(&too_fast).unwrap_err(), "Speed multiplier cannot exceed 1000");

    let good = ConversionRequest {
        files: vec!["/a.mp4".to_string(), "/b.mp4".to_string()],
        speed_multiplier: 10,
    };
    let batch = start_batch(&good).unwrap();
    assert_eq!(batch.total_files, 2);
    assert_eq!(batch.converted_count, 0);
    assert_eq!(batch.failed_count, 0);
    assert!(batch.output_files.is_empty());
}

#[test]
fn test_batch_partial_failure_scenario() {
    // Three files; the second one's probe fails before any engine run
    let mut batch = new_batch(3);
    record_outcome(
        &mut batch,
        ConversionOutcome::Converted {
            output_path: "/v/outputs/one_timelapse.mp4".to_string(),
        },
    );
    record_outcome(
        &mut batch,
        ConversionOutcome::Failed {
            reason: "FFprobe failed to analyze video".to_string(),
        },
    );
    record_outcome(
        &mut batch,
        ConversionOutcome::Converted {
            output_path: "/v/outputs/three_timelapse.mp4".to_string(),
        },
    );
    let result = finish_batch(batch).expect("a partly converted batch succeeds");
    assert!(result.success);
    assert_eq!(result.converted_count, 2);
    assert_eq!(result.failed_count, 1);
    assert_eq!(result.output_files.len(), 2);
    assert_eq!(result.message, "Converted 2 videos, 1 failed");
}

#[test]
fn test_batch_all_failed_fails_outright() {
    let mut batch = new_batch(2);
    record_outcome(
        &mut batch,
        ConversionOutcome::Failed {
            reason: "FFprobe failed to analyze video".to_string(),
        },
    );
    record_outcome(
        &mut batch,
        ConversionOutcome::Failed {
            reason: "FFmpeg conversion failed".to_string(),
        },
    );
    let result = finish_batch(batch);
    assert_eq!(result.unwrap_err(), "All conversions failed");
}

#[test]
fn test_batch_full_success_messages() {
    let mut batch = new_batch(1);
    record_outcome(
        &mut batch,
        ConversionOutcome::Converted {
            output_path: "/v/outputs/a_timelapse.mp4".to_string(),
        },
    );
    let result = finish_batch(batch).unwrap();
    assert!(result.success);
    assert_eq!(result.message, "Successfully converted 1 video!");

    let mut batch2 = new_batch(2);
    record_outcome(
        &mut batch2,
        ConversionOutcome::Converted {
            output_path: "/v/outputs/a_timelapse.mp4".to_string(),
        },
    );
    record_outcome(
        &mut batch2,
        ConversionOutcome::Converted {
            output_path: "/v/outputs/b_timelapse.mp4".to_string(),
        },
    );
    let result2 = finish_batch(batch2).unwrap();
    assert_eq!(result2.message, "Successfully converted 2 videos!");
}

#[test]
fn test_run_batch_outcomes_mixed() {
    let outcomes = vec![
        ConversionOutcome::Converted {
            output_path: "/v/outputs/one_timelapse.mp4".to_string(),
        },
        ConversionOutcome::Failed {
            reason: "FFprobe failed to analyze video".to_string(),
        },
        ConversionOutcome::Converted {
            output_path: "/v/outputs/three_timelapse.mp4".to_string(),
        },
    ];
    let result = run_batch_outcomes(outcomes).unwrap();
    assert!(result.success);
    assert_eq!(result.converted_count, 2);
    assert_eq!(result.failed_count, 1);
    assert_eq!(
        result.output_files,
        vec![
            "/v/outputs/one_timelapse.mp4".to_string(),
            "/v/outputs/three_timelapse.mp4".to_string(),
        ]
    );
    assert_eq!(result.message, "Converted 2 videos, 1 failed");
}

#[test]
fn test_run_batch_outcomes_all_failed() {
    let outcomes = vec![
        ConversionOutcome::Failed {
            reason: "FFmpeg conversion failed".to_string(),
        },
        ConversionOutcome::Failed {
            reason: "FFmpeg conversion failed".to_string(),
        },
    ];
    assert_eq!(run_batch_outcomes(outcomes).unwrap_err(), "All conversions failed");
}

#[test]
fn test_batch_single_partial_message() {
    let mut batch = new_batch(2);
    record_outcome(
        &mut batch,
        ConversionOutcome::Converted {
            output_path: "/v/outputs/a_timelapse.mp4".to_string(),
        },
    );
    record_outcome(
        &mut batch,
        ConversionOutcome::Failed {
            reason: "FFmpeg conversion failed".to_string(),
        },
    );
    let result = finish_batch(batch).unwrap();
    assert_eq!(result.message, "Converted 1 video, 1 failed");
}
