use timelapse_core::metadata::{assemble_video_info, parse_duration_us, parse_fps, VideoInfo};
use timelapse_core::probe::{build_ffprobe_args, parse_ffprobe_output};

#[test]
fn test_parse_fps_fraction() {
    assert_eq!(parse_fps("30/1"), 30000);
    assert_eq!(parse_fps("60/1"), 60000);
    // 30000/1001 is approximately 29.97
    let fps = parse_fps("30000/1001");
    assert!((fps as i64 - 29970).abs() < 10);
}

#[test]
fn test_parse_fps_decimal() {
    assert_eq!(parse_fps("30.0"), 30000);
    assert_eq!(parse_fps("29.97"), 29970);
    assert_eq!(parse_fps("60"), 60000);
}

#[test]
fn test_parse_fps_invalid() {
    // Invalid input should return the default of 30 frames per second
    assert_eq!(parse_fps("invalid"), 30000);
    assert_eq!(parse_fps(""), 30000);
}

#[test]
fn test_parse_fps_zero_denominator() {
    // Zero denominator should be handled gracefully
    let fps = parse_fps("30/0");
    assert_eq!(fps, 30000); // Falls back to default
}

#[test]
fn test_parse_fps_multiple_slashes() {
    // Should fall back to the default for a malformed fraction
    assert_eq!(parse_fps("30/1/2"), 30000);
}

#[test]
fn test_parse_fps_unreadable_numerator() {
    // An unreadable numerator counts as zero
    assert_eq!(parse_fps("x/30"), 0);
    // An unreadable denominator counts as one
    assert_eq!(parse_fps("30/x"), 30000);
}

#[test]
fn test_parse_duration_us_values() {
    assert_eq!(parse_duration_us("100.0"), 100_000_000);
    assert_eq!(parse_duration_us("120.5"), 120_500_000);
    assert_eq!(parse_duration_us("0.000001"), 1);
    assert_eq!(parse_duration_us("invalid"), 0);
    assert_eq!(parse_duration_us(""), 0);
}

#[test]
fn test_video_info_structure() {
    let info = VideoInfo {
        path: "/test/video.mp4".to_string(),
        filename: "video.mp4".to_string(),
        duration_us: 120_500_000,
        width: 1920,
        height: 1080,
        fps_milli: 30000,
        total_frames: 3615,
        valid: true,
        error: None,
    };

    assert_eq!(info.path, "/test/video.mp4");
    assert_eq!(info.filename, "video.mp4");
    assert_eq!(info.duration_us, 120_500_000);
    assert_eq!(info.width, 1920);
    assert_eq!(info.height, 1080);
    assert_eq!(info.fps_milli, 30000);
    assert!(info.valid);
    assert!(info.error.is_none());
}

#[test]
fn test_video_info_invalid() {
    let info = VideoInfo {
        path: "/test/invalid.mp4".to_string(),
        filename: "invalid.mp4".to_string(),
        duration_us: 0,
        width: 0,
        height: 0,
        fps_milli: 0,
        total_frames: 0,
        valid: false,
        error: Some("Test error".to_string()),
    };

    assert!(!info.valid);
    assert!(info.error.is_some());
    assert_eq!(info.error.unwrap(), "Test error");
}

#[test]
fn test_assemble_total_frames_exact() {
    // 100 seconds at 30 fps gives exactly 3000 frames
    let info = assemble_video_info("/a.mp4", "a.mp4", 1920, 1080, 30000, 100_000_000);
    assert_eq!(info.total_frames, 3000);
    assert!(info.valid);
    assert!(info.error.is_none());
}

#[test]
fn test_assemble_missing_resolution_priority() {
    // Resolution missing takes priority over duration missing
    let info = assemble_video_info("/a.mp4", "a.mp4", 0, 0, 30000, 0);
    assert!(!info.valid);
    assert_eq!(info.error.unwrap(), "Invalid video metadata: missing resolution");

    let info2 = assemble_video_info("/a.mp4", "a.mp4", 1920, 0, 30000, 100_000_000);
    assert!(!info2.valid);
    assert_eq!(info2.error.unwrap(), "Invalid video metadata: missing resolution");
}

#[test]
fn test_assemble_missing_duration() {
    let info = assemble_video_info("/a.mp4", "a.mp4", 1920, 1080, 30000, 0);
    assert!(!info.valid);
    assert_eq!(info.error.unwrap(), "Invalid video metadata: missing duration");
}

#[test]
fn test_build_ffprobe_args_exact() {
    let args = build_ffprobe_args("/videos/a.mp4");
    let expected = vec![
        "-v",
        "quiet",
        "-print_format",
        "json",
        "-show_format",
        "-show_streams",
        "/videos/a.mp4",
    ];
    assert_eq!(args, expected);
}

#[test]
fn test_parse_ffprobe_output_valid() {
    let json_str = r#"{
        "streams": [
            {
                "codec_type": "video",
                "width": 1920,
                "height": 1080,
                "r_frame_rate": "30/1"
            }
        ],
        "format": {
            "duration": "100.0"
        }
    }"#;
    let info = parse_ffprobe_output("/path/test.mp4", "test.mp4", json_str.as_bytes());
    assert!(info.valid);
    assert_eq!(info.width, 1920);
    assert_eq!(info.height, 1080);
    assert_eq!(info.fps_milli, 30000);
    assert_eq!(info.duration_us, 100_000_000);
    assert_eq!(info.total_frames, 3000);
    assert!(info.error.is_none());
}

#[test]
fn test_parse_ffprobe_output_first_video_stream() {
    // The audio stream comes first; its fields must not be used
    let json_str = r#"{
        "streams": [
            {
                "codec_type": "audio",
                "r_frame_rate": "0/0"
            },
            {
                "codec_type": "video",
                "width": 1280,
                "height": 720,
                "r_frame_rate": "25/1"
            }
        ],
        "format": {
            "duration": "10.0"
        }
    }"#;
    let info = parse_ffprobe_output("/path/test.mp4", "test.mp4", json_str.as_bytes());
    assert!(info.valid);
    assert_eq!(info.width, 1280);
    assert_eq!(info.height, 720);
    assert_eq!(info.fps_milli, 25000);
    assert_eq!(info.duration_us, 10_000_000);
    assert_eq!(info.total_frames, 250);
}

#[test]
fn test_parse_ffprobe_output_invalid_json() {
    let json_str = "{ invalid json }";
    let info = parse_ffprobe_output("/path/test.mp4", "test.mp4", json_str.as_bytes());
    assert!(!info.valid);
    assert!(info.error.is_some());
    assert!(info.error.unwrap().contains("Failed to parse ffprobe output"));
}

#[test]
fn test_parse_ffprobe_output_missing_video_stream() {
    let json_str = r#"{
        "streams": [
            {
                "codec_type": "audio",
                "r_frame_rate": "0/0"
            }
        ],
        "format": {
            "duration": "100.0"
        }
    }"#;
    let info = parse_ffprobe_output("/path/test.mp4", "test.mp4", json_str.as_bytes());
    assert!(!info.valid);
    assert!(info.error.is_some());
    assert!(info.error.unwrap().contains("missing resolution"));
}

#[test]
fn test_parse_ffprobe_output_missing_duration() {
    let json_str = r#"{
        "streams": [
            {
                "codec_type": "video",
                "width": 1920,
                "height": 1080,
                "r_frame_rate": "30/1"
            }
        ],
        "format": {
            "duration": "invalid"
        }
    }"#;
    let info = parse_ffprobe_output("/path/test.mp4", "test.mp4", json_str.as_bytes());
    assert!(!info.valid);
    assert!(info.error.is_some());
    assert!(info.error.unwrap().contains("missing duration"));
}
