use timelapse_core::pathres::{
    dir_create_failed_message, file_name_or_unknown, get_output_path, output_dir_path,
};

#[test]
fn test_get_output_path_basic() {
    let input = "/tmp/test.mp4";
    let output_path = get_output_path(input);
    assert!(output_path.contains("outputs"));
    assert!(output_path.contains("test_timelapse.mp4"));
    assert_eq!(output_path, "/tmp/outputs/test_timelapse.mp4");
}

#[test]
fn test_get_output_path_preserves_stem() {
    let input = "/tmp/my_video_file.avi";
    let output_path = get_output_path(input);
    assert!(output_path.contains("my_video_file_timelapse.mp4"));
}

#[test]
fn test_get_output_path_unicode() {
    let input = "/tmp/vïdéo.mp4";
    let output_path = get_output_path(input);
    assert!(output_path.contains("vïdéo_timelapse.mp4"));
}

#[test]
fn test_get_output_path_spaces() {
    let input = "/tmp/my video file.mp4";
    let output_path = get_output_path(input);
    assert!(output_path.contains("my video file_timelapse.mp4"));
}

#[test]
fn test_get_output_path_bare_file_name() {
    // No parent directory: the outputs directory is relative
    assert_eq!(get_output_path("clip.mov"), "outputs/clip_timelapse.mp4");
}

#[test]
fn test_get_output_path_no_stem() {
    // A path without a usable stem falls back to a fixed name
    assert_eq!(get_output_path("/tmp/"), "/tmp/outputs/output_timelapse.mp4");
}

#[test]
fn test_output_dir_path_values() {
    assert_eq!(output_dir_path("/tmp/test.mp4"), "/tmp/outputs");
    assert_eq!(output_dir_path("/test.mp4"), "/outputs");
    assert_eq!(output_dir_path("test.mp4"), "outputs");
}

#[test]
fn test_file_name_or_unknown_values() {
    assert_eq!(file_name_or_unknown("/videos/a.mp4"), "a.mp4");
    assert_eq!(file_name_or_unknown("a.mp4"), "a.mp4");
    assert_eq!(file_name_or_unknown("/videos/"), "Unknown");
    assert_eq!(file_name_or_unknown(""), "Unknown");
}

#[test]
fn test_dir_create_failed_message_exact() {
    let message = dir_create_failed_message("/tmp/outputs", "permission denied");
    assert_eq!(
        message,
        "Failed to create output directory '/tmp/outputs': permission denied"
    );
}
