use video_splitter::executor::build_copy_args;
use video_splitter::executor::build_detect_args;
use video_splitter::executor::build_duration_args;
use video_splitter::executor::build_extract_args;
use video_splitter::executor::build_join_path;
use video_splitter::executor::build_output_file_name;
use video_splitter::executor::build_probe_args;
use video_splitter::executor::build_segment_failure;
use video_splitter::executor::build_thumbnail_args;
use video_splitter::executor::file_stem_or;

fn strs(v: &[&str]) -> Vec<String> {
    v.iter().map(|s| s.to_string()).collect()
}

#[test]
fn extract_arguments() {
    let args = build_extract_args("in.mp4", 30_000, 30_000, "out/segment_in_002.mp4");
    assert_eq!(
        args,
        strs(&[
            "-y", "-ss", "30", "-i", "in.mp4", "-t", "30", "-c:v", "libx264", "-c:a", "aac",
            "-preset", "fast", "-crf", "23", "-avoid_negative_ts", "make_zero",
            "out/segment_in_002.mp4",
        ])
    );
}

#[test]
fn extract_arguments_fractional_times() {
    let args = build_extract_args("a.mkv", 12_500, 7_050, "o.mkv");
    assert_eq!(args[2], "12.5");
    assert_eq!(args[6], "7.05");
}

#[test]
fn copy_arguments() {
    let args = build_copy_args("in.mp4", 10_000, 20_000, "out/scene_in_001.mp4");
    assert_eq!(
        args,
        strs(&[
            "-i", "in.mp4", "-ss", "10", "-to", "20", "-c", "copy", "-avoid_negative_ts",
            "make_zero", "out/scene_in_001.mp4",
        ])
    );
}

#[test]
fn probe_arguments() {
    assert_eq!(
        build_probe_args("v.mp4"),
        strs(&["-v", "quiet", "-print_format", "json", "-show_format", "-show_streams", "v.mp4"])
    );
}

#[test]
fn duration_arguments() {
    assert_eq!(
        build_duration_args("v.mp4"),
        strs(&["-v", "quiet", "-show_entries", "format=duration", "-of", "csv=p=0", "v.mp4"])
    );
}

#[test]
fn detect_arguments_render_the_threshold() {
    assert_eq!(
        build_detect_args("v.mp4", 300),
        strs(&["-i", "v.mp4", "-vf", "select='gt(scene,0.3)',showinfo", "-f", "null", "-"])
    );
    let a = build_detect_args("v.mp4", 1_000);
    assert_eq!(a[3], "select='gt(scene,1)',showinfo");
    let b = build_detect_args("v.mp4", 250);
    assert_eq!(b[3], "select='gt(scene,0.25)',showinfo");
}

#[test]
fn thumbnail_arguments() {
    assert_eq!(
        build_thumbnail_args("v.mp4", 12_500, "thumb.jpg"),
        strs(&["-i", "v.mp4", "-ss", "12.5", "-vframes", "1", "-q:v", "2", "thumb.jpg"])
    );
}

#[test]
fn output_file_names_are_zero_padded() {
    assert_eq!(build_output_file_name("segment_", "video", 2, "mp4"), "segment_video_002.mp4");
    assert_eq!(build_output_file_name("scene_", "video", 12, "mkv"), "scene_video_012.mkv");
    assert_eq!(build_output_file_name("segment_", "v", 123, "avi"), "segment_v_123.avi");
    assert_eq!(build_output_file_name("segment_", "v", 1234, "avi"), "segment_v_1234.avi");
}

#[test]
fn file_stems() {
    assert_eq!(file_stem_or("/videos/movie.mp4", "segment"), "movie");
    assert_eq!(file_stem_or("movie.tar.gz", "segment"), "movie.tar");
    assert_eq!(file_stem_or("/videos/.hidden", "segment"), ".hidden");
    assert_eq!(file_stem_or("noext", "segment"), "noext");
    assert_eq!(file_stem_or("", "segment"), "segment");
    assert_eq!(file_stem_or("dir/", "scene"), "scene");
}

#[test]
fn path_joins() {
    assert_eq!(build_join_path("out", "a.mp4"), "out/a.mp4");
    assert_eq!(build_join_path("out/", "a.mp4"), "out/a.mp4");
    assert_eq!(build_join_path("", "a.mp4"), "a.mp4");
}

#[test]
fn segment_failure_text() {
    assert_eq!(
        build_segment_failure(2, "codec not supported"),
        "ffmpeg failed for segment 2: codec not supported"
    );
}
