use video_splitter::models::VideoError;
use video_splitter::probe::duration_from_probe;
use video_splitter::probe::fps_milli_from_ratio;
use video_splitter::probe::parse_ms_or_zero;
use video_splitter::probe::parse_probe_output;
use video_splitter::probe::parse_u64_or_zero;
use video_splitter::probe::VideoProcessor;

const PROBE_JSON: &str = r#"{
  "format": {
    "duration": "90.5",
    "size": "1024",
    "bit_rate": "128000",
    "format_name": "mp4"
  },
  "streams": [
    { "codec_type": "audio" },
    { "codec_type": "video", "width": 1920, "height": 1080, "r_frame_rate": "30000/1001" },
    { "codec_type": "video", "width": 640, "height": 480, "r_frame_rate": "25/1" }
  ]
}"#;

#[test]
fn full_probe_document() {
    let info =
        parse_probe_output("/videos/clip.mp4", true, PROBE_JSON.as_bytes(), "").expect("parses");
    assert_eq!(info.path, "/videos/clip.mp4");
    assert_eq!(info.filename, "clip.mp4");
    assert_eq!(info.duration_ms, 90_500);
    assert_eq!(info.size, 1_024);
    assert_eq!(info.bitrate, 128_000);
    assert_eq!(info.format, "mp4");
    // the first video stream wins
    assert_eq!(info.width, 1_920);
    assert_eq!(info.height, 1_080);
    // 30000/1001 frames per second, in thousandths
    assert_eq!(info.fps_milli, 29_970);
}

#[test]
fn missing_fields_degrade_to_defaults() {
    let json = br#"{"format":{},"streams":[{"codec_type":"video"}]}"#;
    let info = parse_probe_output("x.mp4", true, json, "").expect("parses");
    assert_eq!(info.duration_ms, 0);
    assert_eq!(info.size, 0);
    assert_eq!(info.bitrate, 0);
    assert_eq!(info.format, "unknown");
    assert_eq!(info.width, 0);
    assert_eq!(info.height, 0);
    assert_eq!(info.fps_milli, 0);
}

#[test]
fn no_video_stream_fails() {
    let json = br#"{"format":{},"streams":[{"codec_type":"audio"}]}"#;
    match parse_probe_output("x.mp4", true, json, "") {
        Err(VideoError::FFmpegError(m)) => assert_eq!(m, "No video stream found"),
        _ => panic!("expected a probe failure"),
    }
}

#[test]
fn missing_format_block_fails() {
    let json = br#"{"streams":[]}"#;
    match parse_probe_output("x.mp4", true, json, "") {
        Err(VideoError::FFmpegError(m)) => assert_eq!(m, "No format information"),
        _ => panic!("expected a probe failure"),
    }
}

#[test]
fn missing_streams_fails() {
    let json = br#"{"format":{}}"#;
    match parse_probe_output("x.mp4", true, json, "") {
        Err(VideoError::FFmpegError(m)) => assert_eq!(m, "No streams information"),
        _ => panic!("expected a probe failure"),
    }
}

#[test]
fn non_array_streams_fails() {
    let json = br#"{"format":{},"streams":7}"#;
    match parse_probe_output("x.mp4", true, json, "") {
        Err(VideoError::FFmpegError(m)) => assert_eq!(m, "No streams information"),
        _ => panic!("expected a probe failure"),
    }
}

#[test]
fn unparseable_document_reports_the_parser() {
    match parse_probe_output("x.mp4", true, b"not json", "") {
        Err(VideoError::FFmpegError(m)) => {
            assert!(m.starts_with("Failed to parse ffprobe output: "))
        }
        _ => panic!("expected a parse failure"),
    }
}

#[test]
fn failed_probe_run_reports_stderr() {
    match parse_probe_output("x.mp4", false, b"", "boom") {
        Err(VideoError::FFmpegError(m)) => assert_eq!(m, "ffprobe failed: boom"),
        _ => panic!("expected a run failure"),
    }
}

#[test]
fn duration_probe_parses_trimmed_decimal() {
    assert_eq!(duration_from_probe(true, b"90.000000\n").expect("parses"), 90_000);
    assert_eq!(duration_from_probe(true, b"  12.5  ").expect("parses"), 12_500);
}

#[test]
fn duration_probe_rejects_garbage() {
    match duration_from_probe(true, b"N/A\n") {
        Err(VideoError::FFmpegError(m)) => assert_eq!(m, "Invalid duration format"),
        _ => panic!("expected a format error"),
    }
}

#[test]
fn duration_probe_failed_run() {
    match duration_from_probe(false, b"") {
        Err(VideoError::FFmpegError(m)) => assert_eq!(m, "Failed to get video duration"),
        _ => panic!("expected a run error"),
    }
}

#[test]
fn decimal_strings_to_milliseconds() {
    assert_eq!(parse_ms_or_zero("1.5"), 1_500);
    assert_eq!(parse_ms_or_zero(".5"), 500);
    assert_eq!(parse_ms_or_zero("5."), 5_000);
    assert_eq!(parse_ms_or_zero("12.3456"), 12_345);
    assert_eq!(parse_ms_or_zero(""), 0);
    assert_eq!(parse_ms_or_zero("1e3"), 0);
    assert_eq!(parse_ms_or_zero("-1"), 0);
}

#[test]
fn digit_strings_to_integers() {
    assert_eq!(parse_u64_or_zero("128000"), 128_000);
    assert_eq!(parse_u64_or_zero(""), 0);
    assert_eq!(parse_u64_or_zero("12a"), 0);
}

#[test]
fn frame_rate_ratios() {
    assert_eq!(fps_milli_from_ratio("30000/1001"), 29_970);
    assert_eq!(fps_milli_from_ratio("25/1"), 25_000);
    assert_eq!(fps_milli_from_ratio("30/0"), 0);
    assert_eq!(fps_milli_from_ratio("30"), 0);
    assert_eq!(fps_milli_from_ratio("1/2/3"), 0);
    // an unparseable denominator counts as one
    assert_eq!(fps_milli_from_ratio("24/x"), 24_000);
    // an unparseable numerator counts as zero
    assert_eq!(fps_milli_from_ratio("x/7"), 0);
}

#[test]
fn processor_default_and_injected_paths() {
    let p = VideoProcessor::new();
    assert_eq!(p.ffmpeg_path, "ffmpeg");
    assert_eq!(p.ffprobe_path, "ffprobe");
    let q = VideoProcessor::with_paths(String::from("/opt/bin/ffmpeg"), String::from("/opt/bin/ffprobe"));
    assert_eq!(q.ffmpeg_path, "/opt/bin/ffmpeg");
    assert_eq!(q.ffprobe_path, "/opt/bin/ffprobe");
}
