use video_splitter::models::VideoError;
use video_splitter::utils::check_system_requirements;
use video_splitter::utils::extension_str;
use video_splitter::utils::format_duration;
use video_splitter::utils::format_file_size;
use video_splitter::utils::is_supported_format_exec;
use video_splitter::utils::validate_video_file;

#[test]
fn missing_path_is_not_found() {
    match validate_video_file("/videos/gone.mp4", false, false) {
        Err(VideoError::FileNotFound(m)) => assert_eq!(m, "/videos/gone.mp4"),
        _ => panic!("expected a not-found error"),
    }
}

#[test]
fn directory_is_not_a_file() {
    match validate_video_file("/videos", true, false) {
        Err(VideoError::InvalidFormat(m)) => assert_eq!(m, "Not a file"),
        _ => panic!("expected an invalid-format error"),
    }
}

#[test]
fn unsupported_extension_is_reported() {
    match validate_video_file("/videos/notes.txt", true, true) {
        Err(VideoError::InvalidFormat(m)) => assert_eq!(m, "Unsupported format: txt"),
        _ => panic!("expected an invalid-format error"),
    }
}

#[test]
fn missing_extension_is_reported_empty() {
    match validate_video_file("/videos/raw", true, true) {
        Err(VideoError::InvalidFormat(m)) => assert_eq!(m, "Unsupported format: "),
        _ => panic!("expected an invalid-format error"),
    }
}

#[test]
fn supported_extensions_pass() {
    for p in [
        "a.mp4", "a.avi", "a.mov", "a.mkv", "a.wmv", "a.flv", "a.webm", "A.MP4", "b.WebM",
        "/d/e/f.mkv",
    ] {
        assert!(validate_video_file(p, true, true).is_ok(), "{p} should pass");
    }
}

#[test]
fn extension_extraction() {
    assert_eq!(extension_str("/v/movie.mp4"), "mp4");
    assert_eq!(extension_str("movie.tar.gz"), "gz");
    assert_eq!(extension_str(".hidden"), "");
    assert_eq!(extension_str("noext"), "");
    assert_eq!(extension_str("dir.d/noext"), "");
    assert_eq!(extension_str("trailing."), "");
}

#[test]
fn supported_format_check_is_case_blind() {
    assert!(is_supported_format_exec("MP4"));
    assert!(is_supported_format_exec("WebM"));
    assert!(!is_supported_format_exec("txt"));
    assert!(!is_supported_format_exec(""));
    assert!(!is_supported_format_exec("mp44"));
}

#[test]
fn durations_format_like_clocks() {
    assert_eq!(format_duration(0), "00:00");
    assert_eq!(format_duration(61), "01:01");
    assert_eq!(format_duration(3_599), "59:59");
    assert_eq!(format_duration(3_600), "01:00:00");
    assert_eq!(format_duration(3_661), "01:01:01");
    assert_eq!(format_duration(7_200), "02:00:00");
    assert_eq!(format_duration(90_000), "25:00:00");
}

#[test]
fn file_sizes_pick_the_largest_unit() {
    assert_eq!(format_file_size(0), "0.0 B");
    assert_eq!(format_file_size(500), "500.0 B");
    assert_eq!(format_file_size(1_023), "1023.0 B");
    assert_eq!(format_file_size(1_536), "1.5 KB");
    assert_eq!(format_file_size(1_590), "1.6 KB");
    assert_eq!(format_file_size(1_048_576), "1.0 MB");
    // exact ties go to the even tenth, as decimal float formatting does
    assert_eq!(format_file_size(1_280), "1.2 KB");
    assert_eq!(format_file_size(1_792), "1.8 KB");
    assert_eq!(format_file_size(2_304), "2.2 KB");
    assert_eq!(format_file_size(2_621_440), "2.5 MB");
    assert_eq!(format_file_size(1_073_741_824), "1.0 GB");
    assert_eq!(format_file_size(1_099_511_627_776), "1.0 TB");
}

#[test]
fn system_requirements_are_fixed() {
    let r = check_system_requirements(true);
    assert!(r.ffmpeg_available);
    assert_eq!(r.recommended_memory, 4 * 1024 * 1024 * 1024);
    assert_eq!(r.recommended_disk_space, 10 * 1024 * 1024 * 1024);
    assert!(!check_system_requirements(false).ffmpeg_available);
}
