use video_splitter::models::ScenePoint;
use video_splitter::models::SplitRequest;
use video_splitter::models::SplitType;
use video_splitter::models::VideoError;
use video_splitter::splitter::scene_copy_commands;
use video_splitter::splitter::scene_min_gap_ms;
use video_splitter::splitter::SplitSession;
use video_splitter::splitter::VideoSplitter;

fn request(split_type: SplitType) -> SplitRequest {
    SplitRequest {
        video_path: String::from("/videos/movie.mp4"),
        split_type,
        output_dir: String::from("/out"),
        output_format: String::from("mp4"),
    }
}

#[test]
fn whole_job_in_order() {
    // 90 s in 30 s steps: three segments, run in ordinal order
    let req = request(SplitType::Time { duration_ms: 30_000, count: None });
    let mut session = SplitSession::new(&req, 90_000, None).expect("plans");
    let mut outputs = Vec::new();
    let mut starts = Vec::new();
    while let Some(cmd) = session.next_command() {
        assert_eq!(cmd.program, "ffmpeg");
        assert_eq!(cmd.args[0], "-y");
        assert_eq!(cmd.args[1], "-ss");
        starts.push(cmd.args[2].clone());
        // every segment of this plan is 30 s long
        assert_eq!(cmd.args[6], "30");
        assert_eq!(*cmd.args.last().unwrap(), cmd.output_path);
        outputs.push(cmd.output_path.clone());
        session.record_result(true, "");
    }
    assert_eq!(starts, vec!["0", "30", "60"]);
    let result = session.finish(1_234).expect("succeeds");
    assert!(result.success);
    assert!(result.errors.is_empty());
    assert_eq!(result.processing_time_ms, 1_234);
    assert_eq!(
        result.output_files,
        vec![
            "/out/segment_movie_001.mp4",
            "/out/segment_movie_002.mp4",
            "/out/segment_movie_003.mp4",
        ]
    );
    assert_eq!(result.output_files, outputs);
}

#[test]
fn second_segment_failure_is_fail_fast() {
    let req = request(SplitType::Manual { split_points_ms: vec![10_000, 40_000] });
    let mut session = SplitSession::new(&req, 50_000, None).expect("plans");

    let first = session.next_command().expect("first command");
    assert_eq!(first.output_path, "/out/segment_movie_001.mp4");
    session.record_result(true, "");

    let second = session.next_command().expect("second command");
    assert_eq!(second.output_path, "/out/segment_movie_002.mp4");
    session.record_result(false, "codec not supported");

    // fail-fast: no third invocation
    assert!(session.next_command().is_none());
    // the file the first segment wrote is still listed, not rolled back
    assert_eq!(session.produced, vec!["/out/segment_movie_001.mp4"]);

    match session.finish(10) {
        Err(VideoError::FFmpegError(m)) => {
            assert_eq!(m, "ffmpeg failed for segment 2: codec not supported");
        }
        _ => panic!("expected the extraction failure"),
    }
}

#[test]
fn failure_message_carries_the_category() {
    let e = VideoError::FFmpegError(String::from("ffmpeg failed for segment 2: codec not supported"));
    assert_eq!(e.message(), "FFmpeg error: ffmpeg failed for segment 2: codec not supported");
}

#[test]
fn scene_strategy_takes_detector_times() {
    let req = request(SplitType::Scenes { threshold_milli: 300, min_duration_ms: None });
    let times: Vec<u64> = vec![10_000, 20_000];
    let session = SplitSession::new(&req, 30_000, Some(&times)).expect("plans");
    assert_eq!(session.segments.len(), 3);
    assert_eq!(session.segments[1].start_ms, 10_000);
    assert_eq!(session.segments[1].end_ms, 20_000);
}

#[test]
fn scene_strategy_without_times_fails() {
    let req = request(SplitType::Scenes { threshold_milli: 300, min_duration_ms: None });
    match SplitSession::new(&req, 30_000, None) {
        Err(VideoError::ProcessingError(m)) => assert_eq!(m, "No split points generated"),
        _ => panic!("expected a planning error"),
    }
}

#[test]
fn empty_manual_list_fails_before_any_command() {
    let req = request(SplitType::Manual { split_points_ms: vec![] });
    assert!(SplitSession::new(&req, 50_000, None).is_err());
}

#[test]
fn manual_point_beyond_the_end_passes_through() {
    // out-of-range manual points are not validated away
    let req = request(SplitType::Manual { split_points_ms: vec![60_000] });
    let session = SplitSession::new(&req, 50_000, None).expect("plans");
    assert_eq!(session.segments.len(), 1);
    assert_eq!(session.segments[0].end_ms, 60_000);
}

#[test]
fn scene_copy_commands_pair_neighbours() {
    let scenes = vec![
        ScenePoint { time_ms: 10_000, confidence_milli: 1_000, frame_number: 0 },
        ScenePoint { time_ms: 25_500, confidence_milli: 1_000, frame_number: 0 },
    ];
    let cmds = scene_copy_commands("/usr/bin/ffmpeg", "clip.mkv", &scenes, "out", "mkv");
    assert_eq!(cmds.len(), 2);
    assert_eq!(cmds[0].program, "/usr/bin/ffmpeg");
    assert_eq!(cmds[0].output_path, "out/scene_clip_001.mkv");
    assert_eq!(
        cmds[0].args,
        vec!["-i", "clip.mkv", "-ss", "0", "-to", "10", "-c", "copy", "-avoid_negative_ts",
            "make_zero", "out/scene_clip_001.mkv"]
            .iter()
            .map(|s| s.to_string())
            .collect::<Vec<String>>()
    );
    assert_eq!(cmds[1].output_path, "out/scene_clip_002.mkv");
    assert_eq!(cmds[1].args[3], "10");
    assert_eq!(cmds[1].args[5], "25.5");
}

#[test]
fn splitter_defaults() {
    let s = VideoSplitter::new();
    assert_eq!(s.ffmpeg_path, "ffmpeg");
}

#[test]
fn scene_gap_default_is_two_seconds() {
    assert_eq!(scene_min_gap_ms(None), 2_000);
    assert_eq!(scene_min_gap_ms(Some(500)), 500);
}
