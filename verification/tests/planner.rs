use video_splitter::models::SegmentRange;
use video_splitter::models::SplitRequest;
use video_splitter::models::SplitType;
use video_splitter::models::VideoError;
use video_splitter::planner::build_segments;
use video_splitter::planner::generate_time_splits;
use video_splitter::planner::plan_segments;

fn seg(start_ms: u64, end_ms: u64) -> SegmentRange {
    SegmentRange { start_ms, end_ms }
}

#[test]
fn interval_thirds_of_ninety_seconds() {
    // 90 s cut every 30 s: cut points at 30 s and 60 s
    let points = generate_time_splits(90_000, 30_000, None);
    assert_eq!(points, vec![30_000, 60_000]);
    let segs = build_segments(&points, 90_000);
    assert_eq!(segs, vec![seg(0, 30_000), seg(30_000, 60_000), seg(60_000, 90_000)]);
}

#[test]
fn count_quarters_of_hundred_seconds() {
    // 100 s in 4 equal parts
    let points = generate_time_splits(100_000, 0, Some(4));
    assert_eq!(points, vec![25_000, 50_000, 75_000]);
    let segs = build_segments(&points, 100_000);
    assert_eq!(
        segs,
        vec![seg(0, 25_000), seg(25_000, 50_000), seg(50_000, 75_000), seg(75_000, 100_000)]
    );
}

#[test]
fn manual_points_become_boundaries() {
    // manual cuts at 10 s and 40 s over a 50 s source
    let points: Vec<u64> = vec![10_000, 40_000];
    let segs = build_segments(&points, 50_000);
    assert_eq!(segs, vec![seg(0, 10_000), seg(10_000, 40_000), seg(40_000, 50_000)]);
}

#[test]
fn interval_with_remainder() {
    // 100 s cut every 30 s: the last range is the 10 s remainder
    let points = generate_time_splits(100_000, 30_000, None);
    assert_eq!(points, vec![30_000, 60_000, 90_000]);
    let segs = build_segments(&points, 100_000);
    assert_eq!(segs.len(), 4);
    assert_eq!(segs[3], seg(90_000, 100_000));
}

#[test]
fn interval_exact_division_has_no_empty_tail() {
    let points = generate_time_splits(60_000, 30_000, None);
    assert_eq!(points, vec![30_000]);
    let segs = build_segments(&points, 60_000);
    assert_eq!(segs, vec![seg(0, 30_000), seg(30_000, 60_000)]);
}

#[test]
fn duration_at_least_total_yields_no_split_points() {
    // a step as long as the source produces nothing to cut
    let points = generate_time_splits(30_000, 60_000, None);
    assert!(points.is_empty());
    let planned = plan_segments(30_000, &points);
    match planned {
        Err(VideoError::ProcessingError(m)) => assert_eq!(m, "No split points generated"),
        _ => panic!("expected a planning error"),
    }
}

#[test]
fn count_below_two_yields_no_split_points() {
    assert!(generate_time_splits(90_000, 0, Some(1)).is_empty());
    assert!(generate_time_splits(90_000, 0, Some(0)).is_empty());
}

#[test]
fn count_plan_covers_total_contiguously() {
    // 100 s in 3 parts: integer widths, the last range absorbs the rest
    let points = generate_time_splits(100_000, 0, Some(3));
    assert_eq!(points, vec![33_333, 66_666]);
    let segs = build_segments(&points, 100_000);
    assert_eq!(segs.len(), 3);
    assert_eq!(segs[0].start_ms, 0);
    for w in segs.windows(2) {
        assert_eq!(w[0].end_ms, w[1].start_ms);
    }
    assert_eq!(segs[2].end_ms, 100_000);
}

#[test]
fn plan_through_session_request() {
    // the planner's output reaches the session unchanged
    let request = SplitRequest {
        video_path: String::from("clip.mp4"),
        split_type: SplitType::Time { duration_ms: 30_000, count: None },
        output_dir: String::from("out"),
        output_format: String::from("mp4"),
    };
    let session =
        video_splitter::splitter::SplitSession::new(&request, 90_000, None).expect("plans");
    assert_eq!(
        session.segments,
        vec![seg(0, 30_000), seg(30_000, 60_000), seg(60_000, 90_000)]
    );
}
