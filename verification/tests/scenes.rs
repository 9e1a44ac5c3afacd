use video_splitter::scenes::parse_scene_detection_output;

fn times(output: &str, min_gap_ms: u64) -> Vec<u64> {
    parse_scene_detection_output(output.as_bytes(), min_gap_ms)
        .iter()
        .map(|p| p.time_ms)
        .collect()
}

#[test]
fn accepts_spaced_candidates() {
    let out = "frame pts_time: 2.0 x\nframe pts_time: 4.5 x\nframe pts_time: 7.0 x\n";
    assert_eq!(times(out, 2_000), vec![2_000, 4_500, 7_000]);
}

#[test]
fn consecutive_accepted_times_keep_the_gap() {
    let out = "a pts_time: 2.0 .\na pts_time: 3.0 .\na pts_time: 4.5 .\na pts_time: 5.0 .\na pts_time: 7.0 .\n";
    let accepted = times(out, 2_000);
    assert_eq!(accepted, vec![2_000, 4_500, 7_000]);
    for w in accepted.windows(2) {
        assert!(w[1] - w[0] >= 2_000);
    }
}

#[test]
fn crowded_candidates_collapse_to_one() {
    // every candidate within the window of the first: one survivor
    let out = "a pts_time: 2.0 .\na pts_time: 2.5 .\na pts_time: 3.0 .\na pts_time: 3.9 .\n";
    assert_eq!(times(out, 2_000), vec![2_000]);
}

#[test]
fn first_candidate_is_measured_against_zero() {
    let out = "a pts_time: 1.0 .\n";
    assert_eq!(times(out, 2_000), Vec::<u64>::new());
}

#[test]
fn empty_output_yields_no_scenes() {
    assert_eq!(times("", 2_000), Vec::<u64>::new());
}

#[test]
fn marker_needs_a_following_token() {
    // a marker at the end of its line announces nothing
    assert_eq!(times("frame pts_time:\n", 2_000), Vec::<u64>::new());
}

#[test]
fn attached_value_is_not_a_marker_token() {
    // the marker must stand alone; a glued value is one unknown token
    assert_eq!(times("frame pts_time:3.0 x\n", 2_000), Vec::<u64>::new());
}

#[test]
fn unparseable_value_after_marker_is_dropped() {
    assert_eq!(times("a pts_time: N/A x\n", 2_000), Vec::<u64>::new());
}

#[test]
fn only_first_marker_of_a_line_counts() {
    let out = "a pts_time: 5.0 pts_time: 9.0\n";
    assert_eq!(times(out, 2_000), vec![5_000]);
}

#[test]
fn carriage_returns_are_stripped() {
    let out = "a pts_time: 2.5\r\nb pts_time: 6.0\r\n";
    assert_eq!(times(out, 2_000), vec![2_500, 6_000]);
}

#[test]
fn last_line_without_newline_counts() {
    assert_eq!(times("a pts_time: 3.25 x", 2_000), vec![3_250]);
}

#[test]
fn points_carry_fixed_confidence_and_frame() {
    let pts = parse_scene_detection_output(b"a pts_time: 2.0 x\n", 1_000);
    assert_eq!(pts.len(), 1);
    assert_eq!(pts[0].time_ms, 2_000);
    assert_eq!(pts[0].confidence_milli, 1_000);
    assert_eq!(pts[0].frame_number, 0);
}

#[test]
fn zero_gap_accepts_everything_in_order() {
    let out = "a pts_time: 1.0 .\na pts_time: 1.0 .\na pts_time: 2.0 .\n";
    assert_eq!(times(out, 0), vec![1_000, 1_000, 2_000]);
}

#[test]
fn out_of_order_candidate_is_rejected() {
    // a candidate before the last accepted time never clears the window
    let out = "a pts_time: 5.0 .\na pts_time: 1.0 .\na pts_time: 8.0 .\n";
    assert_eq!(times(out, 2_000), vec![5_000, 8_000]);
}
