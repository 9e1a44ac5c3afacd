//! The split orchestrator: plans a job's segments and drives one
//! external-tool invocation per segment, strictly in ordinal order and
//! fail-fast.
//!
//! The engine cannot run a process, so a job is a session: the caller
//! asks for the next command, runs it, and reports the exit; the session
//! decides what follows and assembles the outcome.

use crate::executor::build_extract_args;
use crate::executor::build_copy_args;
use crate::executor::build_join_path;
use crate::executor::build_output_file_name;
use crate::executor::build_segment_failure;
use crate::executor::copy_args_spec;
use crate::executor::extract_args_spec;
use crate::executor::file_stem_or;
use crate::executor::join_path;
use crate::executor::output_file_name;
use crate::executor::segment_failure_spec;
use crate::executor::stem_or;
use crate::executor::views_of;
use crate::models::ScenePoint;
use crate::models::SegmentRange;
use crate::models::SplitRequest;
use crate::models::SplitResult;
use crate::models::SplitType;
use crate::models::VideoError;
use crate::models::VideoResult;
use crate::planner::generate_time_splits;
use crate::planner::pair_ranges;
use crate::planner::count_cut_points;
use crate::planner::interval_cut_points;
use vstd::prelude::*;

verus! {

/// One fully built invocation of the external tool.
pub struct ExtractCommand {
    pub program: String,
    pub args: Vec<String>,
    pub output_path: String,
}

/// The splitter holds the resolved location of the external tool.
pub struct VideoSplitter {
    pub ffmpeg_path: String,
}

impl VideoSplitter {
    /// A splitter on the default tool name.
    pub fn new() -> (r: VideoSplitter)
        ensures
            r.ffmpeg_path@ == "ffmpeg"@,
    {
        VideoSplitter { ffmpeg_path: "ffmpeg".to_owned() }
    }
}

/// The debounce window used when a scene strategy names none: 2 seconds.
pub fn scene_min_gap_ms(min_duration_ms: Option<u64>) -> (r: u64)
    ensures
        r == match min_duration_ms {
            Some(v) => v,
            None => 2000u64,
        },
{
    match min_duration_ms {
        Some(v) => v,
        None => 2000,
    }
}

/// A time strategy that walks by duration needs a positive step; a count
/// makes the step irrelevant.
pub open spec fn strategy_wf(st: SplitType) -> bool {
    match st {
        SplitType::Time { duration_ms, count } => count is Some || duration_ms > 0,
        _ => true,
    }
}

/// The cut points a strategy yields, the scene strategy's coming from the
/// detector.
pub open spec fn strategy_cut_points(st: SplitType, total_ms: u64, scene_times: Seq<u64>) -> Seq<
    u64,
> {
    match st {
        SplitType::Time { duration_ms, count } => match count {
            Some(c) => count_cut_points(total_ms, c),
            None => interval_cut_points(total_ms, duration_ms),
        },
        SplitType::Scenes { .. } => scene_times,
        SplitType::Manual { split_points_ms } => split_points_ms@,
    }
}

/// A split job in flight: the planned segments, how many are done, what
/// they produced, and the first failure if one came.
pub struct SplitSession {
    pub video_path: String,
    pub output_dir: String,
    pub output_format: String,
    pub segments: Vec<SegmentRange>,
    pub next_index: usize,
    pub produced: Vec<String>,
    pub failure: Option<String>,
}

impl SplitSession {
    /// The output path of segment `i`.
    pub open spec fn segment_out_path(&self, i: int) -> Seq<char> {
        join_path(
            self.output_dir@,
            output_file_name(
                "segment_"@,
                stem_or(self.video_path@, "segment"@),
                (i + 1) as nat,
                self.output_format@,
            ),
        )
    }

    /// The session's invariant: progress stays within the plan, and the
    /// produced list mirrors the finished segments.
    pub open spec fn wf(&self) -> bool {
        &&& self.next_index <= self.segments@.len()
        &&& self.produced@.len() == self.next_index
        &&& forall|j: int|
            0 <= j < self.produced@.len() ==> (#[trigger] self.produced@[j])@
                == self.segment_out_path(j)
        &&& self.failure is Some ==> self.next_index < self.segments@.len()
    }

    /// Plans a session: the strategy's cut points are paired into
    /// contiguous ranges; a strategy that yields none aborts the job
    /// before any extraction.
    pub fn new(request: &SplitRequest, total_ms: u64, scene_times_ms: Option<&Vec<u64>>) -> (r:
        VideoResult<SplitSession>)
        requires
            strategy_wf(request.split_type),
        ensures
            ({
                let cuts = strategy_cut_points(
                    request.split_type,
                    total_ms,
                    match scene_times_ms {
                        Some(v) => v@,
                        None => Seq::empty(),
                    },
                );
                match r {
                    Ok(s) => {
                        &&& cuts.len() > 0
                        &&& s.wf()
                        &&& s.video_path@ == request.video_path@
                        &&& s.output_dir@ == request.output_dir@
                        &&& s.output_format@ == request.output_format@
                        &&& s.segments@ == pair_ranges(cuts, total_ms)
                        &&& s.next_index == 0
                        &&& s.produced@.len() == 0
                        &&& s.failure is None
                    }
                    Err(e) => cuts.len() == 0 && (e matches VideoError::ProcessingError(m) && m@
                        == "No split points generated"@),
                }
            }),
    {
        let points: Vec<u64> = match &request.split_type {
            SplitType::Time { duration_ms, count } => generate_time_splits(
                total_ms,
                *duration_ms,
                *count,
            ),
            SplitType::Scenes { .. } => match scene_times_ms {
                Some(v) => v.clone(),
                None => Vec::new(),
            },
            SplitType::Manual { split_points_ms } => split_points_ms.clone(),
        };
        let segments = match crate::planner::plan_segments(total_ms, &points) {
            Ok(segs) => segs,
            Err(e) => {
                return Err(e);
            }
        };
        Ok(
            SplitSession {
                video_path: request.video_path.clone(),
                output_dir: request.output_dir.clone(),
                output_format: request.output_format.clone(),
                segments,
                next_index: 0,
                produced: Vec::new(),
                failure: None,
            },
        )
    }

    /// The next invocation to run, in ordinal order; `None` once every
    /// segment is done or one has failed.
    pub fn next_command(&self) -> (r: Option<ExtractCommand>)
        requires
            self.wf(),
        ensures
            match r {
                Some(cmd) => {
                    let seg = self.segments@[self.next_index as int];
                    let dur: u64 = if seg.end_ms >= seg.start_ms {
                        (seg.end_ms - seg.start_ms) as u64
                    } else {
                        0u64
                    };
                    &&& self.failure is None
                    &&& self.next_index < self.segments@.len()
                    &&& cmd.program@ == "ffmpeg"@
                    &&& cmd.output_path@ == self.segment_out_path(self.next_index as int)
                    &&& views_of(cmd.args@) == extract_args_spec(
                        self.video_path@,
                        seg.start_ms as nat,
                        dur as nat,
                        self.segment_out_path(self.next_index as int),
                    )
                },
                None => self.failure is Some || self.next_index == self.segments@.len(),
            },
    {
        if self.failure.is_some() {
            return None;
        }
        if self.next_index >= self.segments.len() {
            return None;
        }
        let seg = self.segments[self.next_index];
        let dur: u64 = if seg.end_ms >= seg.start_ms {
            seg.end_ms - seg.start_ms
        } else {
            0
        };
        let stem = file_stem_or(self.video_path.as_str(), "segment");
        let name = build_output_file_name(
            "segment_",
            stem.as_str(),
            (self.next_index as u64) + 1,
            self.output_format.as_str(),
        );
        let out = build_join_path(self.output_dir.as_str(), name.as_str());
        let args = build_extract_args(self.video_path.as_str(), seg.start_ms, dur, out.as_str());
        Some(ExtractCommand { program: "ffmpeg".to_owned(), args, output_path: out })
    }

    /// Records the exit of the segment just run: success produces its
    /// file and moves on; failure stops the job and keeps the tool's
    /// diagnostic, tagged with the segment's 1-based ordinal.
    pub fn record_result(&mut self, success: bool, stderr: &str)
        requires
            old(self).wf(),
            old(self).failure is None,
            old(self).next_index < old(self).segments@.len(),
        ensures
            final(self).wf(),
            final(self).video_path == old(self).video_path,
            final(self).output_dir == old(self).output_dir,
            final(self).output_format == old(self).output_format,
            final(self).segments == old(self).segments,
            if success {
                &&& final(self).next_index == old(self).next_index + 1
                &&& final(self).produced@.len() == old(self).produced@.len() + 1
                &&& final(self).produced@ == old(self).produced@.push(
                    final(self).produced@.last(),
                )
                &&& final(self).produced@.last()@ == old(self).segment_out_path(
                    old(self).next_index as int,
                )
                &&& final(self).failure is None
            } else {
                &&& final(self).next_index == old(self).next_index
                &&& final(self).produced@ == old(self).produced@
                &&& final(self).failure matches Some(m) && m@ == segment_failure_spec(
                    (old(self).next_index + 1) as nat,
                    stderr@,
                )
            },
    {
        let n = self.segments.len();
        proof {
            assert(self.next_index < n);
        }
        if success {
            let stem = file_stem_or(self.video_path.as_str(), "segment");
            let name = build_output_file_name(
                "segment_",
                stem.as_str(),
                (self.next_index as u64) + 1,
                self.output_format.as_str(),
            );
            let out = build_join_path(self.output_dir.as_str(), name.as_str());
            self.produced.push(out);
            self.next_index = self.next_index + 1;
        } else {
            let m = build_segment_failure((self.next_index as u64) + 1, stderr);
            self.failure = Some(m);
        }
    }

    /// Assembles the outcome once no command is left: every segment done
    /// yields the ordered file list with no errors; a failure yields its
    /// diagnostic, and the files already produced stay on disk untouched.
    pub fn finish(self, processing_time_ms: u64) -> (r: VideoResult<SplitResult>)
        requires
            self.wf(),
            self.failure is Some || self.next_index == self.segments@.len(),
        ensures
            match r {
                Ok(res) => {
                    &&& self.failure is None
                    &&& res.success == true
                    &&& res.output_files@ == self.produced@
                    &&& res.errors@.len() == 0
                    &&& res.processing_time_ms == processing_time_ms
                },
                Err(e) => self.failure is Some && (e matches VideoError::FFmpegError(m)
                    && Some(m) == self.failure),
            },
    {
        match self.failure {
            Some(m) => Err(VideoError::FFmpegError(m)),
            None => Ok(
                SplitResult {
                    success: true,
                    output_files: self.produced,
                    errors: Vec::new(),
                    processing_time_ms,
                },
            ),
        }
    }
}

/// The commands of the stream-copy mode: one lossless cut from each scene
/// point's predecessor (the start for the first) up to the point itself.
pub fn scene_copy_commands(
    ffmpeg_path: &str,
    video_path: &str,
    scenes: &Vec<ScenePoint>,
    output_dir: &str,
    output_format: &str,
) -> (r: Vec<ExtractCommand>)
    ensures
        r@.len() == scenes@.len(),
        forall|i: int|
            0 <= i < r@.len() ==> {
                let start: u64 = if i == 0 {
                    0u64
                } else {
                    scenes@[i - 1].time_ms
                };
                let out = join_path(
                    output_dir@,
                    output_file_name(
                        "scene_"@,
                        stem_or(video_path@, "scene"@),
                        (i + 1) as nat,
                        output_format@,
                    ),
                );
                &&& (#[trigger] r@[i]).program@ == ffmpeg_path@
                &&& r@[i].output_path@ == out
                &&& views_of(r@[i].args@) == copy_args_spec(
                    video_path@,
                    start as nat,
                    scenes@[i].time_ms as nat,
                    out,
                )
            },
{
    let mut cmds: Vec<ExtractCommand> = Vec::new();
    let n = scenes.len();
    let mut i: usize = 0;
    let stem = file_stem_or(video_path, "scene");
    while i < n
        invariant
            0 <= i <= n,
            n == scenes@.len(),
            cmds@.len() == i,
            stem@ == stem_or(video_path@, "scene"@),
            forall|j: int|
                0 <= j < i ==> {
                    let start: u64 = if j == 0 {
                        0u64
                    } else {
                        scenes@[j - 1].time_ms
                    };
                    let out = join_path(
                        output_dir@,
                        output_file_name(
                            "scene_"@,
                            stem_or(video_path@, "scene"@),
                            (j + 1) as nat,
                            output_format@,
                        ),
                    );
                    &&& (#[trigger] cmds@[j]).program@ == ffmpeg_path@
                    &&& cmds@[j].output_path@ == out
                    &&& views_of(cmds@[j].args@) == copy_args_spec(
                        video_path@,
                        start as nat,
                        scenes@[j].time_ms as nat,
                        out,
                    )
                },
        decreases n - i,
    {
        let start: u64 = if i == 0 {
            0
        } else {
            scenes[i - 1].time_ms
        };
        let end = scenes[i].time_ms;
        let name = build_output_file_name(
            "scene_",
            stem.as_str(),
            (i as u64) + 1,
            output_format,
        );
        let out = build_join_path(output_dir, name.as_str());
        let args = build_copy_args(video_path, start, end, out.as_str());
        cmds.push(ExtractCommand { program: ffmpeg_path.to_owned(), args, output_path: out });
        i = i + 1;
    }
    cmds
}

} // verus!
