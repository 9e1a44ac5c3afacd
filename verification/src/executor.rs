//! Building the external tool's invocations: output file names, argument
//! vectors for each of its modes, and the failure message of a segment.
//!
//! The engine never runs a process itself; it hands the caller a fully
//! built argument vector and judges the reported outcome.

use crate::text::dec_str;
use crate::text::ms_str;
use crate::text::ms_to_string;
use crate::text::pad3_str;
use crate::text::u64_to_pad3;
use crate::text::u64_to_string;
use crate::utils::file_name_of;
use crate::utils::rfind_char;
use vstd::prelude::*;

verus! {

/// The views of a string list.
pub open spec fn views_of(v: Seq<String>) -> Seq<Seq<char>> {
    v.map_values(|s: String| s@)
}

// ---------------------------------------------------------------------------
// Output file names
// ---------------------------------------------------------------------------

/// The path's final component without its extension; empty only for an
/// empty final component.
pub open spec fn file_stem_of(path: Seq<char>) -> Seq<char> {
    let name = file_name_of(path);
    match rfind_char(name, '.') {
        Some(i) => {
            if 0 < i < name.len() {
                name.take(i)
            } else {
                name
            }
        }
        None => name,
    }
}

/// The stem of the path, or `dflt` when the path has none.
pub open spec fn stem_or(path: Seq<char>, dflt: Seq<char>) -> Seq<char> {
    if file_stem_of(path).len() == 0 {
        dflt
    } else {
        file_stem_of(path)
    }
}

/// An output file name: prefix, stem, a 1-based ordinal zero-padded to
/// three digits, and the output container extension.
pub open spec fn output_file_name(
    prefix: Seq<char>,
    stem: Seq<char>,
    index1: nat,
    fmt: Seq<char>,
) -> Seq<char> {
    prefix + stem + seq!['_'] + pad3_str(index1) + seq!['.'] + fmt
}

/// A path under `dir`: joined with a separator unless one is already
/// there.
pub open spec fn join_path(dir: Seq<char>, name: Seq<char>) -> Seq<char> {
    if dir.len() == 0 {
        name
    } else if dir.last() == '/' {
        dir + name
    } else {
        dir + seq!['/'] + name
    }
}

/// The stem of `path`, with `dflt` standing in when there is none.
pub fn file_stem_or(path: &str, dflt: &str) -> (r: String)
    ensures
        r@ == stem_or(path@, dflt@),
{
    let n = path.unicode_len();
    let name_start = match crate::utils::rfind_char_in(path, '/') {
        Some(i) => i + 1,
        None => 0,
    };
    let name = path.substring_char(name_start, n);
    proof {
        assert(name@ =~= file_name_of(path@));
    }
    let name_len = name.unicode_len();
    let stem = match crate::utils::rfind_char_in(name, '.') {
        Some(i) => {
            if i > 0 {
                name.substring_char(0, i)
            } else {
                name
            }
        }
        None => name,
    };
    proof {
        assert(stem@ =~= file_stem_of(path@));
    }
    if stem.unicode_len() == 0 {
        dflt.to_owned()
    } else {
        stem.to_owned()
    }
}

/// Builds an output file name, per `output_file_name`.
pub fn build_output_file_name(prefix: &str, stem: &str, index1: u64, fmt: &str) -> (r: String)
    ensures
        r@ == output_file_name(prefix@, stem@, index1 as nat, fmt@),
{
    proof {
        reveal_strlit("_");
        reveal_strlit(".");
    }
    let mut out = prefix.to_owned();
    out.append(stem);
    out.append("_");
    let pad = u64_to_pad3(index1);
    out.append(pad.as_str());
    out.append(".");
    out.append(fmt);
    proof {
        assert(out@ =~= output_file_name(prefix@, stem@, index1 as nat, fmt@));
    }
    out
}

/// Joins a file name onto a directory, per `join_path`.
pub fn build_join_path(dir: &str, name: &str) -> (r: String)
    ensures
        r@ == join_path(dir@, name@),
{
    proof {
        reveal_strlit("/");
    }
    let n = dir.unicode_len();
    if n == 0 {
        return name.to_owned();
    }
    let last = dir.get_char(n - 1);
    let mut out = dir.to_owned();
    if last != '/' {
        out.append("/");
    }
    out.append(name);
    proof {
        assert(out@ =~= join_path(dir@, name@));
    }
    out
}

// ---------------------------------------------------------------------------
// Argument vectors
// ---------------------------------------------------------------------------

/// Extraction with a re-encode: overwrite, fast seek before the input,
/// explicit duration, fixed codecs, preset and quality, and timestamp
/// normalization.
pub open spec fn extract_args_spec(
    video_path: Seq<char>,
    start_ms: nat,
    dur_ms: nat,
    out: Seq<char>,
) -> Seq<Seq<char>> {
    seq![
        "-y"@,
        "-ss"@,
        ms_str(start_ms),
        "-i"@,
        video_path,
        "-t"@,
        ms_str(dur_ms),
        "-c:v"@,
        "libx264"@,
        "-c:a"@,
        "aac"@,
        "-preset"@,
        "fast"@,
        "-crf"@,
        "23"@,
        "-avoid_negative_ts"@,
        "make_zero"@,
        out,
    ]
}

/// Builds the re-encode extraction arguments, per `extract_args_spec`.
pub fn build_extract_args(video_path: &str, start_ms: u64, dur_ms: u64, out: &str) -> (r: Vec<
    String,
>)
    ensures
        views_of(r@) == extract_args_spec(video_path@, start_ms as nat, dur_ms as nat, out@),
{
    let mut v: Vec<String> = Vec::new();
    v.push("-y".to_owned());
    v.push("-ss".to_owned());
    v.push(ms_to_string(start_ms));
    v.push("-i".to_owned());
    v.push(video_path.to_owned());
    v.push("-t".to_owned());
    v.push(ms_to_string(dur_ms));
    v.push("-c:v".to_owned());
    v.push("libx264".to_owned());
    v.push("-c:a".to_owned());
    v.push("aac".to_owned());
    v.push("-preset".to_owned());
    v.push("fast".to_owned());
    v.push("-crf".to_owned());
    v.push("23".to_owned());
    v.push("-avoid_negative_ts".to_owned());
    v.push("make_zero".to_owned());
    v.push(out.to_owned());
    proof {
        assert(views_of(v@) =~= extract_args_spec(video_path@, start_ms as nat, dur_ms as nat, out@));
    }
    v
}

/// Stream-copy extraction between two absolute times: no re-encode, with
/// timestamp normalization.
pub open spec fn copy_args_spec(
    video_path: Seq<char>,
    start_ms: nat,
    end_ms: nat,
    out: Seq<char>,
) -> Seq<Seq<char>> {
    seq![
        "-i"@,
        video_path,
        "-ss"@,
        ms_str(start_ms),
        "-to"@,
        ms_str(end_ms),
        "-c"@,
        "copy"@,
        "-avoid_negative_ts"@,
        "make_zero"@,
        out,
    ]
}

/// Builds the stream-copy extraction arguments, per `copy_args_spec`.
pub fn build_copy_args(video_path: &str, start_ms: u64, end_ms: u64, out: &str) -> (r: Vec<String>)
    ensures
        views_of(r@) == copy_args_spec(video_path@, start_ms as nat, end_ms as nat, out@),
{
    let mut v: Vec<String> = Vec::new();
    v.push("-i".to_owned());
    v.push(video_path.to_owned());
    v.push("-ss".to_owned());
    v.push(ms_to_string(start_ms));
    v.push("-to".to_owned());
    v.push(ms_to_string(end_ms));
    v.push("-c".to_owned());
    v.push("copy".to_owned());
    v.push("-avoid_negative_ts".to_owned());
    v.push("make_zero".to_owned());
    v.push(out.to_owned());
    proof {
        assert(views_of(v@) =~= copy_args_spec(video_path@, start_ms as nat, end_ms as nat, out@));
    }
    v
}

/// Probing for structured metadata: quiet, structured output, format and
/// stream sections.
pub open spec fn probe_args_spec(video_path: Seq<char>) -> Seq<Seq<char>> {
    seq![
        "-v"@,
        "quiet"@,
        "-print_format"@,
        "json"@,
        "-show_format"@,
        "-show_streams"@,
        video_path,
    ]
}

/// Builds the metadata probe arguments, per `probe_args_spec`.
pub fn build_probe_args(video_path: &str) -> (r: Vec<String>)
    ensures
        views_of(r@) == probe_args_spec(video_path@),
{
    let mut v: Vec<String> = Vec::new();
    v.push("-v".to_owned());
    v.push("quiet".to_owned());
    v.push("-print_format".to_owned());
    v.push("json".to_owned());
    v.push("-show_format".to_owned());
    v.push("-show_streams".to_owned());
    v.push(video_path.to_owned());
    proof {
        assert(views_of(v@) =~= probe_args_spec(video_path@));
    }
    v
}

/// The minimal duration probe: only the format's duration, as a bare
/// decimal value.
pub open spec fn duration_args_spec(video_path: Seq<char>) -> Seq<Seq<char>> {
    seq!["-v"@, "quiet"@, "-show_entries"@, "format=duration"@, "-of"@, "csv=p=0"@, video_path]
}

/// Builds the duration probe arguments, per `duration_args_spec`.
pub fn build_duration_args(video_path: &str) -> (r: Vec<String>)
    ensures
        views_of(r@) == duration_args_spec(video_path@),
{
    let mut v: Vec<String> = Vec::new();
    v.push("-v".to_owned());
    v.push("quiet".to_owned());
    v.push("-show_entries".to_owned());
    v.push("format=duration".to_owned());
    v.push("-of".to_owned());
    v.push("csv=p=0".to_owned());
    v.push(video_path.to_owned());
    proof {
        assert(views_of(v@) =~= duration_args_spec(video_path@));
    }
    v
}

/// The scene-change filter: a frame difference above the threshold,
/// with per-frame information requested on the diagnostic channel.
pub open spec fn scene_filter_spec(threshold_milli: nat) -> Seq<char> {
    "select='gt(scene,"@ + ms_str(threshold_milli) + ")',showinfo"@
}

/// Scene analysis: the filter, no real output.
pub open spec fn detect_args_spec(video_path: Seq<char>, threshold_milli: nat) -> Seq<Seq<char>> {
    seq!["-i"@, video_path, "-vf"@, scene_filter_spec(threshold_milli), "-f"@, "null"@, "-"@]
}

/// Builds the scene analysis arguments, per `detect_args_spec`.
pub fn build_detect_args(video_path: &str, threshold_milli: u32) -> (r: Vec<String>)
    ensures
        views_of(r@) == detect_args_spec(video_path@, threshold_milli as nat),
{
    let mut filter: String = "select='gt(scene,".to_owned();
    let t = ms_to_string(threshold_milli as u64);
    filter.append(t.as_str());
    filter.append(")',showinfo");
    let mut v: Vec<String> = Vec::new();
    v.push("-i".to_owned());
    v.push(video_path.to_owned());
    v.push("-vf".to_owned());
    v.push(filter);
    v.push("-f".to_owned());
    v.push("null".to_owned());
    v.push("-".to_owned());
    proof {
        assert(views_of(v@) =~= detect_args_spec(video_path@, threshold_milli as nat));
    }
    v
}

/// Single-frame capture at a time: one frame, high still quality.
pub open spec fn thumbnail_args_spec(
    video_path: Seq<char>,
    time_ms: nat,
    out: Seq<char>,
) -> Seq<Seq<char>> {
    seq!["-i"@, video_path, "-ss"@, ms_str(time_ms), "-vframes"@, "1"@, "-q:v"@, "2"@, out]
}

/// Builds the single-frame capture arguments, per `thumbnail_args_spec`.
pub fn build_thumbnail_args(video_path: &str, time_ms: u64, out: &str) -> (r: Vec<String>)
    ensures
        views_of(r@) == thumbnail_args_spec(video_path@, time_ms as nat, out@),
{
    let mut v: Vec<String> = Vec::new();
    v.push("-i".to_owned());
    v.push(video_path.to_owned());
    v.push("-ss".to_owned());
    v.push(ms_to_string(time_ms));
    v.push("-vframes".to_owned());
    v.push("1".to_owned());
    v.push("-q:v".to_owned());
    v.push("2".to_owned());
    v.push(out.to_owned());
    proof {
        assert(views_of(v@) =~= thumbnail_args_spec(video_path@, time_ms as nat, out@));
    }
    v
}

// ---------------------------------------------------------------------------
// Failure messages
// ---------------------------------------------------------------------------

/// The diagnostic of a failed segment: its 1-based ordinal and the tool's
/// own words.
pub open spec fn segment_failure_spec(index1: nat, stderr: Seq<char>) -> Seq<char> {
    "ffmpeg failed for segment "@ + dec_str(index1) + ": "@ + stderr
}

/// Builds a failed segment's diagnostic, per `segment_failure_spec`.
pub fn build_segment_failure(index1: u64, stderr: &str) -> (r: String)
    ensures
        r@ == segment_failure_spec(index1 as nat, stderr@),
{
    proof {
        reveal_strlit(": ");
    }
    let mut m: String = "ffmpeg failed for segment ".to_owned();
    let d = u64_to_string(index1);
    m.append(d.as_str());
    m.append(": ");
    m.append(stderr);
    proof {
        assert(m@ =~= segment_failure_spec(index1 as nat, stderr@));
    }
    m
}

/// The diagnostic of a failed stream-copy run: the tool's own words.
pub open spec fn copy_failure_spec(stderr: Seq<char>) -> Seq<char> {
    "ffmpeg failed: "@ + stderr
}

/// Builds a failed stream-copy run's diagnostic, per `copy_failure_spec`.
pub fn build_copy_failure(stderr: &str) -> (r: String)
    ensures
        r@ == copy_failure_spec(stderr@),
{
    let mut m: String = "ffmpeg failed: ".to_owned();
    m.append(stderr);
    proof {
        assert(m@ =~= copy_failure_spec(stderr@));
    }
    m
}

} // verus!
