//! Data model: probed metadata, split strategies, planned segments,
//! results, and the error type.
//!
//! All durations and timestamps are integer milliseconds; a frame rate is
//! stored in thousandths of a frame per second, and a scene-change
//! threshold or confidence in thousandths of a unit.

use vstd::prelude::*;

verus! {

/// Probed source metadata.
#[derive(Debug, Clone)]
pub struct VideoInfo {
    pub path: String,
    pub filename: String,
    /// Total duration in milliseconds.
    pub duration_ms: u64,
    pub width: u32,
    pub height: u32,
    /// Frame rate in thousandths of a frame per second (0 when unknown).
    pub fps_milli: u64,
    /// Bit rate in bits per second (0 when unknown).
    pub bitrate: u64,
    pub format: String,
    /// File size in bytes (0 when unknown).
    pub size: u64,
}

/// Tagged choice of how to cut the source.
#[derive(Debug, Clone)]
pub enum SplitType {
    Time { duration_ms: u64, count: Option<u32> },
    Scenes { threshold_milli: u32, min_duration_ms: Option<u64> },
    Manual { split_points_ms: Vec<u64> },
}

/// One split request.
#[derive(Debug, Clone)]
pub struct SplitRequest {
    pub video_path: String,
    pub split_type: SplitType,
    pub output_dir: String,
    pub output_format: String,
}

/// A planned cut: one contiguous time range of the source.
#[derive(Debug, Clone, Copy, PartialEq, Eq, Structural)]
pub struct SegmentRange {
    pub start_ms: u64,
    pub end_ms: u64,
}

/// Result of one split job.
#[derive(Debug, Clone)]
pub struct SplitResult {
    pub success: bool,
    pub output_files: Vec<String>,
    pub errors: Vec<String>,
    pub processing_time_ms: u64,
}

/// Progress report for one job.
#[derive(Debug, Clone)]
pub struct ProgressInfo {
    pub current: u32,
    pub total: u32,
    pub message: String,
    /// Completed share in percent, 0 to 100.
    pub percent: u32,
}

/// A detected scene-change event.
#[derive(Debug, Clone, Copy, PartialEq, Eq, Structural)]
pub struct ScenePoint {
    /// Timestamp in milliseconds.
    pub time_ms: u64,
    /// Confidence in thousandths of a unit; the detection channel exposes
    /// no numeric score, so this is always 1000.
    pub confidence_milli: u32,
    /// Not derivable from the detection channel; always 0.
    pub frame_number: u64,
}

/// Request for metadata of one file.
#[derive(Debug, Clone)]
pub struct VideoInfoRequest {
    pub path: String,
}

/// Options for a file-picking dialog.
#[derive(Debug, Clone)]
pub struct FileDialogOptions {
    pub title: String,
    pub filters: Vec<FileDialogFilter>,
}

/// One named extension filter of a file-picking dialog.
#[derive(Debug, Clone)]
pub struct FileDialogFilter {
    pub name: String,
    pub extensions: Vec<String>,
}

/// What the host must offer for the engine to run.
#[derive(Debug, Clone, Copy, PartialEq, Eq, Structural)]
pub struct SystemRequirements {
    pub ffmpeg_available: bool,
    pub recommended_memory: u64,
    pub recommended_disk_space: u64,
}

/// The engine's error taxonomy.
#[derive(Debug, Clone)]
pub enum VideoError {
    /// The external tool failed or produced unusable output; holds its
    /// diagnostic text.
    FFmpegError(String),
    /// The source path does not exist.
    FileNotFound(String),
    /// The source is not a regular file or has an unsupported extension.
    InvalidFormat(String),
    /// A planning step could not proceed.
    ProcessingError(String),
    /// An underlying filesystem failure, as text.
    IoError(String),
}

pub type VideoResult<T> = Result<T, VideoError>;

impl VideoError {
    /// The error's user-facing text: a category label and the detail.
    pub open spec fn spec_message(&self) -> Seq<char> {
        match self {
            VideoError::FFmpegError(m) => "FFmpeg error: "@ + m@,
            VideoError::FileNotFound(m) => "File not found: "@ + m@,
            VideoError::InvalidFormat(m) => "Invalid format: "@ + m@,
            VideoError::ProcessingError(m) => "Processing error: "@ + m@,
            VideoError::IoError(m) => "IO error: "@ + m@,
        }
    }

    /// Renders the error, per `spec_message`.
    pub fn message(&self) -> (r: String)
        ensures
            r@ == self.spec_message(),
    {
        let mut out: String;
        match self {
            VideoError::FFmpegError(m) => {
                out = "FFmpeg error: ".to_owned();
                out.append(m.as_str());
            }
            VideoError::FileNotFound(m) => {
                out = "File not found: ".to_owned();
                out.append(m.as_str());
            }
            VideoError::InvalidFormat(m) => {
                out = "Invalid format: ".to_owned();
                out.append(m.as_str());
            }
            VideoError::ProcessingError(m) => {
                out = "Processing error: ".to_owned();
                out.append(m.as_str());
            }
            VideoError::IoError(m) => {
                out = "IO error: ".to_owned();
                out.append(m.as_str());
            }
        }
        out
    }
}

} // verus!
