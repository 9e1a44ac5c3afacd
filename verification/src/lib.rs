//! A split-planning and execution engine for cutting a video file into
//! segments with an external media tool.
//!
//! All times are integer milliseconds. The library plans segment boundaries,
//! parses the external tool's output, and builds its command lines; running
//! the tool itself is left to the caller.

pub mod executor;
pub mod models;
pub mod planner;
pub mod probe;
pub mod scenes;
pub mod splitter;
pub mod text;
pub mod utils;

pub use models::VideoError;
