//! Estimates the time spent on a project from the creation and modification
//! times of its saved project files.
//!
//! Saves that follow each other within one unit of work are grouped into a
//! session; a minor or major version bump in the file names starts a new one.

pub mod engine;
pub mod ingest;
pub mod project_file;
pub mod report;
pub mod session;
pub mod text;
pub mod time;
pub mod version;

pub use crate::engine::{calculate_time_spent, ceiling, sum_project_durations};
pub use crate::ingest::{
    initialize_project_files, is_project_file, scan_project_files, FileEntry,
};
pub use crate::project_file::ProjectFile;
pub use crate::report::{can_summarize, project_summary, summary_lines};
pub use crate::session::{session_label, split_sessions, Session};
pub use crate::text::format_duration;
pub use crate::time::{Duration, Timestamp};
pub use crate::version::{extract_version, is_session_boundary, Version};
