//! Verified core of a batch video-to-timelapse converter.
//!
//! The library holds the orchestration logic: deciding which files are
//! supported, interpreting the metadata probe's report, deriving output
//! paths, building the transcode engine's argument list, translating the
//! engine's textual progress stream into bounded percentages, and rolling
//! per-file outcomes into a batch result.  Process launching, the file
//! dialog and all other I/O live outside the library and feed it plain
//! values.

pub mod batch;
pub mod formats;
pub mod metadata;
pub mod pathres;
pub mod probe;
pub mod progress;
pub mod strnum;
pub mod text;
