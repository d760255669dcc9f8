//! Repository status for a shell prompt.
//!
//! The library parses the porcelain-v2 status output of the version-control
//! tool into a [`state::PromptInfo`] record, folds in the presence of
//! in-progress-operation marker files, and renders the record as a plain
//! machine line, a legacy escape-coded line, or a colorized segment written
//! to a `termcolor` buffer.  All process spawning and filesystem probing is
//! left to the embedding binary; the functions here work on plain values.

pub mod colors;
pub mod render;
pub mod state;
pub mod text;
