//! Library behind a git-worktree workspace manager: parsing of the
//! backend's worktree listing, per-worktree status assembly, selection and
//! ordering of worktrees for display and cleanup, and the decision logic of
//! the lifecycle operations (create, remove, batch clean).
//!
//! All backend interaction (running git, prompting, printing) lives outside
//! this crate; the functions here work on plain values and carry contracts.

pub mod clean;
pub mod git;
pub mod lifecycle;
pub mod list;
pub mod shell;
pub mod status;
pub mod text;
pub mod ui;
pub mod worktree;
